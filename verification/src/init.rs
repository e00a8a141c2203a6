//! What the init command writes into a new project.
use vstd::prelude::*;

use crate::text::{replace_all, replace_first, replace_first_str, replace_str, starts_with};

verus! {

/// The module name as written into Megaton.toml: double and single quotes
/// escaped with a backslash, spaces made underscores.
pub open spec fn escaped_name(name: Seq<char>) -> Seq<char> {
    replace_all(replace_all(replace_all(name, "\""@, "\\\""@), "'"@, "\\'"@), " "@, "_"@)
}

/// Escape a module name for Megaton.toml (see [`escaped_name`]).
pub fn escape_module_name(name: &str) -> (r: String)
    ensures
        r@ == escaped_name(name@),
{
    proof {
        reveal_strlit("\"");
        reveal_strlit("'");
        reveal_strlit(" ");
    }
    let a = replace_str(name, "\"", "\\\"");
    let b = replace_str(a.as_str(), "'", "\\'");
    replace_str(b.as_str(), " ", "_")
}

/// The placeholder of the module name in the Megaton.toml template.
pub open spec fn name_placeholder() -> Seq<char> {
    "NAMEPLACEHOLDER"@
}

/// The Megaton.toml of a new project: the template with the escaped module
/// name in place of its first placeholder.
pub fn fill_template(template: &str, escaped: &str) -> (r: String)
    ensures
        r@ == replace_first(template@, name_placeholder(), escaped@),
{
    proof {
        reveal_strlit("NAMEPLACEHOLDER");
    }
    replace_first_str(template, "NAMEPLACEHOLDER", escaped)
}

/// The files of a new project besides Megaton.toml, from the templates of the
/// same names.
pub fn init_files() -> (r: Vec<&'static str>)
    ensures
        r@.len() == 4,
        r@[0]@ == "src/main.cpp"@,
        r@[1]@ == ".clang-format"@,
        r@[2]@ == ".clangd"@,
        r@[3]@ == ".gitignore"@,
{
    let mut r: Vec<&'static str> = Vec::new();
    r.push("src/main.cpp");
    r.push(".clang-format");
    r.push(".clangd");
    r.push(".gitignore");
    r
}

/// A project cannot be made where asked
#[derive(Debug, Clone, Copy, PartialEq, Eq, Structural)]
pub enum InitError {
    /// The path is a file, or a directory that is not empty
    AlreadyExists,
}

/// Whether a project can be made at a path, given whether something exists
/// there, whether it is a file, and whether it is a directory with entries;
/// `Ok(true)` when the directory must be created first.
pub fn check_target(exists: bool, is_file: bool, has_entries: bool) -> (r: Result<bool, InitError>)
    ensures
        !exists ==> r == Ok::<bool, InitError>(true),
        exists && (is_file || has_entries) ==> r == Err::<bool, InitError>(InitError::AlreadyExists),
        exists && !is_file && !has_entries ==> r == Ok::<bool, InitError>(false),
{
    if !exists {
        Ok(true)
    } else if is_file || has_entries {
        Err(InitError::AlreadyExists)
    } else {
        Ok(false)
    }
}


/// Replacing every space with an underscore leaves no space.
proof fn lemma_no_space_left(s: Seq<char>)
    ensures
        !replace_all(s, " "@, "_"@).contains(' '),
    decreases s.len(),
{
    reveal_strlit(" ");
    reveal_strlit("_");
    if s.len() > 0 {
        let r = replace_all(s, " "@, "_"@);
        if starts_with(s, " "@) {
            lemma_no_space_left(s.skip(1));
            let rest = replace_all(s.skip(1), " "@, "_"@);
            assert(r == "_"@ + rest);
            if r.contains(' ') {
                let k = choose|k: int| 0 <= k < r.len() && r[k] == ' ';
                if k > 0 {
                    assert(rest[k - 1] == ' ');
                }
            }
        } else {
            assert(s[0] != ' ') by {
                if s[0] == ' ' {
                    assert(s.take(1) =~= " "@);
                }
            }
            lemma_no_space_left(s.skip(1));
            let rest = replace_all(s.skip(1), " "@, "_"@);
            assert(r == seq![s[0]] + rest);
            if r.contains(' ') {
                let k = choose|k: int| 0 <= k < r.len() && r[k] == ' ';
                if k > 0 {
                    assert(rest[k - 1] == ' ');
                }
            }
        }
    }
}

/// An escaped module name holds no space.
pub proof fn lemma_escaped_name_has_no_space(name: Seq<char>)
    ensures
        !escaped_name(name).contains(' '),
{
    lemma_no_space_left(replace_all(replace_all(name, "\""@, "\\\""@), "'"@, "\\'"@));
}

} // verus!
