//! Environment of the tool: system header paths, tool locations and the paths
//! of a project's build outputs
use vstd::prelude::*;

use crate::flags::{extend_strings, prefix_all, prefixed, strs};
use crate::path::{absolute_path, ensure_path_sep, is_absolute, join_path, joined_path, rebase, rebased, with_sep};
use crate::source::{file_source_type, SourceType};
use crate::text::{contains_str, contains_seq, has_prefix, push_str, replace_first, replace_first_str, starts_with, str_eq, to_chars};

verus! {

/// Include paths for compiler built-in system headers
///
/// Clangd has some issues when working with DKP compilers
/// where it can't find system headers even when the compiler
/// is specified in .clangd. Megaton uses a workaround by
/// injecting -I flags for system headers into compile_commands.json
/// for clangd
#[derive(Debug)]
pub struct SystemHeaderPaths {
    /// C and C++ system header paths
    pub c: Vec<String>,
    /// C++ only system header paths.
    ///
    /// This doesn't include C system headers. The full header paths
    /// should be this followed by the C system headers
    pub cxx: Vec<String>,
}

/// The `-I` flags of the system headers a file of source type `t` sees.
pub open spec fn header_flags(t: Option<SourceType>, c: Seq<Seq<char>>, cxx: Seq<Seq<char>>) -> Seq<Seq<char>> {
    match t {
        Some(SourceType::C) => prefixed("-I"@, c),
        Some(SourceType::Cpp) => prefixed("-I"@, cxx + c),
        _ => seq![],
    }
}

/// `arg` marks where the header flags go: with `includes`, an `-I` flag;
/// without, the `-c` or `-o` flag.
pub open spec fn is_mark(arg: Seq<char>, includes: bool) -> bool {
    if includes {
        starts_with(arg, "-I"@)
    } else {
        starts_with(arg, "-c"@) || starts_with(arg, "-o"@)
    }
}

/// `i` is the first argument of `cmd` that is a mark of the given kind.
pub open spec fn is_first_mark(cmd: Seq<Seq<char>>, i: int, includes: bool) -> bool {
    &&& 0 <= i < cmd.len()
    &&& is_mark(cmd[i], includes)
    &&& forall|j: int| 0 <= j < i ==> !is_mark(#[trigger] cmd[j], includes)
}

/// Where the header flags go in `cmd`: before its first `-I` flag, else before
/// its first `-c` or `-o` flag, else at its end.
pub open spec fn insert_index(cmd: Seq<Seq<char>>) -> int {
    if exists|i: int| is_first_mark(cmd, i, true) {
        choose|i: int| is_first_mark(cmd, i, true)
    } else if exists|i: int| is_first_mark(cmd, i, false) {
        choose|i: int| is_first_mark(cmd, i, false)
    } else {
        cmd.len() as int
    }
}

/// `cmd` with `adds` inserted at its [`insert_index`].
pub open spec fn inserted_includes(cmd: Seq<Seq<char>>, adds: Seq<Seq<char>>) -> Seq<Seq<char>> {
    let i = insert_index(cmd);
    cmd.take(i) + adds + cmd.skip(i)
}

/// The text of the header flags of a file, each flag preceded by a space.
pub open spec fn spaced_flags(flags: Seq<Seq<char>>) -> Seq<char>
    decreases flags.len(),
{
    if flags.len() == 0 {
        seq![]
    } else {
        spaced_flags(flags.drop_last()) + " "@ + flags.last()
    }
}

/// The text of the header flags of a file, each flag followed by a space.
pub open spec fn trailed_flags(flags: Seq<Seq<char>>) -> Seq<char>
    decreases flags.len(),
{
    if flags.len() == 0 {
        seq![]
    } else {
        trailed_flags(flags.drop_last()) + flags.last() + " "@
    }
}

/// A command string with the header flags of a file added once: before its
/// first ` -I`, else before its first ` -c`, else before its first ` -o`, else
/// at its end.
pub open spec fn command_with_headers(cmd: Seq<char>, flags: Seq<Seq<char>>) -> Seq<char> {
    let rep = spaced_flags(flags);
    if contains_seq(cmd, " -I"@) {
        replace_first(cmd, " -I"@, rep + " -I"@)
    } else if contains_seq(cmd, " -c"@) {
        replace_first(cmd, " -c"@, rep + " -c"@)
    } else if contains_seq(cmd, " -o"@) {
        replace_first(cmd, " -o"@, rep + " -o"@)
    } else {
        cmd + rep
    }
}

impl SystemHeaderPaths {
    /// The `-I` flags of the system headers seen by `file`
    pub fn flags_for(&self, file: &str) -> (r: Vec<String>)
        ensures
            strs(r) == header_flags(file_source_type(file@), strs(self.c), strs(self.cxx)),
    {
        match SourceType::from_file(file) {
            Some(SourceType::C) => prefix_all("-I", &self.c),
            Some(SourceType::Cpp) => {
                let mut all = Vec::new();
                extend_strings(&mut all, &self.cxx);
                extend_strings(&mut all, &self.c);
                assert(strs(all) =~= strs(self.cxx) + strs(self.c));
                prefix_all("-I", &all)
            },
            _ => {
                let r = Vec::new();
                assert(strs(r) =~= seq![]);
                r
            },
        }
    }

    /// Add the includes before the first -I flag in the command (else before
    /// the first -c or -o flag, else at the end)
    pub fn add_to_command_vec(&self, file: &str, cmd: &mut Vec<String>)
        ensures
            strs(*final(cmd)) == inserted_includes(
                strs(*old(cmd)),
                header_flags(file_source_type(file@), strs(self.c), strs(self.cxx)),
            ),
    {
        let adds = self.flags_for(file);
        let n = adds.len();
        Self::do_add_to_vec(cmd, n, &adds);
    }

    /// Position of the first argument of `cmd` that is a mark of the given kind
    fn first_mark(cmd: &Vec<String>, includes: bool) -> (r: Option<usize>)
        ensures
            match r {
                Some(i) => is_first_mark(strs(*cmd), i as int, includes),
                None => !exists|k: int| is_first_mark(strs(*cmd), k, includes),
            },
    {
        let ghost c = strs(*cmd);
        let mut i: usize = 0;
        while i < cmd.len()
            invariant
                i <= cmd.len(),
                c == strs(*cmd),
                forall|j: int| 0 <= j < i ==> !is_mark(#[trigger] c[j], includes),
            decreases cmd.len() - i,
        {
            let a = cmd[i].as_str();
            let found = if includes {
                has_prefix(a, "-I")
            } else {
                has_prefix(a, "-c") || has_prefix(a, "-o")
            };
            if found {
                assert(is_mark(c[i as int], includes));
                return Some(i);
            }
            i += 1;
        }
        assert forall|k: int| !is_first_mark(c, k, includes) by {
            if 0 <= k < c.len() {
                assert(!is_mark(c[k], includes));
            }
        }
        None
    }

    /// Insert `adds` before the first argument of `cmd` that starts with `-I`,
    /// else before the first that starts with `-c` or `-o`, else at the end.
    /// `add_len` is a capacity hint.
    pub fn do_add_to_vec(cmd: &mut Vec<String>, add_len: usize, adds: &Vec<String>)
        ensures
            strs(*final(cmd)) == inserted_includes(strs(*old(cmd)), strs(*adds)),
    {
        let ghost c = strs(*cmd);
        let cut = match Self::first_mark(cmd, true) {
            Some(i) => i,
            None => match Self::first_mark(cmd, false) {
                Some(i) => i,
                None => cmd.len(),
            },
        };
        proof {
            lemma_first_mark_unique(c, true);
            lemma_first_mark_unique(c, false);
        }
        assert(cut == insert_index(c));
        let mut out: Vec<String> = Vec::new();
        let mut i: usize = 0;
        while i < cut
            invariant
                i <= cut <= cmd.len(),
                out@ == cmd@.take(i as int),
            decreases cut - i,
        {
            out.push(cmd[i].clone());
            assert(out@ =~= cmd@.take(i + 1));
            i += 1;
        }
        let ghost head = out@;
        extend_strings(&mut out, adds);
        while i < cmd.len()
            invariant
                cut <= i <= cmd.len(),
                out@ == head + adds@ + cmd@.subrange(cut as int, i as int),
            decreases cmd.len() - i,
        {
            out.push(cmd[i].clone());
            assert(out@ =~= head + adds@ + cmd@.subrange(cut as int, i + 1));
            i += 1;
        }
        assert(strs(out) =~= c.take(cut as int) + strs(*adds) + c.skip(cut as int));
        assert(c.take(c.len() as int) =~= c);
        assert(c.skip(c.len() as int) =~= Seq::<Seq<char>>::empty());
        *cmd = out;
    }

    /// Add the includes before the first -I flag in the command string (else
    /// before the first -c, else the first -o, else at the end), once
    pub fn add_to_command_str(&self, file: &str, cmd: &mut String)
        ensures
            final(cmd)@ == command_with_headers(
                old(cmd)@,
                header_flags(file_source_type(file@), strs(self.c), strs(self.cxx)),
            ),
    {
        let flags = self.flags_for(file);
        let mut replacement = String::new();
        let mut i: usize = 0;
        while i < flags.len()
            invariant
                i <= flags.len(),
                replacement@ == spaced_flags(strs(flags).take(i as int)),
            decreases flags.len() - i,
        {
            push_str(&mut replacement, " ");
            push_str(&mut replacement, flags[i].as_str());
            assert(strs(flags).take(i + 1).drop_last() == strs(flags).take(i as int));
            i += 1;
        }
        assert(strs(flags).take(flags.len() as int) == strs(flags));
        proof {
            reveal_strlit(" -I");
            reveal_strlit(" -c");
            reveal_strlit(" -o");
        }
        if contains_str(cmd.as_str(), " -I") {
            push_str(&mut replacement, " -I");
            *cmd = replace_first_str(cmd.as_str(), " -I", replacement.as_str());
        } else if contains_str(cmd.as_str(), " -c") {
            push_str(&mut replacement, " -c");
            *cmd = replace_first_str(cmd.as_str(), " -c", replacement.as_str());
        } else if contains_str(cmd.as_str(), " -o") {
            push_str(&mut replacement, " -o");
            *cmd = replace_first_str(cmd.as_str(), " -o", replacement.as_str());
        } else {
            push_str(cmd, replacement.as_str());
        }
    }

    /// The includes of `file`, as they are written into compile_commands.json:
    /// each `-I<path>` followed by a space, after a space when `space_in_front`
    pub fn write(&self, file: &str, space_in_front: bool) -> (r: String)
        ensures
            r@ == (if space_in_front { " "@ } else { seq![] }) + trailed_flags(
                header_flags(file_source_type(file@), strs(self.c), strs(self.cxx)),
            ),
    {
        let flags = self.flags_for(file);
        let mut out = String::new();
        if space_in_front {
            push_str(&mut out, " ");
        }
        let ghost start = out@;
        let mut i: usize = 0;
        while i < flags.len()
            invariant
                i <= flags.len(),
                out@ == start + trailed_flags(strs(flags).take(i as int)),
            decreases flags.len() - i,
        {
            push_str(&mut out, flags[i].as_str());
            push_str(&mut out, " ");
            assert(strs(flags).take(i + 1).drop_last() == strs(flags).take(i as int));
            i += 1;
        }
        assert(strs(flags).take(flags.len() as int) == strs(flags));
        out
    }
}

// ---------------------------------------------------------------------------
// locating the system headers
// ---------------------------------------------------------------------------

/// `$DEVKITPRO/devkitA64`
pub open spec fn devkita64_of(devkitpro: Seq<char>) -> Seq<char> {
    joined_path(devkitpro, "devkitA64"@)
}

/// The directory whose only entry is the versioned C++ header directory.
pub open spec fn cxx_header_root(devkitpro: Seq<char>) -> Seq<char> {
    joined_path(joined_path(joined_path(devkita64_of(devkitpro), "aarch64-none-elf"@), "include"@), "c++"@)
}

/// The directory whose only entry is the versioned GCC directory.
pub open spec fn c_header_root(devkitpro: Seq<char>) -> Seq<char> {
    joined_path(joined_path(joined_path(devkita64_of(devkitpro), "lib"@), "gcc"@), "aarch64-none-elf"@)
}

/// The C++ header paths found under the versioned C++ directory `dir`.
pub open spec fn cxx_header_list(dir: Option<Seq<char>>) -> Seq<Seq<char>> {
    match dir {
        None => seq![],
        Some(d) => seq![d, with_sep(d) + "aarch64-none-elf"@, with_sep(d) + "backward"@],
    }
}

/// The C header paths found under the versioned GCC directory `dir`.
pub open spec fn c_header_list(devkitpro: Seq<char>, dir: Option<Seq<char>>) -> Seq<Seq<char>> {
    match dir {
        None => seq![],
        Some(d) => seq![
            with_sep(d) + "include"@,
            with_sep(d) + "include-fixed"@,
            joined_path(joined_path(devkita64_of(devkitpro), "aarch64-none-elf"@), "include"@),
        ],
    }
}

/// An optional string, as characters.
pub open spec fn opt_chars(s: Option<String>) -> Option<Seq<char>> {
    match s {
        Some(s) => Some(s@),
        None => None,
    }
}

/// The rest of `s` up to its first space (all of it when it has none).
pub open spec fn first_word(s: Seq<char>) -> Seq<char> {
    match crate::text::first_of(s, ' ') {
        Some(i) => s.take(i),
        None => s,
    }
}

/// The version GCC reports in its verbose output: the first word after
/// `gcc version ` on the first line that starts with it.
pub open spec fn gcc_version_in(lines: Seq<Seq<char>>) -> Option<Seq<char>>
    decreases lines.len(),
{
    if lines.len() == 0 {
        None
    } else if starts_with(lines[0], "gcc version "@) {
        Some(first_word(lines[0].skip(12)))
    } else {
        gcc_version_in(lines.skip(1))
    }
}

/// All header paths: C first, then C++ only.
pub open spec fn all_header_paths(c: Seq<Seq<char>>, cxx: Seq<Seq<char>>) -> Seq<Seq<char>> {
    c + cxx
}

/// The header paths are usable: both lists are non-empty and every path is
/// non-empty and exists (`exists[i]` tells whether path `i` of `c + cxx` exists).
pub open spec fn headers_ok(c: Seq<Seq<char>>, cxx: Seq<Seq<char>>, exists: Seq<bool>) -> bool {
    &&& c.len() > 0
    &&& cxx.len() > 0
    &&& forall|i: int| 0 <= i < c.len() + cxx.len() ==> (#[trigger] all_header_paths(c, cxx)[i]).len() > 0 && exists[i]
}

impl SystemHeaderPaths {
    /// The directory that holds the versioned C++ header directory
    pub fn cxx_root(devkitpro: &str) -> (r: String)
        ensures
            r@ == cxx_header_root(devkitpro@),
    {
        let a = join_path(devkitpro, "devkitA64");
        let b = join_path(a.as_str(), "aarch64-none-elf");
        let c = join_path(b.as_str(), "include");
        join_path(c.as_str(), "c++")
    }

    /// The directory that holds the versioned GCC directory
    pub fn c_root(devkitpro: &str) -> (r: String)
        ensures
            r@ == c_header_root(devkitpro@),
    {
        let a = join_path(devkitpro, "devkitA64");
        let b = join_path(a.as_str(), "lib");
        let c = join_path(b.as_str(), "gcc");
        join_path(c.as_str(), "aarch64-none-elf")
    }

    /// Load system header paths from a DevKitPro installation, given the versioned
    /// C++ and GCC directories found under [`cxx_root`](Self::cxx_root) and
    /// [`c_root`](Self::c_root) (`None` when not found)
    pub fn load(devkitpro: &str, cxx_dir: &Option<String>, c_dir: &Option<String>) -> (r: Self)
        ensures
            strs(r.cxx) == cxx_header_list(opt_chars(*cxx_dir)),
            strs(r.c) == c_header_list(devkitpro@, opt_chars(*c_dir)),
    {
        let mut cxx: Vec<String> = Vec::new();
        match cxx_dir {
            Some(d) => {
                let mut utf8 = d.clone();
                cxx.push(utf8.clone());
                ensure_path_sep(&mut utf8);
                let mut arch = utf8.clone();
                push_str(&mut arch, "aarch64-none-elf");
                cxx.push(arch);
                push_str(&mut utf8, "backward");
                cxx.push(utf8);
            },
            None => {},
        }
        let mut c: Vec<String> = Vec::new();
        match c_dir {
            Some(d) => {
                let mut utf8 = d.clone();
                ensure_path_sep(&mut utf8);
                push_str(&mut utf8, "include");
                c.push(utf8.clone());
                push_str(&mut utf8, "-fixed");
                c.push(utf8);
                let a = join_path(devkitpro, "devkitA64");
                let b = join_path(a.as_str(), "aarch64-none-elf");
                c.push(join_path(b.as_str(), "include"));
            },
            None => {},
        }
        proof {
            reveal_strlit("include");
            reveal_strlit("-fixed");
            reveal_strlit("include-fixed");
            assert("include"@ + "-fixed"@ =~= "include-fixed"@);
            if c_dir is Some {
                let d = c_dir->0@;
                assert(with_sep(d) + "include"@ + "-fixed"@ =~= with_sep(d) + "include-fixed"@);
            }
        }
        assert(strs(cxx) =~= cxx_header_list(opt_chars(*cxx_dir)));
        assert(strs(c) =~= c_header_list(devkitpro@, opt_chars(*c_dir)));
        SystemHeaderPaths { c, cxx }
    }

    /// The directory of the GCC version under `path`, from what listing `path`
    /// gave: its first entry (`None` when it could not be listed or is empty,
    /// `Some(None)` when reading the entry failed) and whether it has a second
    /// one. A single entry is the version; with several, the version the
    /// compiler reports (asked only then) is joined to `path`.
    pub fn join_gcc_version(
        path: &str,
        first: &Option<Option<String>>,
        has_second: bool,
        compiler_version: &Option<String>,
    ) -> (r: Option<String>)
        ensures
            match (first, has_second) {
                (Some(Some(d)), false) => r is Some && r->0@ == d@,
                (Some(_), true) => match compiler_version {
                    Some(v) => r is Some && r->0@ == joined_path(path@, v@),
                    None => r is None,
                },
                _ => r is None,
            },
    {
        match first {
            Some(entry) => {
                if has_second {
                    match compiler_version {
                        Some(v) => Some(join_path(path, v.as_str())),
                        None => None,
                    }
                } else {
                    match entry {
                        Some(d) => Some(d.clone()),
                        None => None,
                    }
                }
            },
            None => None,
        }
    }

    /// Find the GCC version in the verbose output (`-v`) of the compiler
    pub fn parse_gcc_version(lines: &Vec<String>) -> (r: Option<String>)
        ensures
            opt_chars(r) == gcc_version_in(strs(*lines)),
    {
        let ghost all = strs(*lines);
        let mut i: usize = 0;
        assert(all.skip(0) =~= all);
        while i < lines.len()
            invariant
                i <= lines.len(),
                all == strs(*lines),
                gcc_version_in(all) == gcc_version_in(all.skip(i as int)),
            decreases lines.len() - i,
        {
            let ghost rest = all.skip(i as int);
            assert(rest[0] == lines@[i as int]@);
            let line = lines[i].as_str();
            if has_prefix(line, "gcc version ") {
                proof {
                    reveal_strlit("gcc version ");
                }
                let v = to_chars(line);
                let after = crate::text::sub_chars(&v, 12, v.len());
                let word = match crate::text::find_char_from(&after, ' ', 0) {
                    Some(k) => crate::text::sub_string(&after, 0, k),
                    None => crate::text::from_chars(after.as_slice()),
                };
                assert(after@.skip(0) =~= after@);
                assert(after@ =~= line@.skip(12));
                return Some(word);
            }
            assert(rest.skip(1) =~= all.skip(i + 1));
            i += 1;
        }
        None
    }

    /// The header paths in the order they are checked: C first, then C++ only
    pub fn all_paths(&self) -> (r: Vec<String>)
        ensures
            strs(r) == all_header_paths(strs(self.c), strs(self.cxx)),
    {
        let mut r = Vec::new();
        extend_strings(&mut r, &self.c);
        extend_strings(&mut r, &self.cxx);
        assert(strs(r) =~= all_header_paths(strs(self.c), strs(self.cxx)));
        r
    }

    /// Check if system header paths are good, given whether each path of
    /// [`all_paths`](Self::all_paths) exists
    pub fn check(&self, exists: &Vec<bool>) -> (r: bool)
        requires
            exists@.len() == self.c@.len() + self.cxx@.len(),
        ensures
            r == headers_ok(strs(self.c), strs(self.cxx), exists@),
    {
        if self.c.len() == 0 || self.cxx.len() == 0 {
            return false;
        }
        let all = self.all_paths();
        assert(all@.len() == strs(all).len());
        assert(strs(all).len() == strs(self.c).len() + strs(self.cxx).len());
        let mut i: usize = 0;
        while i < all.len()
            invariant
                i <= all.len(),
                strs(all) == all_header_paths(strs(self.c), strs(self.cxx)),
                exists@.len() == all@.len(),
                all@.len() == strs(self.c).len() + strs(self.cxx).len(),
                forall|j: int| 0 <= j < i ==> (#[trigger] all_header_paths(strs(self.c), strs(self.cxx))[j]).len() > 0 && exists@[j],
            decreases all.len() - i,
        {
            assert(strs(all)[i as int] == all@[i as int]@);
            if all[i].as_str().unicode_len() == 0 || !exists[i] {
                assert(!((all_header_paths(strs(self.c), strs(self.cxx))[i as int]).len() > 0 && exists@[i as int]));
                assert(0 <= i < strs(self.c).len() + strs(self.cxx).len());
                assert(!headers_ok(strs(self.c), strs(self.cxx), exists@));
                return false;
            }
            i += 1;
        }
        true
    }
}

// ---------------------------------------------------------------------------
// checking the environment
// ---------------------------------------------------------------------------

/// How a line of the environment report is shown
#[derive(Debug, Clone, Copy, PartialEq, Eq, Structural)]
pub enum Tone {
    /// Info color
    Info,
    /// Error color
    Error,
    /// Hint color
    Hint,
}

/// A status line of the environment report
#[derive(Debug)]
pub struct Diagnostic {
    pub tone: Tone,
    pub status: String,
    pub message: String,
}

/// A report line, as plain values.
pub type Line = (Tone, Seq<char>, Seq<char>);

/// The lines of a report, as plain values.
pub open spec fn lines_of(v: Vec<Diagnostic>) -> Seq<Line> {
    v@.map_values(|d: Diagnostic| (d.tone, d.status@, d.message@))
}

pub(crate) fn say(out: &mut Vec<Diagnostic>, tone: Tone, status: &str, message: &str)
    ensures
        lines_of(*final(out)) == lines_of(*old(out)).push((tone, status@, message@)),
{
    out.push(Diagnostic { tone, status: status.to_owned(), message: message.to_owned() });
    assert(lines_of(*out) =~= lines_of(*old(out)).push((tone, status@, message@)));
}

/// The path DEVKITPRO is taken to be, and whether it is acceptable: it must be
/// set, canonicalize, and be equal to its canonical form.
pub open spec fn devkitpro_choice(var: Seq<char>, canonical: Option<Seq<char>>) -> (bool, Seq<char>) {
    if var.len() == 0 {
        (false, seq![])
    } else {
        match canonical {
            Some(p) => (p == var, p),
            None => (false, seq![]),
        }
    }
}

/// The report lines about DEVKITPRO.
pub open spec fn devkitpro_lines(var: Seq<char>, canonical: Option<Seq<char>>) -> Seq<Line> {
    if var.len() == 0 {
        seq![
            (Tone::Error, "Missing"@, "DEVKITPRO"@),
            (Tone::Hint, "Fix"@, "Please install DevKitPro"@),
            (Tone::Hint, "Fix"@, "  https://devkitpro.org/wiki/devkitPro_pacman#customising-existing-pacman-install"@),
        ]
    } else {
        match canonical {
            Some(p) => if p == var {
                seq![(Tone::Info, "OK"@, "Found DEVKITPRO"@)]
            } else {
                seq![
                    (Tone::Error, "Invalid"@, "DEVKITPRO is not absolute"@),
                    (Tone::Hint, "Fix"@, "Please set DEVKITPRO to the absolute path of your DevKitPro installation"@),
                ]
            },
            None => seq![
                (Tone::Error, "Missing"@, "DEVKITPRO"@),
                (Tone::Hint, "Fix"@, "Set DEVKITPRO to the path of your DevKitPro installation"@),
            ],
        }
    }
}

/// The report line about a tool looked up in PATH, with the hint shown when it is missing.
pub open spec fn tool_lines(found: bool, tool: Seq<char>, hint: Option<Seq<char>>) -> Seq<Line> {
    if found {
        seq![(Tone::Info, "OK"@, "Found "@ + tool)]
    } else {
        match hint {
            Some(h) => seq![(Tone::Error, "Missing"@, tool), (Tone::Hint, "Fix"@, h)],
            None => seq![(Tone::Error, "Missing"@, tool)],
        }
    }
}

/// The report lines about the system header paths.
pub open spec fn header_lines(ok: bool) -> Seq<Line> {
    if ok {
        seq![(Tone::Info, "OK"@, "Found system header paths"@)]
    } else {
        seq![(Tone::Error, "Missing"@, "System header paths"@), (Tone::Hint, "Fix"@, "Please (re-)install DevKitPro"@)]
    }
}

/// Result of looking up a tool in PATH (`None` when not found)
#[derive(Debug)]
pub struct ToolProbe {
    pub rustup: Option<String>,
    pub rustc: Option<String>,
    pub cargo: Option<String>,
    pub git: Option<String>,
    pub ninja: Option<String>,
    pub cmake: Option<String>,
}

/// The report lines about the tools found in PATH.
pub open spec fn tools_lines(p: ToolProbe) -> Seq<Line> {
    tool_lines(p.rustup is Some, "rustup"@, None) + tool_lines(p.rustc is Some, "rustc"@, None)
        + tool_lines(p.cargo is Some, "cargo"@, None) + (if p.rustup is Some && p.rustc is Some && p.cargo is Some {
        seq![]
    } else {
        seq![(Tone::Hint, "Fix"@, "Please install Rust toolchain"@), (Tone::Hint, "Fix"@, "  https://rustup.rs/"@)]
    }) + tool_lines(p.git is Some, "git"@, Some("Please install git"@)) + tool_lines(
        p.ninja is Some,
        "ninja"@,
        Some("Please install ninja-build"@),
    ) + tool_lines(p.cmake is Some, "cmake"@, Some("Please install cmake"@))
}

/// All tools were found in PATH.
pub open spec fn tools_ok(p: ToolProbe) -> bool {
    p.rustup is Some && p.rustc is Some && p.cargo is Some && p.git is Some && p.ninja is Some && p.cmake is Some
}

fn copy_or_empty(s: &Option<String>) -> (r: String)
    ensures
        r@ == (match s {
            Some(x) => x@,
            None => Seq::<char>::empty(),
        }),
{
    match s {
        Some(x) => x.clone(),
        None => String::new(),
    }
}

fn report_tool(out: &mut Vec<Diagnostic>, found: bool, tool: &str, hint: Option<&str>)
    ensures
        lines_of(*final(out)) == lines_of(*old(out)) + tool_lines(
            found,
            tool@,
            match hint {
                Some(h) => Some(h@),
                None => None,
            },
        ),
{
    let ghost before = lines_of(*out);
    if found {
        let mut m = "Found ".to_owned();
        push_str(&mut m, tool);
        say(out, Tone::Info, "OK", m.as_str());
    } else {
        say(out, Tone::Error, "Missing", tool);
        match hint {
            Some(h) => say(out, Tone::Hint, "Fix", h),
            None => {},
        }
    }
    assert(lines_of(*out) =~= before + tool_lines(
        found,
        tool@,
        match hint {
            Some(h) => Some(h@),
            None => None,
        },
    ));
}

/// Environment of the tool
#[derive(Debug)]
pub struct Env {
    /// Path to root of the megaton repo (MEGATON_HOME)
    pub megaton_home: String,
    /// Path to DevKitPro (DEVKITPRO)
    pub devkitpro: String,
    /// Path to system header paths
    pub system_headers: SystemHeaderPaths,
    /// Path to rustup
    pub rustup: String,
    /// Path to rustc
    pub rustc: String,
    /// Path to cargo
    pub cargo: String,
    /// Path to git
    pub git: String,
    /// Path to ninja
    pub ninja: String,
    /// Path to cmake
    pub cmake: String,
}

/// The cache file of the environment under the megaton repo `home`.
pub open spec fn env_cache_path(home: Seq<char>) -> Seq<char> {
    joined_path(joined_path(home, "bin"@), "env_cache.yml"@)
}

/// The cache file of the environment under the megaton repo `home`
pub fn cache_path_from(home: &str) -> (r: String)
    ensures
        r@ == env_cache_path(home@),
{
    let bin = join_path(home, "bin");
    join_path(bin.as_str(), "env_cache.yml")
}

/// The environment cannot be used
#[derive(Debug, Clone, Copy, PartialEq, Eq, Structural)]
pub enum EnvError {
    /// The environment check failed
    InitEnv,
}

/// Everything the environment check looks at, gathered from the system
#[derive(Debug)]
pub struct EnvProbe {
    /// Root of the megaton repo
    pub home: String,
    /// Value of the DEVKITPRO variable (empty when unset)
    pub devkitpro_var: String,
    /// DEVKITPRO canonicalized (`None` when that failed)
    pub devkitpro_canonical: Option<String>,
    /// Tools looked up in PATH
    pub tools: ToolProbe,
    /// The system header paths loaded from the chosen DEVKITPRO path
    pub system_headers: SystemHeaderPaths,
    /// Whether each path of `system_headers.all_paths()` exists
    pub header_paths_exist: Vec<bool>,
}

/// The checks of the environment that need no DevKitPro root check passed:
/// DEVKITPRO, the tools in PATH and the system header paths.
pub open spec fn probe_ok(probe: EnvProbe) -> bool {
    &&& devkitpro_choice(probe.devkitpro_var@, opt_chars(probe.devkitpro_canonical)).0
    &&& tools_ok(probe.tools)
    &&& headers_ok(strs(probe.system_headers.c), strs(probe.system_headers.cxx), probe.header_paths_exist@)
}

/// The environment a passed check gives: the repository root, the chosen
/// DEVKITPRO path, the system header paths and the tools found.
pub open spec fn probe_env(probe: EnvProbe, env: Env) -> bool {
    &&& env.megaton_home@ == probe.home@
    &&& env.devkitpro@ == devkitpro_choice(probe.devkitpro_var@, opt_chars(probe.devkitpro_canonical)).1
    &&& strs(env.system_headers.c) == strs(probe.system_headers.c)
    &&& strs(env.system_headers.cxx) == strs(probe.system_headers.cxx)
    &&& Some(env.rustup@) == opt_chars(probe.tools.rustup)
    &&& Some(env.rustc@) == opt_chars(probe.tools.rustc)
    &&& Some(env.cargo@) == opt_chars(probe.tools.cargo)
    &&& Some(env.git@) == opt_chars(probe.tools.git)
    &&& Some(env.ninja@) == opt_chars(probe.tools.ninja)
    &&& Some(env.cmake@) == opt_chars(probe.tools.cmake)
}

/// The report lines of the checks before the DevKitPro root check.
pub open spec fn probe_lines(probe: EnvProbe) -> Seq<Line> {
    seq![(Tone::Info, "Root"@, probe.home@)] + devkitpro_lines(probe.devkitpro_var@, opt_chars(probe.devkitpro_canonical))
        + tools_lines(probe.tools) + header_lines(
        headers_ok(strs(probe.system_headers.c), strs(probe.system_headers.cxx), probe.header_paths_exist@),
    )
}

/// What the DevKitPro root check found, as plain values (`None`: not run).
pub open spec fn root_view(root: Option<(bool, Vec<bool>)>) -> Option<(bool, Seq<bool>)> {
    match root {
        Some((libnx, found)) => Some((libnx, found@)),
        None => None,
    }
}

/// The DevKitPro root check passed, or was not run.
pub open spec fn root_ok(root: Option<(bool, Seq<bool>)>) -> bool {
    match root {
        Some((libnx, found)) => libnx && forall|i: int| 0 <= i < 7 ==> #[trigger] found[i],
        None => true,
    }
}

/// The report lines of the DevKitPro root check, when it was run.
pub open spec fn root_report(root: Option<(bool, Seq<bool>)>) -> Seq<Line> {
    match root {
        Some((libnx, found)) => root_lines(libnx, found),
        None => seq![],
    }
}

impl Env {
    /// The DEVKITPRO path the check settles on (empty when it is unusable):
    /// where the system headers are then looked for
    pub fn devkitpro_path(var: &str, canonical: &Option<String>) -> (r: String)
        ensures
            r@ == devkitpro_choice(var@, opt_chars(*canonical)).1,
    {
        if var.unicode_len() == 0 {
            return String::new();
        }
        copy_or_empty(canonical)
    }

    fn report_devkitpro(out: &mut Vec<Diagnostic>, var: &str, canonical: &Option<String>) -> (ok: bool)
        ensures
            ok == devkitpro_choice(var@, opt_chars(*canonical)).0,
            lines_of(*final(out)) == lines_of(*old(out)) + devkitpro_lines(var@, opt_chars(*canonical)),
    {
        let ghost start = lines_of(*out);
        let mut ok = true;
        if var.unicode_len() == 0 {
            ok = false;
            say(out, Tone::Error, "Missing", "DEVKITPRO");
            say(out, Tone::Hint, "Fix", "Please install DevKitPro");
            say(out, Tone::Hint, "Fix", "  https://devkitpro.org/wiki/devkitPro_pacman#customising-existing-pacman-install");
        } else {
            match canonical {
                Some(p) => {
                    if !str_eq(p.as_str(), var) {
                        ok = false;
                        say(out, Tone::Error, "Invalid", "DEVKITPRO is not absolute");
                        say(out, Tone::Hint, "Fix", "Please set DEVKITPRO to the absolute path of your DevKitPro installation");
                    } else {
                        say(out, Tone::Info, "OK", "Found DEVKITPRO");
                    }
                },
                None => {
                    ok = false;
                    say(out, Tone::Error, "Missing", "DEVKITPRO");
                    say(out, Tone::Hint, "Fix", "Set DEVKITPRO to the path of your DevKitPro installation");
                },
            }
        }
        assert(lines_of(*out) =~= start + devkitpro_lines(var@, opt_chars(*canonical)));
        ok
    }

    #[verifier::spinoff_prover]
    #[verifier::rlimit(30)]
    fn report_tools(out: &mut Vec<Diagnostic>, t: &ToolProbe)
        ensures
            lines_of(*final(out)) == lines_of(*old(out)) + tools_lines(*t),
    {
        let ghost start = lines_of(*out);
        report_tool(out, t.rustup.is_some(), "rustup", None);
        report_tool(out, t.rustc.is_some(), "rustc", None);
        report_tool(out, t.cargo.is_some(), "cargo", None);
        if t.rustup.is_none() || t.rustc.is_none() || t.cargo.is_none() {
            say(out, Tone::Hint, "Fix", "Please install Rust toolchain");
            say(out, Tone::Hint, "Fix", "  https://rustup.rs/");
        }
        report_tool(out, t.git.is_some(), "git", Some("Please install git"));
        report_tool(out, t.ninja.is_some(), "ninja", Some("Please install ninja-build"));
        report_tool(out, t.cmake.is_some(), "cmake", Some("Please install cmake"));
        assert(lines_of(*out) =~= start + tools_lines(*t));
    }

    /// Check the environment from what was gathered from the system; with
    /// `root`, the DevKitPro root check too (whether libnx/include exists, and
    /// whether each tool of [`dkp_probe_paths`] is found in PATH at that very
    /// path).
    ///
    /// Returns the environment when the check passes, and the report lines
    pub fn check_probe(probe: &EnvProbe, root: &Option<(bool, Vec<bool>)>) -> (r: (Option<Env>, Vec<Diagnostic>))
        requires
            probe.header_paths_exist@.len() == probe.system_headers.c@.len() + probe.system_headers.cxx@.len(),
            root matches Some((_, f)) ==> f@.len() == 7,
        ensures
            r.0 is Some <==> probe_ok(*probe) && root_ok(root_view(*root)),
            r.0 matches Some(env) ==> probe_env(*probe, env),
            lines_of(r.1) == probe_lines(*probe) + root_report(root_view(*root)),
    {
        let mut out: Vec<Diagnostic> = Vec::new();
        say(&mut out, Tone::Info, "Root", probe.home.as_str());
        let ok = Self::report_devkitpro(&mut out, probe.devkitpro_var.as_str(), &probe.devkitpro_canonical);
        let devkitpro = Self::devkitpro_path(probe.devkitpro_var.as_str(), &probe.devkitpro_canonical);
        let t = &probe.tools;
        Self::report_tools(&mut out, t);
        let ghost after_tools = lines_of(out);
        // system headers
        let headers = &probe.system_headers;
        let h_ok = headers.check(&probe.header_paths_exist);
        if h_ok {
            say(&mut out, Tone::Info, "OK", "Found system header paths");
        } else {
            say(&mut out, Tone::Error, "Missing", "System header paths");
            say(&mut out, Tone::Hint, "Fix", "Please (re-)install DevKitPro");
        }
        assert(lines_of(out) =~= after_tools + header_lines(h_ok));
        let ghost before_root = lines_of(out);
        let root_passed = match root {
            Some((libnx, found)) => {
                let (passed, lines) = check_root(*libnx, found);
                let mut more = lines;
                out.append(&mut more);
                assert(lines_of(out) =~= before_root + root_lines(*libnx, found@));
                passed
            },
            None => {
                assert(lines_of(out) =~= before_root);
                true
            },
        };
        assert(lines_of(out) =~= probe_lines(*probe) + root_report(root_view(*root)));
        let all_ok = ok && t.rustup.is_some() && t.rustc.is_some() && t.cargo.is_some() && t.git.is_some()
            && t.ninja.is_some() && t.cmake.is_some() && h_ok && root_passed;
        if !all_ok {
            return (None, out);
        }
        let env = Env {
            megaton_home: probe.home.clone(),
            devkitpro,
            system_headers: SystemHeaderPaths {
                c: crate::flags::copy_strings(&headers.c),
                cxx: crate::flags::copy_strings(&headers.cxx),
            },
            rustup: copy_or_empty(&t.rustup),
            rustc: copy_or_empty(&t.rustc),
            cargo: copy_or_empty(&t.cargo),
            git: copy_or_empty(&t.git),
            ninja: copy_or_empty(&t.ninja),
            cmake: copy_or_empty(&t.cmake),
        };
        (Some(env), out)
    }

    /// The environment read from the cache of the repository at `home`: the
    /// cache does not record where the repository is, so it is set to `home`.
    pub fn from_cache(cached: Env, home: &str) -> (r: Env)
        ensures
            r.megaton_home@ == home@,
            r.devkitpro == cached.devkitpro,
            r.system_headers == cached.system_headers,
            r.rustup == cached.rustup,
            r.rustc == cached.rustc,
            r.cargo == cached.cargo,
            r.git == cached.git,
            r.ninja == cached.ninja,
            r.cmake == cached.cmake,
    {
        let mut env = cached;
        env.megaton_home = home.to_owned();
        env
    }

    /// Check the environment and tools: the check of [`check_probe`](Self::check_probe)
    /// with the DevKitPro root check.
    ///
    /// Returns the environment when the check passes, and the report lines
    pub fn check(probe: &EnvProbe, libnx_include_exists: bool, tools_found: Vec<bool>) -> (r: (Option<Env>, Vec<Diagnostic>))
        requires
            probe.header_paths_exist@.len() == probe.system_headers.c@.len() + probe.system_headers.cxx@.len(),
            tools_found@.len() == 7,
        ensures
            r.0 is Some <==> probe_ok(*probe) && libnx_include_exists && forall|i: int|
                0 <= i < 7 ==> #[trigger] tools_found@[i],
            r.0 matches Some(env) ==> probe_env(*probe, env),
            lines_of(r.1) == probe_lines(*probe) + root_lines(libnx_include_exists, tools_found@),
    {
        let root = Some((libnx_include_exists, tools_found));
        Self::check_probe(probe, &root)
    }

    /// Load the environment when no usable cache was found: fall back to the
    /// full [`check`](Self::check). On success the environment is to be saved
    /// to the cache; on failure the check's report is followed by the failure
    /// lines.
    pub fn load(probe: &EnvProbe, libnx_include_exists: bool, tools_found: Vec<bool>) -> (r: (Result<Env, EnvError>, Vec<Diagnostic>))
        requires
            probe.header_paths_exist@.len() == probe.system_headers.c@.len() + probe.system_headers.cxx@.len(),
            tools_found@.len() == 7,
        ensures
            r.0 is Ok <==> probe_ok(*probe) && libnx_include_exists && forall|i: int|
                0 <= i < 7 ==> #[trigger] tools_found@[i],
            r.0 matches Ok(env) ==> probe_env(*probe, env),
            r.0 is Ok ==> lines_of(r.1) == probe_lines(*probe) + root_lines(libnx_include_exists, tools_found@),
            r.0 is Err ==> r.0 == Err::<Env, EnvError>(EnvError::InitEnv) && lines_of(r.1) == probe_lines(*probe)
                + root_lines(libnx_include_exists, tools_found@) + seq![
                (Tone::Error, "Failed"@, "Cannot initialize environment"@),
                (Tone::Hint, "Consider"@, "Fix the issues above and try again"@),
            ],
    {
        let (checked, mut out) = Self::check(probe, libnx_include_exists, tools_found);
        let ghost before = lines_of(out);
        match checked {
            Some(env) => (Ok(env), out),
            None => {
                say(&mut out, Tone::Error, "Failed", "Cannot initialize environment");
                say(&mut out, Tone::Hint, "Consider", "Fix the issues above and try again");
                assert(lines_of(out) =~= before + seq![
                    (Tone::Error, "Failed"@, "Cannot initialize environment"@),
                    (Tone::Hint, "Consider"@, "Fix the issues above and try again"@),
                ]);
                (Err(EnvError::InitEnv), out)
            },
        }
    }

    /// Get the path to the cache file
    pub fn cache_path(&self) -> (r: String)
        ensures
            r@ == env_cache_path(self.megaton_home@),
    {
        cache_path_from(self.megaton_home.as_str())
    }
}

// ---------------------------------------------------------------------------
// the environment with DevKitPro tool paths, and a project's paths
// ---------------------------------------------------------------------------

/// `$DEVKITPRO/devkitA64/bin`
pub open spec fn dkp_bin(devkitpro: Seq<char>) -> Seq<char> {
    joined_path(devkita64_of(devkitpro), "bin"@)
}

/// `$DEVKITPRO/tools/bin`
pub open spec fn dkp_tools_bin(devkitpro: Seq<char>) -> Seq<char> {
    joined_path(joined_path(devkitpro, "tools"@), "bin"@)
}

/// Environment with extra cached paths
#[derive(Debug)]
pub struct RootEnv {
    /// The environment
    pub env: Env,
    /// Path to C compiler ($DEVKITPRO/devkitA64/bin/aarch64-none-elf-gcc)
    pub cc: String,
    /// Path to C++ compiler ($DEVKITPRO/devkitA64/bin/aarch64-none-elf-g++)
    pub cxx: String,
    /// Path to the libnx include directory ($DEVKITPRO/libnx/include)
    pub libnx_include: String,
    /// Path to npdmtool ($DEVKITPRO/tools/bin/npdmtool)
    pub npdmtool: String,
    /// Path to objdump ($DEVKITPRO/devkitA64/bin/aarch64-none-elf-objdump)
    pub objdump: String,
    /// Path to elf2nso ($DEVKITPRO/tools/bin/elf2nso)
    pub elf2nso: String,
}

/// The names of the DevKitPro tools the root check looks for, in order.
pub open spec fn dkp_tool_names() -> Seq<Seq<char>> {
    seq![
        "aarch64-none-elf-gcc"@,
        "aarch64-none-elf-g++"@,
        "aarch64-none-elf-objdump"@,
        "aarch64-none-elf-ar"@,
        "aarch64-none-elf-as"@,
        "elf2nso"@,
        "npdmtool"@,
    ]
}

/// The report lines of the root check.
pub open spec fn root_lines(libnx_exists: bool, found: Seq<bool>) -> Seq<Line> {
    (if libnx_exists {
        seq![(Tone::Info, "OK"@, "Found libnx/include"@)]
    } else {
        seq![(Tone::Error, "Missing"@, "libnx/include"@), (Tone::Hint, "Fix"@, "(Re-)install DevKitPro"@)]
    }) + dkp_tool_lines(found, dkp_tool_names())
}

/// The report lines about DevKitPro tools: found ones, missing ones with a hint.
pub open spec fn dkp_tool_lines(found: Seq<bool>, names: Seq<Seq<char>>) -> Seq<Line>
    decreases names.len(),
{
    if names.len() == 0 || found.len() == 0 {
        seq![]
    } else {
        dkp_tool_lines(found.drop_last(), names.drop_last()) + if found.last() {
            seq![(Tone::Info, "OK"@, "Found "@ + names.last())]
        } else {
            seq![(Tone::Error, "Missing"@, names.last()), (Tone::Hint, "Fix"@, "(Re-)install DevKitPro"@)]
        }
    }
}

impl RootEnv {
    /// Add the DevKitPro tool paths to an environment
    pub fn from_env(env: Env) -> (r: Self)
        ensures
            r.env == env,
            r.libnx_include@ == joined_path(joined_path(env.devkitpro@, "libnx"@), "include"@),
            r.cc@ == joined_path(dkp_bin(env.devkitpro@), "aarch64-none-elf-gcc"@),
            r.cxx@ == joined_path(dkp_bin(env.devkitpro@), "aarch64-none-elf-g++"@),
            r.objdump@ == joined_path(dkp_bin(env.devkitpro@), "aarch64-none-elf-objdump"@),
            r.npdmtool@ == joined_path(dkp_tools_bin(env.devkitpro@), "npdmtool"@),
            r.elf2nso@ == joined_path(dkp_tools_bin(env.devkitpro@), "elf2nso"@),
    {
        let dkp = env.devkitpro.as_str();
        let libnx = join_path(dkp, "libnx");
        let libnx_include = join_path(libnx.as_str(), "include");
        let a64 = join_path(dkp, "devkitA64");
        let bin = join_path(a64.as_str(), "bin");
        let cc = join_path(bin.as_str(), "aarch64-none-elf-gcc");
        let cxx = join_path(bin.as_str(), "aarch64-none-elf-g++");
        let objdump = join_path(bin.as_str(), "aarch64-none-elf-objdump");
        let tools = join_path(dkp, "tools");
        let tools_bin = join_path(tools.as_str(), "bin");
        let npdmtool = join_path(tools_bin.as_str(), "npdmtool");
        let elf2nso = join_path(tools_bin.as_str(), "elf2nso");
        RootEnv { env, cc, cxx, libnx_include, npdmtool, objdump, elf2nso }
    }

    /// Get path to additional tool in DevKitPro
    ///
    /// Tools not used during a project build is not automatically initialized
    /// and cached to help with build performance
    pub fn get_dkp_bin(&self, tool: &str) -> (r: String)
        ensures
            r@ == joined_path(dkp_bin(self.env.devkitpro@), tool@),
    {
        let a64 = join_path(self.env.devkitpro.as_str(), "devkitA64");
        let bin = join_path(a64.as_str(), "bin");
        join_path(bin.as_str(), tool)
    }

    /// The paths the root check looks the DevKitPro tools up at, in the order of
    /// `dkp_tool_names`
    pub fn dkp_tool_paths(&self) -> (r: Vec<String>)
        ensures
            r@.len() == 7,
            r@[0] == self.cc,
            r@[1] == self.cxx,
            r@[2] == self.objdump,
            r@[3]@ == joined_path(dkp_bin(self.env.devkitpro@), "aarch64-none-elf-ar"@),
            r@[4]@ == joined_path(dkp_bin(self.env.devkitpro@), "aarch64-none-elf-as"@),
            r@[5] == self.elf2nso,
            r@[6] == self.npdmtool,
    {
        let mut r = Vec::new();
        r.push(self.cc.clone());
        r.push(self.cxx.clone());
        r.push(self.objdump.clone());
        r.push(self.get_dkp_bin("aarch64-none-elf-ar"));
        r.push(self.get_dkp_bin("aarch64-none-elf-as"));
        r.push(self.elf2nso.clone());
        r.push(self.npdmtool.clone());
        r
    }

    /// Check root env, given whether libnx/include exists and whether each tool of
    /// [`dkp_tool_paths`](Self::dkp_tool_paths) is found in PATH at that very path.
    /// Return whether the check passes, and the report lines
    pub fn check(&self, libnx_include_exists: bool, tools_found: &Vec<bool>) -> (r: (bool, Vec<Diagnostic>))
        requires
            tools_found@.len() == 7,
        ensures
            r.0 == (libnx_include_exists && forall|i: int| 0 <= i < 7 ==> #[trigger] tools_found@[i]),
            lines_of(r.1) == root_lines(libnx_include_exists, tools_found@),
    {
        check_root(libnx_include_exists, tools_found)
    }
}

/// The DevKitPro root check, given whether libnx/include exists and whether
/// each DevKitPro tool (in the order of [`dkp_tool_names`]) is found in PATH at
/// its very path. Returns whether the check passes, and the report lines
pub fn check_root(libnx_include_exists: bool, tools_found: &Vec<bool>) -> (r: (bool, Vec<Diagnostic>))
    requires
        tools_found@.len() == 7,
    ensures
        r.0 == (libnx_include_exists && forall|i: int| 0 <= i < 7 ==> #[trigger] tools_found@[i]),
        lines_of(r.1) == root_lines(libnx_include_exists, tools_found@),
{
    let mut out: Vec<Diagnostic> = Vec::new();
    let mut ok = true;
    if libnx_include_exists {
        say(&mut out, Tone::Info, "OK", "Found libnx/include");
    } else {
        ok = false;
        say(&mut out, Tone::Error, "Missing", "libnx/include");
        say(&mut out, Tone::Hint, "Fix", "(Re-)install DevKitPro");
    }
    let ghost head = lines_of(out);
    let names = [
        "aarch64-none-elf-gcc",
        "aarch64-none-elf-g++",
        "aarch64-none-elf-objdump",
        "aarch64-none-elf-ar",
        "aarch64-none-elf-as",
        "elf2nso",
        "npdmtool",
    ];
    assert(names@.map_values(|s: &str| s@) =~= dkp_tool_names());
    let mut i: usize = 0;
    while i < 7
        invariant
            i <= 7,
            tools_found@.len() == 7,
            names@.map_values(|s: &str| s@) == dkp_tool_names(),
            lines_of(out) == head + dkp_tool_lines(tools_found@.take(i as int), dkp_tool_names().take(i as int)),
            ok == (libnx_include_exists && forall|j: int| 0 <= j < i ==> #[trigger] tools_found@[j]),
        decreases 7 - i,
    {
        let ghost before = lines_of(out);
        assert(names@.map_values(|s: &str| s@)[i as int] == names@[i as int]@);
        if tools_found[i] {
            let mut m = "Found ".to_owned();
            push_str(&mut m, names[i]);
            say(&mut out, Tone::Info, "OK", m.as_str());
        } else {
            ok = false;
            say(&mut out, Tone::Error, "Missing", names[i]);
            say(&mut out, Tone::Hint, "Fix", "(Re-)install DevKitPro");
        }
        assert(tools_found@.take(i + 1).drop_last() =~= tools_found@.take(i as int));
        assert(dkp_tool_names().take(i + 1).drop_last() =~= dkp_tool_names().take(i as int));
        assert(lines_of(out) =~= head + dkp_tool_lines(tools_found@.take(i + 1), dkp_tool_names().take(i + 1)));
        i += 1;
    }
    assert(tools_found@.take(7) =~= tools_found@);
    assert(dkp_tool_names().take(7) =~= dkp_tool_names());
    (ok, out)
}

/// `$DEVKITPRO/libnx/include`
pub open spec fn libnx_include_of(devkitpro: Seq<char>) -> Seq<char> {
    joined_path(joined_path(devkitpro, "libnx"@), "include"@)
}

/// Where the DevKitPro tools of [`dkp_tool_names`] are expected, in that order.
pub open spec fn dkp_tool_locations(devkitpro: Seq<char>) -> Seq<Seq<char>> {
    seq![
        joined_path(dkp_bin(devkitpro), "aarch64-none-elf-gcc"@),
        joined_path(dkp_bin(devkitpro), "aarch64-none-elf-g++"@),
        joined_path(dkp_bin(devkitpro), "aarch64-none-elf-objdump"@),
        joined_path(dkp_bin(devkitpro), "aarch64-none-elf-ar"@),
        joined_path(dkp_bin(devkitpro), "aarch64-none-elf-as"@),
        joined_path(dkp_tools_bin(devkitpro), "elf2nso"@),
        joined_path(dkp_tools_bin(devkitpro), "npdmtool"@),
    ]
}

/// What the DevKitPro root check looks at under the DEVKITPRO path
/// `devkitpro`: the libnx include directory, and the paths of the tools.
pub fn dkp_probe_paths(devkitpro: &str) -> (r: (String, Vec<String>))
    ensures
        r.0@ == libnx_include_of(devkitpro@),
        strs(r.1) == dkp_tool_locations(devkitpro@),
{
    let libnx = join_path(devkitpro, "libnx");
    let libnx_include = join_path(libnx.as_str(), "include");
    let a64 = join_path(devkitpro, "devkitA64");
    let bin = join_path(a64.as_str(), "bin");
    let tools = join_path(devkitpro, "tools");
    let tools_bin = join_path(tools.as_str(), "bin");
    let mut r: Vec<String> = Vec::new();
    r.push(join_path(bin.as_str(), "aarch64-none-elf-gcc"));
    r.push(join_path(bin.as_str(), "aarch64-none-elf-g++"));
    r.push(join_path(bin.as_str(), "aarch64-none-elf-objdump"));
    r.push(join_path(bin.as_str(), "aarch64-none-elf-ar"));
    r.push(join_path(bin.as_str(), "aarch64-none-elf-as"));
    r.push(join_path(tools_bin.as_str(), "elf2nso"));
    r.push(join_path(tools_bin.as_str(), "npdmtool"));
    assert(strs(r) =~= dkp_tool_locations(devkitpro@));
    (libnx_include, r)
}

/// Environment of a project
#[derive(Debug)]
pub struct ProjectEnv {
    /// The environment with DevKitPro tool paths
    pub env: RootEnv,
    /// Path to the root of the project (where Megaton.toml is)
    pub root: String,
    /// The target directory for megaton (<root>/target/megaton/<profile>)
    pub target: String,
    /// The object file output directory (<root>/target/megaton/<profile>/o)
    pub target_o: String,
    /// The version script file for linker (<root>/target/megaton/<profile>/verfile)
    pub verfile: String,
    /// The compile_commands.json file (<root>/target/megaton/<profile>/compile_commands.json)
    pub cc_json: String,
    /// The compile DB cache file (<root>/target/megaton/<profile>/compdb.cache)
    pub compdb_cache: String,
    /// The list of objects cache file (<root>/target/megaton/<profile>/objects.cache)
    pub objects_cache: String,
    /// The target ELF (<root>/target/megaton/<profile>/<name>.elf)
    pub elf: String,
    /// The target NSO (<root>/target/megaton/<profile>/<name>.nso)
    pub nso: String,
}

/// `<root>/target/megaton/<profile>`
pub open spec fn project_target(root: Seq<char>, profile: Seq<char>) -> Seq<char> {
    joined_path(joined_path(joined_path(root, "target"@), "megaton"@), profile)
}

impl ProjectEnv {
    /// The environment of a project whose root is `root`, built with `profile`,
    /// producing the module `module`
    pub fn load(env: Env, root: String, profile: &str, module: &str) -> (r: Self)
        ensures
            r.env.env == env,
            r.root == root,
            r.target@ == project_target(root@, profile@),
            r.target_o@ == joined_path(project_target(root@, profile@), "o"@),
            r.verfile@ == joined_path(project_target(root@, profile@), "verfile"@),
            r.cc_json@ == joined_path(project_target(root@, profile@), "compile_commands.json"@),
            r.compdb_cache@ == joined_path(project_target(root@, profile@), "compdb.cache"@),
            r.objects_cache@ == joined_path(project_target(root@, profile@), "objects.cache"@),
            r.elf@ == joined_path(project_target(root@, profile@), module@ + ".elf"@),
            r.nso@ == joined_path(project_target(root@, profile@), module@ + ".nso"@),
    {
        let env = RootEnv::from_env(env);
        let t1 = join_path(root.as_str(), "target");
        let t2 = join_path(t1.as_str(), "megaton");
        let target = join_path(t2.as_str(), profile);
        let target_o = join_path(target.as_str(), "o");
        let verfile = join_path(target.as_str(), "verfile");
        let cc_json = join_path(target.as_str(), "compile_commands.json");
        let compdb_cache = join_path(target.as_str(), "compdb.cache");
        let objects_cache = join_path(target.as_str(), "objects.cache");
        let mut elf_name = module.to_owned();
        push_str(&mut elf_name, ".elf");
        let elf = join_path(target.as_str(), elf_name.as_str());
        let mut nso_name = module.to_owned();
        push_str(&mut nso_name, ".nso");
        let nso = join_path(target.as_str(), nso_name.as_str());
        ProjectEnv { env, root, target, target_o, verfile, cc_json, compdb_cache, objects_cache, elf, nso }
    }

    /// The absolute `path` relative to the project root, as shown in messages.
    pub fn from_root(&self, path: &str) -> (r: String)
        requires
            absolute_path(path@),
            absolute_path(self.root@),
        ensures
            r@ == rebased(path@, self.root@),
    {
        rebase(path, self.root.as_str())
    }

    /// `path` relative to the project root, when it and the root are absolute
    /// (`None` otherwise, where [`from_root`](Self::from_root) cannot be used).
    pub fn display_from_root(&self, path: &str) -> (r: Option<String>)
        ensures
            absolute_path(path@) && absolute_path(self.root@) ==> r is Some && r->0@ == rebased(path@, self.root@),
            !(absolute_path(path@) && absolute_path(self.root@)) ==> r is None,
    {
        if is_absolute(path) && is_absolute(self.root.as_str()) {
            Some(self.from_root(path))
        } else {
            None
        }
    }
}


/// The system header check passes exactly when there are C and C++ header
/// paths and every one of them is non-empty and exists: a path found missing,
/// an empty path or an empty list fails it.
pub proof fn lemma_headers_check(c: Seq<Seq<char>>, cxx: Seq<Seq<char>>, found: Seq<bool>)
    requires
        found.len() == c.len() + cxx.len(),
    ensures
        forall|i: int| 0 <= i < found.len() && !found[i] ==> !headers_ok(c, cxx, found),
        forall|i: int| 0 <= i < c.len() && c[i].len() == 0 ==> !headers_ok(c, cxx, found),
        forall|i: int| 0 <= i < cxx.len() && cxx[i].len() == 0 ==> !headers_ok(c, cxx, found),
        c.len() == 0 || cxx.len() == 0 ==> !headers_ok(c, cxx, found),
        c.len() > 0 && cxx.len() > 0 && (forall|i: int| 0 <= i < found.len() ==> found[i]) && (forall|i: int|
            0 <= i < c.len() ==> c[i].len() > 0) && (forall|i: int| 0 <= i < cxx.len() ==> cxx[i].len() > 0)
            ==> headers_ok(c, cxx, found),
{
    let all = c + cxx;
    assert(all_header_paths(c, cxx) == all);
    assert forall|i: int| 0 <= i < found.len() && !found[i] implies !headers_ok(c, cxx, found) by {
        if headers_ok(c, cxx, found) {
            let p = all_header_paths(c, cxx)[i];
            assert(found[i]);
        }
    }
    assert forall|i: int| 0 <= i < c.len() && c[i].len() == 0 implies !headers_ok(c, cxx, found) by {
        if headers_ok(c, cxx, found) {
            assert(all_header_paths(c, cxx)[i] == c[i]);
            assert(all_header_paths(c, cxx)[i].len() > 0);
        }
    }
    assert forall|i: int| 0 <= i < cxx.len() && cxx[i].len() == 0 implies !headers_ok(c, cxx, found) by {
        if headers_ok(c, cxx, found) {
            assert(all_header_paths(c, cxx)[c.len() + i] == cxx[i]);
            assert(all_header_paths(c, cxx)[c.len() + i].len() > 0);
        }
    }
    if c.len() > 0 && cxx.len() > 0 && (forall|i: int| 0 <= i < found.len() ==> found[i]) && (forall|i: int|
        0 <= i < c.len() ==> c[i].len() > 0) && (forall|i: int| 0 <= i < cxx.len() ==> cxx[i].len() > 0) {
        assert forall|i: int| 0 <= i < c.len() + cxx.len() implies (#[trigger] all_header_paths(c, cxx)[i]).len() > 0
            && found[i] by {
            if i < c.len() {
                assert(all[i] == c[i]);
            } else {
                assert(all[i] == cxx[i - c.len()]);
            }
        }
    }
}

/// Adding the system header flags to a command keeps the command: the flags
/// stand together at one place, and taking them out gives the command back.
pub proof fn lemma_headers_keep_command(cmd: Seq<Seq<char>>, adds: Seq<Seq<char>>)
    ensures
        exists|i: int|
            0 <= i <= cmd.len() && #[trigger] inserted_includes(cmd, adds).subrange(i, i + adds.len()) == adds
                && inserted_includes(cmd, adds).take(i) + inserted_includes(cmd, adds).skip(i + adds.len()) == cmd,
{
    let r = inserted_includes(cmd, adds);
    let i = insert_index(cmd);
    lemma_insert_index_bounds(cmd);
    assert(r.subrange(i, i + adds.len()) =~= adds);
    assert(r.take(i) + r.skip(i + adds.len()) =~= cmd);
}

/// A command has at most one first mark of each kind.
proof fn lemma_first_mark_unique(cmd: Seq<Seq<char>>, includes: bool)
    ensures
        forall|i: int, j: int|
            #[trigger] is_first_mark(cmd, i, includes) && #[trigger] is_first_mark(cmd, j, includes) ==> i == j,
{
    assert forall|i: int, j: int|
        #[trigger] is_first_mark(cmd, i, includes) && #[trigger] is_first_mark(cmd, j, includes) implies i == j by {
        if i < j {
            assert(is_mark(cmd[i], includes));
        } else if j < i {
            assert(is_mark(cmd[j], includes));
        }
    }
}

/// The header flags go somewhere inside the command or at its end.
proof fn lemma_insert_index_bounds(cmd: Seq<Seq<char>>)
    ensures
        0 <= insert_index(cmd) <= cmd.len(),
{
    if exists|i: int| is_first_mark(cmd, i, true) {
        let i = choose|i: int| is_first_mark(cmd, i, true);
        assert(is_first_mark(cmd, i, true));
    } else if exists|i: int| is_first_mark(cmd, i, false) {
        let i = choose|i: int| is_first_mark(cmd, i, false);
        assert(is_first_mark(cmd, i, false));
    }
}

} // verus!
