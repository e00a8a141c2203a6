//! Detecting source file types and naming the objects built from them.
use vstd::prelude::*;

use crate::hex::{hex16, to_hex16};
use crate::text::{last_of, last_sep, push_str, rfind_char, rfind_path_sep, str_eq, sub_string, to_chars};

verus! {

/// Source file types
#[derive(Debug, Clone, Copy, PartialEq, Eq, Structural)]
pub enum SourceType {
    /// C source file
    C,
    /// C++ source file
    Cpp,
    /// Assembly source file
    S,
}

/// The source type an extension (given without its dot) stands for.
pub open spec fn ext_source_type(ext: Seq<char>) -> Option<SourceType> {
    if ext == "c"@ {
        Some(SourceType::C)
    } else if ext == "cpp"@ || ext == "cc"@ || ext == "cxx"@ || ext == "c++"@ {
        Some(SourceType::Cpp)
    } else if ext == "s"@ || ext == "asm"@ {
        Some(SourceType::S)
    } else {
        None
    }
}

/// The extension of `path`: what follows its last dot, if it has one.
pub open spec fn extension_of(path: Seq<char>) -> Option<Seq<char>> {
    match last_of(path, '.') {
        Some(d) => Some(path.skip(d + 1)),
        None => None,
    }
}

/// The source type of a file, judged from its extension.
pub open spec fn file_source_type(path: Seq<char>) -> Option<SourceType> {
    match extension_of(path) {
        Some(ext) => ext_source_type(ext),
        None => None,
    }
}

/// Where the base name of `path` starts: one past its last separator, and
/// position 1 when it has none.
pub open spec fn base_start(path: Seq<char>) -> int {
    match last_sep(path) {
        Some(s) => s + 1,
        None => 1,
    }
}

/// The paths on which naming the object of a source file would slice a string
/// backwards: no separator, a dot in front and a source extension after it.
pub open spec fn object_name_undefined(path: Seq<char>) -> bool {
    &&& last_sep(path) is None
    &&& last_of(path, '.') == Some(0int)
    &&& ext_source_type(path.skip(1)) is Some
}

/// Type and object name (`{base}-{hash:016x}.{ext}`) of a source file whose full path
/// hashes to `hash`; `None` when the path is not a source file or its base name is empty.
pub open spec fn source_file_parts(path: Seq<char>, hash: u64) -> Option<(SourceType, Seq<char>)> {
    match last_of(path, '.') {
        None => None,
        Some(d) => match ext_source_type(path.skip(d + 1)) {
            None => None,
            Some(t) => {
                let base = path.subrange(base_start(path), d);
                if base.len() == 0 {
                    None
                } else {
                    Some((t, base + "-"@ + hex16(hash) + "."@ + path.skip(d + 1)))
                }
            },
        },
    }
}

/// Type, base name and extension (without its dot) of a source path. The
/// extension follows the last dot; the base name runs from one past the last
/// separator (or from the start) up to that dot and is not empty.
pub open spec fn parsed_path(path: Seq<char>) -> Option<(SourceType, Seq<char>, Seq<char>)> {
    match last_of(path, '.') {
        None => None,
        Some(d) => match ext_source_type(path.skip(d + 1)) {
            None => None,
            Some(t) => {
                let start = match last_sep(path) {
                    Some(s) => s + 1,
                    None => 0,
                };
                if start < d {
                    Some((t, path.subrange(start, d), path.skip(d + 1)))
                } else {
                    None
                }
            },
        },
    }
}

impl SourceType {
    /// Get source type from file extension
    pub fn from_ext(ext: &str) -> (r: Option<Self>)
        ensures
            r == ext_source_type(ext@),
    {
        if str_eq(ext, "c") {
            Some(SourceType::C)
        } else if str_eq(ext, "cpp") || str_eq(ext, "cc") || str_eq(ext, "cxx") || str_eq(ext, "c++") {
            Some(SourceType::Cpp)
        } else if str_eq(ext, "s") || str_eq(ext, "asm") {
            Some(SourceType::S)
        } else {
            None
        }
    }

    /// Get source type of a file from the extension after its last dot
    pub fn from_file(file: &str) -> (r: Option<Self>)
        ensures
            r == file_source_type(file@),
    {
        let v = to_chars(file);
        match rfind_char(&v, '.') {
            Some(d) => {
                let ext = sub_string(&v, d + 1, v.len());
                assert(ext@ == file@.skip(d + 1));
                Self::from_ext(ext.as_str())
            },
            None => None,
        }
    }

    /// Parse a path into type, base name and extension (without its dot)
    pub fn parse_path(source: &str) -> (r: Option<(SourceType, &str, &str)>)
        ensures
            match r {
                Some((t, base, ext)) => parsed_path(source@) == Some((t, base@, ext@)),
                None => parsed_path(source@) is None,
            },
    {
        let v = to_chars(source);
        let dot = match rfind_char(&v, '.') {
            Some(d) => d,
            None => {
                return None;
            },
        };
        let ext = source.substring_char(dot + 1, v.len());
        let source_type = match SourceType::from_ext(ext) {
            Some(t) => t,
            None => {
                return None;
            },
        };
        let start = match rfind_path_sep(&v) {
            Some(s) => s + 1,
            None => 0,
        };
        if start >= dot {
            return None;
        }
        let base = source.substring_char(start, dot);
        Some((source_type, base, ext))
    }
}

/// The hash `FxHasher` (rustc-hash) gives for a path (hashed as a
/// `std::path::Path`). It depends on the path alone, within one build of the
/// program: the hasher is not seeded, and its state is a `usize`, so the value
/// is fixed by the target the program is built for.
pub uninterp spec fn path_hash_of(path: Seq<char>) -> u64;

/// The hash that names the object of a source file, computed from its full
/// path with `FxHasher` (see [`path_hash_of`]).
#[verifier::external_body]
fn path_hash(path: &str) -> (r: u64)
    ensures
        r == path_hash_of(path@),
{
    let mut hasher = rustc_hash::FxHasher::default();
    std::hash::Hash::hash(std::path::Path::new(path), &mut hasher);
    std::hash::Hasher::finish(&hasher)
}

/// A source file to build
pub struct SourceFile {
    /// Type of the source file (used to determine which build rule to run)
    pub typ: SourceType,
    /// Full path of the source file
    pub path: String,
    /// Name of the object file produced in the format of `{base}-{hash}{ext}`.
    ///
    /// By adding .o or .d to this name, we can get the object file or dependency file.
    pub name_hash: String,
}

impl SourceFile {
    /// Describe the source file at `path` whose path hash is `hash`.
    ///
    /// Return None if the file is not a source file
    pub fn with_hash(path: &str, hash: u64) -> (r: Option<Self>)
        requires
            !object_name_undefined(path@),
        ensures
            match r {
                None => source_file_parts(path@, hash) is None,
                Some(f) => source_file_parts(path@, hash) == Some((f.typ, f.name_hash@))
                    && f.path@ == path@,
            },
    {
        let v = to_chars(path);
        let dot = match rfind_char(&v, '.') {
            Some(d) => d,
            None => {
                return None;
            },
        };
        let ext = sub_string(&v, dot + 1, v.len());
        assert(ext@ == path@.skip(dot + 1));
        let typ = match SourceType::from_ext(ext.as_str()) {
            Some(t) => t,
            None => {
                return None;
            },
        };
        let slash = match rfind_path_sep(&v) {
            Some(s) => {
                assert(s != dot);
                if s > dot {
                    proof {
                        reveal_strlit("c");
                        reveal_strlit("cpp");
                        reveal_strlit("cc");
                        reveal_strlit("cxx");
                        reveal_strlit("c++");
                        reveal_strlit("s");
                        reveal_strlit("asm");
                        assert(ext@[s - dot - 1] == v@[s as int]);
                    }
                }
                s + 1
            },
            None => 1,
        };
        assert(slash == base_start(path@));
        let base = sub_string(&v, slash, dot);
        if base.as_str().unicode_len() == 0 {
            return None;
        }
        let mut name = base;
        push_str(&mut name, "-");
        let h = to_hex16(hash);
        push_str(&mut name, h.as_str());
        push_str(&mut name, ".");
        push_str(&mut name, ext.as_str());
        Some(SourceFile { typ, path: path.to_owned(), name_hash: name })
    }

    /// Create source file property from path. Path should be full (absolute) path
    ///
    /// Return None if the file is not a source file
    pub fn from_path(path: &str) -> (r: Option<Self>)
        requires
            !object_name_undefined(path@),
        ensures
            r is None <==> source_file_parts(path@, path_hash_of(path@)) is None,
            r matches Some(f) ==> f.path@ == path@ && source_file_parts(path@, path_hash_of(path@)) == Some(
                (f.typ, f.name_hash@),
            ),
    {
        let hash = path_hash(path);
        Self::with_hash(path, hash)
    }
}

} // verus!
