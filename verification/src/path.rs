//! Joining file system paths
use vstd::prelude::*;

verus! {

/// What `Path::join` gives for a base path and a part, both valid UTF-8.
pub uninterp spec fn joined_path(base: Seq<char>, part: Seq<char>) -> Seq<char>;

/// Calls `std::path::Path::join`, then renders the result as a string (lossless,
/// since both inputs are UTF-8). The contract names the result: it is a pure
/// function of the two strings for the target the library is compiled for (the
/// separator it inserts, and the parts it treats as absolute, are those of that
/// target). Nothing more is stated of it.
#[verifier::external_body]
pub(crate) fn join_path(base: &str, part: &str) -> (r: String)
    ensures
        r@ == joined_path(base@, part@),
{
    std::path::Path::new(base).join(part).display().to_string()
}

/// `base` joined with each of `parts`, left to right.
pub open spec fn joined_all(base: Seq<char>, parts: Seq<Seq<char>>) -> Seq<char>
    decreases parts.len(),
{
    if parts.len() == 0 {
        base
    } else {
        joined_path(joined_all(base, parts.drop_last()), parts.last())
    }
}

/// `base` followed by a separator, unless it already ends with one.
pub open spec fn with_sep(s: Seq<char>) -> Seq<char> {
    if s.len() > 0 && (s.last() == '/' || s.last() == '\\') {
        s
    } else {
        s.push('/')
    }
}

/// Make sure the path string ends with a path separator
pub fn ensure_path_sep(s: &mut String)
    ensures
        final(s)@ == with_sep(old(s)@),
{
    let v = crate::text::to_chars(s.as_str());
    if v.len() > 0 && (v[v.len() - 1] == '/' || v[v.len() - 1] == '\\') {
        return;
    }
    s.push('/');
}

/// Whether `std::path::Path::is_absolute` holds of a path, on the target the
/// library is compiled for.
pub uninterp spec fn absolute_path(path: Seq<char>) -> bool;

/// Calls `std::path::Path::is_absolute`. The contract names the result: a pure
/// function of the string on the target the library is compiled for.
#[verifier::external_body]
pub(crate) fn is_absolute(path: &str) -> (r: bool)
    ensures
        r == absolute_path(path@),
{
    std::path::Path::new(path).is_absolute()
}

/// What `pathdiff::diff_paths` gives for a path and a base, rendered as a string.
pub uninterp spec fn path_difference(path: Seq<char>, base: Seq<char>) -> Option<Seq<char>>;

/// Calls `pathdiff::diff_paths` and renders the result as a string (lossless:
/// its parts come from the two UTF-8 inputs). The contract names the result:
/// the crate computes it from the two paths alone, without the file system.
#[verifier::external_body]
fn diff_paths(path: &str, base: &str) -> (r: Option<String>)
    ensures
        match r {
            Some(d) => path_difference(path@, base@) == Some(d@),
            None => path_difference(path@, base@) is None,
        },
{
    match pathdiff::diff_paths(path, base) {
        Some(p) => Some(p.display().to_string()),
        None => None,
    }
}

/// `path` relative to `base`, or `path` itself when no relative path leads there.
pub open spec fn rebased(path: Seq<char>, base: Seq<char>) -> Seq<char> {
    match path_difference(path, base) {
        Some(d) => d,
        None => path,
    }
}

/// The absolute `path` relative to the absolute `base`, as shown in messages.
pub fn rebase(path: &str, base: &str) -> (r: String)
    requires
        absolute_path(path@),
        absolute_path(base@),
    ensures
        r@ == rebased(path@, base@),
{
    match diff_paths(path, base) {
        Some(d) => d,
        None => path.to_owned(),
    }
}

/// `path` relative to `base` when both are absolute (`None` otherwise, where
/// [`rebase`] cannot be used).
pub fn try_rebase(path: &str, base: &str) -> (r: Option<String>)
    ensures
        absolute_path(path@) && absolute_path(base@) ==> r is Some && r->0@ == rebased(path@, base@),
        !(absolute_path(path@) && absolute_path(base@)) ==> r is None,
{
    if is_absolute(path) && is_absolute(base) {
        Some(rebase(path, base))
    } else {
        None
    }
}

} // verus!
