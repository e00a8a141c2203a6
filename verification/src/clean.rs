//! What the clean command removes.
use vstd::prelude::*;

use crate::cli::CommonOptions;
use crate::flags::strs;
use crate::path::{join_path, joined_path};

verus! {

/// CLI Options for the clean command
#[derive(Debug, Clone)]
pub struct Options {
    /// Only clean the selected profile (all profiles by default)
    pub profile: Option<String>,
    /// Also clean libmegaton build output
    pub lib: bool,
    /// Common options
    pub options: CommonOptions,
}

/// Where the outputs of a project at `root` go: `<root>/target/megaton`.
pub open spec fn megaton_target(root: Seq<char>) -> Seq<char> {
    joined_path(joined_path(root, "target"@), "megaton"@)
}

/// The outputs of a project at `root`.
pub fn target_dir(root: &str) -> (r: String)
    ensures
        r@ == megaton_target(root@),
{
    let t = join_path(root, "target");
    join_path(t.as_str(), "megaton")
}

/// The directory the clean command removes: the outputs of the project, or
/// those of the selected profile.
pub fn clean_output(root: &str, profile: &Option<String>) -> (r: String)
    ensures
        r@ == match profile {
            Some(p) => joined_path(megaton_target(root@), p@),
            None => megaton_target(root@),
        },
{
    let target = target_dir(root);
    match profile {
        Some(p) => join_path(target.as_str(), p.as_str()),
        None => target,
    }
}

/// Where libmegaton is built, in the megaton repository at `home`.
pub open spec fn lib_build_dir(home: Seq<char>) -> Seq<char> {
    joined_path(joined_path(home, "lib"@), "build"@)
}

/// What cleaning libmegaton removes: the directory of its objects, and the
/// files that ninja and the configuration step wrote.
pub fn lib_clean_paths(home: &str) -> (r: (String, Vec<String>))
    ensures
        r.0@ == joined_path(lib_build_dir(home@), "bin"@),
        strs(r.1) == seq![
            joined_path(lib_build_dir(home@), "compile_commands.json"@),
            joined_path(lib_build_dir(home@), "build.ninja"@),
            joined_path(lib_build_dir(home@), ".ninja_log"@),
            joined_path(lib_build_dir(home@), ".ninja_deps"@),
        ],
{
    let lib = join_path(home, "lib");
    let root = join_path(lib.as_str(), "build");
    let dir = join_path(root.as_str(), "bin");
    let mut files: Vec<String> = Vec::new();
    files.push(join_path(root.as_str(), "compile_commands.json"));
    files.push(join_path(root.as_str(), "build.ninja"));
    files.push(join_path(root.as_str(), ".ninja_log"));
    files.push(join_path(root.as_str(), ".ninja_deps"));
    assert(strs(files) =~= seq![
        joined_path(lib_build_dir(home@), "compile_commands.json"@),
        joined_path(lib_build_dir(home@), "build.ninja"@),
        joined_path(lib_build_dir(home@), ".ninja_log"@),
        joined_path(lib_build_dir(home@), ".ninja_deps"@),
    ]);
    (dir, files)
}

} // verus!
