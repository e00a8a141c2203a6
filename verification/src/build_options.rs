//! The options of the build command.
use vstd::prelude::*;

use crate::cli::CommonOptions;

verus! {

/// CLI Options for the build command
#[derive(Debug, Clone)]
pub struct Options {
    /// The profile to build (`none` by default)
    pub profile: String,
    /// Only build the compile database (compile_commands.json)
    pub compdb: bool,
    /// Build libmegaton before building the current project
    pub lib: bool,
    /// Common options
    pub options: CommonOptions,
}

} // verus!
