//! The options of the command line and what they decide: verbosity, error
//! traces, colors, and how much of a fatal error is shown.
use vstd::prelude::*;

verus! {

/// Color options for output
#[derive(Debug, Clone, Copy, PartialEq, Eq, Structural)]
pub enum ColorOption {
    /// Always color
    Always,
    /// Never color
    Never,
}

/// Common options for all commands
#[derive(Debug, Clone, Copy, PartialEq, Eq, Structural)]
pub struct CommonOptions {
    /// Enable verbose output
    pub verbose: bool,
    /// Enable error trace
    pub trace: bool,
    /// Set output color option; by default, color is enabled when stderr is
    /// a terminal
    pub color: Option<ColorOption>,
}

/// Top level options
#[derive(Debug, Clone)]
pub struct TopLevelOptions {
    /// The directory to run in (`.` by default)
    pub dir: String,
    /// The path to the megaton repository, when the shim script passes it
    pub home: Option<String>,
}

/// A subcommand with its options
#[derive(Debug, Clone)]
pub enum Command {
    /// Create a new project
    Init(CommonOptions),
    /// Build the current project
    Build(crate::build_options::Options),
    /// Clean outputs
    Clean(crate::clean::Options),
    /// Check the environment and installation status of megaton, dependent
    /// tools and toolchain/libraries
    Checkenv(CommonOptions),
    /// Install or update the build tool
    Install(crate::install::Options),
    /// Format the code
    Fmt(CommonOptions),
    /// Rustc options
    Rustc(CommonOptions),
}

/// The common options a subcommand was given.
pub open spec fn command_options(c: Command) -> CommonOptions {
    match c {
        Command::Init(x) => x,
        Command::Build(x) => x.options,
        Command::Clean(x) => x.options,
        Command::Checkenv(x) => x,
        Command::Install(x) => x.options,
        Command::Fmt(x) => x,
        Command::Rustc(x) => x,
    }
}

impl Command {
    /// The common options given after the subcommand.
    pub fn common(&self) -> (r: CommonOptions)
        ensures
            r == command_options(*self),
    {
        match self {
            Command::Init(x) => *x,
            Command::Build(x) => x.options,
            Command::Clean(x) => x.options,
            Command::Checkenv(x) => *x,
            Command::Install(x) => x.options,
            Command::Fmt(x) => *x,
            Command::Rustc(x) => *x,
        }
    }

    /// Whether a fatal error is shown in full: always, but for a regular build
    /// (neither only the compile database nor with libmegaton), which has
    /// already reported its errors.
    pub fn show_fatal_error_message(&self) -> (r: bool)
        ensures
            r == match *self {
                Command::Build(o) => o.compdb || o.lib,
                _ => true,
            },
    {
        match self {
            Command::Build(options) => options.compdb || options.lib,
            _ => true,
        }
    }
}

/// What the printing system does about colors
#[derive(Debug, Clone, Copy, PartialEq, Eq, Structural)]
pub enum ColorChoice {
    /// Keep colors on
    On,
    /// Turn colors off
    Off,
    /// Color only when stderr is a terminal
    Auto,
}

/// The color choice: the subcommand's color option, else the top level one,
/// else automatic.
pub open spec fn color_choice_of(command: Option<ColorOption>, top: Option<ColorOption>) -> ColorChoice {
    match (command, top) {
        (Some(ColorOption::Never), _) => ColorChoice::Off,
        (Some(ColorOption::Always), _) => ColorChoice::On,
        (None, Some(ColorOption::Never)) => ColorChoice::Off,
        (None, Some(ColorOption::Always)) => ColorChoice::On,
        _ => ColorChoice::Auto,
    }
}

/// The whole command line
#[derive(Debug, Clone)]
pub struct Cli {
    /// Top level options
    pub top: TopLevelOptions,
    /// Subcommand
    pub command: Command,
    /// Common options given before the subcommand
    pub options: CommonOptions,
}

impl Cli {
    /// Whether verbose printing is on: asked before or after the subcommand.
    pub fn is_verbose_on(&self) -> (r: bool)
        ensures
            r == (self.options.verbose || command_options(self.command).verbose),
    {
        self.options.verbose || self.command.common().verbose
    }

    /// Whether error traces are on: asked before or after the subcommand.
    pub fn is_trace_on(&self) -> (r: bool)
        ensures
            r == (self.options.trace || command_options(self.command).trace),
    {
        self.options.trace || self.command.common().trace
    }

    /// What to do about colors (see [`color_choice_of`]).
    pub fn color_choice(&self) -> (r: ColorChoice)
        ensures
            r == color_choice_of(command_options(self.command).color, self.options.color),
    {
        match (self.command.common().color, self.options.color) {
            (Some(ColorOption::Never), _) => ColorChoice::Off,
            (Some(ColorOption::Always), _) => ColorChoice::On,
            (None, Some(ColorOption::Never)) => ColorChoice::Off,
            (None, Some(ColorOption::Always)) => ColorChoice::On,
            _ => ColorChoice::Auto,
        }
    }
}

} // verus!
