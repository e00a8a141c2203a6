//! The decisions of the install command: the names and places of the
//! executables, the shim script, and what is reported.
use vstd::prelude::*;

use crate::cli::CommonOptions;
use crate::env::{lines_of, say, Diagnostic, Line, Tone};
use crate::path::{join_path, joined_path};
use crate::text::push_str;

verus! {

/// CLI Options for the install command
#[derive(Debug, Clone, Copy, PartialEq, Eq, Structural)]
pub struct Options {
    /// Pull latest version of the megaton repo with git
    pub update: bool,
    /// Common options
    pub options: CommonOptions,
}

/// The lines reported when an install or an update failed (none when it
/// succeeded).
pub open spec fn failure_lines(failed: bool, update: bool) -> Seq<Line> {
    if !failed {
        seq![]
    } else if update {
        seq![(Tone::Error, "Failed"@, "Update unsuccessful"@), (Tone::Hint, "Consider"@, "Perform a clean installation"@)]
    } else {
        seq![(Tone::Error, "Failed"@, "Install unsuccessful"@)]
    }
}

/// What is reported once the install command has run, given whether it failed.
pub fn run(failed: bool, options: &Options) -> (r: Vec<Diagnostic>)
    ensures
        lines_of(r) == failure_lines(failed, options.update),
{
    let mut r: Vec<Diagnostic> = Vec::new();
    if failed {
        if options.update {
            say(&mut r, Tone::Error, "Failed", "Update unsuccessful");
            say(&mut r, Tone::Hint, "Consider", "Perform a clean installation");
        } else {
            say(&mut r, Tone::Error, "Failed", "Install unsuccessful");
        }
    }
    r
}

/// The file name of an executable: with `.exe` on Windows.
pub fn executable_name(stem: &str, windows: bool) -> (r: String)
    ensures
        r@ == if windows { stem@ + ".exe"@ } else { stem@ },
{
    let mut r = stem.to_owned();
    if windows {
        push_str(&mut r, ".exe");
    }
    r
}

/// The file name the installed build tool gets: the binary's name with
/// `-install`, and `.exe` on Windows.
pub fn installed_name(stem: &str, windows: bool) -> (r: String)
    ensures
        r@ == if windows { stem@ + "-install.exe"@ } else { stem@ + "-install"@ },
{
    let mut r = stem.to_owned();
    if windows {
        push_str(&mut r, "-install.exe");
    } else {
        push_str(&mut r, "-install");
    }
    r
}

/// Whether the built tool is copied over the installed one: unless the
/// installed one exists and is what is running now, which is replaced in place
/// instead.
pub fn copies_executable(installed_exists: bool, running_installed: bool) -> (r: bool)
    ensures
        r == !(installed_exists && running_installed),
{
    !(installed_exists && running_installed)
}

/// Where cargo puts the release build in the megaton repository at `home`.
pub fn release_dir(home: &str) -> (r: String)
    ensures
        r@ == joined_path(joined_path(home@, "target"@), "release"@),
{
    let t = join_path(home, "target");
    join_path(t.as_str(), "release")
}

/// The shim script that runs the installed build tool `exe` with the
/// megaton repository `home`.
pub open spec fn shim_text(exe: Seq<char>, home: Seq<char>, windows: bool) -> Seq<char> {
    if windows {
        "@echo off\r\n\""@ + exe + "\" -H \""@ + home + "\"%*\r\n"@
    } else {
        "#!/usr/bin/bash\nexec \""@ + exe + "\" -H \""@ + home + "\" \"$@\""@
    }
}

/// The shim script and where it goes: the script runs `exe` with the
/// repository as `abs_home` (its canonical form); it goes to `megaton.cmd` on
/// Windows, else `megaton`, in the `bin` directory of the repository at `home`.
pub fn shim_script(exe: &str, abs_home: &str, home: &str, windows: bool) -> (r: (String, String))
    ensures
        r.0@ == shim_text(exe@, abs_home@, windows),
        r.1@ == joined_path(joined_path(home@, "bin"@), if windows { "megaton.cmd"@ } else { "megaton"@ }),
{
    let bin = join_path(home, "bin");
    if windows {
        let mut text = "@echo off\r\n\"".to_owned();
        push_str(&mut text, exe);
        push_str(&mut text, "\" -H \"");
        push_str(&mut text, abs_home);
        push_str(&mut text, "\"%*\r\n");
        (text, join_path(bin.as_str(), "megaton.cmd"))
    } else {
        let mut text = "#!/usr/bin/bash\nexec \"".to_owned();
        push_str(&mut text, exe);
        push_str(&mut text, "\" -H \"");
        push_str(&mut text, abs_home);
        push_str(&mut text, "\" \"$@\"");
        (text, join_path(bin.as_str(), "megaton"))
    }
}

/// The installation must be run again, once `megaton` can be called
#[derive(Debug, Clone, Copy, PartialEq, Eq, Structural)]
pub enum InstallError {
    /// The build was skipped, so the installation is not complete
    NeedRerun,
}

/// The lines reported at the end of an installation, given whether the build
/// was skipped (the tool ran as the release binary) and whether the shim is
/// what `megaton` runs already.
pub open spec fn closing_lines(build_skipped: bool, on_path: bool, bin_path: Seq<char>) -> Seq<Line> {
    (if build_skipped {
        seq![
            (Tone::Hint, "WARNING"@, ""@),
            (Tone::Hint, "WARNING"@, "Installation not completed yet!"@),
            (Tone::Hint, "WARNING"@, "To ensure installation is successful, follow the steps below"@),
        ]
    } else {
        seq![(Tone::Info, "Done"@, ""@), (Tone::Info, "Done"@, "Installation successful"@)]
    }) + (if build_skipped || !on_path {
        seq![
            if build_skipped { (Tone::Hint, "WARNING"@, ""@) } else { (Tone::Info, "Done"@, ""@) },
            (Tone::Hint, "Next"@, "Make sure scripts from '"@ + bin_path + "' is callable from your shell"@),
            (Tone::Hint, "Next"@, "You can do that by adding the directory to PATH, or"@),
            (Tone::Hint, "Next"@, "  by creating symlinks to the scripts."@),
        ]
    } else {
        seq![]
    }) + (if build_skipped {
        seq![
            (Tone::Hint, "Then"@, "-----"@),
            (Tone::Hint, "Then"@, "Run `megaton install` to properly build the build tool and install it again"@),
        ]
    } else {
        seq![]
    })
}

/// The end of an installation: what is reported, and whether it must be run
/// again (exactly when the build was skipped).
pub fn finish(build_skipped: bool, on_path: bool, bin_path: &str) -> (r: (Vec<Diagnostic>, Result<(), InstallError>))
    ensures
        lines_of(r.0) == closing_lines(build_skipped, on_path, bin_path@),
        r.1 == if build_skipped { Err::<(), InstallError>(InstallError::NeedRerun) } else { Ok(()) },
{
    let mut out: Vec<Diagnostic> = Vec::new();
    if build_skipped {
        say(&mut out, Tone::Hint, "WARNING", "");
        say(&mut out, Tone::Hint, "WARNING", "Installation not completed yet!");
        say(&mut out, Tone::Hint, "WARNING", "To ensure installation is successful, follow the steps below");
    } else {
        say(&mut out, Tone::Info, "Done", "");
        say(&mut out, Tone::Info, "Done", "Installation successful");
    }
    if build_skipped || !on_path {
        if build_skipped {
            say(&mut out, Tone::Hint, "WARNING", "");
        } else {
            say(&mut out, Tone::Info, "Done", "");
        }
        let mut line = "Make sure scripts from '".to_owned();
        push_str(&mut line, bin_path);
        push_str(&mut line, "' is callable from your shell");
        say(&mut out, Tone::Hint, "Next", line.as_str());
        say(&mut out, Tone::Hint, "Next", "You can do that by adding the directory to PATH, or");
        say(&mut out, Tone::Hint, "Next", "  by creating symlinks to the scripts.");
    }
    if build_skipped {
        say(&mut out, Tone::Hint, "Then", "-----");
        say(&mut out, Tone::Hint, "Then", "Run `megaton install` to properly build the build tool and install it again");
        assert(lines_of(out) =~= closing_lines(build_skipped, on_path, bin_path@));
        return (out, Err(InstallError::NeedRerun));
    }
    assert(lines_of(out) =~= closing_lines(build_skipped, on_path, bin_path@));
    (out, Ok(()))
}

} // verus!
