//! What the checkenv command reports and decides.
use vstd::prelude::*;

use crate::env::{lines_of, say, Diagnostic, Line, Tone};

verus! {

/// How the environment check went
#[derive(Debug, Clone, Copy, PartialEq, Eq, Structural)]
pub enum EnvCheck {
    /// The check itself could not be done
    Failed,
    /// The environment has problems (already reported)
    Invalid,
    /// The environment is fine
    Valid,
}

/// The lines reported after the check.
pub open spec fn check_lines(check: EnvCheck) -> Seq<Line> {
    match check {
        EnvCheck::Failed => seq![(Tone::Error, "Failed"@, "Error occured during environment check"@)],
        EnvCheck::Invalid => seq![
            (Tone::Error, "Failed"@, "Environment check"@),
            (Tone::Hint, "Consider"@, "Fix the issues above and try again"@),
        ],
        EnvCheck::Valid => seq![(Tone::Info, "Success"@, "Environment check OK"@)],
    }
}

/// What is reported after an environment check, and whether it succeeded
/// (then the environment is saved to the cache).
pub fn run(check: EnvCheck) -> (r: (Vec<Diagnostic>, bool))
    ensures
        lines_of(r.0) == check_lines(check),
        r.1 == (check == EnvCheck::Valid),
{
    let mut out: Vec<Diagnostic> = Vec::new();
    match check {
        EnvCheck::Failed => {
            say(&mut out, Tone::Error, "Failed", "Error occured during environment check");
            assert(lines_of(out) =~= check_lines(check));
            (out, false)
        },
        EnvCheck::Invalid => {
            say(&mut out, Tone::Error, "Failed", "Environment check");
            say(&mut out, Tone::Hint, "Consider", "Fix the issues above and try again");
            assert(lines_of(out) =~= check_lines(check));
            (out, false)
        },
        EnvCheck::Valid => {
            say(&mut out, Tone::Info, "Success", "Environment check OK");
            assert(lines_of(out) =~= check_lines(check));
            (out, true)
        },
    }
}

} // verus!
