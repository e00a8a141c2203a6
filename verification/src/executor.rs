//! How many workers run the tasks of a build.
use vstd::prelude::*;

verus! {

/// Calls `num_cpus::get`: the number of CPUs available to the process, which
/// its documentation states is always at least 1. Nothing more is stated: it
/// depends on the machine.
#[verifier::external_body]
fn available_cpus() -> (r: usize)
    ensures
        r >= 1,
{
    num_cpus::get()
}

/// The number of workers for a machine with `cpus` CPUs: one CPU is left to
/// the main thread, and there is always at least one worker.
pub fn workers_for(cpus: usize) -> (r: usize)
    ensures
        r == if cpus < 2 { 1 } else { cpus - 1 },
{
    if cpus < 2 {
        1
    } else {
        cpus - 1
    }
}

/// The number of workers for this machine (see [`workers_for`]).
pub fn worker_count() -> (r: usize)
    ensures
        r >= 1,
{
    workers_for(available_cpus())
}

} // verus!
