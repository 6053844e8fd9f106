//! Core of a process supervisor: a registry of program definitions and a
//! table of live instances, together with every decision the supervisor
//! makes over them — bounded-retry starting, exit classification and
//! restart policy, startup validation, signal routing, configuration
//! reconciliation, and the interactive command surface. Everything here is
//! a function from plain values to plain values; the surrounding runtime
//! spawns, signals and waits on the real children and feeds back what it
//! observed.

pub mod commands;
pub mod launcher;
pub mod program;
pub mod record;
pub mod reaper;
pub mod reconcile;
pub mod registry;
pub mod signals;
pub mod starter;
pub mod strutil;
pub mod supervisor;
pub mod table;

use vstd::prelude::*;

verus! {

/// Seconds between the spawn timestamp `start_time` and the instant `now`;
/// a clock reading earlier than the spawn counts as no time elapsed.
pub open spec fn spec_elapsed(start_time: u64, now: u64) -> int {
    if now >= start_time {
        now - start_time
    } else {
        0
    }
}

/// Seconds elapsed since `start_time` at the monotonic instant `now`;
/// a clock that went backwards reads as zero elapsed time.
pub fn elapsed_secs(start_time: u64, now: u64) -> (r: u64)
    ensures
        r == spec_elapsed(start_time, now),
{
    if now >= start_time {
        now - start_time
    } else {
        0
    }
}

} // verus!
