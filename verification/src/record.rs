//! Per-instance lifecycle records: one per spawned child process, owned by
//! the instance table, mutated by the startup validator and by stop requests.

use vstd::prelude::*;
use crate::spec_elapsed;
use crate::elapsed_secs;

verus! {

/// Runtime record of one spawned instance. The child handle itself lives
/// outside the supervisor core; `id` ties the record to it.
#[derive(Clone, Copy, Debug)]
pub struct InstanceRecord {
    /// Caller-chosen handle identifying the child process of this instance.
    pub id: u64,
    /// Monotonic timestamp, in seconds, captured right after the spawn.
    pub start_time: u64,
    /// Set once the instance has lived past the warm-up window.
    pub successfully_started: bool,
    /// Set when the supervisor ordered this instance stopped; the reaper
    /// never restarts such a record.
    pub stop_requested: bool,
    /// Monotonic timestamp of the stop request, if one was made.
    pub time_stopped_at: Option<u64>,
}

/// The record produced for a fresh spawn: not yet validated, not stopped.
pub open spec fn spec_fresh_record(id: u64, start_time: u64) -> InstanceRecord {
    InstanceRecord {
        id,
        start_time,
        successfully_started: false,
        stop_requested: false,
        time_stopped_at: None,
    }
}

/// The record after one startup-validator tick at time `now` for a program
/// whose warm-up window is `starttime` seconds: the flag flips exactly when
/// it was still clear and the instance has lived at least `starttime` seconds.
pub open spec fn spec_validate(r: InstanceRecord, starttime: u32, now: u64) -> InstanceRecord {
    if !r.successfully_started && spec_elapsed(r.start_time, now) >= starttime {
        InstanceRecord { successfully_started: true, ..r }
    } else {
        r
    }
}

/// The record after the supervisor requested its stop at time `now`.
pub open spec fn spec_stopped(r: InstanceRecord, now: u64) -> InstanceRecord {
    InstanceRecord { stop_requested: true, time_stopped_at: Some(now), ..r }
}

impl InstanceRecord {
    /// Record for a child that was just spawned.
    pub fn fresh(id: u64, start_time: u64) -> (r: InstanceRecord)
        ensures
            r == spec_fresh_record(id, start_time),
    {
        InstanceRecord {
            id,
            start_time,
            successfully_started: false,
            stop_requested: false,
            time_stopped_at: None,
        }
    }

    /// Startup validator: flips `successfully_started` the first time the
    /// instance has lived at least `starttime` seconds, and reports the flip
    /// together with the elapsed seconds, so the caller can log it.
    /// Idempotent: once the flag is set, later calls change nothing.
    pub fn check_running_time(&mut self, starttime: u32, now: u64) -> (flip: Option<u64>)
        ensures
            *final(self) == spec_validate(*old(self), starttime, now),
            flip is Some <==> (!old(self).successfully_started
                && spec_elapsed(old(self).start_time, now) >= starttime),
            flip is Some ==> flip->0 == spec_elapsed(old(self).start_time, now),
    {
        let elapsed = elapsed_secs(self.start_time, now);
        if !self.successfully_started && elapsed >= starttime as u64 {
            self.successfully_started = true;
            Some(elapsed)
        } else {
            None
        }
    }

    /// Marks this record as stopped on behalf of the user or a signal,
    /// remembering when; the reaper will not restart it.
    pub fn mark_stopped(&mut self, now: u64)
        ensures
            *final(self) == spec_stopped(*old(self), now),
    {
        self.stop_requested = true;
        self.time_stopped_at = Some(now);
    }
}

/// The warm-up flag is only ever raised by the validator, and only once the
/// instance has lived at least `starttime` seconds; a record that comes out
/// of a validator tick with the flag raised either had it already or has
/// lived that long.
pub proof fn lemma_validate_flag_means_lived(r: InstanceRecord, starttime: u32, now: u64)
    ensures
        spec_validate(r, starttime, now).successfully_started ==> (r.successfully_started
            || spec_elapsed(r.start_time, now) >= starttime),
{
}

/// With an empty warm-up window (`starttime == 0`), the first validator tick
/// after the spawn raises the flag.
pub proof fn lemma_validate_zero_starttime(r: InstanceRecord, now: u64)
    ensures
        spec_validate(r, 0, now).successfully_started,
{
}

} // verus!
