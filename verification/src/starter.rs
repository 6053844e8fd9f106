//! Starter: the bounded-retry machine that brings `numprocs` instances of
//! one program up, one spawn attempt at a time. The caller performs each
//! spawn and feeds the outcome back; the machine owns every decision: when
//! to retry, when to give an index up, and when it is done.

use vstd::prelude::*;
use crate::program::Program;
use crate::record::InstanceRecord;
use crate::record::spec_validate;
use crate::spec_elapsed;

verus! {

/// What the starter reports while it runs, in order.
#[derive(Clone, Copy, Debug, PartialEq, Eq, Structural)]
pub enum StartEvent {
    /// Instance `index` was spawned.
    Started { index: u32 },
    /// Instance `index` passed its warm-up window right away (`elapsed`
    /// seconds after its spawn timestamp).
    WarmedUp { index: u32, elapsed: u64 },
    /// A spawn of instance `index` failed and attempt `next_attempt` of
    /// `startretries` comes next.
    Retry { index: u32, next_attempt: u32 },
    /// Instance `index` was given up after `startretries` failed attempts.
    Failed { index: u32 },
}

/// One spawn attempt's outcome, as the caller observed it.
#[derive(Clone, Copy, Debug)]
pub enum SpawnOutcome {
    /// The child is up: its fresh record, and the timestamp of the first
    /// validator look at it.
    Spawned { rec: InstanceRecord, now: u64 },
    /// The spawn failed.
    SpawnFailed,
}

/// Mathematical image of a `Starter`.
#[verifier::ext_equal]
pub struct StarterView {
    pub name: Seq<char>,
    pub numprocs: u32,
    pub startretries: u32,
    pub starttime: u32,
    pub index: int,
    pub attempts: int,
    pub records: Seq<InstanceRecord>,
    pub log: Seq<StartEvent>,
}

/// What the caller should do next for a starter in state `st`.
#[derive(Clone, Copy, Debug, PartialEq, Eq, Structural)]
pub enum StartDirective {
    /// Attempt to spawn instance `index`.
    Spawn { index: u32 },
    /// No attempt is allowed for instance `index` (a zero retry budget):
    /// record the failure and move on.
    Exhausted { index: u32 },
    /// Every index has been dealt with.
    Done,
}

/// The starter fresh from a definition: at index zero, nothing attempted.
pub open spec fn spec_starter_init(name: Seq<char>, def: crate::program::ProgramView) -> StarterView {
    StarterView {
        name,
        numprocs: def.numprocs,
        startretries: def.startretries,
        starttime: def.starttime,
        index: 0,
        attempts: 0,
        records: Seq::empty(),
        log: Seq::empty(),
    }
}

/// The directive for state `st`.
pub open spec fn spec_directive(st: StarterView) -> StartDirective {
    if st.index >= st.numprocs {
        StartDirective::Done
    } else if st.attempts < st.startretries {
        StartDirective::Spawn { index: st.index as u32 }
    } else {
        StartDirective::Exhausted { index: st.index as u32 }
    }
}

/// State change for a successful spawn at `st.index`: the fresh record is
/// validated once right away (an empty warm-up window passes immediately,
/// and that is reported), the record is kept, and the machine moves to the
/// next index with a fresh attempt budget.
pub open spec fn spec_on_ok(st: StarterView, rec: InstanceRecord, now: u64) -> StarterView {
    let validated = spec_validate(rec, st.starttime, now);
    let log1 = if !rec.successfully_started && spec_elapsed(rec.start_time, now) >= st.starttime {
        st.log.push(
            StartEvent::WarmedUp {
                index: st.index as u32,
                elapsed: spec_elapsed(rec.start_time, now) as u64,
            },
        )
    } else {
        st.log
    };
    StarterView {
        index: st.index + 1,
        attempts: 0,
        records: st.records.push(validated),
        log: log1.push(StartEvent::Started { index: st.index as u32 }),
        ..st
    }
}

/// State change for a failed spawn at `st.index`: retry while attempts are
/// left, otherwise give the index up and move on.
pub open spec fn spec_on_err(st: StarterView) -> StarterView {
    if st.attempts + 1 < st.startretries {
        StarterView {
            attempts: st.attempts + 1,
            log: st.log.push(
                StartEvent::Retry {
                    index: st.index as u32,
                    next_attempt: (st.attempts + 2) as u32,
                },
            ),
            ..st
        }
    } else {
        StarterView {
            index: st.index + 1,
            attempts: 0,
            log: st.log.push(StartEvent::Failed { index: st.index as u32 }),
            ..st
        }
    }
}

/// State change when no attempt is allowed at all (`startretries == 0`):
/// the index is given up without a spawn.
pub open spec fn spec_on_exhausted(st: StarterView) -> StarterView {
    StarterView {
        index: st.index + 1,
        attempts: 0,
        log: st.log.push(StartEvent::Failed { index: st.index as u32 }),
        ..st
    }
}

/// The inner bounds every reachable starter state keeps.
pub open spec fn starter_wf_view(st: StarterView) -> bool {
    &&& 0 <= st.index <= st.numprocs
    &&& 0 <= st.attempts <= st.startretries
    &&& st.records.len() <= st.index
}

/// The whole run of a starter over a sequence of spawn outcomes: steps
/// consume one outcome per spawn attempt, exhausted indices consume none,
/// and the run stops when the machine is done or the outcomes run out.
pub open spec fn spec_starter_run(st: StarterView, outs: Seq<SpawnOutcome>) -> StarterView
    decreases st.numprocs - st.index, st.startretries - st.attempts, outs.len(),
        when st.index <= st.numprocs && st.attempts <= st.startretries
{
    if st.index >= st.numprocs {
        st
    } else if st.attempts >= st.startretries {
        spec_starter_run(spec_on_exhausted(st), outs)
    } else if outs.len() == 0 {
        st
    } else {
        match outs[0] {
            SpawnOutcome::Spawned { rec, now } => spec_starter_run(
                spec_on_ok(st, rec, now),
                outs.drop_first(),
            ),
            SpawnOutcome::SpawnFailed => spec_starter_run(spec_on_err(st), outs.drop_first()),
        }
    }
}

/// The retry machine for one program, as executable state.
#[derive(Debug)]
pub struct Starter {
    pub name: String,
    pub numprocs: u32,
    pub startretries: u32,
    pub starttime: u32,
    pub index: u32,
    pub attempts: u32,
    pub records: Vec<InstanceRecord>,
    pub log: Vec<StartEvent>,
}

impl View for Starter {
    type V = StarterView;

    open spec fn view(&self) -> StarterView {
        StarterView {
            name: self.name@,
            numprocs: self.numprocs,
            startretries: self.startretries,
            starttime: self.starttime,
            index: self.index as int,
            attempts: self.attempts as int,
            records: self.records@,
            log: self.log@,
        }
    }
}

impl DeepView for Starter {
    type V = StarterView;

    open spec fn deep_view(&self) -> StarterView {
        self.view()
    }
}

impl Starter {
    /// The bounds kept across every transition.
    pub open spec fn wf(&self) -> bool {
        starter_wf_view(self@)
    }

    /// A starter for `numprocs` instances of the named program.
    pub fn new(name: &String, def: &Program) -> (s: Starter)
        ensures
            s@ == spec_starter_init(name@, def@),
            s.wf(),
    {
        let s = Starter {
            name: name.clone(),
            numprocs: def.numprocs,
            startretries: def.startretries,
            starttime: def.starttime,
            index: 0,
            attempts: 0,
            records: Vec::new(),
            log: Vec::new(),
        };
        proof {
            assert(s@ =~= spec_starter_init(name@, def@));
        }
        s
    }

    /// What to do next.
    pub fn directive(&self) -> (d: StartDirective)
        ensures
            d == spec_directive(self@),
    {
        if self.index >= self.numprocs {
            StartDirective::Done
        } else if self.attempts < self.startretries {
            StartDirective::Spawn { index: self.index }
        } else {
            StartDirective::Exhausted { index: self.index }
        }
    }

    /// Feeds back a successful spawn of the current index: keeps the record
    /// (validated once right away) and moves on. Returns the elapsed seconds
    /// to report when the record passed its warm-up window immediately.
    pub fn on_spawn_ok(&mut self, rec: InstanceRecord, now: u64) -> (warmed: Option<u64>)
        requires
            old(self).wf(),
            spec_directive(old(self)@) == (StartDirective::Spawn { index: old(self).index }),
        ensures
            final(self)@ == spec_on_ok(old(self)@, rec, now),
            final(self).wf(),
            warmed is Some <==> (!rec.successfully_started && spec_elapsed(rec.start_time, now)
                >= old(self).starttime),
            warmed is Some ==> warmed->0 == spec_elapsed(rec.start_time, now),
    {
        let mut validated = rec;
        let warmed = validated.check_running_time(self.starttime, now);
        if let Some(elapsed) = warmed {
            self.log.push(StartEvent::WarmedUp { index: self.index, elapsed });
        }
        self.records.push(validated);
        self.log.push(StartEvent::Started { index: self.index });
        self.index = self.index + 1;
        self.attempts = 0;
        warmed
    }

    /// Feeds back a failed spawn of the current index. Returns the event to
    /// report: a retry announcement, or the giving-up of this index.
    pub fn on_spawn_err(&mut self) -> (ev: StartEvent)
        requires
            old(self).wf(),
            spec_directive(old(self)@) == (StartDirective::Spawn { index: old(self).index }),
        ensures
            final(self)@ == spec_on_err(old(self)@),
            final(self).wf(),
            ev == final(self)@.log.last(),
    {
        if self.attempts + 1 < self.startretries {
            self.attempts = self.attempts + 1;
            let ev = StartEvent::Retry { index: self.index, next_attempt: self.attempts + 1 };
            self.log.push(ev);
            ev
        } else {
            let ev = StartEvent::Failed { index: self.index };
            self.log.push(ev);
            self.index = self.index + 1;
            self.attempts = 0;
            ev
        }
    }

    /// Gives the current index up without a spawn; only ever directed when
    /// the retry budget is zero.
    pub fn on_exhausted(&mut self) -> (ev: StartEvent)
        requires
            old(self).wf(),
            spec_directive(old(self)@) == (StartDirective::Exhausted { index: old(self).index }),
        ensures
            final(self)@ == spec_on_exhausted(old(self)@),
            final(self).wf(),
            ev == final(self)@.log.last(),
    {
        let ev = StartEvent::Failed { index: self.index };
        self.log.push(ev);
        self.index = self.index + 1;
        self.attempts = 0;
        ev
    }

    /// Whether every index has been dealt with.
    pub fn is_done(&self) -> (r: bool)
        ensures
            r == (spec_directive(self@) == StartDirective::Done),
    {
        self.index >= self.numprocs
    }
}

/// However a run goes, a starter never ends up with more instances than
/// `numprocs`: the bound behind the table's capacity invariant.
pub proof fn lemma_starter_run_capacity(st: StarterView, outs: Seq<SpawnOutcome>)
    requires
        starter_wf_view(st),
    ensures
        starter_wf_view(spec_starter_run(st, outs)),
        spec_starter_run(st, outs).records.len() <= st.numprocs,
        spec_starter_run(st, outs).numprocs == st.numprocs,
    decreases st.numprocs - st.index, st.startretries - st.attempts, outs.len(),
{
    if st.index >= st.numprocs {
    } else if st.attempts >= st.startretries {
        lemma_starter_run_capacity(spec_on_exhausted(st), outs);
    } else if outs.len() == 0 {
    } else {
        match outs[0] {
            SpawnOutcome::Spawned { rec, now } => {
                lemma_starter_run_capacity(spec_on_ok(st, rec, now), outs.drop_first());
            },
            SpawnOutcome::SpawnFailed => {
                lemma_starter_run_capacity(spec_on_err(st), outs.drop_first());
            },
        }
    }
}

/// The record a successful outcome leaves behind: the fresh record after
/// its first validator look.
pub open spec fn spec_outcome_validated(o: SpawnOutcome, starttime: u32) -> InstanceRecord {
    match o {
        SpawnOutcome::Spawned { rec, now } => spec_validate(rec, starttime, now),
        SpawnOutcome::SpawnFailed => crate::record::spec_fresh_record(0, 0),
    }
}

/// When every spawn succeeds and one outcome is supplied per missing index,
/// the run ends done, holding exactly the records those spawns produced —
/// for a fresh starter, `numprocs` fresh instances: what a start of a
/// program owes when nothing fails.
pub proof fn lemma_starter_run_all_success(st: StarterView, outs: Seq<SpawnOutcome>)
    requires
        starter_wf_view(st),
        st.attempts < st.startretries || st.index == st.numprocs,
        outs.len() == st.numprocs - st.index,
        forall|i: int| 0 <= i < outs.len() ==> outs[i] is Spawned,
    ensures
        spec_starter_run(st, outs).index == st.numprocs,
        spec_starter_run(st, outs).records == st.records + outs.map_values(
            |o: SpawnOutcome| spec_outcome_validated(o, st.starttime),
        ),
    decreases outs.len(),
{
    let f = |o: SpawnOutcome| spec_outcome_validated(o, st.starttime);
    if st.index == st.numprocs {
        assert(spec_starter_run(st, outs).records =~= st.records + outs.map_values(f));
    } else {
        let next = match outs[0] {
            SpawnOutcome::Spawned { rec, now } => spec_on_ok(st, rec, now),
            SpawnOutcome::SpawnFailed => st,
        };
        assert(outs[0] is Spawned);
        assert(forall|i: int| 0 <= i < outs.drop_first().len() ==> outs.drop_first()[i]
            == outs[i + 1]);
        lemma_starter_run_all_success(next, outs.drop_first());
        assert(next.starttime == st.starttime);
        assert(spec_starter_run(st, outs).records == next.records + outs.drop_first().map_values(
            |o: SpawnOutcome| spec_outcome_validated(o, next.starttime),
        ));
        assert(next.records + outs.drop_first().map_values(f) =~= st.records + outs.map_values(f));
    }
}

/// A program that wants no instances gets none: the starter for
/// `numprocs == 0` is done at once and records nothing, whatever outcomes
/// are on offer.
pub proof fn lemma_starter_run_zero_numprocs(st: StarterView, outs: Seq<SpawnOutcome>)
    requires
        st.numprocs == 0,
        starter_wf_view(st),
    ensures
        spec_starter_run(st, outs) == st,
{
}

/// With a retry budget of one, a single failed spawn settles an only index:
/// the run makes exactly that one attempt, keeps nothing, and reports one
/// failure and nothing else.
pub proof fn lemma_starter_single_retry_failure(name: Seq<char>, def: crate::program::ProgramView)
    requires
        def.numprocs == 1,
        def.startretries == 1,
    ensures
        ({
            let end = spec_starter_run(
                spec_starter_init(name, def),
                seq![SpawnOutcome::SpawnFailed],
            );
            &&& end.records.len() == 0
            &&& end.log == seq![StartEvent::Failed { index: 0u32 }]
            &&& end.index == 1
        }),
{
    let st = spec_starter_init(name, def);
    let outs = seq![SpawnOutcome::SpawnFailed];
    assert(outs[0] is SpawnFailed);
    assert(outs.drop_first().len() == 0);
    assert(spec_starter_run(st, outs) == spec_starter_run(spec_on_err(st), outs.drop_first()));
    assert(spec_on_err(st).index == 1);
    assert(spec_on_err(st).log =~= seq![StartEvent::Failed { index: 0u32 }]);
}

} // verus!
