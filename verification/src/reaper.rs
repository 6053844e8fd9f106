//! Reaper: one tick of the background loop that harvests exited instances,
//! classifies each exit against the program's restart policy, keeps the
//! still-running records (validating their warm-up), and prunes empty lists.
//! The caller polls every child beforehand and feeds the observations in;
//! the respawns owed come back out as counts per program.

use vstd::prelude::*;
use crate::program::Program;
use crate::program::ProgramView;
use crate::record::InstanceRecord;
use crate::record::spec_validate;
use crate::registry::RegEntryView;
use crate::registry::reg_contains;
use crate::registry::reg_lookup;
use crate::spec_elapsed;
use crate::supervisor::Supervisor;
use crate::table::TableEntryView;
use crate::table::TableEntry;
use crate::table::table_unique_names;

verus! {

/// What the caller observed about one child since the last tick.
#[derive(Clone, Copy, Debug)]
pub enum Poll {
    /// The child has exited with this code (`-1` when none was reported).
    Exited { code: i32 },
    /// The child is still running.
    Running,
}

/// Whether the policy of `def` asks for a restart after an exit with `code`
/// that the supervisor did not itself request.
pub open spec fn spec_restart_wanted(def: ProgramView, code: i32) -> bool {
    ||| def.autorestart is Always
    ||| (def.autorestart is Unexpected && !def.exitcodes.contains(code))
}

/// What one entry's sweep leaves behind.
#[verifier::ext_equal]
pub struct SweepOut {
    /// The records still alive, validated, in order.
    pub kept: Seq<InstanceRecord>,
    /// Exit codes to report, one per harvested exit that was not requested.
    pub exits: Seq<i32>,
    /// How many respawns the policy asks for.
    pub restarts: int,
    /// Elapsed seconds of every record that passed its warm-up this tick.
    pub warmups: Seq<u64>,
}

/// The sweep of one record list against its polls: exited records leave the
/// list (requested stops silently, others with an exit report and possibly
/// a restart), running records stay and take a validator tick.
pub open spec fn spec_sweep(
    recs: Seq<InstanceRecord>,
    polls: Seq<Poll>,
    def: ProgramView,
    now: u64,
) -> SweepOut
    decreases recs.len(),
{
    if recs.len() == 0 {
        SweepOut { kept: Seq::empty(), exits: Seq::empty(), restarts: 0, warmups: Seq::empty() }
    } else {
        let prev = spec_sweep(recs.drop_last(), polls.drop_last(), def, now);
        let r = recs.last();
        match polls[recs.len() - 1] {
            Poll::Running => SweepOut {
                kept: prev.kept.push(spec_validate(r, def.starttime, now)),
                exits: prev.exits,
                restarts: prev.restarts,
                warmups: if !r.successfully_started && spec_elapsed(r.start_time, now)
                    >= def.starttime {
                    prev.warmups.push(spec_elapsed(r.start_time, now) as u64)
                } else {
                    prev.warmups
                },
            },
            Poll::Exited { code } => {
                if r.stop_requested {
                    prev
                } else {
                    SweepOut {
                        kept: prev.kept,
                        exits: prev.exits.push(code),
                        restarts: prev.restarts + if spec_restart_wanted(def, code) {
                            1int
                        } else {
                            0int
                        },
                        warmups: prev.warmups,
                    }
                }
            },
        }
    }
}

/// A sweep never keeps more records than it was given.
pub proof fn lemma_sweep_kept_len(
    recs: Seq<InstanceRecord>,
    polls: Seq<Poll>,
    def: ProgramView,
    now: u64,
)
    ensures
        spec_sweep(recs, polls, def, now).kept.len() <= recs.len(),
        spec_sweep(recs, polls, def, now).restarts >= 0,
    decreases recs.len(),
{
    if recs.len() > 0 {
        lemma_sweep_kept_len(recs.drop_last(), polls.drop_last(), def, now);
    }
}

/// A record whose stop was requested and whose child has exited contributes
/// nothing to a sweep: no restart, no exit report, no kept record. The
/// reaper treats the list as if the record were already gone.
pub proof fn lemma_stop_requested_never_restarted(
    recs: Seq<InstanceRecord>,
    polls: Seq<Poll>,
    def: ProgramView,
    now: u64,
    i: int,
)
    requires
        recs.len() == polls.len(),
        0 <= i < recs.len(),
        recs[i].stop_requested,
        polls[i] is Exited,
    ensures
        spec_sweep(recs, polls, def, now) == spec_sweep(
            recs.remove(i),
            polls.remove(i),
            def,
            now,
        ),
    decreases recs.len(),
{
    if i == recs.len() - 1 {
        assert(recs.remove(i) =~= recs.drop_last());
        assert(polls.remove(i) =~= polls.drop_last());
    } else {
        lemma_stop_requested_never_restarted(
            recs.drop_last(),
            polls.drop_last(),
            def,
            now,
            i,
        );
        assert(recs.remove(i).drop_last() =~= recs.drop_last().remove(i));
        assert(polls.remove(i).drop_last() =~= polls.drop_last().remove(i));
        assert(recs.remove(i).last() == recs.last());
        assert(polls.remove(i)[recs.remove(i).len() - 1] == polls[recs.len() - 1]);
    }
}

/// Every record a sweep keeps is the validator's image of one of the
/// records swept: together with the validator's own guarantee, a record
/// shown as successfully started after a tick either carried the flag
/// before or had lived at least `starttime` seconds by `now`.
pub proof fn lemma_sweep_kept_are_validated(
    recs: Seq<InstanceRecord>,
    polls: Seq<Poll>,
    def: ProgramView,
    now: u64,
)
    ensures
        forall|k: int|
            0 <= k < spec_sweep(recs, polls, def, now).kept.len() ==> exists|j: int|
                0 <= j < recs.len() && (#[trigger] spec_sweep(recs, polls, def, now).kept[k])
                    == spec_validate(recs[j], def.starttime, now),
    decreases recs.len(),
{
    if recs.len() > 0 {
        lemma_sweep_kept_are_validated(recs.drop_last(), polls.drop_last(), def, now);
        let head = recs.drop_last();
        assert(forall|j: int| 0 <= j < head.len() ==> #[trigger] head[j] == recs[j]);
        let sw = spec_sweep(recs, polls, def, now);
        let prev = spec_sweep(head, polls.drop_last(), def, now);
        assert forall|k: int| 0 <= k < sw.kept.len() implies exists|j: int|
            0 <= j < recs.len() && (#[trigger] sw.kept[k]) == spec_validate(
                recs[j],
                def.starttime,
                now,
            ) by {
            if k < prev.kept.len() {
                assert(sw.kept[k] == prev.kept[k]);
            } else {
                assert(sw.kept[k] == spec_validate(recs[recs.len() - 1], def.starttime, now));
            }
        }
    }
}

/// Under the `unexpected` policy an expected exit code asks for no restart.
pub proof fn lemma_expected_exit_no_restart(def: ProgramView, code: i32)
    requires
        def.autorestart is Unexpected,
        def.exitcodes.contains(code),
    ensures
        !spec_restart_wanted(def, code),
{
}

/// Under the `unexpected` policy an exit code outside the expected set asks
/// for a restart.
pub proof fn lemma_unexpected_exit_restarts(def: ProgramView, code: i32)
    requires
        def.autorestart is Unexpected,
        !def.exitcodes.contains(code),
    ensures
        spec_restart_wanted(def, code),
{
}

/// What one tick reports for one program, for the caller to log and act on.
#[derive(Debug)]
pub struct ReapReport {
    pub name: String,
    /// Exit codes of the instances harvested without a stop request.
    pub exits: Vec<i32>,
    /// How many respawns the restart policy asks for.
    pub restarts: usize,
    /// Elapsed seconds of the records that passed their warm-up this tick.
    pub warmups: Vec<u64>,
}

/// Mathematical image of a `ReapReport`.
#[verifier::ext_equal]
pub struct ReapReportView {
    pub name: Seq<char>,
    pub exits: Seq<i32>,
    pub restarts: int,
    pub warmups: Seq<u64>,
}

impl View for ReapReport {
    type V = ReapReportView;

    open spec fn view(&self) -> ReapReportView {
        ReapReportView {
            name: self.name@,
            exits: self.exits@,
            restarts: self.restarts as int,
            warmups: self.warmups@,
        }
    }
}

impl DeepView for ReapReport {
    type V = ReapReportView;

    open spec fn deep_view(&self) -> ReapReportView {
        self.view()
    }
}

/// The views of a list of per-entry poll lists.
pub open spec fn polls_views(p: Seq<Vec<Poll>>) -> Seq<Seq<Poll>> {
    p.map_values(|v: Vec<Poll>| v@)
}

/// One whole tick over the table: each entry swept against its polls and
/// the installed definition of its name, entries left empty pruned, and one
/// report per entry, in table order.
pub open spec fn spec_reap(
    table: Seq<TableEntryView>,
    polls: Seq<Seq<Poll>>,
    reg: Seq<RegEntryView>,
    now: u64,
) -> (Seq<TableEntryView>, Seq<ReapReportView>)
    decreases table.len(),
{
    if table.len() == 0 {
        (Seq::empty(), Seq::empty())
    } else {
        let (pt, pr) = spec_reap(table.drop_last(), polls.drop_last(), reg, now);
        let e = table.last();
        let def = reg_lookup(reg, e.name);
        let sw = spec_sweep(e.records, polls.last(), def, now);
        let nt = if sw.kept.len() > 0 {
            pt.push(TableEntryView { name: e.name, records: sw.kept })
        } else {
            pt
        };
        (
            nt,
            pr.push(
                ReapReportView {
                    name: e.name,
                    exits: sw.exits,
                    restarts: sw.restarts,
                    warmups: sw.warmups,
                },
            ),
        )
    }
}

/// A tick keeps the table's shape: every surviving entry keeps a name of
/// the old table, names stay unique, lists stay non-empty and within the
/// installed `numprocs`.
pub proof fn lemma_reap_preserves_shape(
    table: Seq<TableEntryView>,
    polls: Seq<Seq<Poll>>,
    reg: Seq<RegEntryView>,
    now: u64,
)
    requires
        table_unique_names(table),
        forall|i: int| 0 <= i < table.len() ==> reg_contains(reg, #[trigger] table[i].name),
        forall|i: int|
            0 <= i < table.len() ==> (#[trigger] table[i].records.len()) <= reg_lookup(
                reg,
                table[i].name,
            ).numprocs,
    ensures
        ({
            let (nt, reps) = spec_reap(table, polls, reg, now);
            &&& table_unique_names(nt)
            &&& forall|k: int|
                0 <= k < nt.len() ==> exists|j: int|
                    0 <= j < table.len() && (#[trigger] nt[k].name) == table[j].name
            &&& forall|k: int| 0 <= k < nt.len() ==> reg_contains(reg, #[trigger] nt[k].name)
            &&& forall|k: int|
                0 <= k < nt.len() ==> (#[trigger] nt[k].records.len()) <= reg_lookup(
                    reg,
                    nt[k].name,
                ).numprocs
            &&& forall|k: int| 0 <= k < nt.len() ==> (#[trigger] nt[k].records.len()) >= 1
            &&& reps.len() == table.len()
        }),
    decreases table.len(),
{
    if table.len() > 0 {
        let head = table.drop_last();
        lemma_reap_preserves_shape(head, polls.drop_last(), reg, now);
        let (pt, pr) = spec_reap(head, polls.drop_last(), reg, now);
        let e = table.last();
        let def = reg_lookup(reg, e.name);
        let sw = spec_sweep(e.records, polls.last(), def, now);
        lemma_sweep_kept_len(e.records, polls.last(), def, now);
        let (nt, reps) = spec_reap(table, polls, reg, now);
        assert(forall|i: int| 0 <= i < head.len() ==> #[trigger] head[i] == table[i]);
        assert(e == table[table.len() - 1]);
        assert(reg_contains(reg, e.name));
        if sw.kept.len() > 0 {
            assert(forall|k: int|
                0 <= k < pt.len() ==> exists|j: int|
                    0 <= j < head.len() && (#[trigger] pt[k].name) == head[j].name);
            assert(forall|k: int| 0 <= k < pt.len() ==> #[trigger] nt[k] == pt[k]);
            assert(nt[nt.len() - 1].name == e.name);
            assert forall|k: int| 0 <= k < pt.len() implies (#[trigger] pt[k].name) != e.name by {
                let j = choose|j: int| 0 <= j < head.len() && pt[k].name == head[j].name;
                assert(table[j].name != table[table.len() - 1].name);
            }
        }
    }
}

impl Supervisor {
    /// One reaper tick. `polls` must mirror the table: one poll list per
    /// entry, one poll per record, in order. Exited records leave their
    /// lists (silently when their stop was requested), running records are
    /// validated, empty lists are pruned, and one report per old entry says
    /// what to log and how many respawns each program is owed.
    pub fn reap_tick(&mut self, polls: &Vec<Vec<Poll>>, now: u64) -> (reports: Vec<ReapReport>)
        requires
            old(self).wf(),
            polls@.len() == old(self).table@.len(),
            forall|i: int|
                0 <= i < polls@.len() ==> (#[trigger] polls@[i]@).len() == old(
                    self,
                ).table@[i].records.len(),
        ensures
            final(self).wf(),
            final(self).registry@ == old(self).registry@,
            ({
                let (nt, reps) = spec_reap(
                    old(self).table@,
                    polls_views(polls@),
                    old(self).registry@,
                    now,
                );
                &&& final(self).table@ == nt
                &&& reports.deep_view() == reps
            }),
    {
        let ghost old_table = self.table@;
        let ghost reg = self.registry@;
        let ghost pv = polls_views(polls@);
        let n = self.table.len();
        let mut new_entries: Vec<TableEntry> = Vec::new();
        let mut reports: Vec<ReapReport> = Vec::new();
        let mut i: usize = 0;
        proof {
            assert(old_table.take(0) =~= Seq::<TableEntryView>::empty());
            assert(pv.take(0) =~= Seq::<Seq<Poll>>::empty());
            assert(new_entries.deep_view() =~= Seq::<TableEntryView>::empty());
            assert(reports.deep_view() =~= Seq::<ReapReportView>::empty());
        }
        while i < n
            invariant
                self.wf(),
                self.table@ == old_table,
                self.registry@ == reg,
                pv == polls_views(polls@),
                n == old_table.len(),
                polls@.len() == n,
                forall|k: int|
                    0 <= k < n ==> (#[trigger] polls@[k]@).len() == old_table[k].records.len(),
                i <= n,
                ({
                    let (nt, reps) = spec_reap(old_table.take(i as int), pv.take(i as int), reg, now);
                    &&& new_entries.deep_view() == nt
                    &&& reports.deep_view() == reps
                }),
            decreases n - i,
        {
            let ghost t_prefix = old_table.take(i as int);
            let ghost p_prefix = pv.take(i as int);
            let ghost entries_before = new_entries.deep_view();
            let ghost reports_before = reports.deep_view();
            let name = self.table.name_at(i).clone();
            proof {
                assert(reg_contains(reg, old_table[i as int].name));
            }
            let def = match self.registry.get(name.as_str()) {
                Some(d) => d,
                None => unreached(),
            };
            let m = self.table.records_len_at(i);
            let row = &polls[i];
            let ghost def_v = reg_lookup(reg, old_table[i as int].name);
            let ghost recs = old_table[i as int].records;
            let mut kept: Vec<InstanceRecord> = Vec::new();
            let mut exits: Vec<i32> = Vec::new();
            let mut restarts: usize = 0;
            let mut warmups: Vec<u64> = Vec::new();
            let mut j: usize = 0;
            proof {
                assert(recs.take(0) =~= Seq::<InstanceRecord>::empty());
                assert(row@.take(0) =~= Seq::<Poll>::empty());
            }
            while j < m
                invariant
                    m == recs.len(),
                    row@.len() == m,
                    j <= m,
                    self.wf(),
                    self.table@ == old_table,
                    i < old_table.len(),
                    recs == old_table[i as int].records,
                    row@ == pv[i as int],
                    0 <= i < pv.len(),
                    def_v == reg_lookup(reg, old_table[i as int].name),
                    def@ == def_v,
                    restarts <= j,
                    ({
                        let sw = spec_sweep(recs.take(j as int), row@.take(j as int), def_v, now);
                        &&& kept@ == sw.kept
                        &&& exits@ == sw.exits
                        &&& restarts as int == sw.restarts
                        &&& warmups@ == sw.warmups
                    }),
                decreases m - j,
            {
                let rec = self.table.record_at(i, j);
                proof {
                    assert(recs.take(j as int + 1).drop_last() =~= recs.take(j as int));
                    assert(row@.take(j as int + 1).drop_last() =~= row@.take(j as int));
                    assert(recs.take(j as int + 1).last() == recs[j as int]);
                    assert(row@.take(j as int + 1)[recs.take(j as int + 1).len() - 1] == row@[j as int]);
                }
                match row[j] {
                    Poll::Running => {
                        let mut v = rec;
                        let warmed = v.check_running_time(def.starttime, now);
                        kept.push(v);
                        if let Some(elapsed) = warmed {
                            warmups.push(elapsed);
                        }
                    },
                    Poll::Exited { code } => {
                        if !rec.stop_requested {
                            exits.push(code);
                            if restart_wanted(def, code) {
                                restarts = restarts + 1;
                            }
                        }
                    },
                }
                j += 1;
            }
            proof {
                assert(recs.take(m as int) =~= recs);
                assert(row@.take(m as int) =~= row@);
            }
            if kept.len() > 0 {
                new_entries.push(TableEntry { name: name.clone(), records: kept });
                proof {
                    assert(new_entries.deep_view() =~= entries_before.push(
                        TableEntryView {
                            name: old_table[i as int].name,
                            records: spec_sweep(recs, row@, def_v, now).kept,
                        },
                    ));
                }
            }
            reports.push(ReapReport { name, exits, restarts, warmups });
            proof {
                let sw = spec_sweep(recs, row@, def_v, now);
                assert(reports.deep_view() =~= reports_before.push(
                    ReapReportView {
                        name: old_table[i as int].name,
                        exits: sw.exits,
                        restarts: sw.restarts,
                        warmups: sw.warmups,
                    },
                ));
                assert(old_table.take(i as int + 1).drop_last() =~= t_prefix);
                assert(pv.take(i as int + 1).drop_last() =~= p_prefix);
                assert(old_table.take(i as int + 1).last() == old_table[i as int]);
                assert(pv.take(i as int + 1).last() == row@);
            }
            i += 1;
        }
        proof {
            assert(old_table.take(n as int) =~= old_table);
            assert(pv.take(n as int) =~= pv);
        }
        self.table.entries = new_entries;
        proof {
            lemma_reap_preserves_shape(old_table, pv, reg, now);
        }
        reports
    }
}

/// Whether `code` is among the expected exit codes.
fn code_expected(codes: &Vec<i32>, code: i32) -> (r: bool)
    ensures
        r == codes@.contains(code),
{
    let n = codes.len();
    let mut i: usize = 0;
    while i < n
        invariant
            n == codes@.len(),
            i <= n,
            forall|k: int| 0 <= k < i ==> codes@[k] != code,
        decreases n - i,
    {
        if codes[i] == code {
            return true;
        }
        i += 1;
    }
    false
}

/// Whether the restart policy of `def` asks for a respawn after an
/// unrequested exit with `code`.
pub fn restart_wanted(def: &Program, code: i32) -> (r: bool)
    ensures
        r == spec_restart_wanted(def@, code),
{
    match def.autorestart {
        crate::program::AutoRestart::Always => true,
        crate::program::AutoRestart::Unexpected => !code_expected(&def.exitcodes, code),
        crate::program::AutoRestart::Never => false,
    }
}

} // verus!
