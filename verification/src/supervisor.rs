//! The supervisor state: the program registry and the instance table,
//! together with the shape they keep under the supervisory lock, and the
//! operations of the command surface that mutate them.

use vstd::prelude::*;
use crate::program::Program;
use crate::record::InstanceRecord;
use crate::record::spec_stopped;
use crate::registry::Registry;
use crate::registry::reg_contains;
use crate::registry::reg_lookup;
use crate::registry::RegEntryView;
use crate::starter::Starter;
use crate::starter::StarterView;
use crate::starter::spec_starter_init;
use crate::starter::starter_wf_view;
use crate::starter::spec_directive;
use crate::starter::StartDirective;
use crate::table::InstanceTable;
use crate::table::TableEntry;
use crate::table::TableEntryView;
use crate::table::table_contains;
use crate::table::table_index_of;
use crate::table::table_lookup;

verus! {

/// What `status` reports for one name.
#[derive(Clone, Copy, Debug, PartialEq, Eq, Structural)]
pub enum ProgramStatus {
    /// The name has live instances, and how many.
    Running { count: usize },
    /// The name has an entry whose list is empty.
    Exited,
    /// The name has no entry at all.
    NotRunning,
}

/// The status of `name` as a function of the instance table alone.
pub open spec fn spec_status(t: Seq<TableEntryView>, name: Seq<char>) -> ProgramStatus {
    if table_contains(t, name) {
        if table_lookup(t, name).len() == 0 {
            ProgramStatus::Exited
        } else {
            ProgramStatus::Running { count: table_lookup(t, name).len() as usize }
        }
    } else {
        ProgramStatus::NotRunning
    }
}

/// Whether the registry entry `e` calls for a start: it wants autostart and
/// the table has no entry for it.
pub open spec fn spec_needs_start(e: RegEntryView, table: Seq<TableEntryView>) -> bool {
    e.def.autostart && !table_contains(table, e.name)
}

/// The starters owed after a boot or a reload: one per autostart program
/// without live instances, in registry order.
pub open spec fn spec_autostart_plan(
    reg: Seq<RegEntryView>,
    table: Seq<TableEntryView>,
) -> Seq<StarterView> {
    reg.filter(|e: RegEntryView| spec_needs_start(e, table)).map_values(
        |e: RegEntryView| spec_starter_init(e.name, e.def),
    )
}

/// One line of the `status` report.
#[derive(Debug)]
pub struct StatusLine {
    pub name: String,
    pub status: ProgramStatus,
}

/// The registry and instance table that every task shares under the
/// supervisory lock.
#[derive(Debug)]
pub struct Supervisor {
    pub registry: Registry,
    pub table: InstanceTable,
}

impl Supervisor {
    /// The shape kept under the lock: unique names on both sides, every
    /// table entry backed by a registry entry, no empty lists, and never
    /// more instances than the definition asks for.
    pub open spec fn wf(&self) -> bool {
        &&& self.registry.wf()
        &&& self.table.wf()
        &&& forall|i: int|
            0 <= i < self.table@.len() ==> reg_contains(
                self.registry@,
                #[trigger] self.table@[i].name,
            )
        &&& forall|i: int|
            0 <= i < self.table@.len() ==> (#[trigger] self.table@[i].records.len())
                <= reg_lookup(self.registry@, self.table@[i].name).numprocs
        &&& forall|i: int| 0 <= i < self.table@.len() ==> (#[trigger] self.table@[i].records.len()) >= 1
    }

    /// A supervisor over `registry` with nothing running yet.
    pub fn new(registry: Registry) -> (s: Supervisor)
        requires
            registry.wf(),
        ensures
            s.wf(),
            s.registry@ == registry@,
            s.table@ == Seq::<TableEntryView>::empty(),
    {
        Supervisor { registry, table: InstanceTable::new() }
    }

    /// The status of `name`: a pure observation of the table.
    pub fn status_of(&self, name: &str) -> (st: ProgramStatus)
        requires
            self.wf(),
        ensures
            st == spec_status(self.table@, name@),
    {
        match self.table.find(name) {
            Some(i) => {
                proof {
                    self.table.lemma_found_is_index(i as int, name@);
                }
                let n = self.table.records_len_at(i);
                if n == 0 {
                    ProgramStatus::Exited
                } else {
                    ProgramStatus::Running { count: n }
                }
            },
            None => ProgramStatus::NotRunning,
        }
    }

    /// The whole `status` report: one line per installed program, in
    /// registry order, each carrying that program's status.
    pub fn status_all(&self) -> (lines: Vec<StatusLine>)
        requires
            self.wf(),
        ensures
            lines@.len() == self.registry@.len(),
            forall|i: int|
                0 <= i < lines@.len() ==> (#[trigger] lines@[i].name@) == self.registry@[i].name
                    && lines@[i].status == spec_status(self.table@, self.registry@[i].name),
    {
        let n = self.registry.len();
        let mut lines: Vec<StatusLine> = Vec::new();
        let mut i: usize = 0;
        while i < n
            invariant
                self.wf(),
                n == self.registry@.len(),
                i <= n,
                lines@.len() == i,
                forall|k: int|
                    0 <= k < i ==> (#[trigger] lines@[k].name@) == self.registry@[k].name
                        && lines@[k].status == spec_status(self.table@, self.registry@[k].name),
            decreases n - i,
        {
            let name = self.registry.name_at(i).clone();
            let status = self.status_of(name.as_str());
            lines.push(StatusLine { name, status });
            i += 1;
        }
        lines
    }

    /// The starters owed now: one per autostart program without an entry in
    /// the table. Every starter starts in its initial state.
    pub fn autostart_plan(&self) -> (plan: Vec<Starter>)
        requires
            self.wf(),
        ensures
            plan.deep_view() == spec_autostart_plan(self.registry@, self.table@),
            forall|k: int| 0 <= k < plan@.len() ==> starter_wf_view(#[trigger] plan@[k]@),
    {
        let ghost pred = |e: RegEntryView| spec_needs_start(e, self.table@);
        let ghost f = |e: RegEntryView| spec_starter_init(e.name, e.def);
        let n = self.registry.len();
        let mut plan: Vec<Starter> = Vec::new();
        let mut i: usize = 0;
        proof {
            reveal(Seq::filter);
            assert(self.registry@.take(0).filter(pred) =~= Seq::<RegEntryView>::empty());
            assert(plan.deep_view() =~= self.registry@.take(0).filter(pred).map_values(f));
        }
        while i < n
            invariant
                self.wf(),
                n == self.registry@.len(),
                i <= n,
                plan.deep_view() == self.registry@.take(i as int).filter(pred).map_values(f),
                pred == (|e: RegEntryView| spec_needs_start(e, self.table@)),
                f == (|e: RegEntryView| spec_starter_init(e.name, e.def)),
                forall|k: int| 0 <= k < plan@.len() ==> starter_wf_view(#[trigger] plan@[k]@),
            decreases n - i,
        {
            let ghost prefix = self.registry@.take(i as int);
            let ghost entry = self.registry@[i as int];
            let ghost plan_before = plan.deep_view();
            let name = self.registry.name_at(i);
            let def = self.registry.def_at(i);
            if def.autostart && !self.table.contains_name(name.as_str()) {
                let st = Starter::new(name, def);
                plan.push(st);
                proof {
                    assert(pred(entry));
                    assert(st@ == f(entry));
                }
            } else {
                proof {
                    assert(!pred(entry));
                }
            }
            proof {
                reveal(Seq::filter);
                assert(self.registry@.take(i as int + 1).drop_last() =~= prefix);
                assert(self.registry@.take(i as int + 1).last() == entry);
                if pred(entry) {
                    assert(self.registry@.take(i as int + 1).filter(pred) =~= prefix.filter(
                        pred,
                    ).push(entry));
                    assert(plan.deep_view() =~= plan_before.push(f(entry)));
                    assert((prefix.filter(pred).push(entry)).map_values(f) =~= prefix.filter(
                        pred,
                    ).map_values(f).push(f(entry)));
                    assert(plan.deep_view() =~= self.registry@.take(i as int + 1).filter(
                        pred,
                    ).map_values(f));
                } else {
                    assert(self.registry@.take(i as int + 1).filter(pred) =~= prefix.filter(pred));
                    assert(plan.deep_view() =~= self.registry@.take(i as int + 1).filter(
                        pred,
                    ).map_values(f));
                }
            }
            i += 1;
        }
        proof {
            assert(self.registry@.take(n as int) =~= self.registry@);
        }
        plan
    }

    /// Installs the instances a finished starter brought up. Refused, and a
    /// no-op, unless the starter is done, its program is still installed,
    /// its list is non-empty, and the count fits the definition: exactly the
    /// cases in which the table keeps its shape.
    pub fn install_started(&mut self, st: Starter) -> (installed: bool)
        requires
            old(self).wf(),
        ensures
            final(self).wf(),
            final(self).registry@ == old(self).registry@,
            installed <==> {
                &&& spec_directive(st@) == StartDirective::Done
                &&& reg_contains(old(self).registry@, st.name@)
                &&& !table_contains(old(self).table@, st.name@)
                &&& st.records@.len() >= 1
                &&& st.records@.len() <= reg_lookup(old(self).registry@, st.name@).numprocs
            },
            installed ==> final(self).table@ == old(self).table@.push(
                TableEntryView { name: st.name@, records: st.records@ },
            ),
            !installed ==> final(self).table@ == old(self).table@,
    {
        if !st.is_done() {
            return false;
        }
        let def = match self.registry.get(st.name.as_str()) {
            Some(def) => def,
            None => {
                return false;
            },
        };
        if st.records.len() == 0 {
            return false;
        }
        if st.records.len() > def.numprocs as usize {
            return false;
        }
        if self.table.contains_name(st.name.as_str()) {
            return false;
        }
        let Starter { name, records, .. } = st;
        let added = self.table.insert_entry(name, records);
        proof {
            assert(added);
            let t = self.table@;
            let j = t.len() - 1;
            assert(forall|i: int|
                0 <= i < j ==> #[trigger] t[i] == old(self).table@[i]);
        }
        true
    }

    /// Removes `name`'s entry, marking every record as stopped at `now`, and
    /// hands the marked records out in order so the caller can kill each
    /// child; `None` when the name has no entry.
    pub fn stop_program(&mut self, name: &str, now: u64) -> (r: Option<Vec<InstanceRecord>>)
        requires
            old(self).wf(),
        ensures
            final(self).wf(),
            final(self).registry@ == old(self).registry@,
            r is Some <==> table_contains(old(self).table@, name@),
            r is None ==> final(self).table@ == old(self).table@,
            r is Some ==> {
                let i = table_index_of(old(self).table@, name@);
                &&& final(self).table@ == old(self).table@.remove(i)
                &&& r->0@ == old(self).table@[i].records.map_values(
                    |rec: InstanceRecord| spec_stopped(rec, now),
                )
            },
    {
        let marked = self.table.mark_all_stopped(name, now);
        match marked {
            Some(_) => {
                let ghost mid = self.table@;
                proof {
                    let i = table_index_of(old(self).table@, name@);
                    assert(0 <= i < old(self).table@.len() && old(self).table@[i].name == name@);
                    assert(mid[i].name == name@);
                    assert(table_contains(mid, name@));
                }
                let entry = self.table.remove_entry(name);
                match entry {
                    Some(e) => {
                        proof {
                            let i = table_index_of(old(self).table@, name@);
                            assert(table_index_of(mid, name@) == i) by {
                                assert(mid[i].name == name@);
                                let j = table_index_of(mid, name@);
                                assert(0 <= j < mid.len() && mid[j].name == name@);
                            }
                            assert(final(self).table@ =~= old(self).table@.remove(i));
                        }
                        Some(e.records)
                    },
                    None => unreached(),
                }
            },
            None => None,
        }
    }

    /// Appends one fresh instance under `name`: the reaper's restart insert,
    /// and the re-insert after a failed kill. Refused, and a no-op, unless
    /// the program is still installed and the count stays within its
    /// definition.
    pub fn push_instance(&mut self, name: &String, rec: InstanceRecord) -> (ok: bool)
        requires
            old(self).wf(),
        ensures
            final(self).wf(),
            final(self).registry@ == old(self).registry@,
            ok <==> {
                &&& reg_contains(old(self).registry@, name@)
                &&& reg_lookup(old(self).registry@, name@).numprocs >= 1
                &&& (table_contains(old(self).table@, name@) ==> table_lookup(
                    old(self).table@,
                    name@,
                ).len() < reg_lookup(old(self).registry@, name@).numprocs)
            },
            ok && table_contains(old(self).table@, name@) ==> {
                let i = table_index_of(old(self).table@, name@);
                final(self).table@ == old(self).table@.update(
                    i,
                    TableEntryView {
                        name: old(self).table@[i].name,
                        records: old(self).table@[i].records.push(rec),
                    },
                )
            },
            ok && !table_contains(old(self).table@, name@) ==> final(self).table@ == old(
                self,
            ).table@.push(TableEntryView { name: name@, records: seq![rec] }),
            !ok ==> final(self).table@ == old(self).table@,
    {
        let def = match self.registry.get(name.as_str()) {
            Some(def) => def,
            None => {
                return false;
            },
        };
        if def.numprocs == 0 {
            return false;
        }
        let numprocs = def.numprocs;
        match self.table.find(name.as_str()) {
            Some(i) => {
                proof {
                    self.table.lemma_found_is_index(i as int, name@);
                }
                let n = self.table.records_len_at(i);
                if n >= numprocs as usize {
                    return false;
                }
                self.table.push_record(name, rec);
                true
            },
            None => {
                self.table.push_record(name, rec);
                true
            },
        }
    }

    /// Marks every record of `name` as stopped at `now`, leaving the records
    /// in place for the reaper to harvest silently, and hands out the child
    /// ids, in order. The start of a graceful stop's window: the caller
    /// forwards the program's stop signal to those ids now, waits `stoptime`
    /// seconds, and only then kills — and an instance that exits meanwhile
    /// is never restarted, since its record carries the stop mark already.
    /// `None` when the name has no entry.
    pub fn apply_graceful_stop(&mut self, name: &str, now: u64) -> (ids: Option<Vec<u64>>)
        requires
            old(self).wf(),
        ensures
            final(self).wf(),
            final(self).registry@ == old(self).registry@,
            ids is Some <==> table_contains(old(self).table@, name@),
            ids is None ==> final(self).table@ == old(self).table@,
            ids is Some ==> {
                let i = table_index_of(old(self).table@, name@);
                &&& final(self).table@ == old(self).table@.update(
                    i,
                    TableEntryView {
                        name: old(self).table@[i].name,
                        records: old(self).table@[i].records.map_values(
                            |rec: InstanceRecord| spec_stopped(rec, now),
                        ),
                    },
                )
                &&& ids->0@ == old(self).table@[i].records.map_values(
                    |rec: InstanceRecord| rec.id,
                )
            },
    {
        self.table.mark_all_stopped(name, now)
    }

    /// Empties the table for shutdown and hands every entry out, in order,
    /// so the caller can kill each child.
    pub fn drain_all(&mut self) -> (entries: Vec<TableEntry>)
        requires
            old(self).wf(),
        ensures
            final(self).wf(),
            final(self).registry@ == old(self).registry@,
            final(self).table@ == Seq::<TableEntryView>::empty(),
            entries.deep_view() == old(self).table@,
    {
        let mut out: Vec<TableEntry> = Vec::new();
        core::mem::swap(&mut out, &mut self.table.entries);
        proof {
            assert(self.table@ =~= Seq::<TableEntryView>::empty());
        }
        out
    }
}

/// Any name with live instances is an installed program, and it never has
/// more instances than its definition's `numprocs`.
pub proof fn lemma_instance_count_bounded(s: Supervisor, name: Seq<char>)
    requires
        s.wf(),
        table_contains(s.table@, name),
    ensures
        reg_contains(s.registry@, name),
        table_lookup(s.table@, name).len() <= reg_lookup(s.registry@, name).numprocs,
{
    let i = table_index_of(s.table@, name);
    assert(0 <= i < s.table@.len() && s.table@[i].name == name);
}

/// The table never holds a name that the registry lacks, and never more
/// instances of a name than its definition's `numprocs`: the shape `wf`
/// carries, spelled out.
pub proof fn lemma_table_within_registry(s: Supervisor)
    requires
        s.wf(),
    ensures
        forall|i: int|
            0 <= i < s.table@.len() ==> reg_contains(s.registry@, #[trigger] s.table@[i].name),
        forall|i: int|
            0 <= i < s.table@.len() ==> (#[trigger] s.table@[i].records.len()) <= reg_lookup(
                s.registry@,
                s.table@[i].name,
            ).numprocs,
{
}

} // verus!
