//! Config reconciler: swapping a freshly parsed registry in, killing the
//! instances of programs that changed or disappeared, and leaving unchanged
//! running programs untouched. The refill of autostart programs afterwards
//! is the same plan a boot uses (`Supervisor::autostart_plan`).

use vstd::prelude::*;
use crate::registry::Registry;
use crate::registry::RegEntryView;
use crate::registry::reg_contains;
use crate::registry::reg_lookup;
use crate::supervisor::Supervisor;
use crate::supervisor::spec_autostart_plan;
use crate::supervisor::spec_needs_start;
use crate::table::TableEntry;
use crate::table::TableEntryView;
use crate::table::table_contains;
use crate::table::table_unique_names;

verus! {

/// Whether a reload from `old_reg` to `new_reg` leaves the entry `e`
/// running: its program must exist in both registries with structurally
/// equal definitions.
pub open spec fn spec_keep_entry(
    e: TableEntryView,
    old_reg: Seq<RegEntryView>,
    new_reg: Seq<RegEntryView>,
) -> bool {
    &&& reg_contains(old_reg, e.name)
    &&& reg_contains(new_reg, e.name)
    &&& reg_lookup(old_reg, e.name) == reg_lookup(new_reg, e.name)
}

/// The table a reload leaves behind: exactly the entries of unchanged,
/// still-installed programs, in their old order.
pub open spec fn spec_reload_table(
    table: Seq<TableEntryView>,
    old_reg: Seq<RegEntryView>,
    new_reg: Seq<RegEntryView>,
) -> Seq<TableEntryView> {
    table.filter(|e: TableEntryView| spec_keep_entry(e, old_reg, new_reg))
}

/// The entries a reload kills: those of changed or removed programs.
pub open spec fn spec_reload_killed(
    table: Seq<TableEntryView>,
    old_reg: Seq<RegEntryView>,
    new_reg: Seq<RegEntryView>,
) -> Seq<TableEntryView> {
    table.filter(|e: TableEntryView| !spec_keep_entry(e, old_reg, new_reg))
}

/// A filter keeps whole entries of the sequence it sifts, never inventing
/// or duplicating a name.
proof fn lemma_table_filter_shape(table: Seq<TableEntryView>, pred: spec_fn(TableEntryView) -> bool)
    requires
        table_unique_names(table),
    ensures
        table_unique_names(table.filter(pred)),
        forall|k: int|
            0 <= k < table.filter(pred).len() ==> exists|j: int|
                0 <= j < table.len() && #[trigger] table.filter(pred)[k] == table[j],
    decreases table.len(),
{
    reveal(Seq::filter);
    if table.len() > 0 {
        let head = table.drop_last();
        lemma_table_filter_shape(head, pred);
        assert(forall|i: int| 0 <= i < head.len() ==> #[trigger] head[i] == table[i]);
        let fh = head.filter(pred);
        if pred(table.last()) {
            let f = table.filter(pred);
            assert(f == fh.push(table.last()));
            assert(forall|k: int| 0 <= k < fh.len() ==> #[trigger] f[k] == fh[k]);
            assert(f[f.len() - 1] == table[table.len() - 1]);
            assert forall|k1: int, k2: int| 0 <= k1 < k2 < f.len() implies f[k1].name
                != f[k2].name by {
                if k2 == f.len() - 1 {
                    let j = choose|j: int| 0 <= j < head.len() && fh[k1] == head[j];
                    assert(table[j].name != table[table.len() - 1].name);
                }
            }
        }
    }
}

/// A filter whose test holds of every entry changes nothing.
proof fn lemma_filter_keeps_all<A>(s: Seq<A>, pred: spec_fn(A) -> bool)
    requires
        forall|i: int| 0 <= i < s.len() ==> pred(#[trigger] s[i]),
    ensures
        s.filter(pred) == s,
    decreases s.len(),
{
    reveal(Seq::filter);
    if s.len() == 0 {
        assert(s.filter(pred) =~= s);
    } else {
        let head = s.drop_last();
        assert(forall|i: int| 0 <= i < head.len() ==> #[trigger] head[i] == s[i]);
        lemma_filter_keeps_all(head, pred);
        assert(s.filter(pred) =~= s);
    }
}

/// A filter whose test holds of no entry keeps nothing.
proof fn lemma_filter_keeps_none<A>(s: Seq<A>, pred: spec_fn(A) -> bool)
    requires
        forall|i: int| 0 <= i < s.len() ==> !pred(#[trigger] s[i]),
    ensures
        s.filter(pred) == Seq::<A>::empty(),
    decreases s.len(),
{
    reveal(Seq::filter);
    if s.len() == 0 {
        assert(s.filter(pred) =~= Seq::<A>::empty());
    } else {
        let head = s.drop_last();
        assert(forall|i: int| 0 <= i < head.len() ==> #[trigger] head[i] == s[i]);
        lemma_filter_keeps_none(head, pred);
        assert(s.filter(pred) =~= Seq::<A>::empty());
    }
}

impl Supervisor {
    /// Reload: installs `new_registry` and reshapes the fleet. Every entry
    /// of a program that changed structurally or is no longer configured is
    /// removed and handed back for its children to be killed, in table
    /// order; unchanged running programs are left untouched. The caller
    /// then asks `autostart_plan` for the refill, as at boot.
    pub fn reload(&mut self, new_registry: Registry) -> (killed: Vec<TableEntry>)
        requires
            old(self).wf(),
            new_registry.wf(),
        ensures
            final(self).wf(),
            final(self).registry@ == new_registry@,
            final(self).table@ == spec_reload_table(
                old(self).table@,
                old(self).registry@,
                new_registry@,
            ),
            killed.deep_view() == spec_reload_killed(
                old(self).table@,
                old(self).registry@,
                new_registry@,
            ),
    {
        let ghost old_reg = self.registry@;
        let ghost new_reg = new_registry@;
        let ghost orig = self.table@;
        let ghost keep_pred = |e: TableEntryView| spec_keep_entry(e, old_reg, new_reg);
        let ghost kill_pred = |e: TableEntryView| !spec_keep_entry(e, old_reg, new_reg);
        let mut old_entries: Vec<TableEntry> = Vec::new();
        core::mem::swap(&mut old_entries, &mut self.table.entries);
        let mut kept: Vec<TableEntry> = Vec::new();
        let mut killed: Vec<TableEntry> = Vec::new();
        let n = old_entries.len();
        let mut i: usize = 0;
        proof {
            reveal(Seq::filter);
            assert(old_entries.deep_view() == orig);
            assert(orig.take(0) =~= Seq::<TableEntryView>::empty());
            assert(kept.deep_view() =~= orig.take(0).filter(keep_pred));
            assert(killed.deep_view() =~= orig.take(0).filter(kill_pred));
        }
        while i < n
            invariant
                n == old_entries@.len(),
                old_entries.deep_view() == orig,
                i <= n,
                self.registry@ == old_reg,
                new_registry@ == new_reg,
                keep_pred == (|e: TableEntryView| spec_keep_entry(e, old_reg, new_reg)),
                kill_pred == (|e: TableEntryView| !spec_keep_entry(e, old_reg, new_reg)),
                kept.deep_view() == orig.take(i as int).filter(keep_pred),
                killed.deep_view() == orig.take(i as int).filter(kill_pred),
                self.registry.wf(),
                new_registry.wf(),
            decreases n - i,
        {
            let ghost kept_before = kept.deep_view();
            let ghost killed_before = killed.deep_view();
            let e = &old_entries[i];
            let keep = match (self.registry.get(e.name.as_str()), new_registry.get(
                e.name.as_str(),
            )) {
                (Some(old_def), Some(new_def)) => old_def.same_def(new_def),
                _ => false,
            };
            proof {
                assert(e@ == orig[i as int]);
                assert(keep == spec_keep_entry(e@, old_reg, new_reg));
            }
            let entry = TableEntry { name: e.name.clone(), records: clone_records(&e.records) };
            proof {
                assert(entry@ == orig[i as int]);
            }
            if keep {
                kept.push(entry);
            } else {
                killed.push(entry);
            }
            proof {
                reveal(Seq::filter);
                assert(orig.take(i as int + 1).drop_last() =~= orig.take(i as int));
                assert(orig.take(i as int + 1).last() == orig[i as int]);
                if keep {
                    assert(kept.deep_view() =~= kept_before.push(orig[i as int]));
                } else {
                    assert(killed.deep_view() =~= killed_before.push(orig[i as int]));
                }
            }
            i += 1;
        }
        proof {
            assert(orig.take(n as int) =~= orig);
        }
        self.registry = new_registry;
        self.table.entries = kept;
        proof {
            lemma_table_filter_shape(orig, keep_pred);
            broadcast use vstd::seq_lib::group_filter_ensures;

            assert forall|k: int| 0 <= k < self.table@.len() implies reg_contains(
                self.registry@,
                #[trigger] self.table@[k].name,
            ) && self.table@[k].records.len() <= reg_lookup(
                self.registry@,
                self.table@[k].name,
            ).numprocs && self.table@[k].records.len() >= 1 by {
                assert(keep_pred(self.table@[k]));
                let j = choose|j: int| 0 <= j < orig.len() && self.table@[k] == orig[j];
                assert(orig[j].records.len() >= 1);
                assert(orig[j].records.len() <= reg_lookup(old_reg, orig[j].name).numprocs);
            }
        }
        killed
    }
}

/// Reloading with a registry equal to the installed one is a no-op on the
/// fleet: nothing is killed and every entry stays, provided the table only
/// lists installed programs, as it always does under the supervisor's
/// invariant.
pub proof fn lemma_reload_same_registry_noop(
    table: Seq<TableEntryView>,
    reg: Seq<RegEntryView>,
)
    requires
        forall|i: int| 0 <= i < table.len() ==> reg_contains(reg, #[trigger] table[i].name),
    ensures
        spec_reload_table(table, reg, reg) == table,
        spec_reload_killed(table, reg, reg) == Seq::<TableEntryView>::empty(),
{
    lemma_filter_keeps_all(table, |e: TableEntryView| spec_keep_entry(e, reg, reg));
    lemma_filter_keeps_none(table, |e: TableEntryView| !spec_keep_entry(e, reg, reg));
}

/// When every autostart program already has an entry, the refill plan after
/// a reload is empty: together with `lemma_reload_same_registry_noop` this
/// makes a second reload of the same configuration a no-op.
pub proof fn lemma_refill_empty_when_covered(
    reg: Seq<RegEntryView>,
    table: Seq<TableEntryView>,
)
    requires
        forall|i: int|
            0 <= i < reg.len() && (#[trigger] reg[i]).def.autostart ==> table_contains(
                table,
                reg[i].name,
            ),
    ensures
        spec_autostart_plan(reg, table) == Seq::<crate::starter::StarterView>::empty(),
{
    lemma_filter_keeps_none(reg, |e: RegEntryView| spec_needs_start(e, table));
    assert(spec_autostart_plan(reg, table) =~= Seq::<crate::starter::StarterView>::empty());
}

/// Every entry that survives a reload belongs to a program whose definition
/// did not change: between the kill sweep and the registry replacement no
/// instance of a changed or removed program exists, and afterwards the
/// table only lists programs of the new registry.
pub proof fn lemma_reload_no_changed_survivor(
    table: Seq<TableEntryView>,
    old_reg: Seq<RegEntryView>,
    new_reg: Seq<RegEntryView>,
    k: int,
)
    requires
        0 <= k < spec_reload_table(table, old_reg, new_reg).len(),
    ensures
        reg_contains(new_reg, spec_reload_table(table, old_reg, new_reg)[k].name),
        reg_contains(old_reg, spec_reload_table(table, old_reg, new_reg)[k].name),
        reg_lookup(new_reg, spec_reload_table(table, old_reg, new_reg)[k].name) == reg_lookup(
            old_reg,
            spec_reload_table(table, old_reg, new_reg)[k].name,
        ),
{
    broadcast use vstd::seq_lib::group_filter_ensures;

    let pred = |e: TableEntryView| spec_keep_entry(e, old_reg, new_reg);
    assert(pred(table.filter(pred)[k]));
}

/// Clones a record list, record by record.
fn clone_records(records: &Vec<crate::record::InstanceRecord>) -> (r: Vec<
    crate::record::InstanceRecord,
>)
    ensures
        r@ == records@,
{
    let n = records.len();
    let mut r: Vec<crate::record::InstanceRecord> = Vec::new();
    let mut i: usize = 0;
    while i < n
        invariant
            n == records@.len(),
            i <= n,
            r@ == records@.take(i as int),
        decreases n - i,
    {
        r.push(records[i]);
        proof {
            assert(records@.take(i as int + 1) =~= records@.take(i as int).push(
                records@[i as int],
            ));
        }
        i += 1;
    }
    proof {
        assert(records@.take(n as int) =~= records@);
    }
    r
}

} // verus!
