//! Instance table: the ordered mapping from program name to the list of
//! live instance records, one list position per instance index.

use vstd::prelude::*;
use crate::record::InstanceRecord;
use crate::record::spec_stopped;
use crate::strutil::str_eq;

verus! {

/// One program's list of live instances, in spawn order.
#[derive(Debug)]
pub struct TableEntry {
    pub name: String,
    pub records: Vec<InstanceRecord>,
}

/// Mathematical image of a table entry.
#[verifier::ext_equal]
pub struct TableEntryView {
    pub name: Seq<char>,
    pub records: Seq<InstanceRecord>,
}

impl View for TableEntry {
    type V = TableEntryView;

    open spec fn view(&self) -> TableEntryView {
        TableEntryView { name: self.name@, records: self.records@ }
    }
}

impl DeepView for TableEntry {
    type V = TableEntryView;

    open spec fn deep_view(&self) -> TableEntryView {
        self.view()
    }
}

/// Whether some entry of `s` bears the name `name`.
pub open spec fn table_contains(s: Seq<TableEntryView>, name: Seq<char>) -> bool {
    exists|i: int| 0 <= i < s.len() && s[i].name == name
}

/// The index of the entry named `name`, when one exists.
pub open spec fn table_index_of(s: Seq<TableEntryView>, name: Seq<char>) -> int {
    choose|i: int| 0 <= i < s.len() && s[i].name == name
}

/// The records listed under `name`, when that entry exists.
pub open spec fn table_lookup(s: Seq<TableEntryView>, name: Seq<char>) -> Seq<InstanceRecord> {
    s[table_index_of(s, name)].records
}

/// No two entries bear the same name.
pub open spec fn table_unique_names(s: Seq<TableEntryView>) -> bool {
    forall|i: int, j: int| 0 <= i < j < s.len() ==> s[i].name != s[j].name
}

/// The live instances of every program, keyed by name, names unique.
#[derive(Debug)]
pub struct InstanceTable {
    pub entries: Vec<TableEntry>,
}

impl View for InstanceTable {
    type V = Seq<TableEntryView>;

    open spec fn view(&self) -> Seq<TableEntryView> {
        self.entries.deep_view()
    }
}

impl InstanceTable {
    /// Names are unique: the shape every table keeps.
    pub open spec fn wf(&self) -> bool {
        table_unique_names(self@)
    }

    /// An empty table.
    pub fn new() -> (r: InstanceTable)
        ensures
            r@ == Seq::<TableEntryView>::empty(),
            r.wf(),
    {
        let r = InstanceTable { entries: Vec::new() };
        proof {
            assert(r@ =~= Seq::<TableEntryView>::empty());
        }
        r
    }

    /// Number of entries.
    pub fn len(&self) -> (n: usize)
        ensures
            n == self@.len(),
    {
        self.entries.len()
    }

    /// The name of the entry at `i`, for iteration.
    pub fn name_at(&self, i: usize) -> (name: &String)
        requires
            i < self@.len(),
        ensures
            name@ == self@[i as int].name,
    {
        &self.entries[i].name
    }

    /// How many records the entry at `i` lists.
    pub fn records_len_at(&self, i: usize) -> (n: usize)
        requires
            i < self@.len(),
        ensures
            n == self@[i as int].records.len(),
    {
        self.entries[i].records.len()
    }

    /// The record at position `j` of the entry at `i`, for iteration.
    pub fn record_at(&self, i: usize, j: usize) -> (r: InstanceRecord)
        requires
            i < self@.len(),
            j < self@[i as int].records.len(),
        ensures
            r == self@[i as int].records[j as int],
    {
        self.entries[i].records[j]
    }

    /// The index holding `name`, if any.
    pub(crate) fn find(&self, name: &str) -> (r: Option<usize>)
        ensures
            r is Some ==> 0 <= r->0 < self@.len() && self@[r->0 as int].name == name@,
            r is None ==> !table_contains(self@, name@),
    {
        let n = self.entries.len();
        let mut i: usize = 0;
        while i < n
            invariant
                n == self@.len(),
                i <= n,
                forall|k: int| 0 <= k < i ==> self@[k].name != name@,
            decreases n - i,
        {
            if str_eq(self.entries[i].name.as_str(), name) {
                return Some(i);
            }
            i += 1;
        }
        None
    }

    /// Whether `name` has an entry.
    pub fn contains_name(&self, name: &str) -> (r: bool)
        ensures
            r == table_contains(self@, name@),
    {
        match self.find(name) {
            Some(_) => true,
            None => false,
        }
    }

    /// How many instances of `name` are listed: zero when it has no entry.
    pub fn count_instances(&self, name: &str) -> (n: usize)
        requires
            self.wf(),
        ensures
            table_contains(self@, name@) ==> n == table_lookup(self@, name@).len(),
            !table_contains(self@, name@) ==> n == 0,
    {
        match self.find(name) {
            Some(i) => {
                proof {
                    self.lemma_found_is_index(i as int, name@);
                }
                self.entries[i].records.len()
            },
            None => 0,
        }
    }

    /// With unique names, an entry found under `name` sits at the one index
    /// that the lookup functions speak of.
    pub proof fn lemma_found_is_index(&self, i: int, name: Seq<char>)
        requires
            self.wf(),
            0 <= i < self@.len(),
            self@[i].name == name,
        ensures
            table_index_of(self@, name) == i,
            table_contains(self@, name),
            table_lookup(self@, name) == self@[i].records,
    {
        let j = table_index_of(self@, name);
        assert(0 <= j < self@.len() && self@[j].name == name);
    }

    /// Removes the entry named `name` and hands its records out, in order.
    pub fn remove_entry(&mut self, name: &str) -> (r: Option<TableEntry>)
        requires
            old(self).wf(),
        ensures
            final(self).wf(),
            r is Some <==> table_contains(old(self)@, name@),
            r is None ==> final(self)@ == old(self)@,
            r is Some ==> {
                let i = table_index_of(old(self)@, name@);
                &&& r->0@ == old(self)@[i]
                &&& r->0@.name == name@
                &&& final(self)@ == old(self)@.remove(i)
            },
    {
        match self.find(name) {
            Some(i) => {
                proof {
                    self.lemma_found_is_index(i as int, name@);
                }
                let ghost before = self@;
                let entry = self.entries.remove(i);
                proof {
                    assert(self@ =~= before.remove(i as int));
                }
                Some(entry)
            },
            None => None,
        }
    }

    /// Adds a whole entry; refused when the name is already present.
    pub fn insert_entry(&mut self, name: String, records: Vec<InstanceRecord>) -> (added: bool)
        requires
            old(self).wf(),
        ensures
            final(self).wf(),
            added == !table_contains(old(self)@, name@),
            added ==> final(self)@ == old(self)@.push(
                TableEntryView { name: name@, records: records@ },
            ),
            !added ==> final(self)@ == old(self)@,
    {
        match self.find(name.as_str()) {
            Some(_) => false,
            None => {
                let ghost before = self@;
                self.entries.push(TableEntry { name, records });
                proof {
                    assert(self@ =~= before.push(self@[before.len() as int]));
                }
                true
            },
        }
    }

    /// Appends one record under `name`, creating the entry if absent.
    pub fn push_record(&mut self, name: &String, rec: InstanceRecord)
        requires
            old(self).wf(),
        ensures
            final(self).wf(),
            table_contains(old(self)@, name@) ==> {
                let i = table_index_of(old(self)@, name@);
                final(self)@ == old(self)@.update(
                    i,
                    TableEntryView {
                        name: old(self)@[i].name,
                        records: old(self)@[i].records.push(rec),
                    },
                )
            },
            !table_contains(old(self)@, name@) ==> final(self)@ == old(self)@.push(
                TableEntryView { name: name@, records: seq![rec] },
            ),
    {
        match self.find(name.as_str()) {
            Some(i) => {
                proof {
                    self.lemma_found_is_index(i as int, name@);
                }
                let ghost before = self@;
                let entry = &mut self.entries[i];
                entry.records.push(rec);
                proof {
                    assert(self@ =~= before.update(
                        i as int,
                        TableEntryView {
                            name: before[i as int].name,
                            records: before[i as int].records.push(rec),
                        },
                    ));
                }
            },
            None => {
                let ghost before = self@;
                let mut records: Vec<InstanceRecord> = Vec::new();
                records.push(rec);
                self.entries.push(TableEntry { name: name.clone(), records });
                proof {
                    assert(self@ =~= before.push(
                        TableEntryView { name: name@, records: seq![rec] },
                    ));
                }
            },
        }
    }

    /// Marks every record of `name` as stopped at `now` and hands back the
    /// child ids to kill, in list order; `None` when `name` has no entry.
    pub fn mark_all_stopped(&mut self, name: &str, now: u64) -> (ids: Option<Vec<u64>>)
        requires
            old(self).wf(),
        ensures
            final(self).wf(),
            ids is Some <==> table_contains(old(self)@, name@),
            ids is None ==> final(self)@ == old(self)@,
            ids is Some ==> {
                let i = table_index_of(old(self)@, name@);
                &&& final(self)@ == old(self)@.update(
                    i,
                    TableEntryView {
                        name: old(self)@[i].name,
                        records: old(self)@[i].records.map_values(|r: InstanceRecord| spec_stopped(r, now)),
                    },
                )
                &&& ids->0@ == old(self)@[i].records.map_values(|r: InstanceRecord| r.id)
            },
    {
        match self.find(name) {
            Some(i) => {
                proof {
                    self.lemma_found_is_index(i as int, name@);
                }
                let ghost before = self@;
                let mut entry = self.entries.remove(i);
                let ghost old_records = entry.records@;
                let mut ids: Vec<u64> = Vec::new();
                let n = entry.records.len();
                let mut j: usize = 0;
                while j < n
                    invariant
                        n == entry.records.len(),
                        n == old_records.len(),
                        entry.name@ == before[i as int].name,
                        0 <= i < before.len(),
                        j <= n,
                        ids@.len() == j,
                        forall|k: int| 0 <= k < j ==> entry.records@[k] == spec_stopped(
                            old_records[k],
                            now,
                        ),
                        forall|k: int| j <= k < n ==> entry.records@[k] == old_records[k],
                        forall|k: int| 0 <= k < j ==> ids@[k] == old_records[k].id,
                    decreases n - j,
                {
                    let r = &mut entry.records[j];
                    ids.push(r.id);
                    r.mark_stopped(now);
                    j += 1;
                }
                proof {
                    assert(entry.records@ =~= old_records.map_values(
                        |r: InstanceRecord| spec_stopped(r, now),
                    ));
                    assert(ids@ =~= old_records.map_values(|r: InstanceRecord| r.id));
                }
                self.entries.insert(i, entry);
                proof {
                    assert(self@ =~= before.update(
                        i as int,
                        TableEntryView {
                            name: before[i as int].name,
                            records: old_records.map_values(
                                |r: InstanceRecord| spec_stopped(r, now),
                            ),
                        },
                    ));
                }
                Some(ids)
            },
            None => None,
        }
    }
}

} // verus!
