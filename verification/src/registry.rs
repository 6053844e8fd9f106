//! Program registry: the current desired set of program definitions, keyed
//! by program name. Replacement is atomic from the callers' point of view;
//! the supervisor swaps the whole registry during a reload.

use vstd::prelude::*;
use crate::program::Program;
use crate::program::ProgramView;
use crate::strutil::str_eq;

verus! {

/// One named program definition.
#[derive(Clone, Debug)]
pub struct RegEntry {
    pub name: String,
    pub def: Program,
}

/// Mathematical image of a registry entry.
#[verifier::ext_equal]
pub struct RegEntryView {
    pub name: Seq<char>,
    pub def: ProgramView,
}

impl View for RegEntry {
    type V = RegEntryView;

    open spec fn view(&self) -> RegEntryView {
        RegEntryView { name: self.name@, def: self.def@ }
    }
}

/// Whether some entry of `s` bears the name `name`.
pub open spec fn reg_contains(s: Seq<RegEntryView>, name: Seq<char>) -> bool {
    exists|i: int| 0 <= i < s.len() && s[i].name == name
}

/// The index of the entry named `name`, when one exists.
pub open spec fn reg_index_of(s: Seq<RegEntryView>, name: Seq<char>) -> int {
    choose|i: int| 0 <= i < s.len() && s[i].name == name
}

/// The definition installed under `name`, when one exists.
pub open spec fn reg_lookup(s: Seq<RegEntryView>, name: Seq<char>) -> ProgramView {
    s[reg_index_of(s, name)].def
}

/// No two entries bear the same name.
pub open spec fn unique_names(s: Seq<RegEntryView>) -> bool {
    forall|i: int, j: int| 0 <= i < j < s.len() ==> s[i].name != s[j].name
}

/// The desired set of programs, in installation order, names unique.
#[derive(Debug)]
pub struct Registry {
    pub entries: Vec<RegEntry>,
}

impl View for Registry {
    type V = Seq<RegEntryView>;

    open spec fn view(&self) -> Seq<RegEntryView> {
        self.entries.deep_view()
    }
}

impl DeepView for RegEntry {
    type V = RegEntryView;

    open spec fn deep_view(&self) -> RegEntryView {
        self.view()
    }
}

impl Registry {
    /// Names are unique: the shape every registry keeps.
    pub open spec fn wf(&self) -> bool {
        unique_names(self@)
    }

    /// An empty registry.
    pub fn new() -> (r: Registry)
        ensures
            r@ == Seq::<RegEntryView>::empty(),
            r.wf(),
    {
        let r = Registry { entries: Vec::new() };
        proof {
            assert(r@ =~= Seq::<RegEntryView>::empty());
        }
        r
    }

    /// Number of installed programs.
    pub fn len(&self) -> (n: usize)
        ensures
            n == self@.len(),
    {
        self.entries.len()
    }

    /// The name of the entry at `i`, for iteration.
    pub fn name_at(&self, i: usize) -> (name: &String)
        requires
            i < self@.len(),
        ensures
            name@ == self@[i as int].name,
    {
        &self.entries[i].name
    }

    /// The definition of the entry at `i`, for iteration.
    pub fn def_at(&self, i: usize) -> (def: &Program)
        requires
            i < self@.len(),
        ensures
            def@ == self@[i as int].def,
    {
        &self.entries[i].def
    }

    /// The index holding `name`, if any.
    fn find(&self, name: &str) -> (r: Option<usize>)
        ensures
            r is Some ==> 0 <= r->0 < self@.len() && self@[r->0 as int].name == name@,
            r is None ==> !reg_contains(self@, name@),
    {
        let n = self.entries.len();
        let mut i: usize = 0;
        while i < n
            invariant
                n == self@.len(),
                i <= n,
                forall|k: int| 0 <= k < i ==> self@[k].name != name@,
            decreases n - i,
        {
            if str_eq(self.entries[i].name.as_str(), name) {
                return Some(i);
            }
            i += 1;
        }
        None
    }

    /// Whether a program named `name` is installed.
    pub fn contains_name(&self, name: &str) -> (r: bool)
        ensures
            r == reg_contains(self@, name@),
    {
        match self.find(name) {
            Some(_) => true,
            None => false,
        }
    }

    /// The definition installed under `name`, if any.
    pub fn get(&self, name: &str) -> (r: Option<&Program>)
        requires
            self.wf(),
        ensures
            r is Some <==> reg_contains(self@, name@),
            r is Some ==> r->0@ == reg_lookup(self@, name@),
    {
        match self.find(name) {
            Some(i) => {
                proof {
                    let j = reg_index_of(self@, name@);
                    assert(self@[i as int].name == name@);
                    assert(0 <= j < self@.len() && self@[j].name == name@);
                    assert(j == i as int);
                }
                Some(&self.entries[i].def)
            },
            None => None,
        }
    }

    /// Installs `def` under `name`; refused when the name is already taken,
    /// so that names stay unique.
    pub fn add(&mut self, name: String, def: Program) -> (added: bool)
        requires
            old(self).wf(),
        ensures
            final(self).wf(),
            added == !reg_contains(old(self)@, name@),
            added ==> final(self)@ == old(self)@.push(
                RegEntryView { name: name@, def: def@ },
            ),
            !added ==> final(self)@ == old(self)@,
    {
        match self.find(name.as_str()) {
            Some(_) => false,
            None => {
                let ghost before = self@;
                self.entries.push(RegEntry { name, def });
                proof {
                    assert(self@ =~= before.push(self@[before.len() as int]));
                }
                true
            },
        }
    }
}

} // verus!
