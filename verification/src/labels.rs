//! The labels a script has set so far, each naming a commit.

use vstd::prelude::*;

use crate::model::Label;
use crate::runner::Oid;

verus! {

/// Labels and the commits they name; a label set again names its new commit.
#[derive(Debug)]
pub struct LabelTable {
    entries: Vec<(Label, Oid)>,
}

impl LabelTable {
    /// No name occurs twice among the entries.
    pub closed spec fn wf(&self) -> bool {
        forall|i: int, j: int|
            0 <= i < self.entries@.len() && 0 <= j < self.entries@.len() && i != j
                ==> #[trigger] self.entries@[i].0@ != #[trigger] self.entries@[j].0@
    }

    closed spec fn slot_of(&self, name: Seq<char>) -> int {
        choose|i: int| 0 <= i < self.entries@.len() && self.entries@[i].0@ == name
    }

    /// The commit each label names.
    pub closed spec fn map(&self) -> Map<Seq<char>, Oid> {
        Map::new(
            |k: Seq<char>| exists|i: int| 0 <= i < self.entries@.len() && self.entries@[i].0@ == k,
            |k: Seq<char>| self.entries@[self.slot_of(k)].1,
        )
    }

    proof fn lemma_slot(&self, i: int)
        requires
            self.wf(),
            0 <= i < self.entries@.len(),
        ensures
            self.map().dom().contains(self.entries@[i].0@),
            self.map()[self.entries@[i].0@] == self.entries@[i].1,
    {
        let k = self.entries@[i].0@;
        assert(self.map().dom().contains(k));
        let j = self.slot_of(k);
        assert(0 <= j < self.entries@.len() && self.entries@[j].0@ == k);
    }

    /// A table with no labels.
    pub fn new() -> (r: Self)
        ensures
            r.wf(),
            r.map() == Map::<Seq<char>, Oid>::empty(),
    {
        let r = LabelTable { entries: Vec::new() };
        assert(r.map() =~= Map::<Seq<char>, Oid>::empty());
        r
    }

    /// The commit that `label` names, if it was set.
    pub fn get(&self, label: &Label) -> (r: Option<Oid>)
        requires
            self.wf(),
        ensures
            r == (if self.map().dom().contains(label@) {
                Some(self.map()[label@])
            } else {
                None
            }),
    {
        let mut i: usize = 0;
        while i < self.entries.len()
            invariant
                self.wf(),
                i <= self.entries.len(),
                forall|j: int| 0 <= j < i ==> self.entries@[j].0@ != label@,
            decreases self.entries.len() - i,
        {
            if self.entries[i].0.same_name(label) {
                proof {
                    self.lemma_slot(i as int);
                }
                return Some(self.entries[i].1);
            }
            i = i + 1;
        }
        assert(!self.map().dom().contains(label@));
        None
    }

    /// Sets `label` to name `oid`.
    pub fn insert(&mut self, label: Label, oid: Oid)
        requires
            old(self).wf(),
        ensures
            final(self).wf(),
            final(self).map() == old(self).map().insert(label@, oid),
    {
        let ghost old_tab: LabelTable = *self;
        let ghost old_entries = self.entries@;
        let ghost old_map = old_tab.map();
        let mut i: usize = 0;
        while i < self.entries.len()
            invariant
                self.entries@ == old_entries,
                old_tab.entries@ == old_entries,
                old_tab == *old(self),
                old_tab.wf(),
                self.wf(),
                old_map == old_tab.map(),
                i <= self.entries.len(),
                forall|j: int| 0 <= j < i ==> old_entries[j].0@ != label@,
            decreases self.entries.len() - i,
        {
            if self.entries[i].0.same_name(&label) {
                let ghost k = i as int;
                self.entries.set(i, (label, oid));
                proof {
                    assert(self.entries@ == old_entries.update(k, (label, oid)));
                    assert forall|a: int, b: int|
                        0 <= a < self.entries@.len() && 0 <= b < self.entries@.len() && a != b
                            implies #[trigger] self.entries@[a].0@ != #[trigger] self.entries@[b].0@ by {
                        assert(self.entries@[a].0@ == old_entries[a].0@);
                        assert(self.entries@[b].0@ == old_entries[b].0@);
                    }
                    assert forall|key: Seq<char>|
                        #![trigger self.map().dom().contains(key)]
                        self.map().dom().contains(key) == old_map.insert(label@, oid).dom().contains(key)
                    by {
                        if old_map.dom().contains(key) {
                            let j = choose|j: int| 0 <= j < old_entries.len() && old_entries[j].0@ == key;
                            assert(self.entries@[j].0@ == key);
                        }
                        if self.map().dom().contains(key) {
                            let j = choose|j: int| 0 <= j < self.entries@.len() && self.entries@[j].0@ == key;
                            assert(old_entries[j].0@ == key);
                        }
                    }
                    assert forall|key: Seq<char>| #[trigger] self.map().dom().contains(key) implies
                        self.map()[key] == old_map.insert(label@, oid)[key]
                    by {
                        let j = choose|j: int| 0 <= j < self.entries@.len() && self.entries@[j].0@ == key;
                        self.lemma_slot(j);
                        if j != k {
                            assert(old_entries[j] == self.entries@[j]);
                            old_tab.lemma_slot(j);
                        }
                    }
                    assert(self.map() =~= old_map.insert(label@, oid));
                }
                return;
            }
            i = i + 1;
        }
        self.entries.push((label, oid));
        proof {
            let n = old_entries.len() as int;
            assert(self.entries@ == old_entries.push((label, oid)));
            assert forall|a: int, b: int|
                0 <= a < self.entries@.len() && 0 <= b < self.entries@.len() && a != b
                    implies #[trigger] self.entries@[a].0@ != #[trigger] self.entries@[b].0@ by {
                if a < n && b < n {
                    assert(self.entries@[a] == old_entries[a]);
                    assert(self.entries@[b] == old_entries[b]);
                } else if a < n {
                    assert(self.entries@[a] == old_entries[a]);
                } else {
                    assert(self.entries@[b] == old_entries[b]);
                }
            }
            assert forall|key: Seq<char>|
                #![trigger self.map().dom().contains(key)]
                self.map().dom().contains(key) == old_map.insert(label@, oid).dom().contains(key)
            by {
                if old_map.dom().contains(key) {
                    let j = choose|j: int| 0 <= j < old_entries.len() && old_entries[j].0@ == key;
                    assert(self.entries@[j].0@ == key);
                }
                if key == label@ {
                    assert(self.entries@[n].0@ == key);
                }
                if self.map().dom().contains(key) && key != label@ {
                    let j = choose|j: int| 0 <= j < self.entries@.len() && self.entries@[j].0@ == key;
                    assert(j < n);
                    assert(old_entries[j].0@ == key);
                }
            }
            assert forall|key: Seq<char>| #[trigger] self.map().dom().contains(key) implies
                self.map()[key] == old_map.insert(label@, oid)[key]
            by {
                let j = choose|j: int| 0 <= j < self.entries@.len() && self.entries@[j].0@ == key;
                self.lemma_slot(j);
                if j != n {
                    assert(old_entries[j] == self.entries@[j]);
                    old_tab.lemma_slot(j);
                }
            }
            assert(self.map() =~= old_map.insert(label@, oid));
        }
    }
}

} // verus!
