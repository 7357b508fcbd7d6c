use std::collections::HashMap;
use vstd::prelude::*;
use crate::join::row::RowPtr;
use crate::join::desc::table_rows_fit;
use crate::join::semantics::table_entries_nonempty;

verus! {

broadcast use {vstd::std_specs::hash::group_hash_axioms, vstd::set::group_set_axioms, vstd::map::group_map_axioms};

/// Multi-map from a key to the build rows that carry it.
///
/// Key `0` is held in its own slot rather than in the map, so that a
/// legitimate zero key can never be mistaken for an empty slot.
pub struct RowHashTable {
    entries: HashMap<u64, Vec<RowPtr>>,
    zero_entry: Option<Vec<RowPtr>>,
}

impl RowHashTable {
    pub closed spec fn has_key(&self, k: u64) -> bool {
        if k == 0 {
            self.zero_entry is Some
        } else {
            self.entries@.contains_key(k)
        }
    }

    pub closed spec fn wf(&self) -> bool {
        &&& !self.entries@.contains_key(0)
        &&& forall|k: u64|
            #[trigger] self.entries@.contains_key(k) ==> 0 < self.entries@[k]@.len() <= u32::MAX
        &&& self.zero_entry matches Some(v) ==> 0 < v@.len() <= u32::MAX
    }

    /// Every key of a well-formed table holds at least one row, and at most `u32::MAX`.
    pub proof fn lemma_entries_bounded(&self)
        requires
            self.wf(),
        ensures
            table_entries_nonempty(self@),
            table_rows_fit(self@),
    {
        assert forall|k: u64| #[trigger] self@.contains_key(k) implies 0 < self@[k].len() <= u32::MAX by {
            if k != 0 {
                assert(self.entries@.contains_key(k));
            }
        }
    }

    pub closed spec fn rows_at(&self, k: u64) -> Seq<RowPtr> {
        if k == 0 {
            self.zero_entry.unwrap()@
        } else {
            self.entries@[k]@
        }
    }

    /// The rows held for each key, in order of insertion.
    pub closed spec fn view(&self) -> Map<u64, Seq<RowPtr>> {
        Map::new(|k: u64| self.has_key(k), |k: u64| self.rows_at(k))
    }

    pub fn new() -> (r: Self)
        ensures
            r.wf(),
            r@ == Map::<u64, Seq<RowPtr>>::empty(),
    {
        let r = RowHashTable { entries: HashMap::new(), zero_entry: None };
        assert(r@ =~= Map::<u64, Seq<RowPtr>>::empty());
        r
    }

    /// Appends `row` to the rows held for `key`.
    pub fn insert(&mut self, key: u64, row: RowPtr)
        requires
            old(self).wf(),
            old(self)@.contains_key(key) ==> old(self)@[key].len() < u32::MAX,
        ensures
            final(self).wf(),
            final(self)@ == old(self)@.insert(
                key,
                if old(self)@.contains_key(key) {
                    old(self)@[key].push(row)
                } else {
                    seq![row]
                },
            ),
    {
        let ghost before = self@;
        if key == 0 {
            match self.zero_entry.take() {
                Some(mut v) => {
                    v.push(row);
                    self.zero_entry = Some(v);
                },
                None => {
                    self.zero_entry = Some(vec![row]);
                },
            }
        } else {
            match self.entries.remove(&key) {
                Some(mut v) => {
                    v.push(row);
                    self.entries.insert(key, v);
                },
                None => {
                    self.entries.insert(key, vec![row]);
                },
            }
        }
        proof {
            let want = before.insert(
                key,
                if before.contains_key(key) {
                    before[key].push(row)
                } else {
                    seq![row]
                },
            );
            assert forall|k: u64| #[trigger] self.has_key(k) == want.contains_key(k) by {}
            assert forall|k: u64| want.contains_key(k) implies #[trigger] self.rows_at(k) == want[k] by {}
            assert(self@ =~= want);
        }
    }

    /// The number of rows held for `key`.
    pub fn rows_for_key(&self, key: u64) -> (r: usize)
        requires
            self.wf(),
        ensures
            r == if self@.contains_key(key) {
                self@[key].len()
            } else {
                0
            },
    {
        match self.entry(key) {
            Some(v) => v.len(),
            None => 0,
        }
    }

    /// The rows held for `key`, if any.
    pub fn entry(&self, key: u64) -> (r: Option<&Vec<RowPtr>>)
        requires
            self.wf(),
        ensures
            match r {
                Some(v) => self@.contains_key(key) && v@ == self@[key],
                None => !self@.contains_key(key),
            },
    {
        if key == 0 {
            match &self.zero_entry {
                Some(v) => Some(v),
                None => None,
            }
        } else {
            self.entries.get(&key)
        }
    }
}

} // verus!
