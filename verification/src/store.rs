//! One replica's set of edits.
//!
//! A store is a set of edits in which no identity occurs twice. Its view is
//! the map from identity to change, and its value is the sum of the changes.

use crate::edit::{distinct_ids, has_id, Edit, EditId};
use crate::error::InvariantViolation;
use crate::model::{
    edit_map, issued_by, lemma_edit_map_dom, lemma_edit_map_index, lemma_edit_map_len,
    lemma_edit_map_push, lemma_issued_by_insert, lemma_total_insert, merged, next_id, total,
};
use vstd::prelude::*;

verus! {

/// The edits of one replica, no identity twice.
pub struct EditStore {
    edits: Vec<Edit>,
}

impl View for EditStore {
    type V = Map<EditId, i64>;

    closed spec fn view(&self) -> Map<EditId, i64> {
        edit_map(self.edits@)
    }
}

impl Default for EditStore {
    fn default() -> (store: EditStore)
        ensures
            store@ == Map::<EditId, i64>::empty(),
    {
        EditStore::new()
    }
}

impl EditStore {
    #[verifier::type_invariant]
    spec fn well_formed(self) -> bool {
        distinct_ids(self.edits@)
    }

    /// A store holds finitely many edits.
    pub proof fn lemma_finite(self)
        ensures
            self@.dom().finite(),
    {
        lemma_edit_map_dom(self.edits@);
    }

    /// The empty store.
    pub fn new() -> (store: EditStore)
        ensures
            store@ == Map::<EditId, i64>::empty(),
    {
        EditStore { edits: Vec::new() }
    }

    /// The number of edits held.
    pub fn len(&self) -> (n: usize)
        ensures
            n == self@.dom().len(),
    {
        proof {
            use_type_invariant(self);
            lemma_edit_map_len(self.edits@);
        }
        self.edits.len()
    }

    /// Whether no edit is held.
    pub fn is_empty(&self) -> (b: bool)
        ensures
            b == (self@.dom().len() == 0),
    {
        self.len() == 0
    }

    /// Adds an edit whose identity is not held yet.
    fn push_new(&mut self, e: Edit)
        requires
            !has_id(old(self).edits@, e.id),
        ensures
            final(self).edits@ == old(self).edits@.push(e),
    {
        proof {
            use_type_invariant(&*self);
        }
        let mut edits: Vec<Edit> = Vec::new();
        std::mem::swap(&mut self.edits, &mut edits);
        edits.push(e);
        std::mem::swap(&mut self.edits, &mut edits);
    }

    fn position(&self, id: &EditId) -> (at: Option<usize>)
        ensures
            match at {
                Some(i) => i < self.edits@.len() && self.edits@[i as int].id == *id,
                None => !has_id(self.edits@, *id),
            },
    {
        let mut i: usize = 0;
        while i < self.edits.len()
            invariant
                i <= self.edits@.len(),
                forall|j: int| 0 <= j < i ==> self.edits@[j].id != *id,
            decreases self.edits@.len() - i,
        {
            if self.edits[i].id == *id {
                return Some(i);
            }
            i += 1;
        }
        None
    }

    /// Whether an edit with this identity is held.
    pub fn contains(&self, id: &EditId) -> (b: bool)
        ensures
            b == self@.contains_key(*id),
    {
        let at = self.position(id);
        proof {
            lemma_edit_map_dom(self.edits@);
            if let Some(i) = at {
                assert(self.edits@[i as int].id == *id);
            }
        }
        at.is_some()
    }

    /// The change recorded under this identity, if any.
    pub fn get(&self, id: &EditId) -> (change: Option<i64>)
        ensures
            change == if self@.contains_key(*id) {
                Some(self@[*id])
            } else {
                None::<i64>
            },
    {
        proof {
            use_type_invariant(self);
            lemma_edit_map_dom(self.edits@);
        }
        match self.position(id) {
            Some(i) => {
                proof {
                    lemma_edit_map_index(self.edits@, i as int);
                }
                Some(self.edits[i].change)
            },
            None => None,
        }
    }

    /// How many edits of the replica `user_id` are held.
    pub fn issued(&self, user_id: u64) -> (n: usize)
        ensures
            n == issued_by(self@, user_id).len(),
    {
        proof {
            use_type_invariant(self);
        }
        let mut n: usize = 0;
        let mut i: usize = 0;
        proof {
            assert(issued_by(edit_map(self.edits@.take(0)), user_id) =~= Set::<EditId>::empty());
        }
        while i < self.edits.len()
            invariant
                distinct_ids(self.edits@),
                n <= i <= self.edits@.len(),
                n == issued_by(edit_map(self.edits@.take(i as int)), user_id).len(),
            decreases self.edits@.len() - i,
        {
            proof {
                let seen = self.edits@.take(i as int);
                let e = self.edits@[i as int];
                assert(self.edits@.take(i + 1) =~= seen.push(e));
                lemma_edit_map_push(seen, e);
                lemma_edit_map_dom(seen);
                if has_id(seen, e.id) {
                    let j = choose|j: int| 0 <= j < seen.len() && #[trigger] seen[j].id == e.id;
                    assert(self.edits@[j].id == e.id);
                }
                lemma_issued_by_insert(edit_map(seen), e.id, e.change, user_id);
            }
            if self.edits[i].id.user_id == user_id {
                n += 1;
            }
            i += 1;
        }
        proof {
            assert(self.edits@.take(i as int) =~= self.edits@);
        }
        n
    }

    /// Records a local change made by the replica `user_id` and returns the
    /// identity issued for it. The sequence number is the count of that
    /// replica's edits so far; if that identity is already held, nothing is
    /// recorded and the collision is reported.
    pub fn append(&mut self, user_id: u64, change: i64) -> (r: Result<EditId, InvariantViolation>)
        ensures
            match r {
                Ok(id) => {
                    &&& id == next_id(old(self)@, user_id)
                    &&& !old(self)@.contains_key(id)
                    &&& final(self)@ == old(self)@.insert(id, change)
                    &&& total(final(self)@) == total(old(self)@) + change
                },
                Err(e) => {
                    &&& e.id == next_id(old(self)@, user_id)
                    &&& old(self)@.contains_key(e.id)
                    &&& final(self)@ == old(self)@
                },
            },
    {
        proof {
            use_type_invariant(&*self);
        }
        let n = self.issued(user_id);
        let id = EditId { user_id, counter: n as u64 };
        if self.contains(&id) {
            return Err(InvariantViolation { id });
        }
        proof {
            lemma_edit_map_dom(self.edits@);
            lemma_edit_map_push(self.edits@, Edit { id, change });
            lemma_total_insert(self@, id, change);
        }
        self.push_new(Edit { id, change });
        Ok(id)
    }

    /// Takes in a batch of edits: each one whose identity is not yet held is
    /// added, the others are dropped. Within the batch the first edit of an
    /// identity counts.
    pub fn merge(&mut self, edits: &Vec<Edit>)
        ensures
            final(self)@ == merged(old(self)@, edits@),
    {
        proof {
            use_type_invariant(&*self);
        }
        let ghost before = self@;
        let mut i: usize = 0;
        proof {
            assert(merged(before, edits@.take(0)) =~= before);
        }
        while i < edits.len()
            invariant
                i <= edits@.len(),
                distinct_ids(self.edits@),
                edit_map(self.edits@) == merged(before, edits@.take(i as int)),
            decreases edits@.len() - i,
        {
            let e = edits[i];
            proof {
                let seen = edits@.take(i as int);
                assert(edits@.take(i + 1) =~= seen.push(e));
                lemma_edit_map_push(seen, e);
                lemma_edit_map_push(self.edits@, e);
                lemma_edit_map_dom(self.edits@);
                if edit_map(self.edits@).contains_key(e.id) {
                    assert(merged(before, seen.push(e)) =~= merged(before, seen));
                } else {
                    assert(merged(before, seen.push(e)) =~= merged(before, seen).insert(
                        e.id,
                        e.change,
                    ));
                }
            }
            let at = self.position(&e.id);
            proof {
                if let Some(j) = at {
                    assert(self.edits@[j as int].id == e.id);
                }
            }
            if at.is_none() {
                self.push_new(e);
            }
            i += 1;
        }
        proof {
            assert(edits@.take(i as int) =~= edits@);
        }
    }

    /// The aggregate: the sum of all changes held.
    pub fn value(&self) -> (v: i128)
        ensures
            v == total(self@),
    {
        proof {
            use_type_invariant(self);
        }
        let mut v: i128 = 0;
        let mut i: usize = 0;
        while i < self.edits.len()
            invariant
                distinct_ids(self.edits@),
                i <= self.edits@.len(),
                v == total(edit_map(self.edits@.take(i as int))),
                -(i * 0x8000_0000_0000_0000) <= v <= i * 0x8000_0000_0000_0000,
            decreases self.edits@.len() - i,
        {
            proof {
                let seen = self.edits@.take(i as int);
                let e = self.edits@[i as int];
                assert(self.edits@.take(i + 1) =~= seen.push(e));
                lemma_edit_map_push(seen, e);
                lemma_edit_map_dom(seen);
                if has_id(seen, e.id) {
                    let j = choose|j: int| 0 <= j < seen.len() && #[trigger] seen[j].id == e.id;
                    assert(self.edits@[j].id == e.id);
                }
                lemma_total_insert(edit_map(seen), e.id, e.change);
            }
            v = v + self.edits[i].change as i128;
            i += 1;
        }
        proof {
            assert(self.edits@.take(i as int) =~= self.edits@);
        }
        v
    }

    /// All edits held, for export. The order carries no meaning.
    pub fn snapshot(&self) -> (edits: Vec<Edit>)
        ensures
            distinct_ids(edits@),
            edit_map(edits@) == self@,
    {
        proof {
            use_type_invariant(self);
        }
        let mut edits: Vec<Edit> = Vec::new();
        let mut i: usize = 0;
        while i < self.edits.len()
            invariant
                i <= self.edits@.len(),
                edits@ == self.edits@.take(i as int),
            decreases self.edits@.len() - i,
        {
            edits.push(self.edits[i]);
            proof {
                assert(self.edits@.take(i + 1) =~= self.edits@.take(i as int).push(
                    self.edits@[i as int],
                ));
            }
            i += 1;
        }
        proof {
            assert(self.edits@.take(i as int) =~= self.edits@);
        }
        edits
    }
}

} // verus!
