//! Edits and their identities.

use vstd::prelude::*;

verus! {

/// Identity of an edit: the replica that made it and that replica's own
/// sequence number. Two edits with the same identity are the same edit.
#[derive(Debug, Clone, Copy, PartialEq, Eq, Structural, PartialOrd, Ord, Hash)]
pub struct EditId {
    pub user_id: u64,
    pub counter: u64,
}

/// One immutable change to the running total.
#[derive(Debug, Clone, Copy, PartialEq, Eq, Structural, Hash)]
pub struct Edit {
    pub id: EditId,
    pub change: i64,
}

/// Identities are ordered by replica first, then by sequence number.
pub open spec fn id_before(a: EditId, b: EditId) -> bool {
    a.user_id < b.user_id || (a.user_id == b.user_id && a.counter < b.counter)
}

/// The order in which edits are written out: by identity, and by change
/// between edits that claim the same identity.
pub open spec fn edit_le(a: Edit, b: Edit) -> bool {
    id_before(a.id, b.id) || (a.id == b.id && a.change <= b.change)
}

/// No identity occurs at two places of `s`.
pub open spec fn distinct_ids(s: Seq<Edit>) -> bool {
    forall|i: int, j: int| 0 <= i < j < s.len() ==> s[i].id != s[j].id
}

/// Some edit of `s` carries the identity `id`.
pub open spec fn has_id(s: Seq<Edit>, id: EditId) -> bool {
    exists|i: int| 0 <= i < s.len() && #[trigger] s[i].id == id
}

impl EditId {
    /// The identity of the edit numbered `counter` of the replica `user_id`.
    pub fn new(user_id: u64, counter: u64) -> (id: EditId)
        ensures
            id == (EditId { user_id, counter }),
    {
        EditId { user_id, counter }
    }

    /// Whether `self` comes strictly before `other`.
    pub fn precedes(&self, other: &EditId) -> (b: bool)
        ensures
            b == id_before(*self, *other),
    {
        self.user_id < other.user_id || (self.user_id == other.user_id && self.counter
            < other.counter)
    }
}

impl Edit {
    /// The edit numbered `counter` of the replica `user_id`, adding `change`.
    pub fn new(user_id: u64, counter: u64, change: i64) -> (e: Edit)
        ensures
            e == (Edit { id: EditId { user_id, counter }, change }),
    {
        Edit { id: EditId { user_id, counter }, change }
    }

    /// Whether `self` is written no later than `other`.
    pub fn sorts_before_or_with(&self, other: &Edit) -> (b: bool)
        ensures
            b == edit_le(*self, *other),
    {
        self.id.precedes(&other.id) || (self.id == other.id && self.change <= other.change)
    }
}

/// `edit_le` as a relation, for the sorting vocabulary of `vstd`.
pub open spec fn edit_order() -> spec_fn(Edit, Edit) -> bool {
    |a: Edit, b: Edit| edit_le(a, b)
}

/// `edit_le` orders all edits in one line.
pub proof fn lemma_edit_order_total()
    ensures
        vstd::relations::total_ordering(edit_order()),
{
}

} // verus!
