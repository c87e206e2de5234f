//! The model of a store: the map from identity to change.
//!
//! Everything here is mathematics. The executable store is described in
//! these terms.

use crate::edit::{distinct_ids, has_id, Edit, EditId};
use vstd::prelude::*;

verus! {

/// The edits of `s` keyed by identity. Where an identity occurs more than
/// once in `s`, the first occurrence counts.
pub open spec fn edit_map(s: Seq<Edit>) -> Map<EditId, i64>
    decreases s.len(),
{
    if s.len() == 0 {
        Map::empty()
    } else {
        let earlier = edit_map(s.drop_last());
        if earlier.contains_key(s.last().id) {
            earlier
        } else {
            earlier.insert(s.last().id, s.last().change)
        }
    }
}

/// The sum of the changes held in `m`.
pub open spec fn total(m: Map<EditId, i64>) -> int
    decreases m.dom().len(),
    when m.dom().finite()
{
    if m.dom().len() == 0 {
        0
    } else {
        let id = m.dom().choose();
        m[id] + total(m.remove(id))
    }
}

/// What a store holding `m` holds after the batch `s` has been merged into
/// it: every edit of `s` whose identity `m` lacks is added, the others are
/// dropped.
pub open spec fn merged(m: Map<EditId, i64>, s: Seq<Edit>) -> Map<EditId, i64> {
    edit_map(s).union_prefer_right(m)
}

/// The identities in `m` that the replica `user_id` issued.
pub open spec fn issued_by(m: Map<EditId, i64>, user_id: u64) -> Set<EditId> {
    m.dom().filter(|id: EditId| id.user_id == user_id)
}

/// The identity that `append` issues next for `user_id` in a store holding
/// `m`: the sequence number is the count of that replica's edits so far.
pub open spec fn next_id(m: Map<EditId, i64>, user_id: u64) -> EditId {
    EditId { user_id, counter: issued_by(m, user_id).len() as u64 }
}

/// `edit_map` holds exactly the identities that occur in `s`, finitely many.
pub proof fn lemma_edit_map_dom(s: Seq<Edit>)
    ensures
        edit_map(s).dom().finite(),
        forall|id: EditId|
            #![trigger edit_map(s).contains_key(id)]
            #![trigger has_id(s, id)]
            edit_map(s).contains_key(id) <==> has_id(s, id),
    decreases s.len(),
{
    if s.len() > 0 {
        let front = s.drop_last();
        lemma_edit_map_dom(front);
        let last = s.last();
        assert(edit_map(s) == if edit_map(front).contains_key(last.id) {
            edit_map(front)
        } else {
            edit_map(front).insert(last.id, last.change)
        });
        assert forall|id: EditId| edit_map(s).contains_key(id) implies has_id(s, id) by {
            if edit_map(front).contains_key(id) {
                assert(has_id(front, id));
                let i = choose|i: int| 0 <= i < front.len() && #[trigger] front[i].id == id;
                assert(s[i] == front[i]);
                assert(s[i].id == id);
            } else {
                assert(id == last.id);
                assert(s[s.len() - 1].id == id);
            }
        }
        assert forall|id: EditId| has_id(s, id) implies edit_map(s).contains_key(id) by {
            let i = choose|i: int| 0 <= i < s.len() && #[trigger] s[i].id == id;
            if i < s.len() - 1 {
                assert(front[i] == s[i]);
                assert(front[i].id == id);
                assert(has_id(front, id));
            } else {
                assert(id == last.id);
            }
        }
    }
}

/// Appending one edit to `s` adds it to the map unless its identity is taken.
pub proof fn lemma_edit_map_push(s: Seq<Edit>, e: Edit)
    ensures
        edit_map(s.push(e)) == if edit_map(s).contains_key(e.id) {
            edit_map(s)
        } else {
            edit_map(s).insert(e.id, e.change)
        },
{
    assert(s.push(e).drop_last() =~= s);
}

/// In a sequence of distinct identities every edit is found under its own.
pub proof fn lemma_edit_map_index(s: Seq<Edit>, i: int)
    requires
        distinct_ids(s),
        0 <= i < s.len(),
    ensures
        edit_map(s).contains_key(s[i].id),
        edit_map(s)[s[i].id] == s[i].change,
    decreases s.len(),
{
    let front = s.drop_last();
    lemma_edit_map_dom(front);
    if i < s.len() - 1 {
        lemma_edit_map_index(front, i);
        assert(front[i] == s[i]);
    } else {
        if has_id(front, s[i].id) {
            let j = choose|j: int| 0 <= j < front.len() && #[trigger] front[j].id == s[i].id;
            assert(s[j].id == s[i].id);
        }
    }
}

/// A sequence of distinct identities has as many edits as its map has keys.
pub proof fn lemma_edit_map_len(s: Seq<Edit>)
    requires
        distinct_ids(s),
    ensures
        edit_map(s).dom().len() == s.len(),
    decreases s.len(),
{
    if s.len() > 0 {
        let front = s.drop_last();
        lemma_edit_map_len(front);
        lemma_edit_map_dom(front);
        if has_id(front, s.last().id) {
            let j = choose|j: int| 0 <= j < front.len() && #[trigger] front[j].id == s.last().id;
            assert(s[j].id == s[s.len() - 1].id);
        }
    }
}

/// The sum may be taken starting from any key.
pub proof fn lemma_total_remove(m: Map<EditId, i64>, id: EditId)
    requires
        m.dom().finite(),
        m.contains_key(id),
    ensures
        total(m) == m[id] + total(m.remove(id)),
    decreases m.dom().len(),
{
    let first = m.dom().choose();
    if first != id {
        lemma_total_remove(m.remove(first), id);
        lemma_total_remove(m.remove(id), first);
        assert(m.remove(first).remove(id) =~= m.remove(id).remove(first));
    }
}

/// A new key adds its change to the sum.
pub proof fn lemma_total_insert(m: Map<EditId, i64>, id: EditId, change: i64)
    requires
        m.dom().finite(),
        !m.contains_key(id),
    ensures
        total(m.insert(id, change)) == total(m) + change,
{
    lemma_total_remove(m.insert(id, change), id);
    assert(m.insert(id, change).remove(id) =~= m);
}

/// Maps without a common key add up.
pub proof fn lemma_total_union(a: Map<EditId, i64>, b: Map<EditId, i64>)
    requires
        a.dom().finite(),
        b.dom().finite(),
        a.dom().disjoint(b.dom()),
    ensures
        a.union_prefer_right(b).dom().finite(),
        total(a.union_prefer_right(b)) == total(a) + total(b),
    decreases b.dom().len(),
{
    let both = a.union_prefer_right(b);
    assert(both.dom() =~= a.dom().union(b.dom()));
    if b.dom().len() == 0 {
        assert(both =~= a);
    } else {
        let id = b.dom().choose();
        lemma_total_remove(b, id);
        lemma_total_remove(both, id);
        assert(both.remove(id) =~= a.union_prefer_right(b.remove(id)));
        lemma_total_union(a, b.remove(id));
    }
}

/// A new key is counted for the replica that issued it and for no other.
pub proof fn lemma_issued_by_insert(m: Map<EditId, i64>, id: EditId, change: i64, user_id: u64)
    requires
        m.dom().finite(),
        !m.contains_key(id),
    ensures
        issued_by(m, user_id).finite(),
        issued_by(m.insert(id, change), user_id).len() == issued_by(m, user_id).len() + (if id.user_id
            == user_id {
            1int
        } else {
            0int
        }),
{
    let own = |k: EditId| k.user_id == user_id;
    m.dom().lemma_len_filter(own);
    if id.user_id == user_id {
        assert(issued_by(m.insert(id, change), user_id) =~= issued_by(m, user_id).insert(id));
    } else {
        assert(issued_by(m.insert(id, change), user_id) =~= issued_by(m, user_id));
    }
}

} // verus!
