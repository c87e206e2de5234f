//! What holds of merging, whatever the store and the batches.

use crate::edit::{Edit, EditId};
use crate::model::{edit_map, lemma_edit_map_dom, lemma_total_union, merged, total};
use vstd::prelude::*;

verus! {

/// Two batches agree over a store when every identity that both carry and
/// the store lacks has the same change in both.
pub open spec fn batches_agree(store: Map<EditId, i64>, first: Seq<Edit>, second: Seq<Edit>) -> bool {
    forall|id: EditId|
        #![trigger edit_map(first).contains_key(id)]
        #![trigger edit_map(second).contains_key(id)]
        edit_map(first).contains_key(id) && edit_map(second).contains_key(id)
            && !store.contains_key(id) ==> edit_map(first)[id] == edit_map(second)[id]
}

/// The part of `batch` on which the order of merging it and `other` shows:
/// its edits under the identities that `other` carries too and the store
/// lacks.
pub open spec fn contested(store: Map<EditId, i64>, batch: Seq<Edit>, other: Seq<Edit>) -> Map<
    EditId,
    i64,
> {
    edit_map(batch).restrict(edit_map(other).dom().difference(store.dom()))
}

/// Replaying a batch changes nothing: merging it a second time leaves the
/// store, and so its value, as the first merge left them.
pub proof fn law_merge_idempotent(store: Map<EditId, i64>, batch: Seq<Edit>)
    ensures
        merged(merged(store, batch), batch) == merged(store, batch),
        total(merged(merged(store, batch), batch)) == total(merged(store, batch)),
{
    assert(merged(merged(store, batch), batch) =~= merged(store, batch));
}

/// A merge only adds: what the store held it still holds, unchanged.
pub proof fn law_merge_keeps(store: Map<EditId, i64>, batch: Seq<Edit>, id: EditId)
    requires
        store.contains_key(id),
    ensures
        merged(store, batch).contains_key(id),
        merged(store, batch)[id] == store[id],
{
}

/// What the order of two merges does to the value: each order counts its
/// first batch's side of the contested edits, and all else alike. So the
/// values are equal exactly where the two sides of the contested edits add
/// up to the same.
pub proof fn law_merge_value_by_order(
    store: Map<EditId, i64>,
    first: Seq<Edit>,
    second: Seq<Edit>,
)
    requires
        store.dom().finite(),
    ensures
        total(merged(merged(store, first), second)) - total(merged(merged(store, second), first))
            == total(contested(store, first, second)) - total(contested(store, second, first)),
{
    lemma_edit_map_dom(first);
    lemma_edit_map_dom(second);
    let one = merged(merged(store, first), second);
    let other = merged(merged(store, second), first);
    let ours = contested(store, first, second);
    let theirs = contested(store, second, first);
    let rest = one.remove_keys(ours.dom());
    assert(ours.dom() =~= theirs.dom());
    assert(rest =~= other.remove_keys(theirs.dom()));
    assert(one.dom() =~= store.dom().union(edit_map(first).dom()).union(edit_map(second).dom()));
    assert(rest.dom() =~= one.dom().difference(ours.dom()));
    assert(ours.dom() =~= edit_map(first).dom().intersect(
        edit_map(second).dom().difference(store.dom()),
    ));
    assert(one =~= rest.union_prefer_right(ours));
    assert(other =~= rest.union_prefer_right(theirs));
    lemma_total_union(rest, ours);
    lemma_total_union(rest, theirs);
}

/// Two batches may be merged in either order: the value comes out the same,
/// wherever the two sides of the contested edits add up to the same.
pub proof fn law_merge_commutative(store: Map<EditId, i64>, first: Seq<Edit>, second: Seq<Edit>)
    requires
        store.dom().finite(),
        total(contested(store, first, second)) == total(contested(store, second, first)),
    ensures
        total(merged(merged(store, first), second)) == total(merged(merged(store, second), first)),
{
    law_merge_value_by_order(store, first, second);
}

/// Batches that agree leave nothing contested between them: merged in
/// either order they give the same store, and so the same value.
pub proof fn law_merge_commutative_when_agreeing(
    store: Map<EditId, i64>,
    first: Seq<Edit>,
    second: Seq<Edit>,
)
    requires
        batches_agree(store, first, second),
    ensures
        contested(store, first, second) == contested(store, second, first),
        merged(merged(store, first), second) == merged(merged(store, second), first),
        total(merged(merged(store, first), second)) == total(merged(merged(store, second), first)),
{
    assert(contested(store, first, second) =~= contested(store, second, first));
    assert(merged(merged(store, first), second) =~= merged(merged(store, second), first));
}

/// The order of two merges shows in the store exactly where the batches do
/// not agree.
pub proof fn law_merge_order_shows_only_conflicts(
    store: Map<EditId, i64>,
    first: Seq<Edit>,
    second: Seq<Edit>,
)
    ensures
        merged(merged(store, first), second) == merged(merged(store, second), first)
            <==> batches_agree(store, first, second),
{
    let one = merged(merged(store, first), second);
    let other = merged(merged(store, second), first);
    if batches_agree(store, first, second) {
        assert(one =~= other);
    }
    if one == other {
        assert forall|id: EditId|
            edit_map(first).contains_key(id) && edit_map(second).contains_key(id)
                && !store.contains_key(id) implies edit_map(first)[id] == edit_map(second)[id] by {
            assert(one[id] == edit_map(first)[id]);
            assert(other[id] == edit_map(second)[id]);
        }
    }
}

} // verus!
