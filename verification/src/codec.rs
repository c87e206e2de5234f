//! Sets of edits as bytes.
//!
//! A batch is written in one fixed order, whatever order it was handed over
//! in, so that equal sets give equal bytes and one signature fits them all.

use crate::edit::{
    distinct_ids, edit_le, edit_order, has_id, lemma_edit_order_total, Edit, EditId,
};
use crate::error::ImportError;
use crate::model::{edit_map, lemma_edit_map_dom, lemma_edit_map_index, merged};
use crate::wire::{read_records, wire_bytes, wire_records, write_records};
use vstd::multiset::group_multiset_axioms;
use vstd::prelude::*;
use vstd::relations::sorted_by;
use vstd::seq_lib::{
    lemma_sorted_unique, to_multiset_build, to_multiset_contains, to_multiset_insert,
    to_multiset_len, to_multiset_remove,
};

verus! {

/// An edit as the record that is written for it.
pub open spec fn record_of(e: Edit) -> ((u64, u64), i64) {
    ((e.id.user_id, e.id.counter), e.change)
}

/// The edit that a record stands for.
pub open spec fn edit_of(r: ((u64, u64), i64)) -> Edit {
    Edit { id: EditId { user_id: r.0.0, counter: r.0.1 }, change: r.1 }
}

/// The records that are written for the edits of `s`, one for one.
pub open spec fn records_of(s: Seq<Edit>) -> Seq<((u64, u64), i64)> {
    Seq::new(s.len(), |i: int| record_of(s[i]))
}

/// The edits that the records stand for, one for one.
pub open spec fn edits_of(records: Seq<((u64, u64), i64)>) -> Seq<Edit> {
    Seq::new(records.len(), |i: int| edit_of(records[i]))
}

/// The edits of `s` in the order in which they are written: sorted by
/// identity.
pub open spec fn canonical(s: Seq<Edit>) -> Seq<Edit> {
    s.sort_by(edit_order())
}

/// The bytes that stand for the batch `s`.
pub open spec fn encoded(s: Seq<Edit>) -> Seq<u8> {
    wire_bytes(records_of(canonical(s)))
}

/// The batch that `bytes` stand for, in the order in which it is written
/// there. Bytes that hold no vector of records, or one in which an identity
/// occurs twice, stand for none.
pub open spec fn decoded(bytes: Seq<u8>) -> Result<Seq<Edit>, ImportError> {
    match wire_records(bytes) {
        Some(records) => if distinct_ids(edits_of(records)) {
            Ok(edits_of(records))
        } else {
            Err(ImportError::MalformedPayload)
        },
        None => Err(ImportError::MalformedPayload),
    }
}

/// An outcome of decoding as the contracts speak of it: the batch by its
/// view.
pub open spec fn outcome_view(r: Result<Vec<Edit>, ImportError>) -> Result<Seq<Edit>, ImportError> {
    match r {
        Ok(edits) => Ok(edits@),
        Err(e) => Err(e),
    }
}

/// Records and edits stand for each other one to one.
pub proof fn lemma_records_round_trip(s: Seq<Edit>)
    ensures
        edits_of(records_of(s)) == s,
{
    assert(edits_of(records_of(s)) =~= s);
}

fn to_records(edits: &Vec<Edit>) -> (records: Vec<((u64, u64), i64)>)
    ensures
        records@ == records_of(edits@),
{
    let mut records: Vec<((u64, u64), i64)> = Vec::new();
    let mut i: usize = 0;
    while i < edits.len()
        invariant
            i <= edits@.len(),
            records@.len() == i,
            forall|j: int| 0 <= j < i ==> records@[j] == record_of(edits@[j]),
        decreases edits@.len() - i,
    {
        let e = edits[i];
        records.push(((e.id.user_id, e.id.counter), e.change));
        i += 1;
    }
    proof {
        assert(records@ =~= records_of(edits@));
    }
    records
}

fn from_records(records: &Vec<((u64, u64), i64)>) -> (edits: Vec<Edit>)
    ensures
        edits@ == edits_of(records@),
{
    let mut edits: Vec<Edit> = Vec::new();
    let mut i: usize = 0;
    while i < records.len()
        invariant
            i <= records@.len(),
            edits@.len() == i,
            forall|j: int| 0 <= j < i ==> edits@[j] == edit_of(records@[j]),
        decreases records@.len() - i,
    {
        let r = records[i];
        edits.push(Edit { id: EditId { user_id: r.0.0, counter: r.0.1 }, change: r.1 });
        i += 1;
    }
    proof {
        assert(edits@ =~= edits_of(records@));
    }
    edits
}

/// Batches with the same edits hold the same set of them.
pub proof fn lemma_same_edits_same_set(a: Seq<Edit>, b: Seq<Edit>)
    requires
        a.to_multiset() == b.to_multiset(),
    ensures
        a.to_set() == b.to_set(),
{
    assert forall|e: Edit| a.contains(e) <==> b.contains(e) by {
        to_multiset_contains(a, e);
        to_multiset_contains(b, e);
    }
    assert(a.to_set() =~= b.to_set());
}

/// Among batches with the same edits, either all repeat an identity or none
/// does.
pub proof fn lemma_same_edits_distinct(a: Seq<Edit>, b: Seq<Edit>)
    requires
        a.to_multiset() == b.to_multiset(),
        distinct_ids(a),
    ensures
        distinct_ids(b),
    decreases b.len(),
{
    broadcast use group_multiset_axioms;

    to_multiset_len(a);
    to_multiset_len(b);
    if b.len() > 0 {
        let x = b.last();
        let rest = b.drop_last();
        assert(b =~= rest.push(x));
        to_multiset_build(rest, x);
        to_multiset_contains(a, x);
        let p = choose|p: int| 0 <= p < a.len() && a[p] == x;
        let others = a.remove(p);
        to_multiset_remove(a, p);
        assert(others.to_multiset() =~= rest.to_multiset());
        assert(distinct_ids(others)) by {
            assert forall|i: int, j: int| 0 <= i < j < others.len() implies others[i].id
                != others[j].id by {
                let i0 = if i < p { i } else { i + 1 };
                let j0 = if j < p { j } else { j + 1 };
                assert(others[i] == a[i0]);
                assert(others[j] == a[j0]);
            }
        }
        lemma_same_edits_distinct(others, rest);
        assert forall|k: int| 0 <= k < rest.len() implies rest[k].id != x.id by {
            assert(rest.contains(rest[k]));
            to_multiset_contains(rest, rest[k]);
            to_multiset_contains(others, rest[k]);
            let q = choose|q: int| 0 <= q < others.len() && others[q] == rest[k];
            let q0 = if q < p { q } else { q + 1 };
            assert(others[q] == a[q0]);
            if q0 < p {
                assert(a[q0].id != a[p].id);
            } else {
                assert(a[p].id != a[q0].id);
            }
        }
        assert forall|i: int, j: int| 0 <= i < j < b.len() implies b[i].id != b[j].id by {
            assert(b[i] == rest[i]);
            if j < b.len() - 1 {
                assert(b[j] == rest[j]);
            }
        }
    }
}

/// The written order holds the edits of the batch, each as often as the
/// batch does, sorted; it repeats an identity only if the batch does.
pub proof fn lemma_canonical(s: Seq<Edit>)
    ensures
        canonical(s).to_multiset() == s.to_multiset(),
        canonical(s).to_set() == s.to_set(),
        canonical(s).len() == s.len(),
        sorted_by(canonical(s), edit_order()),
        distinct_ids(s) ==> distinct_ids(canonical(s)),
{
    lemma_edit_order_total();
    s.lemma_sort_by_ensures(edit_order());
    lemma_same_edits_same_set(s, canonical(s));
    to_multiset_len(s);
    to_multiset_len(canonical(s));
    if distinct_ids(s) {
        lemma_same_edits_distinct(s, canonical(s));
    }
}

/// Batches with the same edits, none of which repeats an identity, hold the
/// same edit under each identity.
pub proof fn lemma_same_edits_same_map(a: Seq<Edit>, b: Seq<Edit>)
    requires
        a.to_multiset() == b.to_multiset(),
        distinct_ids(a),
    ensures
        edit_map(a) == edit_map(b),
{
    lemma_same_edits_distinct(a, b);
    lemma_same_edits_same_set(a, b);
    lemma_edit_map_dom(a);
    lemma_edit_map_dom(b);
    assert forall|id: EditId| #[trigger]
        edit_map(a).dom().contains(id) implies edit_map(b).dom().contains(id) && edit_map(b)[id]
        == edit_map(a)[id] by {
        assert(edit_map(a).contains_key(id));
        assert(has_id(a, id));
        let i = choose|i: int| 0 <= i < a.len() && #[trigger] a[i].id == id;
        assert(a.contains(a[i]));
        assert(b.to_set().contains(a[i]));
        let j = choose|j: int| 0 <= j < b.len() && b[j] == a[i];
        assert(b[j].id == id);
        assert(has_id(b, id));
        assert(edit_map(b).contains_key(id));
        lemma_edit_map_index(a, i);
        lemma_edit_map_index(b, j);
    }
    assert forall|id: EditId| #[trigger]
        edit_map(b).dom().contains(id) implies edit_map(a).dom().contains(id) by {
        assert(edit_map(b).contains_key(id));
        assert(has_id(b, id));
        let j = choose|j: int| 0 <= j < b.len() && #[trigger] b[j].id == id;
        assert(b.contains(b[j]));
        assert(a.to_set().contains(b[j]));
        let i = choose|i: int| 0 <= i < a.len() && a[i] == b[j];
        assert(a[i].id == id);
        assert(has_id(a, id));
        assert(edit_map(a).contains_key(id));
    }
    assert(edit_map(a) =~= edit_map(b));
}

/// A set of edits merges the same in the written order as in the order in
/// which it was handed over: what a store gains from a batch, it gains from
/// the batch as it is read back.
pub proof fn law_written_order_merges_alike(store: Map<EditId, i64>, batch: Seq<Edit>)
    requires
        distinct_ids(batch),
    ensures
        merged(store, canonical(batch)) == merged(store, batch),
{
    lemma_canonical(batch);
    lemma_same_edits_same_map(batch, canonical(batch));
}

/// The bytes of a batch do not depend on the order in which its edits are
/// handed over.
pub proof fn law_encoding_ignores_order(a: Seq<Edit>, b: Seq<Edit>)
    requires
        a.to_multiset() == b.to_multiset(),
    ensures
        canonical(a) == canonical(b),
        encoded(a) == encoded(b),
{
    lemma_canonical(a);
    lemma_canonical(b);
    lemma_edit_order_total();
    lemma_sorted_unique(canonical(a), canonical(b), edit_order());
}

/// The edits of a batch in the order in which they are written.
pub fn sort_edits(edits: &Vec<Edit>) -> (sorted: Vec<Edit>)
    ensures
        sorted@ == canonical(edits@),
{
    let mut sorted: Vec<Edit> = Vec::new();
    let mut i: usize = 0;
    proof {
        assert(edits@.take(0) =~= Seq::<Edit>::empty());
    }
    while i < edits.len()
        invariant
            i <= edits@.len(),
            sorted_by(sorted@, edit_order()),
            sorted@.to_multiset() == edits@.take(i as int).to_multiset(),
        decreases edits@.len() - i,
    {
        let e = edits[i];
        let mut at: usize = 0;
        while at < sorted.len() && sorted[at].sorts_before_or_with(&e)
            invariant
                at <= sorted@.len(),
                forall|k: int| 0 <= k < at ==> edit_le(#[trigger] sorted@[k], e),
            decreases sorted@.len() - at,
        {
            at += 1;
        }
        let ghost before = sorted@;
        sorted.insert(at, e);
        proof {
            let after = sorted@;
            assert forall|a: int, b: int| 0 <= a < b < after.len() implies edit_order()(
                after[a],
                after[b],
            ) by {
                let a0 = if a < at { a } else { a - 1 };
                let b0 = if b < at { b } else { b - 1 };
                if a != at {
                    assert(after[a] == before[a0]);
                }
                if b != at {
                    assert(after[b] == before[b0]);
                }
                if a != at && b != at {
                    assert(edit_order()(before[a0], before[b0]));
                } else if b == at {
                    assert(edit_le(before[a0], e));
                } else {
                    assert(!edit_le(before[at as int], e));
                    if b0 > at {
                        assert(edit_order()(before[at as int], before[b0]));
                    }
                }
            }
            to_multiset_insert(before, at as int, e);
            to_multiset_build(edits@.take(i as int), e);
            assert(edits@.take(i + 1) =~= edits@.take(i as int).push(e));
        }
        i += 1;
    }
    proof {
        assert(edits@.take(i as int) =~= edits@);
        lemma_canonical(edits@);
        lemma_edit_order_total();
        lemma_sorted_unique(sorted@, canonical(edits@), edit_order());
    }
    sorted
}

/// Whether no identity occurs twice in the batch.
pub fn has_distinct_ids(edits: &Vec<Edit>) -> (b: bool)
    ensures
        b == distinct_ids(edits@),
{
    let mut j: usize = 0;
    while j < edits.len()
        invariant
            j <= edits@.len(),
            forall|a: int, b: int| 0 <= a < b < j ==> edits@[a].id != edits@[b].id,
        decreases edits@.len() - j,
    {
        let mut i: usize = 0;
        while i < j
            invariant
                i <= j < edits@.len(),
                forall|a: int| 0 <= a < i ==> edits@[a].id != edits@[j as int].id,
            decreases j - i,
        {
            if edits[i].id == edits[j].id {
                return false;
            }
            i += 1;
        }
        j += 1;
    }
    true
}

/// Accepts a batch as a set of edits if no identity occurs twice in it, and
/// hands it back as it is; rejects it otherwise.
pub fn checked_batch(edits: Vec<Edit>) -> (r: Result<Vec<Edit>, ImportError>)
    ensures
        match r {
            Ok(batch) => batch@ == edits@ && distinct_ids(edits@),
            Err(e) => e == ImportError::MalformedPayload && !distinct_ids(edits@),
        },
{
    if has_distinct_ids(&edits) {
        Ok(edits)
    } else {
        Err(ImportError::MalformedPayload)
    }
}

/// Writes a batch of edits as bytes, sorted by identity.
///
/// The bytes depend on the edits alone, not on their order in `edits`. Where
/// no identity occurs twice, `decode` gives the batch back from them, in the
/// written order.
pub fn encode(edits: &Vec<Edit>) -> (bytes: Vec<u8>)
    ensures
        bytes@ == encoded(edits@),
        distinct_ids(edits@) ==> decoded(bytes@) == Ok::<Seq<Edit>, ImportError>(
            canonical(edits@),
        ),
        canonical(edits@).to_set() == edits@.to_set(),
{
    let sorted = sort_edits(edits);
    let records = to_records(&sorted);
    proof {
        lemma_canonical(edits@);
        lemma_records_round_trip(sorted@);
    }
    match write_records(&records) {
        Ok(bytes) => bytes,
        Err(_) => vstd::pervasive::unreached(),
    }
}

/// Reads a batch of edits from bytes.
///
/// Fails with `MalformedPayload` where the bytes are cut short or corrupt,
/// and where an identity occurs twice in what they hold: such a batch is
/// rejected as a whole, never thinned out. Bytes that follow the batch are
/// not looked at.
pub fn decode(bytes: &[u8]) -> (r: Result<Vec<Edit>, ImportError>)
    ensures
        outcome_view(r) == decoded(bytes@),
{
    match read_records(bytes) {
        Ok(records) => checked_batch(from_records(&records)),
        Err(_) => Err(ImportError::MalformedPayload),
    }
}

} // verus!
