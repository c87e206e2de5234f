//! The byte format, which is that of the `postcard` crate.
//!
//! Nothing in this file is proved: it states what the library takes on trust
//! about `postcard`. An edit travels as the record `((user_id, counter),
//! change)`, a batch as a vector of records.

use vstd::prelude::*;

verus! {

/// The error type of `postcard`.
#[verifier::external_type_specification]
#[verifier::external_body]
pub struct ExPostcardError(postcard::Error);

/// The bytes that `postcard::to_allocvec` writes for a vector of records.
pub uninterp spec fn wire_bytes(records: Seq<((u64, u64), i64)>) -> Seq<u8>;

/// The vector of records that `postcard::from_bytes` reads from the start of
/// `bytes`; `None` where it reports an error.
pub uninterp spec fn wire_records(bytes: Seq<u8>) -> Option<Seq<((u64, u64), i64)>>;

/// Calls `postcard::to_allocvec` on a vector of records.
///
/// Trusted: the call succeeds, since writing integers, tuples and a sequence
/// of known length into a growable vector has no failing step; its output is
/// what `wire_bytes` names; and `postcard::from_bytes` reads the same records
/// back from that output.
#[verifier::external_body]
pub(crate) fn write_records(records: &Vec<((u64, u64), i64)>) -> (r: Result<Vec<u8>, postcard::Error>)
    ensures
        r is Ok,
        r matches Ok(bytes) ==> bytes@ == wire_bytes(records@),
        r matches Ok(bytes) ==> wire_records(bytes@) == Some(records@),
{
    postcard::to_allocvec(records)
}

/// Calls `postcard::from_bytes` for a vector of records.
///
/// Trusted: the outcome is what `wire_records` names. Bytes after the vector
/// are not looked at.
#[verifier::external_body]
pub(crate) fn read_records(bytes: &[u8]) -> (r: Result<Vec<((u64, u64), i64)>, postcard::Error>)
    ensures
        match r {
            Ok(records) => wire_records(bytes@) == Some(records@),
            Err(_) => wire_records(bytes@) is None,
        },
{
    postcard::from_bytes(bytes)
}

} // verus!
