//! An authenticated edit log: a counter replicated as a set of immutable,
//! uniquely identified edits, together with the packaging that lets one
//! replica hand a signed (and optionally encrypted) batch of edits to another.
//!
//! * [`edit`] holds the data model and the order in which edits are written.
//! * [`model`] holds the mathematics of a set of edits and its value.
//! * [`store`] holds one replica's set of edits.
//! * [`laws`] holds what is true of merging in general.
//! * [`codec`] turns a set of edits into bytes and back.
//! * [`wire`] states what is taken on trust about the byte format.
//! * [`secure`] signs, encrypts, verifies and decrypts those bytes.
//! * [`crypto`] holds the calls into the cryptographic library.

pub mod codec;
pub mod crypto;
pub mod edit;
pub mod error;
pub mod laws;
pub mod model;
pub mod secure;
pub mod store;
pub mod wire;
