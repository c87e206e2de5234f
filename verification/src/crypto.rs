//! Keys and the four cryptographic operations, which are those of the `tink`
//! crates.
//!
//! Nothing in this file is proved, and nothing is claimed: what an operation
//! returns depends on the key material behind the handle and, for signing
//! and encrypting, on fresh randomness. The callers are verified for every
//! outcome.

use vstd::prelude::*;

verus! {

/// A keyset handle of `tink_core`: opaque key material.
#[verifier::external_type_specification]
#[verifier::external_body]
pub struct ExHandle(tink_core::keyset::Handle);

/// The error type of the `tink` crates.
#[verifier::external_type_specification]
#[verifier::external_body]
pub struct ExTinkError(tink_core::TinkError);

/// Signs `data` with the primary key of `key`: `tink_signature::new_signer`
/// makes the signer from the handle, `tink_core::Signer::sign` signs.
/// Fails where the handle holds no signing key.
#[verifier::external_body]
pub(crate) fn sign_with(key: &tink_core::keyset::Handle, data: &[u8]) -> (r: Result<
    Vec<u8>,
    tink_core::TinkError,
>) {
    tink_signature::new_signer(key)?.sign(data)
}

/// Checks `signature` over `data` against the keys of `key`:
/// `tink_signature::new_verifier` makes the verifier from the handle,
/// `tink_core::Verifier::verify` checks. Fails where the handle holds no
/// verification key or none of its keys accepts the signature.
#[verifier::external_body]
pub(crate) fn verify_with(key: &tink_core::keyset::Handle, signature: &[u8], data: &[u8]) -> (r:
    Result<(), tink_core::TinkError>) {
    tink_signature::new_verifier(key)?.verify(signature, data)
}

/// Encrypts `plaintext` under the primary key of `key`, with no associated
/// data: `tink_aead::new` makes the cipher from the handle,
/// `tink_core::Aead::encrypt` encrypts. Fails where the handle holds no
/// such key.
#[verifier::external_body]
pub(crate) fn encrypt_with(key: &tink_core::keyset::Handle, plaintext: &[u8]) -> (r: Result<
    Vec<u8>,
    tink_core::TinkError,
>) {
    tink_aead::new(key)?.encrypt(plaintext, &[])
}

/// Decrypts `ciphertext` under the keys of `key`, with no associated data:
/// `tink_aead::new` makes the cipher from the handle,
/// `tink_core::Aead::decrypt` decrypts. Fails where the handle holds no such
/// key, or the ciphertext is cut short or does not authenticate.
#[verifier::external_body]
pub(crate) fn decrypt_with(key: &tink_core::keyset::Handle, ciphertext: &[u8]) -> (r: Result<
    Vec<u8>,
    tink_core::TinkError,
>) {
    tink_aead::new(key)?.decrypt(ciphertext, &[])
}

} // verus!
