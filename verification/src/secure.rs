//! Bundles: a batch of edits as it travels to another replica, signed and,
//! where a key is given, encrypted.
//!
//! On the way out the edits are encoded, then encrypted, and the signature
//! is made over the bytes that travel. On the way in the signature is checked
//! first, over those same bytes, so that nothing forged reaches decryption.

use crate::codec::{canonical, decode, decoded, encode, encoded, outcome_view};
use crate::crypto::{decrypt_with, encrypt_with, sign_with, verify_with};
use crate::edit::{distinct_ids, Edit};
use crate::error::{ExportError, ImportError};
use tink_core::keyset::Handle;
use vstd::prelude::*;

verus! {

/// A batch of edits as it travels: two byte strings, opaque to any party
/// without the keys. Framing them is the transport's business.
#[derive(Debug, PartialEq, Eq)]
pub struct ExternalEdits {
    /// The encoded edits, encrypted where an encryption key was given.
    pub payload: Vec<u8>,
    /// The signature over `payload`.
    pub signature: Vec<u8>,
}

/// What an import gives once the outside checks have reported: whether the
/// signature verifies and, where it does, the plaintext (none where
/// decryption failed).
pub open spec fn imported(signature_valid: bool, plaintext: Option<Seq<u8>>) -> Result<
    Seq<Edit>,
    ImportError,
> {
    if !signature_valid {
        Err(ImportError::SignatureInvalid)
    } else {
        match plaintext {
            Some(bytes) => decoded(bytes),
            None => Err(ImportError::DecryptionFailed),
        }
    }
}

/// The bytes behind an optional slice.
pub open spec fn bytes_of(slice: Option<&[u8]>) -> Option<Seq<u8>> {
    match slice {
        Some(bytes) => Some(bytes@),
        None => None,
    }
}

/// Signs the payload of a bundle.
pub fn sign(private_key: &Handle, payload: &[u8]) -> (r: Result<Vec<u8>, ExportError>)
    ensures
        r matches Err(e) ==> e == ExportError::SigningFailed,
{
    // What the signer returns depends on the key and on fresh randomness;
    // `signing_outcome` is verified for whatever it is.
    let signed = sign_with(private_key, payload);
    signing_outcome(signed)
}

/// Checks the signature of a bundle over its payload.
pub fn verify(public_key: &Handle, signature: &[u8], payload: &[u8]) -> (r: Result<(), ImportError>)
    ensures
        r matches Err(e) ==> e == ImportError::SignatureInvalid,
{
    // What the verifier returns depends on the key; `verification_outcome`
    // is verified for whatever it is.
    let checked = verify_with(public_key, signature, payload);
    verification_outcome(checked)
}

/// Encrypts encoded edits.
pub fn encrypt(encryption_key: &Handle, plaintext: &[u8]) -> (r: Result<Vec<u8>, ExportError>)
    ensures
        r matches Err(e) ==> e == ExportError::EncryptionFailed,
{
    // What the cipher returns depends on the key and on fresh randomness;
    // `encryption_outcome` is verified for whatever it is.
    let encrypted = encrypt_with(encryption_key, plaintext);
    encryption_outcome(encrypted)
}

/// Decrypts the payload of a bundle.
pub fn decrypt(encryption_key: &Handle, ciphertext: &[u8]) -> (r: Result<Vec<u8>, ImportError>)
    ensures
        r matches Err(e) ==> e == ImportError::DecryptionFailed,
{
    // What the cipher returns depends on the key; `decryption_outcome` is
    // verified for whatever it is.
    let decrypted = decrypt_with(encryption_key, ciphertext);
    decryption_outcome(decrypted)
}

/// What `sign` reports for what the signer returned: the signature as it
/// is, or `SigningFailed` for any failure.
pub fn signing_outcome(signed: Result<Vec<u8>, tink_core::TinkError>) -> (r: Result<
    Vec<u8>,
    ExportError,
>)
    ensures
        match signed {
            Ok(bytes) => r matches Ok(signature) && signature@ == bytes@,
            Err(_) => r matches Err(e) && e == ExportError::SigningFailed,
        },
{
    match signed {
        Ok(bytes) => Ok(bytes),
        Err(_) => Err(ExportError::SigningFailed),
    }
}

/// What `verify` reports for what the verifier returned: success, or
/// `SignatureInvalid` for any failure.
pub fn verification_outcome(checked: Result<(), tink_core::TinkError>) -> (r: Result<
    (),
    ImportError,
>)
    ensures
        match checked {
            Ok(_) => r is Ok,
            Err(_) => r matches Err(e) && e == ImportError::SignatureInvalid,
        },
{
    match checked {
        Ok(_) => Ok(()),
        Err(_) => Err(ImportError::SignatureInvalid),
    }
}

/// What `encrypt` reports for what the cipher returned: the ciphertext as
/// it is, or `EncryptionFailed` for any failure.
pub fn encryption_outcome(encrypted: Result<Vec<u8>, tink_core::TinkError>) -> (r: Result<
    Vec<u8>,
    ExportError,
>)
    ensures
        match encrypted {
            Ok(bytes) => r matches Ok(ciphertext) && ciphertext@ == bytes@,
            Err(_) => r matches Err(e) && e == ExportError::EncryptionFailed,
        },
{
    match encrypted {
        Ok(bytes) => Ok(bytes),
        Err(_) => Err(ExportError::EncryptionFailed),
    }
}

/// What `decrypt` reports for what the cipher returned: the plaintext as it
/// is, or `DecryptionFailed` for any failure.
pub fn decryption_outcome(decrypted: Result<Vec<u8>, tink_core::TinkError>) -> (r: Result<
    Vec<u8>,
    ImportError,
>)
    ensures
        match decrypted {
            Ok(bytes) => r matches Ok(plaintext) && plaintext@ == bytes@,
            Err(_) => r matches Err(e) && e == ImportError::DecryptionFailed,
        },
{
    match decrypted {
        Ok(bytes) => Ok(bytes),
        Err(_) => Err(ImportError::DecryptionFailed),
    }
}

/// Puts a bundle together from a payload and what signing it gave.
pub fn sealed(payload: Vec<u8>, signature: Result<Vec<u8>, ExportError>) -> (r: Result<
    ExternalEdits,
    ExportError,
>)
    ensures
        match signature {
            Ok(bytes) => r matches Ok(bundle) && bundle.payload@ == payload@ && bundle.signature@
                == bytes@,
            Err(e) => r matches Err(f) && f == e,
        },
{
    match signature {
        Ok(bytes) => Ok(ExternalEdits { payload, signature: bytes }),
        Err(e) => Err(e),
    }
}

/// Decides an import from what the outside checks reported: a bundle whose
/// signature does not verify is refused whatever else holds; one that did
/// not decrypt is refused next; what is left is decoded.
pub fn import_outcome(signature_valid: bool, plaintext: Option<&[u8]>) -> (r: Result<
    Vec<Edit>,
    ImportError,
>)
    ensures
        outcome_view(r) == imported(signature_valid, bytes_of(plaintext)),
{
    if !signature_valid {
        return Err(ImportError::SignatureInvalid);
    }
    match plaintext {
        Some(bytes) => decode(bytes),
        None => Err(ImportError::DecryptionFailed),
    }
}

/// Packs a batch of edits for another replica: encodes it, encrypts the
/// bytes where an encryption key is given, and signs what results.
pub fn get_external_edits(
    edits: &Vec<Edit>,
    encryption_key: Option<&Handle>,
    private_key: &Handle,
) -> (r: Result<ExternalEdits, ExportError>)
    ensures
        match r {
            Ok(bundle) => {
                &&& encryption_key is None ==> bundle.payload@ == encoded(edits@)
                &&& encryption_key is None && distinct_ids(edits@) ==> decoded(bundle.payload@)
                    == Ok::<Seq<Edit>, ImportError>(canonical(edits@))
            },
            Err(e) => e == ExportError::EncryptionFailed ==> encryption_key is Some,
        },
{
    let plaintext = encode(edits);
    let payload = match encryption_key {
        Some(key) => match encrypt(key, plaintext.as_slice()) {
            Ok(ciphertext) => ciphertext,
            Err(e) => {
                return Err(e);
            },
        },
        None => plaintext,
    };
    let signature = sign(private_key, payload.as_slice());
    sealed(payload, signature)
}

/// Unpacks a bundle from another replica: checks the signature over the
/// payload, then decrypts the payload where a key is given, then decodes.
/// Each step that fails ends the import with its own error; no later step is
/// tried.
pub fn deserialize_edits(
    encryption_key: Option<&Handle>,
    public_key: &Handle,
    external_edits: &ExternalEdits,
) -> (r: Result<Vec<Edit>, ImportError>)
    ensures
        exists|signature_valid: bool, plaintext: Option<Seq<u8>>|
            {
                &&& outcome_view(r) == #[trigger] imported(signature_valid, plaintext)
                &&& encryption_key is None ==> plaintext == Some(external_edits.payload@)
            },
        r matches Ok(edits) ==> distinct_ids(edits@),
        r matches Err(e) && e == ImportError::DecryptionFailed ==> encryption_key is Some,
{
    let payload = external_edits.payload.as_slice();
    let signature_valid = verify(public_key, external_edits.signature.as_slice(), payload).is_ok();
    if !signature_valid {
        let r = import_outcome(false, None);
        assert(outcome_view(r) == imported(false, Some(external_edits.payload@)));
        return r;
    }
    match encryption_key {
        Some(key) => match decrypt(key, payload) {
            Ok(plaintext) => {
                let r = import_outcome(true, Some(plaintext.as_slice()));
                assert(outcome_view(r) == imported(true, Some(plaintext@)));
                r
            },
            Err(_) => {
                let r = import_outcome(true, None);
                assert(outcome_view(r) == imported(true, None::<Seq<u8>>));
                r
            },
        },
        None => {
            let r = import_outcome(true, Some(payload));
            assert(outcome_view(r) == imported(true, Some(external_edits.payload@)));
            r
        },
    }
}

} // verus!
