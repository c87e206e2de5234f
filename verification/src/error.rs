//! What can go wrong, by kind.

use crate::edit::EditId;
use vstd::prelude::*;

verus! {

/// Why a bundle was not imported. Each is final for that bundle: nothing is
/// retried and nothing of the bundle is trusted.
#[derive(Debug, Clone, Copy, PartialEq, Eq, Structural, Hash)]
pub enum ImportError {
    /// The signature does not verify over the payload under the given key.
    SignatureInvalid,
    /// The payload is not a ciphertext that the given key opens.
    DecryptionFailed,
    /// The bytes do not hold a well-formed set of edits: they are cut short
    /// or corrupt, or an identity occurs twice.
    MalformedPayload,
}

/// Why no bundle was produced.
#[derive(Debug, Clone, Copy, PartialEq, Eq, Structural, Hash)]
pub enum ExportError {
    /// The encryption key could not encrypt the encoded edits.
    EncryptionFailed,
    /// The signing key could not sign the payload.
    SigningFailed,
}

/// `append` was about to issue an identity that the store already holds:
/// some other writer has used this replica's `user_id`.
#[derive(Debug, Clone, Copy, PartialEq, Eq, Structural, Hash)]
pub struct InvariantViolation {
    /// The identity that was taken.
    pub id: EditId,
}

impl ImportError {
    /// A short description for logs and messages.
    pub fn message(&self) -> (text: &'static str)
        ensures
            text@ == match *self {
                ImportError::SignatureInvalid => "signature does not verify"@,
                ImportError::DecryptionFailed => "payload does not decrypt"@,
                ImportError::MalformedPayload => "payload is not a well-formed set of edits"@,
            },
    {
        match self {
            ImportError::SignatureInvalid => "signature does not verify",
            ImportError::DecryptionFailed => "payload does not decrypt",
            ImportError::MalformedPayload => "payload is not a well-formed set of edits",
        }
    }
}

impl ExportError {
    /// A short description for logs and messages.
    pub fn message(&self) -> (text: &'static str)
        ensures
            text@ == match *self {
                ExportError::EncryptionFailed => "edits could not be encrypted"@,
                ExportError::SigningFailed => "payload could not be signed"@,
            },
    {
        match self {
            ExportError::EncryptionFailed => "edits could not be encrypted",
            ExportError::SigningFailed => "payload could not be signed",
        }
    }
}

} // verus!
