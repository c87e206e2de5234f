use edit_log::codec::encode;
use edit_log::edit::{Edit, EditId};
use edit_log::error::{ExportError, ImportError};
use edit_log::secure::{
    decrypt, decryption_outcome, deserialize_edits, encrypt, encryption_outcome,
    get_external_edits, import_outcome, sealed, sign, signing_outcome, verification_outcome,
    verify, ExternalEdits,
};
use edit_log::store::EditStore;
use tink_core::keyset::Handle;
use tink_core::TinkError;

fn new_signing_key() -> Handle {
    tink_signature::init();
    Handle::new(&tink_signature::ed25519_key_template()).unwrap()
}

fn new_encryption_key() -> Handle {
    tink_aead::init();
    Handle::new(&tink_aead::aes256_gcm_key_template()).unwrap()
}

fn store_of_user_one() -> EditStore {
    let mut store = EditStore::new();
    assert_eq!(store.append(1, 1), Ok(EditId::new(1, 0)));
    assert_eq!(store.append(1, 1), Ok(EditId::new(1, 1)));
    assert_eq!(store.value(), 2);
    store
}

#[test]
fn signature_verifies_under_the_matching_key() {
    let private_key = new_signing_key();
    let public_key = private_key.public().unwrap();
    let payload = b"edits on their way";
    let signature = sign(&private_key, payload).unwrap();
    assert_eq!(verify(&public_key, &signature, payload), Ok(()));
}

#[test]
fn signature_does_not_verify_under_another_key() {
    let private_key = new_signing_key();
    let other_public_key = new_signing_key().public().unwrap();
    let payload = b"edits on their way";
    let signature = sign(&private_key, payload).unwrap();
    assert_eq!(verify(&other_public_key, &signature, payload), Err(ImportError::SignatureInvalid));
}

#[test]
fn signature_does_not_verify_over_an_altered_payload() {
    let private_key = new_signing_key();
    let public_key = private_key.public().unwrap();
    let payload = b"edits on their way".to_vec();
    let signature = sign(&private_key, &payload).unwrap();
    for at in 0..payload.len() {
        let mut altered = payload.clone();
        altered[at] ^= 1;
        assert_eq!(verify(&public_key, &signature, &altered), Err(ImportError::SignatureInvalid));
    }
    let mut longer = payload.clone();
    longer.push(0);
    assert_eq!(verify(&public_key, &signature, &longer), Err(ImportError::SignatureInvalid));
}

#[test]
fn altered_or_short_signature_does_not_verify() {
    let private_key = new_signing_key();
    let public_key = private_key.public().unwrap();
    let payload = b"edits on their way";
    let mut signature = sign(&private_key, payload).unwrap();
    let last = signature.len() - 1;
    signature[last] ^= 0x80;
    assert_eq!(verify(&public_key, &signature, payload), Err(ImportError::SignatureInvalid));
    assert_eq!(verify(&public_key, &[], payload), Err(ImportError::SignatureInvalid));
}

#[test]
fn verify_refuses_a_key_that_is_no_verification_key() {
    let encryption_key = new_encryption_key();
    assert_eq!(verify(&encryption_key, &[0; 69], b"x"), Err(ImportError::SignatureInvalid));
}

#[test]
fn sign_refuses_a_key_that_is_no_signing_key() {
    let public_key = new_signing_key().public().unwrap();
    assert_eq!(sign(&public_key, b"x"), Err(ExportError::SigningFailed));
    let encryption_key = new_encryption_key();
    assert_eq!(sign(&encryption_key, b"x"), Err(ExportError::SigningFailed));
}

#[test]
fn decrypt_gives_back_what_encrypt_took() {
    let key = new_encryption_key();
    let plaintext = b"seven bytes and more".to_vec();
    let ciphertext = encrypt(&key, &plaintext).unwrap();
    assert_ne!(ciphertext, plaintext);
    assert_eq!(decrypt(&key, &ciphertext), Ok(plaintext));
    let nothing = encrypt(&key, &[]).unwrap();
    assert_eq!(decrypt(&key, &nothing), Ok(Vec::new()));
}

#[test]
fn decrypt_fails_under_another_key() {
    let key = new_encryption_key();
    let other_key = new_encryption_key();
    let ciphertext = encrypt(&key, b"seven bytes and more").unwrap();
    assert_eq!(decrypt(&other_key, &ciphertext), Err(ImportError::DecryptionFailed));
}

#[test]
fn decrypt_fails_on_altered_or_short_ciphertext() {
    let key = new_encryption_key();
    let ciphertext = encrypt(&key, b"seven bytes and more").unwrap();
    for at in 0..ciphertext.len() {
        let mut altered = ciphertext.clone();
        altered[at] ^= 1;
        assert_eq!(decrypt(&key, &altered), Err(ImportError::DecryptionFailed));
    }
    assert_eq!(decrypt(&key, &ciphertext[..10]), Err(ImportError::DecryptionFailed));
    assert_eq!(decrypt(&key, &[]), Err(ImportError::DecryptionFailed));
}

#[test]
fn encrypt_and_decrypt_refuse_a_key_that_is_no_encryption_key() {
    let signing_key = new_signing_key();
    assert_eq!(encrypt(&signing_key, b"x"), Err(ExportError::EncryptionFailed));
    assert_eq!(decrypt(&signing_key, &[0; 40]), Err(ImportError::DecryptionFailed));
}

#[test]
fn signed_export_is_imported_by_a_second_replica() {
    let private_key = new_signing_key();
    let public_key = private_key.public().unwrap();
    let store = store_of_user_one();

    let bundle = get_external_edits(&store.snapshot(), None, &private_key).unwrap();
    assert_eq!(bundle.payload, vec![2, 1, 0, 2, 1, 1, 2]);

    let edits = deserialize_edits(None, &public_key, &bundle).unwrap();
    assert_eq!(edits, vec![Edit::new(1, 0, 1), Edit::new(1, 1, 1)]);
    let mut second = EditStore::new();
    second.merge(&edits);
    assert_eq!(second.value(), 2);
}

#[test]
fn encrypted_export_is_imported_with_the_right_key_only() {
    let private_key = new_signing_key();
    let public_key = private_key.public().unwrap();
    let encryption_key = new_encryption_key();
    let wrong_key = new_encryption_key();
    let store = store_of_user_one();

    let bundle = get_external_edits(&store.snapshot(), Some(&encryption_key), &private_key).unwrap();
    assert_ne!(bundle.payload, encode(&store.snapshot()));

    let edits = deserialize_edits(Some(&encryption_key), &public_key, &bundle).unwrap();
    let mut second = EditStore::new();
    second.merge(&edits);
    assert_eq!(second.value(), 2);

    assert_eq!(
        deserialize_edits(Some(&wrong_key), &public_key, &bundle),
        Err(ImportError::DecryptionFailed)
    );
}

#[test]
fn importing_a_bundle_twice_counts_it_once() {
    let private_key = new_signing_key();
    let public_key = private_key.public().unwrap();
    let encryption_key = new_encryption_key();
    let bundle = get_external_edits(
        &store_of_user_one().snapshot(),
        Some(&encryption_key),
        &private_key,
    )
    .unwrap();

    let mut second = EditStore::new();
    second.append(2, 10).unwrap();
    second.merge(&deserialize_edits(Some(&encryption_key), &public_key, &bundle).unwrap());
    assert_eq!(second.value(), 12);
    second.merge(&deserialize_edits(Some(&encryption_key), &public_key, &bundle).unwrap());
    assert_eq!(second.value(), 12);
    assert_eq!(second.len(), 3);
}

#[test]
fn import_rejects_a_signed_payload_that_repeats_an_identity() {
    let private_key = new_signing_key();
    let public_key = private_key.public().unwrap();
    let records: Vec<((u64, u64), i64)> = vec![((1, 0), 1), ((1, 0), 1)];
    let payload = postcard::to_allocvec(&records).unwrap();
    let signature = sign(&private_key, &payload).unwrap();
    let bundle = ExternalEdits { payload, signature };
    assert_eq!(deserialize_edits(None, &public_key, &bundle), Err(ImportError::MalformedPayload));
}

#[test]
fn import_rejects_an_encrypted_payload_that_repeats_an_identity() {
    let private_key = new_signing_key();
    let public_key = private_key.public().unwrap();
    let encryption_key = new_encryption_key();
    let payload = encrypt(&encryption_key, &[2, 1, 0, 2, 1, 0, 6]).unwrap();
    let bundle = sealed(payload.clone(), sign(&private_key, &payload)).unwrap();
    assert_eq!(
        deserialize_edits(Some(&encryption_key), &public_key, &bundle),
        Err(ImportError::MalformedPayload)
    );
}

#[test]
fn import_rejects_a_signed_payload_that_is_cut_short() {
    let private_key = new_signing_key();
    let public_key = private_key.public().unwrap();
    let payload = vec![2, 1, 0, 2, 1];
    let signature = sign(&private_key, &payload).unwrap();
    let bundle = ExternalEdits { payload, signature };
    assert_eq!(deserialize_edits(None, &public_key, &bundle), Err(ImportError::MalformedPayload));
}

#[test]
fn import_rejects_a_bundle_signed_by_someone_else() {
    let private_key = new_signing_key();
    let stranger = new_signing_key().public().unwrap();
    let bundle = get_external_edits(&store_of_user_one().snapshot(), None, &private_key).unwrap();
    assert_eq!(deserialize_edits(None, &stranger, &bundle), Err(ImportError::SignatureInvalid));
}

#[test]
fn import_rejects_an_altered_payload_before_decrypting() {
    let private_key = new_signing_key();
    let public_key = private_key.public().unwrap();
    let encryption_key = new_encryption_key();
    let wrong_key = new_encryption_key();
    let mut bundle = get_external_edits(
        &store_of_user_one().snapshot(),
        Some(&encryption_key),
        &private_key,
    )
    .unwrap();
    bundle.payload[7] ^= 1;
    // Neither key would decrypt this payload; the signature is what fails.
    assert_eq!(
        deserialize_edits(Some(&encryption_key), &public_key, &bundle),
        Err(ImportError::SignatureInvalid)
    );
    assert_eq!(
        deserialize_edits(Some(&wrong_key), &public_key, &bundle),
        Err(ImportError::SignatureInvalid)
    );
}

#[test]
fn import_rejects_an_altered_plain_payload() {
    let private_key = new_signing_key();
    let public_key = private_key.public().unwrap();
    let mut bundle = get_external_edits(&store_of_user_one().snapshot(), None, &private_key).unwrap();
    // Still a well-formed batch, with another change in its first edit.
    bundle.payload[3] = 4;
    assert_eq!(deserialize_edits(None, &public_key, &bundle), Err(ImportError::SignatureInvalid));
}

#[test]
fn export_of_no_edits_is_imported_as_no_edits() {
    let private_key = new_signing_key();
    let public_key = private_key.public().unwrap();
    let bundle = get_external_edits(&Vec::new(), None, &private_key).unwrap();
    assert_eq!(bundle.payload, vec![0]);
    assert_eq!(deserialize_edits(None, &public_key, &bundle), Ok(Vec::new()));
}

#[test]
fn export_signs_the_same_bytes_for_any_order_of_the_edits() {
    let private_key = new_signing_key();
    let public_key = private_key.public().unwrap();
    let forward = vec![Edit::new(1, 0, 1), Edit::new(2, 0, 2), Edit::new(3, 0, 3)];
    let backward = vec![Edit::new(3, 0, 3), Edit::new(2, 0, 2), Edit::new(1, 0, 1)];
    let one = get_external_edits(&forward, None, &private_key).unwrap();
    let other = get_external_edits(&backward, None, &private_key).unwrap();
    assert_eq!(one.payload, other.payload);
    // Either signature fits either payload.
    let crossed = ExternalEdits { payload: one.payload.clone(), signature: other.signature.clone() };
    assert_eq!(deserialize_edits(None, &public_key, &crossed), Ok(forward));
}

#[test]
fn export_reports_which_key_failed() {
    let signing_key = new_signing_key();
    let encryption_key = new_encryption_key();
    let edits = vec![Edit::new(1, 0, 1)];
    assert_eq!(
        get_external_edits(&edits, Some(&signing_key), &signing_key),
        Err(ExportError::EncryptionFailed)
    );
    assert_eq!(
        get_external_edits(&edits, Some(&encryption_key), &encryption_key),
        Err(ExportError::SigningFailed)
    );
    assert_eq!(get_external_edits(&edits, None, &encryption_key), Err(ExportError::SigningFailed));
}

#[test]
fn import_outcome_puts_the_signature_first() {
    let batch: &[u8] = &[2, 1, 0, 2, 1, 1, 2];
    let repeat: &[u8] = &[2, 1, 0, 2, 1, 0, 2];
    assert_eq!(import_outcome(false, Some(batch)), Err(ImportError::SignatureInvalid));
    assert_eq!(import_outcome(false, Some(repeat)), Err(ImportError::SignatureInvalid));
    assert_eq!(import_outcome(false, None), Err(ImportError::SignatureInvalid));
    assert_eq!(import_outcome(true, None), Err(ImportError::DecryptionFailed));
    assert_eq!(import_outcome(true, Some(repeat)), Err(ImportError::MalformedPayload));
    assert_eq!(import_outcome(true, Some(&[])), Err(ImportError::MalformedPayload));
    assert_eq!(
        import_outcome(true, Some(batch)),
        Ok(vec![Edit::new(1, 0, 1), Edit::new(1, 1, 1)])
    );
}

#[test]
fn sealed_keeps_payload_and_signature_or_the_error() {
    assert_eq!(
        sealed(vec![1, 2], Ok(vec![3])),
        Ok(ExternalEdits { payload: vec![1, 2], signature: vec![3] })
    );
    assert_eq!(sealed(vec![1, 2], Err(ExportError::SigningFailed)), Err(ExportError::SigningFailed));
}

#[test]
fn export_error_messages() {
    assert_eq!(ExportError::EncryptionFailed.message(), "edits could not be encrypted");
    assert_eq!(ExportError::SigningFailed.message(), "payload could not be signed");
}

#[test]
fn signing_outcome_keeps_the_signature_or_names_the_failure() {
    assert_eq!(signing_outcome(Ok(vec![9, 8, 7])), Ok(vec![9, 8, 7]));
    assert_eq!(signing_outcome(Ok(Vec::new())), Ok(Vec::new()));
    assert_eq!(signing_outcome(Err(TinkError::new("no signer"))), Err(ExportError::SigningFailed));
}

#[test]
fn verification_outcome_follows_the_verifier() {
    assert_eq!(verification_outcome(Ok(())), Ok(()));
    assert_eq!(
        verification_outcome(Err(TinkError::new("invalid signature"))),
        Err(ImportError::SignatureInvalid)
    );
}

#[test]
fn encryption_outcome_keeps_the_ciphertext_or_names_the_failure() {
    assert_eq!(encryption_outcome(Ok(vec![1, 2])), Ok(vec![1, 2]));
    assert_eq!(
        encryption_outcome(Err(TinkError::new("no cipher"))),
        Err(ExportError::EncryptionFailed)
    );
}

#[test]
fn decryption_outcome_keeps_the_plaintext_or_names_the_failure() {
    assert_eq!(decryption_outcome(Ok(vec![0, 4])), Ok(vec![0, 4]));
    assert_eq!(
        decryption_outcome(Err(TinkError::new("decryption failed"))),
        Err(ImportError::DecryptionFailed)
    );
}
