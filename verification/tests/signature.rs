use base64::engine::general_purpose::STANDARD as BASE64_STANDARD;
use base64::Engine;
use ed25519_dalek::Signer;
use ed25519_dalek::SigningKey;
use memvid_core::error::MemvidError;
use memvid_core::error::SignatureFailure;
use memvid_core::signature::model_message_bytes;
use memvid_core::signature::parse_ed25519_public_key_base64;
use memvid_core::signature::ticket_message_bytes;
use memvid_core::signature::to_signature;
use memvid_core::signature::verify_detached;
use memvid_core::signature::verify_model_manifest;
use memvid_core::signature::verify_ticket_signature;
use memvid_core::signature::MemoryId;
use memvid_core::signature::PublicKey;
use uuid::Uuid;

fn test_signing_key() -> SigningKey {
    let seed = [7u8; 32];
    SigningKey::from_bytes(&seed)
}

fn test_public_key(signing: &SigningKey) -> PublicKey {
    PublicKey::from_bytes(signing.verifying_key().as_bytes()).unwrap()
}

#[test]
fn ticket_roundtrip() {
    let signing = test_signing_key();
    let verifying = test_public_key(&signing);
    let memory_id = MemoryId::from_bytes(*Uuid::nil().as_bytes());
    let message = ticket_message_bytes(&memory_id, "issuer", 5, 60, Some(42)).unwrap();
    let signature = signing.sign(&message);
    verify_ticket_signature(
        &verifying,
        &memory_id,
        "issuer",
        5,
        60,
        Some(42),
        &signature.to_bytes(),
    )
    .unwrap();
}

#[test]
fn model_roundtrip() {
    let signing = test_signing_key();
    let verifying = test_public_key(&signing);
    let message = model_message_bytes("model", "1.0.0", "abc123", 1024).unwrap();
    let signature = signing.sign(&message);
    verify_model_manifest(
        &verifying,
        "model",
        "1.0.0",
        "abc123",
        1024,
        &signature.to_bytes(),
    )
    .unwrap();
}

#[test]
fn parse_public_key() {
    let signing = test_signing_key();
    let verifying = signing.verifying_key();
    let encoded = BASE64_STANDARD.encode(verifying.as_bytes());
    let parsed = parse_ed25519_public_key_base64(&encoded).unwrap();
    assert_eq!(parsed.as_bytes(), verifying.as_bytes());
}

#[test]
fn ticket_message_is_canonical_json() {
    let memory_id = MemoryId::nil();
    let message = ticket_message_bytes(&memory_id, "issuer", 5, 60, Some(42)).unwrap();
    assert_eq!(
        String::from_utf8(message).unwrap(),
        "{\"version\":1,\"memory_id\":\"00000000-0000-0000-0000-000000000000\",\"issuer\":\"issuer\",\"seq_no\":5,\"expires_in\":60,\"capacity_bytes\":42}"
    );
}

#[test]
fn model_message_is_canonical_json() {
    let message = model_message_bytes("model", "1.0.0", "abc123", 1024).unwrap();
    assert_eq!(
        String::from_utf8(message).unwrap(),
        "{\"version\":1,\"name\":\"model\",\"model_version\":\"1.0.0\",\"checksum\":\"abc123\",\"size_bytes\":1024}"
    );
}

#[test]
fn ticket_message_escapes_and_signs() {
    let memory_id = MemoryId::from_bytes([
        0x93, 0x6d, 0xa0, 0x1f, 0x9a, 0xbd, 0x4d, 0x9d, 0x80, 0xc7, 0x02, 0xaf, 0x85, 0xc8, 0x22,
        0xa8,
    ]);
    let message =
        ticket_message_bytes(&memory_id, "a\"b\\c\n\u{1}\u{e9}", i64::MIN, u64::MAX, None).unwrap();
    assert_eq!(
        String::from_utf8(message).unwrap(),
        "{\"version\":1,\"memory_id\":\"936da01f-9abd-4d9d-80c7-02af85c822a8\",\"issuer\":\"a\\\"b\\\\c\\n\\u0001\u{e9}\",\"seq_no\":-9223372036854775808,\"expires_in\":18446744073709551615,\"capacity_bytes\":null}"
    );
}

#[test]
fn altered_ticket_fields_fail() {
    let signing = test_signing_key();
    let verifying = test_public_key(&signing);
    let memory_id = MemoryId::nil();
    let message = ticket_message_bytes(&memory_id, "issuer", 5, 60, Some(42)).unwrap();
    let signature = signing.sign(&message).to_bytes();
    let mismatch = Err(MemvidError::TicketSignatureInvalid { reason: SignatureFailure::Mismatch });
    let other_id = MemoryId::from_bytes([1u8; 16]);
    assert_eq!(
        verify_ticket_signature(&verifying, &other_id, "issuer", 5, 60, Some(42), &signature),
        mismatch
    );
    assert_eq!(
        verify_ticket_signature(&verifying, &memory_id, "issuer2", 5, 60, Some(42), &signature),
        mismatch
    );
    assert_eq!(
        verify_ticket_signature(&verifying, &memory_id, "issuer", 6, 60, Some(42), &signature),
        mismatch
    );
    assert_eq!(
        verify_ticket_signature(&verifying, &memory_id, "issuer", 5, 61, Some(42), &signature),
        mismatch
    );
    assert_eq!(
        verify_ticket_signature(&verifying, &memory_id, "issuer", 5, 60, None, &signature),
        mismatch
    );
    assert_eq!(
        verify_ticket_signature(&verifying, &memory_id, "issuer", 5, 60, Some(42), &signature[..63]),
        Err(MemvidError::TicketSignatureInvalid { reason: SignatureFailure::SignatureLength })
    );
    let other_key = PublicKey::from_bytes(SigningKey::from_bytes(&[8u8; 32]).verifying_key().as_bytes())
        .unwrap();
    assert_eq!(
        verify_ticket_signature(&other_key, &memory_id, "issuer", 5, 60, Some(42), &signature),
        mismatch
    );
}

#[test]
fn altered_model_fields_fail() {
    let signing = test_signing_key();
    let verifying = test_public_key(&signing);
    let message = model_message_bytes("model", "1.0.0", "abc123", 1024).unwrap();
    let signature = signing.sign(&message).to_bytes();
    assert_eq!(
        verify_model_manifest(&verifying, "model", "1.0.0", "abc124", 1024, &signature),
        Err(MemvidError::ModelSignatureInvalid { reason: SignatureFailure::Mismatch })
    );
    assert_eq!(
        verify_model_manifest(&verifying, "model", "1.0.0", "abc123", 1024, &[0u8; 65]),
        Err(MemvidError::ModelSignatureInvalid { reason: SignatureFailure::SignatureLength })
    );
    assert_eq!(verify_detached(&verifying, &message, &signature), Ok(()));
    assert_eq!(verify_detached(&verifying, b"other", &signature), Err(SignatureFailure::Mismatch));
}

#[test]
fn signature_needs_sixty_four_bytes() {
    assert_eq!(to_signature(&[7u8; 64]), Ok([7u8; 64]));
    assert_eq!(to_signature(&[7u8; 63]), Err(SignatureFailure::SignatureLength));
    assert_eq!(to_signature(&[]), Err(SignatureFailure::SignatureLength));
}

#[test]
fn public_key_text_is_checked() {
    let signing = test_signing_key();
    let verifying = signing.verifying_key();
    let encoded = BASE64_STANDARD.encode(verifying.as_bytes());
    let padded = format!("  \n{}\t\u{3000}", encoded);
    let parsed = parse_ed25519_public_key_base64(&padded).unwrap();
    assert_eq!(parsed.as_bytes(), verifying.as_bytes());
    assert_eq!(
        parse_ed25519_public_key_base64("not base64!"),
        Err(MemvidError::TicketSignatureInvalid { reason: SignatureFailure::KeyEncoding })
    );
    assert_eq!(
        parse_ed25519_public_key_base64(&BASE64_STANDARD.encode([1u8; 31])),
        Err(MemvidError::TicketSignatureInvalid { reason: SignatureFailure::KeyLength })
    );
    // 32 bytes that are no point of the curve
    let mut no_point = None;
    for first in 0..=255u8 {
        let mut bytes = [0u8; 32];
        bytes[0] = first;
        if ed25519_dalek::VerifyingKey::from_bytes(&bytes).is_err() {
            no_point = Some(bytes);
            break;
        }
    }
    let no_point = no_point.expect("some encoding is no point");
    assert_eq!(
        parse_ed25519_public_key_base64(&BASE64_STANDARD.encode(no_point)),
        Err(MemvidError::TicketSignatureInvalid { reason: SignatureFailure::KeyInvalid })
    );
    assert!(PublicKey::from_bytes(&no_point).is_none());
}
