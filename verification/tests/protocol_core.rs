use babel_protocol::json::{JsonMember, JsonValue};
use babel_protocol::protocol::{EventScope, ProtocolError, ProtocolEvent, ReplayProtector};
use base64::{engine::general_purpose::STANDARD, Engine as _};
use ed25519_dalek::{Signer, SigningKey};
use rand_core::OsRng;
use sha2::{Digest, Sha256};

fn original_text(text: &str) -> JsonValue {
    JsonValue::Object(vec![JsonMember {
        key: "original_text".to_string(),
        value: JsonValue::String(text.to_string()),
    }])
}

fn message_event(sequence: u64, content: JsonValue) -> ProtocolEvent {
    ProtocolEvent::new(
        "babel.message.created/1",
        "did:babel:amara",
        "device-amara",
        None,
        sequence,
        EventScope::Room,
        content,
    )
}

fn fixed_event() -> ProtocolEvent {
    ProtocolEvent::assemble(
        "00000000-0000-4000-8000-000000000001".to_string(),
        "2024-05-01T12:00:00Z".to_string(),
        "babel.message.created/1",
        "did:babel:amara",
        "device-amara",
        Some("11111111-1111-4111-8111-111111111111".to_string()),
        7,
        EventScope::Room,
        original_text("Hello \"world\"\n"),
    )
}

#[test]
fn verifies_signed_event_and_detects_tampering() {
    let signing_key = SigningKey::generate(&mut OsRng);
    let public_key = STANDARD.encode(signing_key.verifying_key().to_bytes());
    let mut event = message_event(1, original_text("Hello"));

    let signature = signing_key.sign(&event.signing_bytes().unwrap());
    event.signature = STANDARD.encode(signature.to_bytes());
    assert!(event.verify_with_public_key_b64(&public_key).is_ok());

    event.content = original_text("Changed");
    assert!(event.verify_with_public_key_b64(&public_key).is_err());
}

#[test]
fn signature_is_excluded_from_content_hash() {
    let mut event = message_event(1, original_text("Hello"));
    let first_hash = event.content_hash().unwrap();
    event.signature = "different signature bytes".to_string();
    assert_eq!(first_hash, event.content_hash().unwrap());
}

#[test]
fn replay_protection_requires_increasing_device_sequence() {
    let mut replay = ReplayProtector::default();
    let event = message_event(4, JsonValue::Object(Vec::new()));
    assert!(replay.accept(&event).is_ok());
    assert!(replay.accept(&event).is_err());
}

#[test]
fn new_event_carries_the_protocol_envelope() {
    let event = message_event(3, original_text("Hello"));
    assert_eq!(event.protocol, "babel/1");
    assert_eq!(event.version, 1);
    assert_eq!(event.id.len(), 36);
    assert!(event.parent_ids.is_empty());
    assert!(event.attachments.is_empty());
    assert!(event.expires_at.is_none());
    assert_eq!(event.signature, "");
    assert_eq!(event.client_sequence, 3);
    assert!(event.validate_version().is_ok());
}

#[test]
fn signing_payload_is_the_compact_json_of_the_unsigned_event() {
    let mut event = fixed_event();
    event.signature = "ignored".to_string();
    let expected = String::new()
        + "{\"protocol\":\"babel/1\",\"id\":\"00000000-0000-4000-8000-000000000001\","
        + "\"schema\":\"babel.message.created/1\",\"version\":1,\"author_id\":\"did:babel:amara\","
        + "\"device_id\":\"device-amara\",\"room_id\":\"11111111-1111-4111-8111-111111111111\","
        + "\"created_at\":\"2024-05-01T12:00:00Z\",\"client_sequence\":7,\"parent_ids\":[],"
        + "\"scope\":\"room\",\"expires_at\":null,"
        + "\"content\":{\"original_text\":\"Hello \\\"world\\\"\\n\"},\"attachments\":[]}";
    let bytes = event.signing_bytes().unwrap();
    assert_eq!(String::from_utf8(bytes).unwrap(), expected);
}

#[test]
fn content_hash_is_sha256_hex_of_the_signing_bytes() {
    let event = fixed_event();
    let bytes = event.signing_bytes().unwrap();
    let expected: String = Sha256::digest(&bytes).iter().map(|b| format!("{:02x}", b)).collect();
    let hash = event.content_hash().unwrap();
    assert_eq!(hash, expected);
    assert_eq!(hash.len(), 64);
}

#[test]
fn validate_version_reports_each_problem() {
    let mut event = fixed_event();
    event.protocol = "babel/2".to_string();
    assert!(matches!(event.validate_version(), Err(ProtocolError::UnsupportedProtocol(p)) if p == "babel/2"));

    let mut event = fixed_event();
    event.version = 2;
    assert!(matches!(event.validate_version(), Err(ProtocolError::UnsupportedVersion(2))));

    let mut event = fixed_event();
    event.schema = "  ".to_string();
    assert!(matches!(event.validate_version(), Err(ProtocolError::MissingSchema)));

    let mut event = fixed_event();
    event.author_id = String::new();
    assert!(matches!(event.validate_version(), Err(ProtocolError::MissingIdentity)));
    assert!(matches!(event.signing_bytes(), Err(ProtocolError::MissingIdentity)));
    assert!(matches!(event.content_hash(), Err(ProtocolError::MissingIdentity)));

    let mut event = fixed_event();
    event.device_id = "\t".to_string();
    assert!(matches!(event.validate_version(), Err(ProtocolError::MissingIdentity)));
}

#[test]
fn verification_reports_each_failure() {
    let signing_key = SigningKey::generate(&mut OsRng);
    let public_key = STANDARD.encode(signing_key.verifying_key().to_bytes());
    let mut event = fixed_event();
    assert!(matches!(event.verify_with_public_key_b64(&public_key), Err(ProtocolError::MissingSignature)));

    let signature = signing_key.sign(&event.signing_bytes().unwrap());
    event.signature = STANDARD.encode(signature.to_bytes());
    assert!(event.verify_with_public_key_b64(&public_key).is_ok());

    assert!(matches!(event.verify_with_public_key_b64("not base64!"), Err(ProtocolError::InvalidBase64(_))));
    let short_key = STANDARD.encode([1u8; 31]);
    assert!(matches!(event.verify_with_public_key_b64(&short_key), Err(ProtocolError::InvalidPublicKey)));

    let other_key = SigningKey::generate(&mut OsRng);
    let other_public = STANDARD.encode(other_key.verifying_key().to_bytes());
    assert!(matches!(event.verify_with_public_key_b64(&other_public), Err(ProtocolError::InvalidSignature)));

    let mut short_signature = signed_copy(&event);
    short_signature.signature = STANDARD.encode([7u8; 10]);
    assert!(matches!(short_signature.verify_with_public_key_b64(&public_key), Err(ProtocolError::InvalidSignature)));

    let mut bad_base64 = signed_copy(&event);
    bad_base64.signature = "***".to_string();
    assert!(matches!(bad_base64.verify_with_public_key_b64(&public_key), Err(ProtocolError::InvalidBase64(_))));

    let mut wrong_version = signed_copy(&event);
    wrong_version.version = 9;
    assert!(matches!(wrong_version.verify_with_public_key_b64(&public_key), Err(ProtocolError::UnsupportedVersion(9))));
}

fn signed_copy(event: &ProtocolEvent) -> ProtocolEvent {
    let mut copy = fixed_event();
    copy.signature = event.signature.clone();
    copy
}

#[test]
fn replay_protection_is_per_device_and_reports_the_sequence() {
    let mut replay = ReplayProtector::new();
    let mut first = fixed_event();
    first.client_sequence = 5;
    assert!(replay.accept(&first).is_ok());

    let mut stale = fixed_event();
    stale.client_sequence = 3;
    match replay.accept(&stale) {
        Err(error @ ProtocolError::ReplayDetected { .. }) => {
            assert_eq!(error.message(), "replay or stale sequence for device device-amara: 3");
        }
        _ => panic!("stale sequence accepted"),
    }

    let mut other_device = fixed_event();
    other_device.device_id = "device-diego".to_string();
    other_device.client_sequence = 1;
    assert!(replay.accept(&other_device).is_ok());

    let mut next = fixed_event();
    next.client_sequence = 6;
    assert!(replay.accept(&next).is_ok());
    assert!(replay.accept(&first).is_err());
}

#[test]
fn sequence_zero_is_never_accepted() {
    let mut replay = ReplayProtector::new();
    let mut event = fixed_event();
    event.client_sequence = 0;
    assert!(replay.accept(&event).is_err());
}

#[test]
fn scope_names_are_snake_case() {
    assert_eq!(EventScope::Private.name(), "private");
    assert_eq!(EventScope::Room.name(), "room");
    assert_eq!(EventScope::Community.name(), "community");
    assert_eq!(EventScope::Federated.name(), "federated");
    assert_eq!(EventScope::Public.name(), "public");
}

#[test]
fn protocol_error_messages() {
    assert_eq!(ProtocolError::UnsupportedProtocol("x/1".to_string()).message(), "unsupported protocol identifier: x/1");
    assert_eq!(ProtocolError::UnsupportedVersion(3).message(), "unsupported protocol version: 3");
    assert_eq!(ProtocolError::MissingSchema.message(), "schema must not be empty");
    assert_eq!(ProtocolError::MissingIdentity.message(), "event author, device, and id are required");
    assert_eq!(ProtocolError::MissingSignature.message(), "event signature is missing");
    assert_eq!(ProtocolError::InvalidPublicKey.message(), "invalid public key");
    assert_eq!(ProtocolError::InvalidSignature.message(), "invalid signature");
    let decode_error = STANDARD.decode("***").unwrap_err();
    let expected = format!("invalid base64: {}", decode_error);
    assert_eq!(ProtocolError::InvalidBase64(decode_error).message(), expected);
}

#[test]
fn every_signed_field_changes_the_signing_bytes() {
    let base = fixed_event().signing_bytes().unwrap();
    let changes: Vec<fn(&mut ProtocolEvent)> = vec![
        |e| e.id = "00000000-0000-4000-8000-000000000002".to_string(),
        |e| e.author_id = "did:babel:diego".to_string(),
        |e| e.device_id = "device-diego".to_string(),
        |e| e.room_id = None,
        |e| e.created_at = "2024-05-01T12:00:01Z".to_string(),
        |e| e.client_sequence = 8,
        |e| e.parent_ids = vec!["parent".to_string()],
        |e| e.scope = EventScope::Community,
        |e| e.expires_at = Some("2025-01-01T00:00:00Z".to_string()),
        |e| e.content = original_text("Hello \"world\""),
        |e| {
            e.attachments = vec![babel_protocol::protocol::AttachmentReference {
                id: "att-1".to_string(),
                media_type: "image/png".to_string(),
                byte_length: 10,
                content_hash: "abc".to_string(),
                storage_url: None,
            }]
        },
    ];
    for change in changes {
        let mut event = fixed_event();
        change(&mut event);
        assert_ne!(event.signing_bytes().unwrap(), base);
    }
    let mut resigned = fixed_event();
    resigned.signature = "anything".to_string();
    assert_eq!(resigned.signing_bytes().unwrap(), base);
}

#[test]
fn attachments_are_written_in_declaration_order() {
    let mut event = fixed_event();
    event.content = JsonValue::Null;
    event.attachments = vec![babel_protocol::protocol::AttachmentReference {
        id: "att-1".to_string(),
        media_type: "image/png".to_string(),
        byte_length: 1024,
        content_hash: "abc".to_string(),
        storage_url: Some("https://example.org/a".to_string()),
    }];
    event.parent_ids = vec!["p1".to_string(), "p2".to_string()];
    let text = String::from_utf8(event.signing_bytes().unwrap()).unwrap();
    assert!(text.ends_with(
        "\"parent_ids\":[\"p1\",\"p2\"],\"scope\":\"room\",\"expires_at\":null,\"content\":null,\"attachments\":[{\"id\":\"att-1\",\"media_type\":\"image/png\",\"byte_length\":1024,\"content_hash\":\"abc\",\"storage_url\":\"https://example.org/a\"}]}"
    ));
}
