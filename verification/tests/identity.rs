use babel_protocol::identity::{generate_device_key_material, sign_event_with_private_key, IdentityError};
use babel_protocol::json::{JsonMember, JsonValue};
use babel_protocol::protocol::{EventScope, ProtocolError, ProtocolEvent};
use base64::{engine::general_purpose::STANDARD, Engine as _};

fn original_text(text: &str) -> JsonValue {
    JsonValue::Object(vec![JsonMember {
        key: "original_text".to_string(),
        value: JsonValue::String(text.to_string()),
    }])
}

#[test]
fn generated_device_key_signs_and_verifies() {
    let keys = generate_device_key_material();
    let mut event = ProtocolEvent::new(
        "babel.message.created/1",
        "did:babel:test",
        &keys.device_id,
        None,
        1,
        EventScope::Room,
        original_text("Hello"),
    );
    sign_event_with_private_key(&mut event, &keys.private_key).unwrap();
    assert!(event.verify_with_public_key_b64(&keys.public_key).is_ok());
}

#[test]
fn generated_material_has_device_id_and_base64_keys() {
    let keys = generate_device_key_material();
    assert!(keys.device_id.starts_with("device-"));
    assert_eq!(keys.device_id.len(), 43);
    assert!(uuid::Uuid::parse_str(&keys.device_id[7..]).is_ok());
    assert_eq!(STANDARD.decode(&keys.public_key).unwrap().len(), 32);
    assert_eq!(STANDARD.decode(&keys.private_key).unwrap().len(), 32);
    let other = generate_device_key_material();
    assert_ne!(keys.private_key, other.private_key);
    assert_ne!(keys.device_id, other.device_id);
}

#[test]
fn signing_key_must_be_base64_of_thirty_two_bytes() {
    let mut event = ProtocolEvent::new(
        "babel.message.created/1",
        "did:babel:test",
        "device-test",
        None,
        1,
        EventScope::Room,
        original_text("Hello"),
    );
    assert!(matches!(
        sign_event_with_private_key(&mut event, "%%%"),
        Err(IdentityError::InvalidBase64(_))
    ));
    let short = STANDARD.encode([3u8; 16]);
    assert!(matches!(
        sign_event_with_private_key(&mut event, &short),
        Err(IdentityError::InvalidPrivateKey)
    ));
    assert_eq!(event.signature, "");
}

#[test]
fn signing_refuses_an_invalid_event() {
    let keys = generate_device_key_material();
    let mut event = ProtocolEvent::new(
        "",
        "did:babel:test",
        "device-test",
        None,
        1,
        EventScope::Room,
        original_text("Hello"),
    );
    assert!(matches!(
        sign_event_with_private_key(&mut event, &keys.private_key),
        Err(IdentityError::Protocol(ProtocolError::MissingSchema))
    ));
    assert_eq!(event.signature, "");
}

#[test]
fn signature_is_replaced_not_appended() {
    let keys = generate_device_key_material();
    let mut event = ProtocolEvent::new(
        "babel.message.created/1",
        "did:babel:test",
        &keys.device_id,
        None,
        2,
        EventScope::Community,
        original_text("Hola"),
    );
    event.signature = "stale".to_string();
    sign_event_with_private_key(&mut event, &keys.private_key).unwrap();
    assert_eq!(STANDARD.decode(&event.signature).unwrap().len(), 64);
    let other = generate_device_key_material();
    assert!(matches!(
        event.verify_with_public_key_b64(&other.public_key),
        Err(ProtocolError::InvalidSignature)
    ));
}

#[test]
fn identity_error_messages() {
    assert_eq!(IdentityError::InvalidPrivateKey.message(), "invalid private key");
    assert_eq!(
        IdentityError::Protocol(ProtocolError::MissingSchema).message(),
        "protocol error: schema must not be empty"
    );
    let decode_error = STANDARD.decode("***").unwrap_err();
    let expected = format!("invalid base64: {}", decode_error);
    assert_eq!(IdentityError::InvalidBase64(decode_error).message(), expected);
}

#[test]
fn public_keys_are_padded_standard_base64() {
    let keys = generate_device_key_material();
    assert_eq!(keys.public_key.len(), 44);
    assert!(keys.public_key.ends_with('='));
    let bytes = STANDARD.decode(&keys.public_key).unwrap();
    assert_eq!(STANDARD.encode(bytes), keys.public_key);
}

