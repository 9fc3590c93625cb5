use babel_protocol::audit::AuditRecord;
use babel_protocol::commons::CommonsPublication;
use babel_protocol::consent::PublicationScope;
use babel_protocol::conversations::{Room, RoomLifecycle};
use babel_protocol::jobs::AsyncJob;
use babel_protocol::json::{get_str_field, write_json_string, write_json_value, JsonMember, JsonValue};
use babel_protocol::repair::{RepairReason, RepairState, RepairThread};
use babel_protocol::text::{
    char_is_white_space, chars_of, clone_opt, hex_encode, i64_decimal, is_blank, owned,
    str_contains, str_eq, str_starts_with, u64_decimal,
};

#[test]
fn hex_encoding_is_lower_case_and_two_digits_per_byte() {
    assert_eq!(hex_encode(&[]), "");
    assert_eq!(hex_encode(&[0x00, 0x0f, 0xa0, 0xff]), "000fa0ff");
    assert_eq!(hex_encode(&[0xde, 0xad, 0xbe, 0xef]), hex::encode([0xde, 0xad, 0xbe, 0xef]));
}

#[test]
fn decimal_texts() {
    assert_eq!(u64_decimal(0), "0");
    assert_eq!(u64_decimal(1234567890), "1234567890");
    assert_eq!(u64_decimal(u64::MAX), u64::MAX.to_string());
    assert_eq!(i64_decimal(-42), "-42");
    assert_eq!(i64_decimal(0), "0");
    assert_eq!(i64_decimal(i64::MIN), i64::MIN.to_string());
    assert_eq!(i64_decimal(i64::MAX), i64::MAX.to_string());
}

#[test]
fn blank_and_whitespace() {
    assert!(is_blank(""));
    assert!(is_blank(" \t\r\n\u{3000}"));
    assert!(!is_blank(" a "));
    assert!(char_is_white_space('\u{85}'));
    assert!(!char_is_white_space('x'));
}

#[test]
fn substring_search() {
    assert!(str_contains("clean-water projects", "water"));
    assert!(str_contains("abc", ""));
    assert!(!str_contains("wat", "water"));
    assert!(str_starts_with("es-MX", "es"));
    assert!(!str_starts_with("e", "es"));
    assert_eq!(chars_of("añb"), vec!['a', 'ñ', 'b']);
    assert!(str_eq(&"same".to_string(), "same"));
    assert!(!str_eq(&"same".to_string(), "Same"));
    assert_eq!(owned("x"), "x".to_string());
    assert_eq!(clone_opt(&Some("y".to_string())), Some("y".to_string()));
    assert_eq!(clone_opt(&None), None);
}

#[test]
fn json_strings_are_escaped_as_serde_json_does() {
    let mut out = String::new();
    write_json_string(&mut out, "a\"b\\c\n\t\u{1}\u{8}\u{c}\ré/");
    assert_eq!(out, "\"a\\\"b\\\\c\\n\\t\\u0001\\b\\f\\ré/\"");
    let mut out = String::from("x");
    write_json_string(&mut out, "\u{1f}");
    assert_eq!(out, "x\"\\u001f\"");
}

#[test]
fn json_values_are_written_compactly() {
    let value = JsonValue::Object(vec![
        JsonMember { key: "a".to_string(), value: JsonValue::Array(vec![
            JsonValue::Null,
            JsonValue::Bool(true),
            JsonValue::Bool(false),
            JsonValue::Number("1.5".to_string()),
        ]) },
        JsonMember { key: "b".to_string(), value: JsonValue::String("x".to_string()) },
        JsonMember { key: "c".to_string(), value: JsonValue::Object(Vec::new()) },
    ]);
    let mut out = String::new();
    write_json_value(&mut out, &value);
    assert_eq!(out, "{\"a\":[null,true,false,1.5],\"b\":\"x\",\"c\":{}}");
}

#[test]
fn string_fields_are_read_from_objects_only() {
    let value = JsonValue::Object(vec![
        JsonMember { key: "n".to_string(), value: JsonValue::Number("3".to_string()) },
        JsonMember { key: "original_text".to_string(), value: JsonValue::String("Hello".to_string()) },
    ]);
    assert_eq!(get_str_field(&value, "original_text"), Some("Hello".to_string()));
    assert_eq!(get_str_field(&value, "n"), None);
    assert_eq!(get_str_field(&value, "missing"), None);
    assert_eq!(get_str_field(&JsonValue::String("original_text".to_string()), "original_text"), None);
}

#[test]
fn demo_room_is_private_with_two_participants() {
    let room = Room::demo();
    assert_eq!(room.id, "11111111-1111-4111-8111-111111111111");
    assert_eq!(room.lifecycle, RoomLifecycle::Active);
    assert_eq!(room.privacy, "private_by_default");
    assert_eq!(room.participants.len(), 2);
    assert_eq!(room.participants[0].translation_target, "es");
    assert_eq!(room.participants[1].translation_target, "en");
    assert!(room.artifact_proposal_allowed);
}

#[test]
fn repair_threads_open_and_move() {
    let mut repair = RepairThread::open(
        "room".to_string(),
        "msg-1",
        "did:babel:amara",
        RepairReason::MissingContext,
        "Needs context",
    );
    assert_eq!(repair.state, RepairState::Open);
    assert_eq!(repair.opened_at, repair.updated_at);
    assert!(uuid::Uuid::parse_str(&repair.id).is_ok());
    let id = repair.id.clone();
    repair.transition(RepairState::Acknowledged);
    assert_eq!(repair.state, RepairState::Acknowledged);
    assert_eq!(repair.id, id);
    assert_eq!(repair.note, "Needs context");
}

#[test]
fn records_carry_metadata_only() {
    let audit = AuditRecord::new_without_body("did:babel:amara", "message.created", "message", "msg-1");
    assert_eq!(audit.privacy_classification, "metadata_only");
    assert!(audit.content_hash.is_none());
    assert_eq!(audit.actor_id, "did:babel:amara");
    assert!(uuid::Uuid::parse_str(&audit.id).is_ok());

    let job = AsyncJob::new("key-1", "translate", "room_private", vec!["msg-1".to_string()]);
    assert_eq!(job.schema_version, 1);
    assert_eq!(job.attempt_count, 0);
    assert_eq!(job.authorized_references, vec!["msg-1".to_string()]);
    assert_eq!(job.idempotency_key, "key-1");

    let publication = CommonsPublication {
        id: "p".to_string(),
        artifact_id: "a".to_string(),
        title: "t".to_string(),
        summary: "s".to_string(),
        revision_hash: "h".to_string(),
        language_tags: vec![],
        cultural_context_tags: vec![],
        evidence_tags: vec![],
        publication_scope: PublicationScope::Commons,
        consent_receipt_ids: vec![],
        ai_disclosure: "d".to_string(),
        published_at: "now".to_string(),
    };
    assert!(!publication.transcript_exposed());
}
