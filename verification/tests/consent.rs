use babel_protocol::consent::{revision_hash, AttributionPreference, ConsentReceipt, PublicationScope};

fn receipt_for(text: &str) -> ConsentReceipt {
    ConsentReceipt {
        receipt_id: uuid::Uuid::new_v4().to_string(),
        artifact_id: uuid::Uuid::new_v4().to_string(),
        exact_revision_hash: revision_hash(text),
        approving_participant: "did:babel:amara".to_string(),
        approving_device: "device-amara".to_string(),
        approved_publication_scope: PublicationScope::Commons,
        attribution_preference: AttributionPreference::Named,
        approved_translations: vec!["en".to_string(), "es".to_string()],
        ai_processing_permissions: vec!["artifact_draft".to_string()],
        timestamp: chrono::Utc::now().to_rfc3339(),
        optional_review_date: None,
        consent_statement_version: "babel-consent/1".to_string(),
        signature: "demo-signature".to_string(),
    }
}

#[test]
fn consent_is_revision_specific() {
    let text = "Shared insight revision one";
    let receipt = receipt_for(text);

    assert!(receipt.approves_revision(text));
    assert!(!receipt.approves_revision("Shared insight revision two"));
}

#[test]
fn revision_hash_is_lower_hex_sha256() {
    assert_eq!(
        revision_hash("abc"),
        "ba7816bf8f01cfea414140de5dae2223b00361a396177a9cb410ff61f20015ad"
    );
    assert_eq!(
        revision_hash(""),
        "e3b0c44298fc1c149afbf4c8996fb92427ae41e4649b934ca495991b7852b855"
    );
}

#[test]
fn consent_does_not_survive_a_whitespace_edit() {
    let receipt = receipt_for("Shared insight");
    assert!(!receipt.approves_revision("Shared insight "));
    assert!(!receipt.approves_revision("shared insight"));
    assert!(receipt.approves_revision("Shared insight"));
}
