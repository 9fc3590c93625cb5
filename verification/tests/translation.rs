use babel_protocol::translation::{
    mock_english, mock_spanish, MockTranslationProvider, NoTranslationProvider, TranslationError,
    TranslationProvider, TranslationRequest, TranslationReviewStatus, TranslationStreamState,
};
use babel_protocol::understanding::{
    InsightProposalError, InsightProposalInput, InsightProposalProvider, MockInsightProposalProvider,
    NoInsightProposalProvider,
};

fn request(target: &str, text: &str) -> TranslationRequest {
    TranslationRequest {
        message_id: "msg-1".to_string(),
        source_language: "en".to_string(),
        target_language: target.to_string(),
        original_text: text.to_string(),
    }
}

#[test]
fn mock_translation_keeps_uncertainty_visible() {
    let provider = MockTranslationProvider;
    let result = provider
        .translate(request(
            "es",
            "How can local knowledge guide clean-water projects without outside control?",
        ))
        .unwrap();

    assert!(result.translated_text.contains("agua limpia"));
    assert!(!result.uncertain_phrases.is_empty());
    assert_eq!(result.provider, "MockTranslationProvider");
}

#[test]
fn mock_translation_fields() {
    let result = MockTranslationProvider.translate(request("ES-mx", "Water matters")).unwrap();
    assert_eq!(result.message_id, "msg-1");
    assert_eq!(result.source_language, "en");
    assert_eq!(result.target_language, "ES-mx");
    assert_eq!(result.confidence_permille, 820);
    assert_eq!(
        result.uncertain_phrases,
        vec!["local knowledge".to_string(), "outside organizations controlling the process".to_string()]
    );
    assert_eq!(
        result.literal_alternative.as_deref(),
        Some("A literal translation may miss who holds authority in the project.")
    );
    assert_eq!(result.cultural_notes.len(), 2);
    assert_eq!(result.review_status, TranslationReviewStatus::Unreviewed);
    assert_eq!(result.stream_state, TranslationStreamState::TranslationCompleted);
    assert!(result.translated_text.starts_with("Podemos preservar"));
}

#[test]
fn mock_translation_by_target_language() {
    let english = MockTranslationProvider.translate(request("en", "La comunidad decide")).unwrap();
    assert_eq!(
        english.translated_text,
        "The community should keep authority over local knowledge, decisions, and clean-water work."
    );
    let plain = MockTranslationProvider.translate(request("en-GB", "Hola")).unwrap();
    assert_eq!(plain.translated_text, "Simulated English translation: Hola");
    let spanish = MockTranslationProvider.translate(request("es", "Good morning")).unwrap();
    assert_eq!(spanish.translated_text, "Traduccion simulada al espanol: Good morning");
    let french = MockTranslationProvider.translate(request("fr", "Good morning")).unwrap();
    assert_eq!(french.translated_text, "[mock fr translation] Good morning");
}

#[test]
fn blank_text_and_disabled_provider_are_refused() {
    assert!(matches!(
        MockTranslationProvider.translate(request("es", " \n\t")),
        Err(TranslationError::EmptyInput)
    ));
    assert!(matches!(
        NoTranslationProvider.translate(request("es", "Hola")),
        Err(TranslationError::Disabled)
    ));
}

#[test]
fn mock_renderings_look_at_lower_case_text() {
    assert!(mock_spanish("CLEAN-WATER plans").contains("agua limpia"));
    assert_eq!(mock_spanish("Hello"), "Traduccion simulada al espanol: Hello");
    assert!(mock_english("AGUA para todos").starts_with("The community should keep authority"));
    assert_eq!(mock_english("Buenos dias"), "Simulated English translation: Buenos dias");
}

#[test]
fn mock_proposal_needs_participants_and_names_them_as_approvers() {
    let input = InsightProposalInput {
        room_id: "11111111-1111-4111-8111-111111111111".to_string(),
        requested_by: "did:babel:amara".to_string(),
        participant_ids: vec!["did:babel:amara".to_string(), "did:babel:diego".to_string()],
        visible_context: vec![],
    };
    let draft = MockInsightProposalProvider.propose(input).unwrap();
    assert_eq!(draft.required_approvers, vec!["did:babel:amara".to_string(), "did:babel:diego".to_string()]);
    assert_eq!(draft.revision_hash, babel_protocol::consent::revision_hash(&draft.shared_summary));
    assert_eq!(draft.ai_disclosure, "AI-proposed. Human-reviewed. Not yet approved.");

    let empty = InsightProposalInput {
        room_id: "r".to_string(),
        requested_by: "p".to_string(),
        participant_ids: vec![],
        visible_context: vec![],
    };
    assert!(matches!(
        MockInsightProposalProvider.propose(empty),
        Err(InsightProposalError::MissingParticipants)
    ));
    let off = InsightProposalInput {
        room_id: "r".to_string(),
        requested_by: "p".to_string(),
        participant_ids: vec!["p".to_string()],
        visible_context: vec![],
    };
    assert!(matches!(NoInsightProposalProvider.propose(off), Err(InsightProposalError::Disabled)));
}

#[test]
fn provider_error_messages() {
    assert_eq!(TranslationError::Disabled.message(), "translation is disabled");
    assert_eq!(TranslationError::EmptyInput.message(), "source text is empty");
    assert_eq!(InsightProposalError::Disabled.message(), "artifact proposal is disabled");
    assert_eq!(
        InsightProposalError::MissingParticipants.message(),
        "at least one participant is required"
    );
    assert_eq!(
        babel_protocol::storage::StorageError::Unavailable.message(),
        "object store unavailable"
    );
}

