use babel_protocol::conversations::DeliveryState;
use babel_protocol::facilitation::FacilitationResponse;
use babel_protocol::node::{health_response, AccessDenial, AccessQuery, NodeState};
use babel_protocol::realtime::{
    ArtifactApprovalInput, CulturalContextInput, FacilitationInput, MessageSendInput,
    RepairOpenInput, RepairTransitionInput, ServerEvent, TranslationReviewInput,
};
use babel_protocol::repair::{RepairReason, RepairState};
use babel_protocol::translation::{MockTranslationProvider, TranslationError, TranslationProvider};
use babel_protocol::understanding::{
    ArtifactLifecycle, InsightProposalProvider, MockInsightProposalProvider,
};

const ROOM: &str = "11111111-1111-4111-8111-111111111111";

fn error_text(event: &ServerEvent) -> Option<String> {
    match event {
        ServerEvent::Error { message } => Some(message.clone()),
        _ => None,
    }
}

/// What the node does with a `message.send` client event, in its order:
/// admit, persist, announce, translate, record the translation.
fn send_message(state: &mut NodeState, input: MessageSendInput) -> Vec<ServerEvent> {
    let mut events = Vec::new();
    let message = match state.admit_message(ROOM, input) {
        Ok((_, message)) => message,
        Err(error) => {
            events.push(error);
            return events;
        }
    };
    let request = state.translation_request(&message);
    events.extend(state.record_message(message, true));
    let outcome = MockTranslationProvider.translate(request);
    events.push(state.record_translation(outcome));
    events
}

fn message_input(state: &NodeState, participant: &str, sequence: u64, text: &str) -> MessageSendInput {
    let event = state.demo_signed_message_event(participant, ROOM, sequence, text);
    MessageSendInput {
        event,
        original_language: "en".to_string(),
        original_text: text.to_string(),
        reply_to: None,
    }
}

#[test]
fn accepted_message_is_persisted_before_translation() {
    let mut state = NodeState::new();
    let room_id = uuid::Uuid::parse_str("11111111-1111-4111-8111-111111111111").expect("valid room id");
    let text = "Local knowledge should stay with the community.";
    let input = message_input(&state, "did:babel:amara", 1, text);
    assert_eq!(input.event.room_id, Some(room_id.to_string()));

    send_message(&mut state, input);

    let snapshot = state.snapshot();
    assert_eq!(snapshot.messages.len(), 1);
    assert_eq!(snapshot.messages[0].original_text, text);
    assert_eq!(snapshot.messages[0].translations.len(), 1);
}

#[test]
fn duplicate_sequence_is_rejected() {
    let mut state = NodeState::new();
    let text = "One message.";
    let first = message_input(&state, "did:babel:amara", 1, text);
    let second = message_input(&state, "did:babel:amara", 1, text);

    for input in [first, second] {
        send_message(&mut state, input);
    }

    assert_eq!(state.snapshot().messages.len(), 1);
}

#[test]
fn admitted_message_announces_accepted_delivered_started_completed() {
    let mut state = NodeState::new();
    let text = "How can local knowledge guide clean-water projects?";
    let input = message_input(&state, "did:babel:diego", 1, text);
    let event_id = input.event.id.clone();
    let expected_hash = input.event.content_hash().unwrap();
    let events = send_message(&mut state, input);
    assert_eq!(events.len(), 4);
    assert!(matches!(&events[0], ServerEvent::MessageAccepted(m) if m.id == event_id));
    assert!(matches!(&events[1], ServerEvent::MessageDelivered { message_id } if *message_id == event_id));
    assert!(matches!(&events[2], ServerEvent::TranslationStarted { message_id } if *message_id == event_id));
    match &events[3] {
        ServerEvent::TranslationCompleted(t) => {
            assert_eq!(t.message_id, event_id);
            assert_eq!(t.target_language, "es");
            assert!(t.translated_text.contains("agua limpia"));
        }
        _ => panic!("translation not announced"),
    }
    let stored = &state.messages[0];
    assert_eq!(stored.event_hash, expected_hash);
    assert_eq!(stored.delivery_state, DeliveryState::Translated);
    assert_eq!(stored.original_text, text);
    assert_eq!(stored.sender_id, "did:babel:diego");
    assert_eq!(stored.room_id, ROOM);
    let record = state.event_record(&event_id).unwrap();
    assert_eq!(record.event_hash, expected_hash);
    assert!(record.signature_present);
    assert!(record.original_message_preserved);
    assert!(state.event_record("missing").is_none());
}

#[test]
fn each_refusal_is_reported_and_changes_nothing() {
    let mut state = NodeState::new();

    let mut unknown = message_input(&state, "did:babel:amara", 1, "Hi");
    unknown.event.author_id = "did:babel:stranger".to_string();
    let events = send_message(&mut state, unknown);
    assert_eq!(error_text(&events[0]).as_deref(), Some("Unknown author"));

    let other_room = {
        let event = state.demo_signed_message_event(
            "did:babel:amara",
            "22222222-2222-4222-8222-222222222222",
            1,
            "Hi",
        );
        MessageSendInput { event, original_language: "en".to_string(), original_text: "Hi".to_string(), reply_to: None }
    };
    let events = send_message(&mut state, other_room);
    assert_eq!(error_text(&events[0]).as_deref(), Some("Event room does not match WebSocket room"));

    let mut schema = message_input(&state, "did:babel:amara", 1, "Hi");
    schema.event.schema = "babel.message.edited/1".to_string();
    let events = send_message(&mut state, schema);
    assert_eq!(error_text(&events[0]).as_deref(), Some("Unsupported message schema"));

    let mut tampered = message_input(&state, "did:babel:amara", 1, "Hi");
    tampered.event.client_sequence = 2;
    let events = send_message(&mut state, tampered);
    assert_eq!(error_text(&events[0]).as_deref(), Some("Message signature could not be verified"));

    let mut other_author = message_input(&state, "did:babel:amara", 1, "Hi");
    other_author.event.author_id = "did:babel:diego".to_string();
    let events = send_message(&mut state, other_author);
    assert_eq!(
        error_text(&events[0]).as_deref(),
        Some("Event device is not the author's registered device")
    );

    let mut other_device = message_input(&state, "did:babel:amara", 1, "Hi");
    other_device.event.device_id = "device-elsewhere".to_string();
    let events = send_message(&mut state, other_device);
    assert_eq!(
        error_text(&events[0]).as_deref(),
        Some("Event device is not the author's registered device")
    );

    let mut wrong_key = message_input(&state, "did:babel:amara", 1, "Hi");
    wrong_key.event.author_id = "did:babel:diego".to_string();
    wrong_key.event.device_id = state.devices[1].device_id.clone();
    let events = send_message(&mut state, wrong_key);
    assert_eq!(error_text(&events[0]).as_deref(), Some("Message signature could not be verified"));

    let mut body = message_input(&state, "did:babel:amara", 1, "Hi");
    body.original_text = "Hello".to_string();
    let events = send_message(&mut state, body);
    assert_eq!(error_text(&events[0]).as_deref(), Some("Signed content does not match message body"));

    assert!(state.messages.is_empty());

    let good = message_input(&state, "did:babel:amara", 3, "Hi");
    let device = good.event.device_id.clone();
    assert_eq!(send_message(&mut state, good).len(), 4);
    let stale = message_input(&state, "did:babel:amara", 2, "Again");
    let events = send_message(&mut state, stale);
    assert_eq!(
        error_text(&events[0]),
        Some(format!("replay or stale sequence for device {}: 2", device))
    );
    assert_eq!(state.messages.len(), 1);
}

#[test]
fn unpersisted_message_is_not_kept() {
    let mut state = NodeState::new();
    let input = message_input(&state, "did:babel:amara", 1, "Hi");
    let message = match state.admit_message(ROOM, input) {
        Ok((_, message)) => message,
        Err(_) => panic!("refused"),
    };
    let events = state.record_message(message, false);
    assert_eq!(events.len(), 1);
    assert_eq!(error_text(&events[0]).as_deref(), Some("Message could not be durably persisted"));
    assert!(state.messages.is_empty());
}

#[test]
fn failed_translation_keeps_the_message_waiting() {
    let mut state = NodeState::new();
    let input = message_input(&state, "did:babel:amara", 1, "Hi");
    let message = match state.admit_message(ROOM, input) {
        Ok((_, message)) => message,
        Err(_) => panic!("refused"),
    };
    state.record_message(message, true);
    let event = state.record_translation(Err(TranslationError::Disabled));
    assert_eq!(error_text(&event).as_deref(), Some("Translation failed"));
    assert_eq!(state.messages[0].delivery_state, DeliveryState::Persisted);
    assert!(state.messages[0].translations.is_empty());
}

#[test]
fn room_content_is_restricted_to_participants() {
    let state = NodeState::new();
    let amara = AccessQuery { participant_id: Some("did:babel:amara".to_string()) };
    assert!(state.check_room_access(ROOM, &amara).is_ok());
    match state.check_room_access("22222222-2222-4222-8222-222222222222", &amara) {
        Err(AccessDenial::NotFound { message }) => assert_eq!(message, "room not found"),
        _ => panic!("unknown room served"),
    }
    match state.check_room_access(ROOM, &AccessQuery { participant_id: None }) {
        Err(AccessDenial::Forbidden { message }) => assert_eq!(message, "participant_id is required"),
        _ => panic!("anonymous request served"),
    }
    let outsider = AccessQuery { participant_id: Some("did:babel:outsider".to_string()) };
    match state.check_room_access(ROOM, &outsider) {
        Err(AccessDenial::Forbidden { message }) => {
            assert_eq!(message, "room access is restricted to participants")
        }
        _ => panic!("outsider served"),
    }
}

#[test]
fn health_reports_local_mode() {
    let health = health_response(true);
    assert_eq!(health.status, "ok");
    assert_eq!(health.protocol, "babel/1");
    assert!(health.local_mode);
    assert!(health.database_url_configured);
    assert!(!health.cloudflare_required_for_local);
    assert!(!health_response(false).database_url_configured);
}

#[test]
fn presence_and_typing_follow_the_participant() {
    let mut state = NodeState::new();
    let event = state.set_presence("did:babel:diego", true);
    assert!(matches!(event, ServerEvent::PresenceUpdated { ref participant_id, present: true } if participant_id == "did:babel:diego"));
    assert!(state.room.participants[1].present);
    assert!(!state.room.participants[0].present);
    state.set_typing("did:babel:diego", true);
    assert!(state.room.participants[1].typing);
    let event = state.expire_typing("did:babel:diego");
    assert!(matches!(event, ServerEvent::TypingUpdated { typing: false, .. }));
    assert!(!state.room.participants[1].typing);
    state.set_presence("did:babel:nobody", true);
    assert!(!state.room.participants[0].present);
}

#[test]
fn review_challenges_every_translation_and_keeps_the_original() {
    let mut state = NodeState::new();
    let text = "Clean water belongs to the community.";
    let input = message_input(&state, "did:babel:amara", 1, text);
    let id = input.event.id.clone();
    send_message(&mut state, input);
    let events = state.review_translations(TranslationReviewInput {
        message_id: id.clone(),
        reviewer_id: "did:babel:diego".to_string(),
        note: "stewardship, not control".to_string(),
    });
    assert_eq!(events.len(), 1);
    let message = &state.messages[0];
    assert_eq!(message.original_text, text);
    assert_eq!(message.delivery_state, DeliveryState::TranslationReviewed);
    let translation = &message.translations[0];
    assert_eq!(
        translation.review_status,
        babel_protocol::translation::TranslationReviewStatus::Challenged
    );
    assert_eq!(
        translation.cultural_notes.last().unwrap(),
        "did:babel:diego: stewardship, not control"
    );
    let none = state.review_translations(TranslationReviewInput {
        message_id: "unknown".to_string(),
        reviewer_id: "x".to_string(),
        note: "y".to_string(),
    });
    assert!(none.is_empty());
}

#[test]
fn context_note_is_attached_to_its_message() {
    let mut state = NodeState::new();
    let input = message_input(&state, "did:babel:amara", 1, "Water committees");
    let id = input.event.id.clone();
    send_message(&mut state, input);
    let event = state.add_context_at(
        CulturalContextInput {
            message_id: id.clone(),
            author_id: "did:babel:amara".to_string(),
            note_type: "idiom".to_string(),
            text: "Committee means elders here.".to_string(),
        },
        -1234,
        "2024-01-01T00:00:00Z".to_string(),
    );
    match event {
        ServerEvent::ContextAdded(note) => {
            assert_eq!(note.id, "context--1234");
            assert_eq!(note.message_id, id);
            assert_eq!(note.created_at, "2024-01-01T00:00:00Z");
        }
        _ => panic!("context not announced"),
    }
    assert_eq!(state.messages[0].context_notes.len(), 1);
    assert_eq!(state.messages[0].original_text, "Water committees");
    assert_eq!(state.messages[0].translations.len(), 1);
}

#[test]
fn repair_reopens_review_and_transitions() {
    let mut state = NodeState::new();
    let input = state.proposal_input(ROOM, "did:babel:amara".to_string());
    state.record_proposal(MockInsightProposalProvider.propose(input));
    let event = state.open_repair(
        ROOM,
        RepairOpenInput {
            target_id: "msg-1".to_string(),
            opened_by: "did:babel:diego".to_string(),
            reason: RepairReason::TranslationInaccurate,
            note: "Wrong word".to_string(),
        },
    );
    let repair_id = match event {
        ServerEvent::RepairUpdated(r) => {
            assert_eq!(r.state, RepairState::Open);
            assert_eq!(r.room_id, ROOM);
            r.id
        }
        _ => panic!("repair not announced"),
    };
    assert_eq!(state.artifact.as_ref().unwrap().lifecycle, ArtifactLifecycle::UnderReview);

    let events = state.transition_repair(RepairTransitionInput {
        repair_id: repair_id.to_uppercase(),
        state: RepairState::Resolved,
    });
    assert_eq!(events.len(), 1);
    assert_eq!(state.repairs[0].state, RepairState::Resolved);

    let events = state.transition_repair(RepairTransitionInput {
        repair_id: "not-a-uuid".to_string(),
        state: RepairState::Resolved,
    });
    assert_eq!(error_text(&events[0]).as_deref(), Some("Invalid repair id"));
    let events = state.transition_repair(RepairTransitionInput {
        repair_id: "33333333-3333-4333-8333-333333333333".to_string(),
        state: RepairState::Resolved,
    });
    assert!(events.is_empty());
}

#[test]
fn facilitator_sees_who_spoke_not_what_was_said() {
    let mut state = NodeState::new();
    for (i, text) in ["one", "two", "three", "four", "five"].iter().enumerate() {
        let input = message_input(&state, "did:babel:amara", (i + 1) as u64, text);
        send_message(&mut state, input);
    }
    let request = state.facilitation_request(
        ROOM,
        FacilitationInput { requested_by: "did:babel:diego".to_string(), prompt: "Summarise".to_string() },
    );
    assert_eq!(request.visible_context.len(), 4);
    for line in &request.visible_context {
        assert_eq!(line, "did:babel:amara said in en. Translation count: 1");
    }
    let event = state.record_facilitation(Some(FacilitationResponse {
        id: "resp-1".to_string(),
        suggestion: "Ask about stewards".to_string(),
        accepted: None,
    }));
    assert!(matches!(event, ServerEvent::FacilitatorResponse(_)));
    let events = state.reject_facilitation("resp-1");
    assert_eq!(events.len(), 1);
    assert_eq!(state.facilitator_responses[0].accepted, Some(false));
    assert!(state.reject_facilitation("resp-9").is_empty());
    let failed = state.record_facilitation(None);
    assert_eq!(error_text(&failed).as_deref(), Some("Facilitation failed"));
}

#[test]
fn publication_waits_for_every_required_approval() {
    let mut state = NodeState::new();
    let events = state.publish_artifact();
    assert_eq!(error_text(&events[0]).as_deref(), Some("No artifact exists"));
    let events = state.create_project();
    assert_eq!(
        error_text(&events[0]).as_deref(),
        Some("Publish an approved artifact before creating a project")
    );

    let input = state.proposal_input(ROOM, "did:babel:amara".to_string());
    assert_eq!(input.visible_context, vec!["Private transcript remains private.".to_string()]);
    let events = state.record_proposal(MockInsightProposalProvider.propose(input));
    assert_eq!(events.len(), 2);
    let artifact_id = state.artifact.as_ref().unwrap().id.clone();
    assert_eq!(state.artifact.as_ref().unwrap().lifecycle, ArtifactLifecycle::Proposed);

    state.approve_artifact(ArtifactApprovalInput { participant_id: "did:babel:amara".to_string() });
    assert_eq!(state.artifact.as_ref().unwrap().lifecycle, ArtifactLifecycle::UnderReview);
    let events = state.publish_artifact();
    assert_eq!(
        error_text(&events[0]).as_deref(),
        Some("All required participants must approve the exact revision first")
    );
    assert!(state.commons_publications.is_empty());

    state.approve_artifact(ArtifactApprovalInput { participant_id: "did:babel:amara".to_string() });
    assert_eq!(state.approvals.len(), 1);
    state.approve_artifact(ArtifactApprovalInput { participant_id: "did:babel:diego".to_string() });
    assert_eq!(state.artifact.as_ref().unwrap().lifecycle, ArtifactLifecycle::Approved);
    assert_eq!(state.consent_receipts.len(), 3);
    let receipt = &state.consent_receipts[2];
    assert_eq!(receipt.approving_participant, "did:babel:diego");
    assert_eq!(receipt.approving_device, state.devices[1].device_id);
    assert_eq!(receipt.exact_revision_hash, state.artifact.as_ref().unwrap().revision_hash);
    assert!(receipt.approves_revision(&state.artifact.as_ref().unwrap().shared_summary));
    let record = state.consent_record(&receipt.receipt_id).unwrap();
    assert!(record.signature_present);
    assert_eq!(record.artifact_id, artifact_id);

    let events = state.publish_artifact();
    assert_eq!(events.len(), 2);
    assert_eq!(state.artifact.as_ref().unwrap().lifecycle, ArtifactLifecycle::Published);
    let publication = &state.commons_publications[0];
    assert_eq!(publication.id, format!("commons-{}", artifact_id));
    assert!(publication.consent_verified);
    assert!(!publication.transcript_exposed);
    assert!(state.find_publication(&publication.id).is_some());
    assert!(state.find_artifact(&artifact_id).is_some());
    assert!(state.find_artifact("other").is_none());

    let events = state.create_project();
    assert_eq!(events.len(), 2);
    let project = &state.projects[0];
    assert!(project.id.starts_with("project-"));
    assert_eq!(project.status, "forming");
    assert_eq!(project.source_artifact_id, format!("commons-{}", artifact_id));
    assert_eq!(project.contribution_needs.len(), 4);
    assert!(state.find_project(&project.id).is_some());
    assert!(state.find_project("project-none").is_none());
}

#[test]
fn a_new_proposal_drops_earlier_approvals() {
    let mut state = NodeState::new();
    let input = state.proposal_input(ROOM, "did:babel:amara".to_string());
    state.record_proposal(MockInsightProposalProvider.propose(input));
    state.approve_artifact(ArtifactApprovalInput { participant_id: "did:babel:amara".to_string() });
    state.approve_artifact(ArtifactApprovalInput { participant_id: "did:babel:diego".to_string() });
    let input = state.proposal_input(ROOM, "did:babel:diego".to_string());
    state.record_proposal(MockInsightProposalProvider.propose(input));
    assert!(state.approvals.is_empty());
    let events = state.publish_artifact();
    assert_eq!(
        error_text(&events[0]).as_deref(),
        Some("All required participants must approve the exact revision first")
    );
    let failed = state.record_proposal(Err(babel_protocol::understanding::InsightProposalError::Disabled));
    assert_eq!(error_text(&failed[0]).as_deref(), Some("Artifact proposal failed"));
}

#[test]
fn approval_without_artifact_is_only_recorded() {
    let mut state = NodeState::new();
    let events = state.approve_artifact(ArtifactApprovalInput { participant_id: "did:babel:amara".to_string() });
    assert!(events.is_empty());
    assert_eq!(state.approvals, vec!["did:babel:amara".to_string()]);
    assert!(state.consent_receipts.is_empty());
    assert!(state.has_approved("did:babel:amara"));
    assert!(!state.has_approved("did:babel:diego"));
}

#[test]
fn demo_identities_are_labelled_and_distinct() {
    let state = NodeState::new();
    let amara = state.identity_of("did:babel:amara").unwrap();
    assert_eq!(amara.display_name, "Amara");
    assert_eq!(amara.label, "Development Demo Only");
    assert!(amara.device_id.starts_with("device-"));
    let diego = state.identity_of("did:babel:diego").unwrap();
    assert_ne!(amara.device_id, diego.device_id);
    assert!(state.identity_of("did:babel:nobody").is_none());
    assert!(state.is_participant("did:babel:diego"));
    assert!(!state.is_participant("did:babel:nobody"));
}

#[test]
fn a_device_signing_for_another_device_is_refused() {
    let mut state = NodeState::new();
    let diego_device = state.devices[1].device_id.clone();
    let mut input = message_input(&state, "did:babel:amara", 1, "Hi");
    input.event.device_id = diego_device;
    let keys_private = state.devices[0].private_key.clone();
    babel_protocol::identity::sign_event_with_private_key(&mut input.event, &keys_private).unwrap();
    let events = send_message(&mut state, input);
    assert_eq!(
        error_text(&events[0]).as_deref(),
        Some("Event device is not the author's registered device")
    );
    assert!(state.messages.is_empty());
    let good = message_input(&state, "did:babel:amara", 1, "Hi");
    assert_eq!(send_message(&mut state, good).len(), 4);
}

#[test]
fn context_is_added_now_to_the_first_message() {
    let mut state = NodeState::new();
    let input = message_input(&state, "did:babel:amara", 1, "Water committees");
    let id = input.event.id.clone();
    send_message(&mut state, input);
    let event = state.add_context(CulturalContextInput {
        message_id: id.clone(),
        author_id: "did:babel:diego".to_string(),
        note_type: "idiom".to_string(),
        text: "Elders decide.".to_string(),
    });
    let note_id = match event {
        ServerEvent::ContextAdded(note) => note.id,
        _ => panic!("context not announced"),
    };
    assert!(note_id.starts_with("context-"));
    assert_eq!(state.messages[0].context_notes.len(), 1);
    assert_eq!(state.messages[0].context_notes[0].id, note_id);
    let missing = state.add_context(CulturalContextInput {
        message_id: "nope".to_string(),
        author_id: "x".to_string(),
        note_type: "y".to_string(),
        text: "z".to_string(),
    });
    assert!(matches!(missing, ServerEvent::ContextAdded(_)));
    assert_eq!(state.messages[0].context_notes.len(), 1);
}


#[test]
fn checked_demo_event_needs_an_identity_that_can_sign() {
    let mut state = NodeState::new();
    let event = state
        .try_demo_signed_message_event("did:babel:amara", ROOM, 1, "Hi")
        .expect("amara can sign");
    let amara = state.identity_of("did:babel:amara").unwrap();
    assert_eq!(event.device_id, amara.device_id);
    assert!(event.verify_with_public_key_b64(&amara.public_key).is_ok());
    assert!(state.try_demo_signed_message_event("did:babel:nobody", ROOM, 1, "Hi").is_none());
    state.devices[1].private_key = "not base64".to_string();
    assert!(state.try_demo_signed_message_event("did:babel:diego", ROOM, 1, "Hi").is_none());
    state.devices[1].private_key = "AAAA".to_string();
    assert!(state.try_demo_signed_message_event("did:babel:diego", ROOM, 1, "Hi").is_none());
}
