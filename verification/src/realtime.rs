//! The live room protocol: what clients send, what the node broadcasts,
//! and the room snapshot.

use vstd::prelude::*;
use crate::conversations::{CulturalContextNote, Message, Room};
use crate::facilitation::FacilitationResponse;
use crate::protocol::ProtocolEvent;
use crate::repair::{RepairReason, RepairState, RepairThread};
use crate::translation::TranslationResult;
use crate::understanding::UnderstandingArtifactDraft;

verus! {

/// Everything a participant sees of a room at one moment.
pub struct RoomSnapshot {
    pub room: Room,
    pub messages: Vec<Message>,
    pub repairs: Vec<RepairThread>,
    pub facilitator_responses: Vec<FacilitationResponse>,
    pub artifact: Option<UnderstandingArtifactDraft>,
    pub approvals: Vec<String>,
    pub consent_receipt_ids: Vec<String>,
    pub commons_publications: Vec<PublicArtifactSummary>,
    pub projects: Vec<ProjectSummary>,
    pub server_time: String,
}

/// A signed message event with the message body it signs.
pub struct MessageSendInput {
    pub event: ProtocolEvent,
    pub original_language: String,
    pub original_text: String,
    pub reply_to: Option<String>,
}

/// A participant challenges the translations of a message.
pub struct TranslationReviewInput {
    pub message_id: String,
    pub reviewer_id: String,
    pub note: String,
}

/// A participant adds cultural context to a message.
pub struct CulturalContextInput {
    pub message_id: String,
    pub author_id: String,
    pub note_type: String,
    pub text: String,
}

/// A participant opens a repair.
pub struct RepairOpenInput {
    pub target_id: String,
    pub opened_by: String,
    pub reason: RepairReason,
    pub note: String,
}

/// A participant moves a repair to a new state.
pub struct RepairTransitionInput {
    pub repair_id: String,
    pub state: RepairState,
}

/// A participant asks the facilitator for help.
pub struct FacilitationInput {
    pub requested_by: String,
    pub prompt: String,
}

/// A participant approves the current artifact revision.
pub struct ArtifactApprovalInput {
    pub participant_id: String,
}

/// What The Commons shows of a published artifact: never the transcript.
pub struct PublicArtifactSummary {
    pub id: String,
    pub title: String,
    pub summary: String,
    pub revision_hash: String,
    pub consent_verified: bool,
    pub transcript_exposed: bool,
}

/// A collaboration project formed from a published artifact.
pub struct ProjectSummary {
    pub id: String,
    pub title: String,
    pub status: String,
    pub source_artifact_id: String,
    pub contribution_needs: Vec<String>,
}

/// What a client sends over the room's WebSocket.
pub enum ClientEvent {
    RoomJoin { participant_id: String },
    RoomLeave { participant_id: String },
    PresenceUpdate { participant_id: String, present: bool },
    TypingStart { participant_id: String },
    TypingStop { participant_id: String },
    MessageSend(MessageSendInput),
    TranslationReview(TranslationReviewInput),
    CulturalContext(CulturalContextInput),
    RepairOpen(RepairOpenInput),
    RepairTransition(RepairTransitionInput),
    FacilitatorRequest(FacilitationInput),
    FacilitatorReject { response_id: String },
    ArtifactPropose { requested_by: String },
    ArtifactApprove(ArtifactApprovalInput),
    ArtifactPublish,
    ProjectCreate,
}

/// What the node broadcasts to the room.
pub enum ServerEvent {
    RoomSnapshot(RoomSnapshot),
    ParticipantJoined { participant_id: String },
    ParticipantLeft { participant_id: String },
    MessageAccepted(Message),
    MessageDelivered { message_id: String },
    MessageRejected { reason: String },
    TranslationStarted { message_id: String },
    TranslationCompleted(TranslationResult),
    RepairUpdated(RepairThread),
    ContextAdded(CulturalContextNote),
    FacilitatorResponse(FacilitationResponse),
    ArtifactProposalCreated(UnderstandingArtifactDraft),
    ArtifactUpdated(UnderstandingArtifactDraft),
    CommonsPublished(PublicArtifactSummary),
    ProjectCreated(ProjectSummary),
    PresenceUpdated { participant_id: String, present: bool },
    TypingUpdated { participant_id: String, typing: bool },
    Error { message: String },
}

impl Clone for PublicArtifactSummary {
    fn clone(&self) -> (res: Self)
        ensures
            res == *self,
    {
        PublicArtifactSummary {
            id: self.id.clone(),
            title: self.title.clone(),
            summary: self.summary.clone(),
            revision_hash: self.revision_hash.clone(),
            consent_verified: self.consent_verified,
            transcript_exposed: self.transcript_exposed,
        }
    }
}

impl ProjectSummary {
    /// Two project summaries hold the same values.
    pub open spec fn same(a: ProjectSummary, b: ProjectSummary) -> bool {
        &&& a.id == b.id
        &&& a.title == b.title
        &&& a.status == b.status
        &&& a.source_artifact_id == b.source_artifact_id
        &&& a.contribution_needs@ == b.contribution_needs@
    }
}

impl Clone for ProjectSummary {
    fn clone(&self) -> (res: Self)
        ensures
            ProjectSummary::same(*self, res),
    {
        ProjectSummary {
            id: self.id.clone(),
            title: self.title.clone(),
            status: self.status.clone(),
            source_artifact_id: self.source_artifact_id.clone(),
            contribution_needs: self.contribution_needs.clone(),
        }
    }
}

} // verus!
