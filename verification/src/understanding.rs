//! Understanding Artifacts: drafts of shared insight that participants may
//! approve, and the proposal provider that drafts them.

use vstd::prelude::*;
use crate::consent::{revision_digest, revision_hash};
use crate::ids::{is_uuid_text, new_uuid, now_text};
use crate::text::owned;

verus! {

/// Where an artifact is on its way from draft to publication.
#[derive(Clone, Copy, Debug, PartialEq, Eq, Structural)]
pub enum ArtifactLifecycle {
    Draft,
    Proposed,
    UnderReview,
    Approved,
    Published,
    Withdrawn,
}

/// A draft of shared understanding. Ids hold UUIDs as hyphenated lower-case
/// text; `created_at` is RFC 3339 text.
pub struct UnderstandingArtifactDraft {
    pub id: String,
    pub room_id: String,
    pub title: String,
    pub originating_question: String,
    pub shared_summary: String,
    pub cultural_contexts: Vec<String>,
    pub linguistic_ambiguities: Vec<String>,
    pub areas_of_agreement: Vec<String>,
    pub unresolved_disagreements: Vec<String>,
    pub minority_perspectives: Vec<String>,
    pub evidence_references: Vec<String>,
    pub approved_translations: Vec<String>,
    pub required_approvers: Vec<String>,
    pub ai_disclosure: String,
    pub publication_scope: String,
    pub revision_hash: String,
    pub lifecycle: ArtifactLifecycle,
    pub created_at: String,
}

/// What a proposal provider may see.
pub struct InsightProposalInput {
    pub room_id: String,
    pub requested_by: String,
    pub participant_ids: Vec<String>,
    pub visible_context: Vec<String>,
}

/// Why no proposal was made.
#[derive(Clone, Copy, Debug, PartialEq, Eq, Structural)]
pub enum InsightProposalError {
    Disabled,
    MissingParticipants,
}

/// A service that drafts artifacts.
pub trait InsightProposalProvider {
    /// Drafts an artifact for a room.
    fn propose(&self, input: InsightProposalInput) -> Result<UnderstandingArtifactDraft, InsightProposalError>;
}

/// The shared summary of the mock proposal.
pub open spec fn mock_summary() -> Seq<char> {
    "Communities should preserve local knowledge, choose their own accountable stewards, and invite technical support only when it strengthens community control of low-cost clean-water work."@
}

/// The draft the mock provider gives: fixed texts, every participant a
/// required approver, the revision hash of the summary, still a draft.
pub open spec fn mock_draft(input: InsightProposalInput, d: UnderstandingArtifactDraft) -> bool {
    &&& is_uuid_text(d.id@)
    &&& d.room_id == input.room_id
    &&& d.title@ == "Community-led clean-water knowledge"@
    &&& d.originating_question@
        == "How can communities preserve local knowledge and coordinate low-cost clean-water projects without outside organizations controlling the process?"@
    &&& d.shared_summary@ == mock_summary()
    &&& d.cultural_contexts@.len() == 1
    &&& d.cultural_contexts@[0]@
        == "Terms like control, stewardship, and outside help should be reviewed locally."@
    &&& d.linguistic_ambiguities@.len() == 1
    &&& d.linguistic_ambiguities@[0]@
        == "Community control may not map exactly across English and Spanish usage."@
    &&& d.areas_of_agreement@.len() == 1
    &&& d.areas_of_agreement@[0]@ == "Local participants should approve what becomes public."@
    &&& d.unresolved_disagreements@.len() == 1
    &&& d.unresolved_disagreements@[0]@
        == "The participants have not settled how technical experts should be selected."@
    &&& d.minority_perspectives@.len() == 0
    &&& d.evidence_references@.len() == 0
    &&& d.approved_translations@.len() == 0
    &&& d.required_approvers == input.participant_ids
    &&& d.ai_disclosure@ == "AI-proposed. Human-reviewed. Not yet approved."@
    &&& d.publication_scope@ == "commons"@
    &&& d.revision_hash@ == revision_digest(mock_summary())
    &&& d.lifecycle == ArtifactLifecycle::Draft
}

/// A deterministic proposal provider for local development.
pub struct MockInsightProposalProvider;

/// A proposal provider that is switched off.
pub struct NoInsightProposalProvider;

fn one(s: &str) -> (res: Vec<String>)
    ensures
        res@.len() == 1,
        res@[0]@ == s@,
{
    let mut res: Vec<String> = Vec::new();
    res.push(owned(s));
    res
}

impl InsightProposalProvider for MockInsightProposalProvider {
    /// Refuses when there is no participant; otherwise drafts the fixed
    /// clean-water artifact for the room.
    fn propose(&self, input: InsightProposalInput) -> (res: Result<UnderstandingArtifactDraft, InsightProposalError>)
        ensures
            input.participant_ids@.len() == 0 ==> res matches Err(
                InsightProposalError::MissingParticipants,
            ),
            input.participant_ids@.len() > 0 ==> (res matches Ok(d) && mock_draft(input, d)),
    {
        if input.participant_ids.len() == 0 {
            return Err(InsightProposalError::MissingParticipants);
        }
        let shared_summary = owned(
            "Communities should preserve local knowledge, choose their own accountable stewards, and invite technical support only when it strengthens community control of low-cost clean-water work.",
        );
        let hash = revision_hash(shared_summary.as_str());
        Ok(
            UnderstandingArtifactDraft {
                id: new_uuid(),
                room_id: input.room_id,
                title: owned("Community-led clean-water knowledge"),
                originating_question: owned(
                    "How can communities preserve local knowledge and coordinate low-cost clean-water projects without outside organizations controlling the process?",
                ),
                shared_summary,
                cultural_contexts: one(
                    "Terms like control, stewardship, and outside help should be reviewed locally.",
                ),
                linguistic_ambiguities: one(
                    "Community control may not map exactly across English and Spanish usage.",
                ),
                areas_of_agreement: one("Local participants should approve what becomes public."),
                unresolved_disagreements: one(
                    "The participants have not settled how technical experts should be selected.",
                ),
                minority_perspectives: Vec::new(),
                evidence_references: Vec::new(),
                approved_translations: Vec::new(),
                required_approvers: input.participant_ids,
                ai_disclosure: owned("AI-proposed. Human-reviewed. Not yet approved."),
                publication_scope: owned("commons"),
                revision_hash: hash,
                lifecycle: ArtifactLifecycle::Draft,
                created_at: now_text(),
            },
        )
    }
}

impl InsightProposalProvider for NoInsightProposalProvider {
    /// Always refuses: proposals are disabled.
    fn propose(&self, input: InsightProposalInput) -> (res: Result<UnderstandingArtifactDraft, InsightProposalError>)
        ensures
            res matches Err(InsightProposalError::Disabled),
    {
        Err(InsightProposalError::Disabled)
    }
}

} // verus!

verus! {

impl UnderstandingArtifactDraft {
    /// Two drafts hold the same values.
    pub open spec fn same(a: UnderstandingArtifactDraft, b: UnderstandingArtifactDraft) -> bool {
        &&& a.id == b.id
        &&& a.room_id == b.room_id
        &&& a.title == b.title
        &&& a.originating_question == b.originating_question
        &&& a.shared_summary == b.shared_summary
        &&& a.cultural_contexts@ == b.cultural_contexts@
        &&& a.linguistic_ambiguities@ == b.linguistic_ambiguities@
        &&& a.areas_of_agreement@ == b.areas_of_agreement@
        &&& a.unresolved_disagreements@ == b.unresolved_disagreements@
        &&& a.minority_perspectives@ == b.minority_perspectives@
        &&& a.evidence_references@ == b.evidence_references@
        &&& a.approved_translations@ == b.approved_translations@
        &&& a.required_approvers@ == b.required_approvers@
        &&& a.ai_disclosure == b.ai_disclosure
        &&& a.publication_scope == b.publication_scope
        &&& a.revision_hash == b.revision_hash
        &&& a.lifecycle == b.lifecycle
        &&& a.created_at == b.created_at
    }
}

impl Clone for UnderstandingArtifactDraft {
    fn clone(&self) -> (res: Self)
        ensures
            UnderstandingArtifactDraft::same(*self, res),
    {
        UnderstandingArtifactDraft {
            id: self.id.clone(),
            room_id: self.room_id.clone(),
            title: self.title.clone(),
            originating_question: self.originating_question.clone(),
            shared_summary: self.shared_summary.clone(),
            cultural_contexts: self.cultural_contexts.clone(),
            linguistic_ambiguities: self.linguistic_ambiguities.clone(),
            areas_of_agreement: self.areas_of_agreement.clone(),
            unresolved_disagreements: self.unresolved_disagreements.clone(),
            minority_perspectives: self.minority_perspectives.clone(),
            evidence_references: self.evidence_references.clone(),
            approved_translations: self.approved_translations.clone(),
            required_approvers: self.required_approvers.clone(),
            ai_disclosure: self.ai_disclosure.clone(),
            publication_scope: self.publication_scope.clone(),
            revision_hash: self.revision_hash.clone(),
            lifecycle: self.lifecycle,
            created_at: self.created_at.clone(),
        }
    }
}

} // verus!

verus! {

impl InsightProposalError {
    /// The human-readable text of the error.
    pub fn message(&self) -> (res: String)
        ensures
            *self is Disabled ==> res@ == "artifact proposal is disabled"@,
            *self is MissingParticipants ==> res@ == "at least one participant is required"@,
    {
        match self {
            InsightProposalError::Disabled => owned("artifact proposal is disabled"),
            InsightProposalError::MissingParticipants => owned("at least one participant is required"),
        }
    }
}

} // verus!
