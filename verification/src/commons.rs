//! Approved public knowledge published to The Commons.

use vstd::prelude::*;
use crate::consent::PublicationScope;

verus! {

/// An artifact published to The Commons. It holds no room transcript.
pub struct CommonsPublication {
    pub id: String,
    pub artifact_id: String,
    pub title: String,
    pub summary: String,
    pub revision_hash: String,
    pub language_tags: Vec<String>,
    pub cultural_context_tags: Vec<String>,
    pub evidence_tags: Vec<String>,
    pub publication_scope: PublicationScope,
    pub consent_receipt_ids: Vec<String>,
    pub ai_disclosure: String,
    pub published_at: String,
}

impl CommonsPublication {
    /// A Commons publication never exposes the room transcript.
    pub fn transcript_exposed(&self) -> (res: bool)
        ensures
            !res,
    {
        false
    }
}

} // verus!
