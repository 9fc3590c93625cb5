//! Revision-specific consent receipts.

use vstd::prelude::*;
use crate::crypto::{sha256, sha256_digest};
use crate::text::{hex_encode, hex_lower};
use vstd::utf8::encode_utf8;

verus! {

/// How a participant wants to be credited.
#[derive(Clone, Copy, Debug, PartialEq, Eq, Structural)]
pub enum AttributionPreference {
    Named,
    Pseudonymous,
    Anonymous,
    CommunityAttribution,
}

/// How far an approved artifact may travel.
#[derive(Clone, Copy, Debug, PartialEq, Eq, Structural)]
pub enum PublicationScope {
    Private,
    Room,
    Commons,
    Public,
}

/// One participant's consent to publish one exact revision of an artifact.
/// Ids hold UUIDs as hyphenated lower-case text; times are RFC 3339 text.
pub struct ConsentReceipt {
    pub receipt_id: String,
    pub artifact_id: String,
    pub exact_revision_hash: String,
    pub approving_participant: String,
    pub approving_device: String,
    pub approved_publication_scope: PublicationScope,
    pub attribution_preference: AttributionPreference,
    pub approved_translations: Vec<String>,
    pub ai_processing_permissions: Vec<String>,
    pub timestamp: String,
    pub optional_review_date: Option<String>,
    pub consent_statement_version: String,
    pub signature: String,
}

/// The revision hash of a text: lower-case hex of the SHA-256 of its UTF-8
/// bytes.
pub open spec fn revision_digest(text: Seq<char>) -> Seq<char> {
    hex_lower(sha256(encode_utf8(text)))
}

/// The revision hash of an exact text.
pub fn revision_hash(exact_text: &str) -> (res: String)
    ensures
        res@ == revision_digest(exact_text@),
        res@.len() == 64,
        forall|i: int| 0 <= i < 64 ==> crate::ids::is_lower_hex(#[trigger] res@[i]),
{
    let digest = sha256_digest(exact_text.as_bytes());
    proof {
        crate::text::lemma_hex_lower_shape(digest@);
    }
    hex_encode(digest.as_slice())
}

/// A receipt approves a revision text when it holds that text's revision
/// hash.
pub open spec fn approves(r: ConsentReceipt, revision_text: Seq<char>) -> bool {
    r.exact_revision_hash@ == revision_digest(revision_text)
}

impl ConsentReceipt {
    /// Whether the receipt approves exactly this revision text.
    pub fn approves_revision(&self, revision_text: &str) -> (res: bool)
        ensures
            res == approves(*self, revision_text@),
    {
        let hash = revision_hash(revision_text);
        self.exact_revision_hash == hash
    }
}

/// A receipt that holds the revision hash of a text approves that text:
/// what `revision_hash` gives for it is what `approves_revision` accepts.
pub proof fn receipt_approves_its_revision(r: ConsentReceipt, text: Seq<char>, hash: Seq<char>)
    requires
        hash == revision_digest(text),
        r.exact_revision_hash@ == hash,
    ensures
        approves(r, text),
{
}

} // verus!
