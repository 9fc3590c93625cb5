//! Metadata-only audit records.

use vstd::prelude::*;
use crate::ids::{is_uuid_text, new_uuid, now_text};

verus! {

/// An audit record: who did what to which resource, never the content.
pub struct AuditRecord {
    pub id: String,
    pub actor_id: String,
    pub action: String,
    pub resource_type: String,
    pub resource_id: String,
    pub privacy_classification: String,
    pub content_hash: Option<String>,
    pub created_at: String,
}

impl AuditRecord {
    /// A metadata-only record with a fresh id, made now.
    pub fn new_without_body(actor_id: &str, action: &str, resource_type: &str, resource_id: &str) -> (res: Self)
        ensures
            is_uuid_text(res.id@),
            res.actor_id@ == actor_id@,
            res.action@ == action@,
            res.resource_type@ == resource_type@,
            res.resource_id@ == resource_id@,
            res.privacy_classification@ == "metadata_only"@,
            res.content_hash is None,
    {
        AuditRecord {
            id: new_uuid(),
            actor_id: actor_id.to_owned(),
            action: action.to_owned(),
            resource_type: resource_type.to_owned(),
            resource_id: resource_id.to_owned(),
            privacy_classification: "metadata_only".to_owned(),
            content_hash: None,
            created_at: now_text(),
        }
    }
}

} // verus!
