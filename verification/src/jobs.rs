//! Minimum-necessary asynchronous job envelopes.

use vstd::prelude::*;
use crate::ids::{is_uuid_text, new_uuid, now_text};

verus! {

/// A queued job that carries only the references it is allowed to use.
pub struct AsyncJob {
    pub id: String,
    pub idempotency_key: String,
    pub job_type: String,
    pub schema_version: u32,
    pub created_at: String,
    pub attempt_count: u32,
    pub privacy_classification: String,
    pub authorized_references: Vec<String>,
}

impl AsyncJob {
    /// A first-attempt job of schema version 1 with a fresh id, made now.
    pub fn new(
        idempotency_key: &str,
        job_type: &str,
        privacy_classification: &str,
        authorized_references: Vec<String>,
    ) -> (res: Self)
        ensures
            is_uuid_text(res.id@),
            res.idempotency_key@ == idempotency_key@,
            res.job_type@ == job_type@,
            res.schema_version == 1,
            res.attempt_count == 0,
            res.privacy_classification@ == privacy_classification@,
            res.authorized_references == authorized_references,
    {
        AsyncJob {
            id: new_uuid(),
            idempotency_key: idempotency_key.to_owned(),
            job_type: job_type.to_owned(),
            schema_version: 1,
            created_at: now_text(),
            attempt_count: 0,
            privacy_classification: privacy_classification.to_owned(),
            authorized_references,
        }
    }
}

} // verus!
