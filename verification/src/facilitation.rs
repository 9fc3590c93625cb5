//! Requests to and responses from an AI facilitator. The facilitator itself
//! is a service of the deployment; the node only records what it answered
//! and whether a participant rejected it.

use vstd::prelude::*;

verus! {

/// What the node asks the facilitator.
pub struct FacilitationRequest {
    pub room_id: String,
    pub requested_by: String,
    pub prompt: String,
    pub visible_context: Vec<String>,
}

/// A facilitator's answer; `accepted` stays empty until a participant
/// decides.
pub struct FacilitationResponse {
    pub id: String,
    pub suggestion: String,
    pub accepted: Option<bool>,
}

} // verus!

verus! {

impl Clone for FacilitationResponse {
    fn clone(&self) -> (res: Self)
        ensures
            res == *self,
    {
        FacilitationResponse {
            id: self.id.clone(),
            suggestion: self.suggestion.clone(),
            accepted: self.accepted,
        }
    }
}

} // verus!
