//! Misunderstanding repair threads.

use vstd::prelude::*;
use crate::ids::{is_uuid_text, new_uuid, now_text};

verus! {

/// Why a repair was opened.
#[derive(Clone, Copy, Debug, PartialEq, Eq, Structural)]
pub enum RepairReason {
    Misunderstood,
    TranslationInaccurate,
    MissingContext,
    HarmfulWording,
    DisagreeWithInterpretation,
    NeedsClarification,
    PreserveOriginalWording,
}

/// Where a repair stands.
#[derive(Clone, Copy, Debug, PartialEq, Eq, Structural)]
pub enum RepairState {
    Open,
    Acknowledged,
    Clarifying,
    Resolved,
    Unresolved,
    Withdrawn,
}

/// A repair thread about a message or translation in a room. Ids hold UUIDs
/// as hyphenated lower-case text; times are RFC 3339 text.
pub struct RepairThread {
    pub id: String,
    pub room_id: String,
    pub target_id: String,
    pub opened_by: String,
    pub reason: RepairReason,
    pub note: String,
    pub state: RepairState,
    pub opened_at: String,
    pub updated_at: String,
}

impl RepairThread {
    /// Opens a repair with a fresh id, opened and updated now.
    pub fn open(room_id: String, target_id: &str, opened_by: &str, reason: RepairReason, note: &str) -> (res: Self)
        ensures
            is_uuid_text(res.id@),
            res.room_id == room_id,
            res.target_id@ == target_id@,
            res.opened_by@ == opened_by@,
            res.reason == reason,
            res.note@ == note@,
            res.state == RepairState::Open,
            res.opened_at == res.updated_at,
    {
        let now = now_text();
        RepairThread {
            id: new_uuid(),
            room_id,
            target_id: target_id.to_owned(),
            opened_by: opened_by.to_owned(),
            reason,
            note: note.to_owned(),
            state: RepairState::Open,
            opened_at: now.clone(),
            updated_at: now,
        }
    }

    /// Moves the repair to a new state, updated now.
    pub fn transition(&mut self, state: RepairState)
        ensures
            final(self).state == state,
            final(self).id == old(self).id,
            final(self).room_id == old(self).room_id,
            final(self).target_id == old(self).target_id,
            final(self).opened_by == old(self).opened_by,
            final(self).reason == old(self).reason,
            final(self).note == old(self).note,
            final(self).opened_at == old(self).opened_at,
    {
        self.state = state;
        self.updated_at = now_text();
    }
}

} // verus!

verus! {

impl Clone for RepairThread {
    fn clone(&self) -> (res: Self)
        ensures
            res == *self,
    {
        RepairThread {
            id: self.id.clone(),
            room_id: self.room_id.clone(),
            target_id: self.target_id.clone(),
            opened_by: self.opened_by.clone(),
            reason: self.reason,
            note: self.note.clone(),
            state: self.state,
            opened_at: self.opened_at.clone(),
            updated_at: self.updated_at.clone(),
        }
    }
}

} // verus!
