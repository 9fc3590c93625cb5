//! Rooms, participants, original messages and their delivery state.

use vstd::prelude::*;
use crate::ids::now_text;
use crate::text::owned;
use crate::translation::TranslationResult;

verus! {

/// The lifecycle of a room.
#[derive(Clone, Copy, Debug, PartialEq, Eq, Structural)]
pub enum RoomLifecycle {
    Created,
    Active,
    Paused,
    Closed,
    Archived,
}

/// How far a message has come on its way to the other participants.
#[derive(Clone, Copy, Debug, PartialEq, Eq, Structural)]
pub enum DeliveryState {
    LocalPending,
    ReceivedByEdge,
    Validating,
    Persisted,
    Delivered,
    TranslationPending,
    Translated,
    TranslationReviewed,
    Failed,
}

/// A participant of a room and their language preferences.
pub struct Participant {
    pub id: String,
    pub display_name: String,
    pub preferred_language: String,
    pub translation_target: String,
    pub location_label: String,
    pub present: bool,
    pub typing: bool,
}

/// A conversation room. `id` holds a UUID as hyphenated lower-case text;
/// `created_at` is RFC 3339 text.
pub struct Room {
    pub id: String,
    pub title: String,
    pub lifecycle: RoomLifecycle,
    pub privacy: String,
    pub retention: String,
    pub participants: Vec<Participant>,
    pub artifact_proposal_allowed: bool,
    pub created_at: String,
}

/// An original message with its translations and context notes as child
/// records.
pub struct Message {
    pub id: String,
    pub room_id: String,
    pub sender_id: String,
    pub sender_device_id: String,
    pub original_language: String,
    pub original_text: String,
    pub sent_at: String,
    pub client_sequence: u64,
    pub reply_to: Option<String>,
    pub signature: String,
    pub event_hash: String,
    pub delivery_state: DeliveryState,
    pub translations: Vec<TranslationResult>,
    pub context_notes: Vec<CulturalContextNote>,
}

/// Cultural context a participant adds to a message.
pub struct CulturalContextNote {
    pub id: String,
    pub message_id: String,
    pub author_id: String,
    pub note_type: String,
    pub text: String,
    pub created_at: String,
}

/// The id of the demonstration room.
pub open spec fn demo_room_id() -> Seq<char> {
    "11111111-1111-4111-8111-111111111111"@
}

/// A participant with fixed texts, neither present nor typing.
pub open spec fn absent_participant(
    p: Participant,
    id: Seq<char>,
    name: Seq<char>,
    language: Seq<char>,
    target: Seq<char>,
    location: Seq<char>,
) -> bool {
    &&& p.id@ == id
    &&& p.display_name@ == name
    &&& p.preferred_language@ == language
    &&& p.translation_target@ == target
    &&& p.location_label@ == location
    &&& !p.present
    &&& !p.typing
}

/// The demonstration room: Amara (Lagos, translated to Spanish) and Diego
/// (Medellin, translated to English), active, private by default.
pub open spec fn is_demo_room(r: Room) -> bool {
    &&& r.id@ == demo_room_id()
    &&& r.title@ == "Local knowledge and clean-water projects"@
    &&& r.lifecycle == RoomLifecycle::Active
    &&& r.privacy@ == "private_by_default"@
    &&& r.retention@ == "participant_controlled"@
    &&& r.participants@.len() == 2
    &&& absent_participant(
        r.participants@[0],
        "did:babel:amara"@,
        "Amara"@,
        "English / Yoruba"@,
        "es"@,
        "Lagos, Nigeria"@,
    )
    &&& absent_participant(
        r.participants@[1],
        "did:babel:diego"@,
        "Diego"@,
        "Spanish / English"@,
        "en"@,
        "Medellin, Colombia"@,
    )
    &&& r.artifact_proposal_allowed
}

impl Room {
    /// The demonstration room, created now.
    pub fn demo() -> (res: Self)
        ensures
            is_demo_room(res),
    {
        let mut participants: Vec<Participant> = Vec::new();
        participants.push(
            Participant {
                id: owned("did:babel:amara"),
                display_name: owned("Amara"),
                preferred_language: owned("English / Yoruba"),
                translation_target: owned("es"),
                location_label: owned("Lagos, Nigeria"),
                present: false,
                typing: false,
            },
        );
        participants.push(
            Participant {
                id: owned("did:babel:diego"),
                display_name: owned("Diego"),
                preferred_language: owned("Spanish / English"),
                translation_target: owned("en"),
                location_label: owned("Medellin, Colombia"),
                present: false,
                typing: false,
            },
        );
        Room {
            id: owned("11111111-1111-4111-8111-111111111111"),
            title: owned("Local knowledge and clean-water projects"),
            lifecycle: RoomLifecycle::Active,
            privacy: owned("private_by_default"),
            retention: owned("participant_controlled"),
            participants,
            artifact_proposal_allowed: true,
            created_at: now_text(),
        }
    }
}

} // verus!

verus! {

impl Clone for Participant {
    fn clone(&self) -> (res: Self)
        ensures
            res == *self,
    {
        Participant {
            id: self.id.clone(),
            display_name: self.display_name.clone(),
            preferred_language: self.preferred_language.clone(),
            translation_target: self.translation_target.clone(),
            location_label: self.location_label.clone(),
            present: self.present,
            typing: self.typing,
        }
    }
}

impl Room {
    /// Two rooms hold the same values.
    pub open spec fn same(a: Room, b: Room) -> bool {
        &&& a.id == b.id
        &&& a.title == b.title
        &&& a.lifecycle == b.lifecycle
        &&& a.privacy == b.privacy
        &&& a.retention == b.retention
        &&& a.participants@ == b.participants@
        &&& a.artifact_proposal_allowed == b.artifact_proposal_allowed
        &&& a.created_at == b.created_at
    }
}

impl Clone for Room {
    fn clone(&self) -> (res: Self)
        ensures
            Room::same(*self, res),
    {
        Room {
            id: self.id.clone(),
            title: self.title.clone(),
            lifecycle: self.lifecycle,
            privacy: self.privacy.clone(),
            retention: self.retention.clone(),
            participants: self.participants.clone(),
            artifact_proposal_allowed: self.artifact_proposal_allowed,
            created_at: self.created_at.clone(),
        }
    }
}

impl Clone for CulturalContextNote {
    fn clone(&self) -> (res: Self)
        ensures
            res == *self,
    {
        CulturalContextNote {
            id: self.id.clone(),
            message_id: self.message_id.clone(),
            author_id: self.author_id.clone(),
            note_type: self.note_type.clone(),
            text: self.text.clone(),
            created_at: self.created_at.clone(),
        }
    }
}

/// Two sequences of translations hold the same values, element by element.
pub open spec fn same_translations(a: Seq<TranslationResult>, b: Seq<TranslationResult>) -> bool {
    &&& a.len() == b.len()
    &&& forall|i: int| 0 <= i < a.len() ==> TranslationResult::same(a[i], #[trigger] b[i])
}

impl Message {
    /// Two messages hold the same values.
    pub open spec fn same(a: Message, b: Message) -> bool {
        &&& Message::same_original(a, b)
        &&& a.delivery_state == b.delivery_state
        &&& same_translations(a.translations@, b.translations@)
        &&& a.context_notes@ == b.context_notes@
    }

    /// Two messages agree on everything the sender wrote and signed: the
    /// original message, which is never overwritten.
    pub open spec fn same_original(a: Message, b: Message) -> bool {
        &&& a.id == b.id
        &&& a.room_id == b.room_id
        &&& a.sender_id == b.sender_id
        &&& a.sender_device_id == b.sender_device_id
        &&& a.original_language == b.original_language
        &&& a.original_text == b.original_text
        &&& a.sent_at == b.sent_at
        &&& a.client_sequence == b.client_sequence
        &&& a.reply_to == b.reply_to
        &&& a.signature == b.signature
        &&& a.event_hash == b.event_hash
    }
}

impl Clone for Message {
    fn clone(&self) -> (res: Self)
        ensures
            Message::same(*self, res),
    {
        let translations = self.translations.clone();
        assert forall|i: int| 0 <= i < self.translations@.len() implies TranslationResult::same(
            self.translations@[i],
            #[trigger] translations@[i],
        ) by {
            assert(cloned::<TranslationResult>(self.translations[i], translations[i]));
        }
        Message {
            id: self.id.clone(),
            room_id: self.room_id.clone(),
            sender_id: self.sender_id.clone(),
            sender_device_id: self.sender_device_id.clone(),
            original_language: self.original_language.clone(),
            original_text: self.original_text.clone(),
            sent_at: self.sent_at.clone(),
            client_sequence: self.client_sequence,
            reply_to: crate::text::clone_opt(&self.reply_to),
            signature: self.signature.clone(),
            event_hash: self.event_hash.clone(),
            delivery_state: self.delivery_state,
            translations,
            context_notes: self.context_notes.clone(),
        }
    }
}

} // verus!
