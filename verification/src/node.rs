//! The decision logic of the local reference node: the state of the
//! demonstration room and what every client event does to it. The node
//! around it (HTTP, WebSocket, database, providers, broadcasting) hands each
//! event in and sends out the events these functions return.

use vstd::prelude::*;
use crate::consent::{AttributionPreference, ConsentReceipt, PublicationScope};
use crate::conversations::{
    demo_room_id, is_demo_room, CulturalContextNote, DeliveryState, Message, Room,
};
use crate::facilitation::{FacilitationRequest, FacilitationResponse};
use crate::identity::{
    generate_device_key_material, key_pair_matches, secret_of, sign_event_with_private_key,
    signed_with, DeviceKeyMaterial,
};
use crate::crypto::base64_bytes;
use crate::ids::{is_uuid_text, new_uuid, now_micros, now_text, parse_uuid, uuid_canonical};
use crate::json::{get_str_field, json_canonical, str_field, JsonMember, JsonValue};
use crate::protocol::{
    event_hash, signature_verifies, EventScope, ProtocolError, ProtocolEvent, ReplayProtector,
    PROTOCOL_ID,
};
use crate::realtime::{
    ArtifactApprovalInput, CulturalContextInput, FacilitationInput, MessageSendInput,
    ProjectSummary, PublicArtifactSummary, RepairOpenInput, RepairTransitionInput, RoomSnapshot,
    ServerEvent, TranslationReviewInput,
};
use crate::repair::RepairThread;
use crate::text::{blank, decimal, owned, push_str, str_eq, u64_decimal};
use crate::translation::{TranslationError, TranslationRequest, TranslationResult, TranslationReviewStatus};
use crate::understanding::{ArtifactLifecycle, InsightProposalError, InsightProposalInput, UnderstandingArtifactDraft};

verus! {

/// A development identity with its device key pair. Demo only.
pub struct DemoIdentity {
    pub participant_id: String,
    pub display_name: String,
    pub device_id: String,
    pub public_key: String,
    pub private_key: String,
    pub label: String,
}

/// The participant asking for room content.
pub struct AccessQuery {
    pub participant_id: Option<String>,
}

/// The node's health report.
pub struct HealthResponse {
    pub status: String,
    pub protocol: String,
    pub local_mode: bool,
    pub database_url_configured: bool,
    pub cloudflare_required_for_local: bool,
}

/// Why room content was not handed out.
pub enum AccessDenial {
    NotFound { message: String },
    Forbidden { message: String },
}

impl Clone for DemoIdentity {
    fn clone(&self) -> (res: Self)
        ensures
            res == *self,
    {
        DemoIdentity {
            participant_id: self.participant_id.clone(),
            display_name: self.display_name.clone(),
            device_id: self.device_id.clone(),
            public_key: self.public_key.clone(),
            private_key: self.private_key.clone(),
            label: self.label.clone(),
        }
    }
}

/// The key material of a demo identity.
pub open spec fn material_of(d: DemoIdentity) -> DeviceKeyMaterial {
    DeviceKeyMaterial { device_id: d.device_id, public_key: d.public_key, private_key: d.private_key }
}

/// The first demo identity of a participant, if any.
pub open spec fn device_of(devices: Seq<DemoIdentity>, participant_id: Seq<char>) -> Option<DemoIdentity>
    decreases devices.len(),
{
    if devices.len() == 0 {
        None
    } else if devices[0].participant_id@ == participant_id {
        Some(devices[0])
    } else {
        device_of(devices.drop_first(), participant_id)
    }
}

/// A fresh demo identity for a participant, labelled as such.
pub fn demo_identity(participant_id: &str, display_name: &str) -> (res: DemoIdentity)
    ensures
        res.participant_id@ == participant_id@,
        res.display_name@ == display_name@,
        res.label@ == "Development Demo Only"@,
        key_pair_matches(material_of(res)),
        res.device_id@.len() == 43,
        res.device_id@.take(7) == "device-"@,
        is_uuid_text(res.device_id@.skip(7)),
        !blank(res.device_id@),
{
    let DeviceKeyMaterial { device_id, public_key, private_key } = generate_device_key_material();
    proof {
        reveal_strlit("device-");
        assert(device_id@.take(7)[0] == 'd');
        assert(!crate::text::is_white_space(device_id@[0]));
    }
    DemoIdentity {
        participant_id: owned(participant_id),
        display_name: owned(display_name),
        device_id,
        public_key,
        private_key,
        label: owned("Development Demo Only"),
    }
}

/// The state of the demonstration room.
pub struct NodeState {
    pub room: Room,
    pub messages: Vec<Message>,
    pub repairs: Vec<RepairThread>,
    pub facilitator_responses: Vec<FacilitationResponse>,
    pub artifact: Option<UnderstandingArtifactDraft>,
    pub approvals: Vec<String>,
    pub consent_receipts: Vec<ConsentReceipt>,
    pub commons_publications: Vec<PublicArtifactSummary>,
    pub projects: Vec<ProjectSummary>,
    pub replay: ReplayProtector,
    pub devices: Vec<DemoIdentity>,
}

/// Whether someone is a participant of the room.
pub open spec fn in_room(room: Room, participant_id: Seq<char>) -> bool {
    exists|i: int| 0 <= i < room.participants@.len() && #[trigger] room.participants@[i].id@ == participant_id
}

/// What `check_room_access` decides: the demonstration room, asked for by
/// one of its participants.
pub open spec fn access_granted(room: Room, room_id: Seq<char>, query: AccessQuery) -> bool {
    &&& room_id == demo_room_id()
    &&& query.participant_id matches Some(p) && in_room(room, p@)
}

impl NodeState {
    /// A fresh node: the demonstration room, nothing said yet, and demo
    /// identities for Amara and Diego.
    pub fn new() -> (res: Self)
        ensures
            is_demo_room(res.room),
            res.messages@.len() == 0,
            res.repairs@.len() == 0,
            res.facilitator_responses@.len() == 0,
            res.artifact is None,
            res.approvals@.len() == 0,
            res.consent_receipts@.len() == 0,
            res.commons_publications@.len() == 0,
            res.projects@.len() == 0,
            forall|d: Seq<char>| #[trigger] res.replay.last_sequence(d) == 0,
            res.devices@.len() == 2,
            res.devices@[0].participant_id@ == "did:babel:amara"@,
            res.devices@[0].display_name@ == "Amara"@,
            res.devices@[1].participant_id@ == "did:babel:diego"@,
            res.devices@[1].display_name@ == "Diego"@,
            forall|i: int| 0 <= i < 2 ==> key_pair_matches(material_of(#[trigger] res.devices@[i])),
            forall|i: int| 0 <= i < 2 ==> (#[trigger] res.devices@[i]).label@ == "Development Demo Only"@
                && res.devices@[i].device_id@.len() == 43 && res.devices@[i].device_id@.take(7) == "device-"@
                && is_uuid_text(res.devices@[i].device_id@.skip(7)) && !blank(res.devices@[i].device_id@)
                && !blank(res.devices@[i].participant_id@) && can_sign(res.devices@[i]),
            res.consent_respected(),
    {
        let mut devices: Vec<DemoIdentity> = Vec::new();
        devices.push(demo_identity("did:babel:amara", "Amara"));
        devices.push(demo_identity("did:babel:diego", "Diego"));
        proof {
            reveal_strlit("did:babel:amara");
            reveal_strlit("did:babel:diego");
            assert(!crate::text::is_white_space(devices@[0].participant_id@[0]));
            assert(!crate::text::is_white_space(devices@[1].participant_id@[0]));
        }
        NodeState {
            room: Room::demo(),
            messages: Vec::new(),
            repairs: Vec::new(),
            facilitator_responses: Vec::new(),
            artifact: None,
            approvals: Vec::new(),
            consent_receipts: Vec::new(),
            commons_publications: Vec::new(),
            projects: Vec::new(),
            replay: ReplayProtector::new(),
            devices,
        }
    }

    /// The demo identity of a participant.
    pub fn identity_of(&self, participant_id: &str) -> (res: Option<DemoIdentity>)
        ensures
            res == device_of(self.devices@, participant_id@),
    {
        let n = self.devices.len();
        let mut i: usize = 0;
        assert(self.devices@.skip(0) == self.devices@);
        while i < n
            invariant
                n == self.devices@.len(),
                i <= n,
                device_of(self.devices@, participant_id@) == device_of(self.devices@.skip(i as int), participant_id@),
            decreases n - i,
        {
            assert(self.devices@.skip(i as int)[0] == self.devices@[i as int]);
            if str_eq(&self.devices[i].participant_id, participant_id) {
                return Some(self.devices[i].clone());
            }
            assert(self.devices@.skip(i as int).drop_first() == self.devices@.skip(i + 1));
            i = i + 1;
        }
        None
    }

    /// Whether someone is a participant of the room.
    pub fn is_participant(&self, participant_id: &str) -> (res: bool)
        ensures
            res == in_room(self.room, participant_id@),
    {
        let n = self.room.participants.len();
        let mut i: usize = 0;
        while i < n
            invariant
                n == self.room.participants@.len(),
                i <= n,
                forall|j: int| 0 <= j < i ==> self.room.participants@[j].id@ != participant_id@,
            decreases n - i,
        {
            if str_eq(&self.room.participants[i].id, participant_id) {
                return true;
            }
            i = i + 1;
        }
        false
    }

    /// Room content goes only to the room's participants: an unknown room is
    /// not found, and a request without a participant, or from someone who
    /// is not a participant, is forbidden.
    pub fn check_room_access(&self, room_id: &str, query: &AccessQuery) -> (res: Result<(), AccessDenial>)
        ensures
            res is Ok <==> access_granted(self.room, room_id@, *query),
            room_id@ != demo_room_id() ==> (res matches Err(AccessDenial::NotFound { message }) && message@ == "room not found"@),
            room_id@ == demo_room_id() && query.participant_id is None ==> (res matches Err(AccessDenial::Forbidden { message }) && message@ == "participant_id is required"@),
            room_id@ == demo_room_id() && (query.participant_id matches Some(p) && !in_room(self.room, p@)) ==> (res matches Err(AccessDenial::Forbidden { message }) && message@ == "room access is restricted to participants"@),
    {
        if !str_eq(&owned(room_id), "11111111-1111-4111-8111-111111111111") {
            return Err(AccessDenial::NotFound { message: owned("room not found") });
        }
        match &query.participant_id {
            None => Err(AccessDenial::Forbidden { message: owned("participant_id is required") }),
            Some(p) => {
                if !self.is_participant(p.as_str()) {
                    Err(AccessDenial::Forbidden { message: owned("room access is restricted to participants") })
                } else {
                    Ok(())
                }
            },
        }
    }
}

/// The health report of a node running locally.
pub fn health_response(database_url_configured: bool) -> (res: HealthResponse)
    ensures
        res.status@ == "ok"@,
        res.protocol@ == PROTOCOL_ID@,
        res.local_mode,
        res.database_url_configured == database_url_configured,
        !res.cloudflare_required_for_local,
{
    HealthResponse {
        status: owned("ok"),
        protocol: owned(PROTOCOL_ID),
        local_mode: true,
        database_url_configured,
        cloudflare_required_for_local: false,
    }
}

} // verus!

verus! {

/// The schema of a chat message event.
pub open spec fn message_schema() -> Seq<char> {
    "babel.message.created/1"@
}

/// Why a signed message is refused before its sequence is looked at, checked
/// in this order: an unknown author, a device that is not the author's
/// registered device, another room, another schema, a signature that does
/// not verify with the author's key, and a body that is not what was signed.
#[verifier::opaque]
pub open spec fn admission_error_before_replay(s: NodeState, room_id: Seq<char>, input: MessageSendInput) -> Option<Seq<char>> {
    let e = input.event;
    match device_of(s.devices@, e.author_id@) {
        None => Some("Unknown author"@),
        Some(d) => if e.device_id@ != d.device_id@ {
            Some("Event device is not the author's registered device"@)
        } else if !(e.room_id matches Some(r) && r@ == room_id) {
            Some("Event room does not match WebSocket room"@)
        } else if e.schema@ != message_schema() {
            Some("Unsupported message schema"@)
        } else if !signature_verifies(e, d.public_key@) {
            Some("Message signature could not be verified"@)
        } else if str_field(e.content, "original_text"@) != Some(input.original_text@) {
            Some("Signed content does not match message body"@)
        } else {
            None
        }
    }
}

/// Why a signed message is refused: the checks of
/// `admission_error_before_replay`, then a replayed or stale sequence.
/// Nothing when it is admitted.
pub open spec fn admission_error(s: NodeState, room_id: Seq<char>, input: MessageSendInput) -> Option<Seq<char>> {
    match admission_error_before_replay(s, room_id, input) {
        Some(text) => Some(text),
        None => if input.event.client_sequence <= s.replay.last_sequence(input.event.device_id@) {
            Some(crate::protocol::replay_text(input.event.device_id@, input.event.client_sequence))
        } else {
            None
        },
    }
}

/// Whether an event's signature verifies with a public key.
fn verifies(event: &ProtocolEvent, public_key_b64: &str) -> (res: bool)
    ensures
        res == signature_verifies(*event, public_key_b64@),
{
    event.verify_with_public_key_b64(public_key_b64).is_ok()
}

/// The hash of an event whose signature verifies.
fn hash_of_verified(event: &ProtocolEvent, public_key_b64: &str) -> (res: Result<String, ServerEvent>)
    requires
        signature_verifies(*event, public_key_b64@),
    ensures
        res matches Ok(h) && h@ == event_hash(*event),
{
    match event.content_hash() {
        Ok(hash) => Ok(hash),
        Err(_) => Err(error_event("Event hash failed")),
    }
}

/// The message the node makes of an admitted event: the original text and
/// everything signed, with the event's hash, persisted, not yet translated.
pub open spec fn admitted_message(room_id: Seq<char>, input: MessageSendInput, m: Message) -> bool {
    &&& m.id == input.event.id
    &&& m.room_id@ == room_id
    &&& m.sender_id == input.event.author_id
    &&& m.sender_device_id == input.event.device_id
    &&& m.original_language == input.original_language
    &&& m.original_text == input.original_text
    &&& m.sent_at == input.event.created_at
    &&& m.client_sequence == input.event.client_sequence
    &&& m.reply_to == input.reply_to
    &&& m.signature == input.event.signature
    &&& m.event_hash@ == event_hash(input.event)
    &&& m.delivery_state == DeliveryState::Persisted
    &&& m.translations@.len() == 0
    &&& m.context_notes@.len() == 0
}

/// An error event with the given text.
pub open spec fn is_error(ev: ServerEvent, text: Seq<char>) -> bool {
    ev matches ServerEvent::Error { message } && message@ == text
}

/// An error event.
pub fn error_event(text: &str) -> (res: ServerEvent)
    ensures
        is_error(res, text@),
{
    ServerEvent::Error { message: owned(text) }
}

/// Every original message is kept, unchanged in all that its sender wrote
/// and signed; new messages may follow.
pub open spec fn originals_kept(before: Seq<Message>, after: Seq<Message>) -> bool {
    &&& before.len() <= after.len()
    &&& forall|i: int| 0 <= i < before.len() ==> Message::same_original(before[i], #[trigger] after[i])
}

impl NodeState {
    /// Two node states agree on everything but the replay protector.
    pub open spec fn same_but_replay(a: NodeState, b: NodeState) -> bool {
        &&& a.room == b.room
        &&& a.messages == b.messages
        &&& a.repairs == b.repairs
        &&& a.facilitator_responses == b.facilitator_responses
        &&& a.artifact == b.artifact
        &&& a.approvals == b.approvals
        &&& a.consent_receipts == b.consent_receipts
        &&& a.commons_publications == b.commons_publications
        &&& a.projects == b.projects
        &&& a.devices == b.devices
    }

    /// Every check of `admit_message` before replay protection; gives the
    /// event's hash when they all pass.
    fn check_message(&self, room_id: &str, input: &MessageSendInput) -> (res: Result<String, ServerEvent>)
        ensures
            match admission_error_before_replay(*self, room_id@, *input) {
                Some(text) => res matches Err(ev) && is_error(ev, text),
                None => res matches Ok(h) && h@ == event_hash(input.event),
            },
    {
        reveal(admission_error_before_replay);
        let identity = match self.identity_of(input.event.author_id.as_str()) {
            Some(identity) => identity,
            None => return Err(error_event("Unknown author")),
        };
        if !str_eq(&identity.device_id, input.event.device_id.as_str()) {
            return Err(error_event("Event device is not the author's registered device"));
        }
        let same_room = match &input.event.room_id {
            Some(r) => str_eq(r, room_id),
            None => false,
        };
        if !same_room {
            return Err(error_event("Event room does not match WebSocket room"));
        }
        if !str_eq(&input.event.schema, "babel.message.created/1") {
            return Err(error_event("Unsupported message schema"));
        }
        if !verifies(&input.event, identity.public_key.as_str()) {
            return Err(error_event("Message signature could not be verified"));
        }
        let signed_text = get_str_field(&input.event.content, "original_text");
        let body_matches = match &signed_text {
            Some(t) => *t == input.original_text,
            None => false,
        };
        if !body_matches {
            return Err(error_event("Signed content does not match message body"));
        }
        hash_of_verified(&input.event, identity.public_key.as_str())
    }

    /// Checks a signed message event before it is persisted. A refused event
    /// comes back as the error event to broadcast and changes nothing; an
    /// admitted one spends its sequence and comes back, with the message to
    /// persist.
    pub fn admit_message(&mut self, room_id: &str, input: MessageSendInput) -> (res: Result<(ProtocolEvent, Message), ServerEvent>)
        ensures
            match admission_error(*old(self), room_id@, input) {
                Some(text) => (res matches Err(ev) && is_error(ev, text)) && *final(self) == *old(self),
                None => res matches Ok((e, m)) && e == input.event && admitted_message(room_id@, input, m)
                    && NodeState::same_but_replay(*old(self), *final(self))
                    && ReplayProtector::accept_step(old(self).replay, final(self).replay, input.event, true),
            },
            originals_kept(old(self).messages@, final(self).messages@),
            old(self).consent_respected() ==> final(self).consent_respected(),
    {
        let hash = match self.check_message(room_id, &input) {
            Ok(hash) => hash,
            Err(ev) => return Err(ev),
        };
        match self.replay.accept(&input.event) {
            Ok(()) => {},
            Err(error) => {
                let text = error.message();
                return Err(ServerEvent::Error { message: text });
            },
        }
        let MessageSendInput { event, original_language, original_text, reply_to } = input;
        let message = Message {
            id: event.id.clone(),
            room_id: owned(room_id),
            sender_id: event.author_id.clone(),
            sender_device_id: event.device_id.clone(),
            original_language,
            original_text,
            sent_at: event.created_at.clone(),
            client_sequence: event.client_sequence,
            reply_to,
            signature: event.signature.clone(),
            event_hash: hash,
            delivery_state: DeliveryState::Persisted,
            translations: Vec::new(),
            context_notes: Vec::new(),
        };
        Ok((event, message))
    }
}

} // verus!

verus! {

/// `k` is the first position of the participant `id` in the list.
pub open spec fn first_participant(ps: Seq<crate::conversations::Participant>, id: Seq<char>, k: int) -> bool {
    &&& 0 <= k < ps.len()
    &&& ps[k].id@ == id
    &&& forall|j: int| 0 <= j < k ==> ps[j].id@ != id
}

/// The participants after setting `present` of the first one with `id`.
pub open spec fn with_presence(ps: Seq<crate::conversations::Participant>, id: Seq<char>, present: bool) -> Seq<crate::conversations::Participant> {
    if exists|k: int| first_participant(ps, id, k) {
        let k = choose|k: int| first_participant(ps, id, k);
        ps.update(k, crate::conversations::Participant { present, ..ps[k] })
    } else {
        ps
    }
}

/// The participants after setting `typing` of the first one with `id`.
pub open spec fn with_typing(ps: Seq<crate::conversations::Participant>, id: Seq<char>, typing: bool) -> Seq<crate::conversations::Participant> {
    if exists|k: int| first_participant(ps, id, k) {
        let k = choose|k: int| first_participant(ps, id, k);
        ps.update(k, crate::conversations::Participant { typing, ..ps[k] })
    } else {
        ps
    }
}

proof fn lemma_first_participant_unique(ps: Seq<crate::conversations::Participant>, id: Seq<char>, k: int, l: int)
    requires
        first_participant(ps, id, k),
        first_participant(ps, id, l),
    ensures
        k == l,
{
}

impl NodeState {
    /// Everything but the participants of the room stays as it was.
    pub open spec fn only_participants_changed(a: NodeState, b: NodeState) -> bool {
        &&& a.room.id == b.room.id
        &&& a.room.title == b.room.title
        &&& a.room.lifecycle == b.room.lifecycle
        &&& a.room.privacy == b.room.privacy
        &&& a.room.retention == b.room.retention
        &&& a.room.artifact_proposal_allowed == b.room.artifact_proposal_allowed
        &&& a.room.created_at == b.room.created_at
        &&& a.messages == b.messages
        &&& a.repairs == b.repairs
        &&& a.facilitator_responses == b.facilitator_responses
        &&& a.artifact == b.artifact
        &&& a.approvals == b.approvals
        &&& a.consent_receipts == b.consent_receipts
        &&& a.commons_publications == b.commons_publications
        &&& a.projects == b.projects
        &&& a.replay == b.replay
        &&& a.devices == b.devices
    }

    fn participant_position(&self, participant_id: &str) -> (res: Option<usize>)
        ensures
            match res {
                Some(k) => first_participant(self.room.participants@, participant_id@, k as int),
                None => forall|k: int| !first_participant(self.room.participants@, participant_id@, k),
            },
    {
        let n = self.room.participants.len();
        let mut i: usize = 0;
        while i < n
            invariant
                n == self.room.participants@.len(),
                i <= n,
                forall|j: int| 0 <= j < i ==> self.room.participants@[j].id@ != participant_id@,
            decreases n - i,
        {
            if str_eq(&self.room.participants[i].id, participant_id) {
                return Some(i);
            }
            i = i + 1;
        }
        None
    }

    /// Marks a participant present or absent and announces it.
    pub fn set_presence(&mut self, participant_id: &str, present: bool) -> (res: ServerEvent)
        ensures
            final(self).room.participants@ == with_presence(old(self).room.participants@, participant_id@, present),
            NodeState::only_participants_changed(*old(self), *final(self)),
            res matches ServerEvent::PresenceUpdated { participant_id: p, present: q } && p@ == participant_id@ && q == present,
            originals_kept(old(self).messages@, final(self).messages@),
            old(self).consent_respected() ==> final(self).consent_respected(),
    {
        match self.participant_position(participant_id) {
            Some(k) => {
                let mut p = self.room.participants[k].clone();
                p.present = present;
                self.room.participants.set(k, p);
                proof {
                    let ps = old(self).room.participants@;
                    let c = choose|c: int| first_participant(ps, participant_id@, c);
                    lemma_first_participant_unique(ps, participant_id@, c, k as int);
                }
            },
            None => {},
        }
        ServerEvent::PresenceUpdated { participant_id: owned(participant_id), present }
    }

    /// Marks a participant typing or not and announces it. The node ends a
    /// typing indication a few seconds later with `expire_typing`.
    pub fn set_typing(&mut self, participant_id: &str, typing: bool) -> (res: ServerEvent)
        ensures
            final(self).room.participants@ == with_typing(old(self).room.participants@, participant_id@, typing),
            NodeState::only_participants_changed(*old(self), *final(self)),
            res matches ServerEvent::TypingUpdated { participant_id: p, typing: q } && p@ == participant_id@ && q == typing,
            originals_kept(old(self).messages@, final(self).messages@),
            old(self).consent_respected() ==> final(self).consent_respected(),
    {
        match self.participant_position(participant_id) {
            Some(k) => {
                let mut p = self.room.participants[k].clone();
                p.typing = typing;
                self.room.participants.set(k, p);
                proof {
                    let ps = old(self).room.participants@;
                    let c = choose|c: int| first_participant(ps, participant_id@, c);
                    lemma_first_participant_unique(ps, participant_id@, c, k as int);
                }
            },
            None => {},
        }
        ServerEvent::TypingUpdated { participant_id: owned(participant_id), typing }
    }

    /// Ends a typing indication.
    pub fn expire_typing(&mut self, participant_id: &str) -> (res: ServerEvent)
        ensures
            final(self).room.participants@ == with_typing(old(self).room.participants@, participant_id@, false),
            NodeState::only_participants_changed(*old(self), *final(self)),
            res matches ServerEvent::TypingUpdated { participant_id: p, typing: q } && p@ == participant_id@ && !q,
            originals_kept(old(self).messages@, final(self).messages@),
            old(self).consent_respected() ==> final(self).consent_respected(),
    {
        self.set_typing(participant_id, false)
    }
}

} // verus!

verus! {

/// `k` is the first position of the message `id` in the list.
pub open spec fn first_message(ms: Seq<Message>, id: Seq<char>, k: int) -> bool {
    &&& 0 <= k < ms.len()
    &&& ms[k].id@ == id
    &&& forall|j: int| 0 <= j < k ==> ms[j].id@ != id
}

/// The translation target of the first participant who is not the sender,
/// or English when there is none.
pub open spec fn target_language(ps: Seq<crate::conversations::Participant>, sender_id: Seq<char>) -> Seq<char>
    decreases ps.len(),
{
    if ps.len() == 0 {
        "en"@
    } else if ps[0].id@ != sender_id {
        ps[0].translation_target@
    } else {
        target_language(ps.drop_first(), sender_id)
    }
}

/// `after` is `before` with the message at `k` changed to `m`, which keeps
/// the original and its context notes.
pub open spec fn message_replaced(before: Seq<Message>, after: Seq<Message>, k: int, m: Message) -> bool {
    &&& 0 <= k < before.len()
    &&& after == before.update(k, m)
    &&& Message::same_original(before[k], m)
}

impl NodeState {
    /// Everything but the messages stays as it was.
    pub open spec fn only_messages_changed(a: NodeState, b: NodeState) -> bool {
        &&& a.room == b.room
        &&& a.repairs == b.repairs
        &&& a.facilitator_responses == b.facilitator_responses
        &&& a.artifact == b.artifact
        &&& a.approvals == b.approvals
        &&& a.consent_receipts == b.consent_receipts
        &&& a.commons_publications == b.commons_publications
        &&& a.projects == b.projects
        &&& a.replay == b.replay
        &&& a.devices == b.devices
    }

    fn message_position(&self, message_id: &str) -> (res: Option<usize>)
        ensures
            match res {
                Some(k) => first_message(self.messages@, message_id@, k as int),
                None => forall|k: int| !first_message(self.messages@, message_id@, k),
            },
    {
        let n = self.messages.len();
        let mut i: usize = 0;
        while i < n
            invariant
                n == self.messages@.len(),
                i <= n,
                forall|j: int| 0 <= j < i ==> self.messages@[j].id@ != message_id@,
            decreases n - i,
        {
            if str_eq(&self.messages[i].id, message_id) {
                return Some(i);
            }
            i = i + 1;
        }
        None
    }

    /// Makes an admitted message durable in the room once it has been
    /// persisted: the message is kept and announced as accepted, delivered
    /// and waiting for translation. A message that could not be persisted is
    /// not kept, and only an error is announced.
    pub fn record_message(&mut self, message: Message, persisted: bool) -> (res: Vec<ServerEvent>)
        ensures
            !persisted ==> *final(self) == *old(self) && res@.len() == 1 && is_error(res@[0], "Message could not be durably persisted"@),
            persisted ==> final(self).messages@ == old(self).messages@.push(message)
                && NodeState::only_messages_changed(*old(self), *final(self))
                && res@.len() == 3
                && (res@[0] matches ServerEvent::MessageAccepted(m) && Message::same(message, m))
                && (res@[1] matches ServerEvent::MessageDelivered { message_id } && message_id == message.id)
                && (res@[2] matches ServerEvent::TranslationStarted { message_id } && message_id == message.id),
            originals_kept(old(self).messages@, final(self).messages@),
            old(self).consent_respected() ==> final(self).consent_respected(),
    {
        let mut events: Vec<ServerEvent> = Vec::new();
        if !persisted {
            events.push(error_event("Message could not be durably persisted"));
            return events;
        }
        let copy = message.clone();
        let id_delivered = message.id.clone();
        let id_started = message.id.clone();
        self.messages.push(message);
        events.push(ServerEvent::MessageAccepted(copy));
        events.push(ServerEvent::MessageDelivered { message_id: id_delivered });
        events.push(ServerEvent::TranslationStarted { message_id: id_started });
        events
    }

    fn target_for(&self, sender_id: &String) -> (res: String)
        ensures
            res@ == target_language(self.room.participants@, sender_id@),
    {
        let n = self.room.participants.len();
        let mut i: usize = 0;
        assert(self.room.participants@.skip(0) == self.room.participants@);
        while i < n
            invariant
                n == self.room.participants@.len(),
                i <= n,
                target_language(self.room.participants@, sender_id@) == target_language(self.room.participants@.skip(i as int), sender_id@),
            decreases n - i,
        {
            assert(self.room.participants@.skip(i as int)[0] == self.room.participants@[i as int]);
            if self.room.participants[i].id != *sender_id {
                return self.room.participants[i].translation_target.clone();
            }
            assert(self.room.participants@.skip(i as int).drop_first() == self.room.participants@.skip(i + 1));
            i = i + 1;
        }
        owned("en")
    }

    /// What to ask the translator for a message: its original text, from its
    /// language into the target of the first participant who is not the
    /// sender (English when there is none).
    pub fn translation_request(&self, message: &Message) -> (res: TranslationRequest)
        ensures
            res.message_id == message.id,
            res.source_language == message.original_language,
            res.target_language@ == target_language(self.room.participants@, message.sender_id@),
            forall|k: int|
                0 <= k < self.room.participants@.len() && (#[trigger] self.room.participants@[k]).id@ != message.sender_id@
                    && (forall|j: int| 0 <= j < k ==> self.room.participants@[j].id@ == message.sender_id@)
                    ==> res.target_language@ == self.room.participants@[k].translation_target@,
            (forall|j: int| 0 <= j < self.room.participants@.len() ==> self.room.participants@[j].id@ == message.sender_id@)
                ==> res.target_language@ == "en"@,
            res.original_text == message.original_text,
    {
        proof {
            let ps = self.room.participants@;
            let sender = message.sender_id@;
            assert forall|k: int|
                0 <= k < ps.len() && (#[trigger] ps[k]).id@ != sender && (forall|j: int| 0 <= j < k ==> ps[j].id@ == sender)
                implies target_language(ps, sender) == ps[k].translation_target@ by {
                translation_target_is_first_other_participant(ps, sender, k);
            }
            if forall|j: int| 0 <= j < ps.len() ==> ps[j].id@ == sender {
                translation_target_without_others(ps, sender);
            }
        }
        let target = self.target_for(&message.sender_id);
        TranslationRequest {
            message_id: message.id.clone(),
            source_language: message.original_language.clone(),
            target_language: target,
            original_text: message.original_text.clone(),
        }
    }

    /// Records what the translator answered. A translation is attached to the
    /// first message with its message id, which becomes translated; the
    /// original stays as it is. A failure is announced as an error.
    pub fn record_translation(&mut self, outcome: Result<TranslationResult, TranslationError>) -> (res: ServerEvent)
        ensures
            outcome is Err ==> *final(self) == *old(self) && is_error(res, "Translation failed"@),
            outcome matches Ok(t) ==> (res matches ServerEvent::TranslationCompleted(c) && TranslationResult::same(t, c)),
            outcome matches Ok(t) ==> NodeState::only_messages_changed(*old(self), *final(self)),
            outcome matches Ok(t) ==> (forall|k: int| !first_message(old(self).messages@, t.message_id@, k)) ==> final(self).messages == old(self).messages,
            outcome matches Ok(t) ==> forall|k: int| first_message(old(self).messages@, t.message_id@, k) ==> message_replaced(
                old(self).messages@,
                final(self).messages@,
                k,
                final(self).messages@[k],
            ) && final(self).messages@[k].delivery_state == DeliveryState::Translated
                && final(self).messages@[k].translations@ == old(self).messages@[k].translations@.push(t)
                && final(self).messages@[k].context_notes == old(self).messages@[k].context_notes,
            originals_kept(old(self).messages@, final(self).messages@),
            old(self).consent_respected() ==> final(self).consent_respected(),
    {
        match outcome {
            Err(_) => error_event("Translation failed"),
            Ok(t) => {
                let copy = t.clone();
                match self.message_position(t.message_id.as_str()) {
                    Some(k) => {
                        let ghost before = self.messages@;
                        let mut m = self.messages.remove(k);
                        m.delivery_state = DeliveryState::Translated;
                        m.translations.push(t);
                        self.messages.insert(k, m);
                        assert(self.messages@ =~= before.update(k as int, self.messages@[k as int]));
                        proof {
                            assert forall|c: int| first_message(before, copy.message_id@, c) implies c == k by {
                                if c < k {
                                    assert(before[c].id@ != copy.message_id@);
                                } else if c > k {
                                    assert(before[k as int].id@ != copy.message_id@);
                                }
                            }
                        }
                    },
                    None => {},
                }
                ServerEvent::TranslationCompleted(copy)
            },
        }
    }
}

} // verus!

verus! {

/// `after` is `before` challenged by a participant: marked challenged, with
/// the review note added to its cultural notes; all else the same.
pub open spec fn challenged(before: TranslationResult, after: TranslationResult, note: Seq<char>) -> bool {
    &&& TranslationResult::same(TranslationResult {
        review_status: TranslationReviewStatus::Challenged,
        cultural_notes: after.cultural_notes,
        ..before
    }, after)
    &&& after.cultural_notes@.len() == before.cultural_notes@.len() + 1
    &&& after.cultural_notes@.drop_last() == before.cultural_notes@
    &&& after.cultural_notes@.last()@ == note
}

/// `after` is `before` with every translation challenged and the message
/// marked as reviewed; the original and its context notes are kept.
pub open spec fn reviewed(before: Message, after: Message, note: Seq<char>) -> bool {
    &&& Message::same_original(before, after)
    &&& after.context_notes == before.context_notes
    &&& after.delivery_state == DeliveryState::TranslationReviewed
    &&& after.translations@.len() == before.translations@.len()
    &&& forall|j: int| 0 <= j < before.translations@.len() ==> challenged(
        before.translations@[j],
        #[trigger] after.translations@[j],
        note,
    )
}

/// The last message with the id that has a translation, if any.
pub open spec fn last_reviewed(ms: Seq<Message>, id: Seq<char>) -> Option<int>
    decreases ms.len(),
{
    if ms.len() == 0 {
        None
    } else if ms.last().id@ == id && ms.last().translations@.len() > 0 {
        Some(ms.len() - 1)
    } else {
        last_reviewed(ms.drop_last(), id)
    }
}

/// The text a review adds to each translation: the participant's id, a
/// colon, and the note.
pub open spec fn review_note(input: TranslationReviewInput) -> Seq<char> {
    input.reviewer_id@ + ": "@ + input.note@
}

proof fn lemma_last_reviewed_bound(ms: Seq<Message>, id: Seq<char>)
    ensures
        last_reviewed(ms, id) matches Some(k) ==> 0 <= k < ms.len(),
    decreases ms.len(),
{
    if ms.len() > 0 {
        lemma_last_reviewed_bound(ms.drop_last(), id);
    }
}

fn challenge(t: &TranslationResult, note: &String) -> (res: TranslationResult)
    ensures
        challenged(*t, res, note@),
{
    let mut res = t.clone();
    res.review_status = TranslationReviewStatus::Challenged;
    res.cultural_notes.push(note.clone());
    assert(res.cultural_notes@.drop_last() =~= t.cultural_notes@);
    res
}

fn review_message(m: Message, note: &String) -> (res: (Message, Option<TranslationResult>))
    ensures
        reviewed(m, res.0, note@),
        m.translations@.len() == 0 ==> res.1 is None,
        m.translations@.len() > 0 ==> (res.1 matches Some(c) && TranslationResult::same(res.0.translations@.last(), c)),
{
    let mut m = m;
    let ghost original = m;
    let mut fresh: Vec<TranslationResult> = Vec::new();
    let mut last: Option<TranslationResult> = None;
    let n = m.translations.len();
    let mut j: usize = 0;
    while j < n
        invariant
            n == original.translations@.len(),
            m == original,
            j <= n,
            fresh@.len() == j,
            forall|i: int| 0 <= i < j ==> challenged(original.translations@[i], #[trigger] fresh@[i], note@),
            j == 0 ==> last is None,
            j > 0 ==> (last matches Some(c) && TranslationResult::same(fresh@[j - 1], c)),
        decreases n - j,
    {
        let t = challenge(&m.translations[j], note);
        let c = t.clone();
        fresh.push(t);
        last = Some(c);
        j = j + 1;
    }
    m.translations = fresh;
    m.delivery_state = DeliveryState::TranslationReviewed;
    (m, last)
}

impl NodeState {
    /// A participant challenges the translations of a message: every
    /// message with that id gets each of its translations marked challenged,
    /// with `participant: note` added to their cultural notes, and is marked
    /// reviewed. The last translation so changed is announced.
    pub fn review_translations(&mut self, input: TranslationReviewInput) -> (res: Vec<ServerEvent>)
        ensures
            NodeState::only_messages_changed(*old(self), *final(self)),
            final(self).messages@.len() == old(self).messages@.len(),
            forall|i: int| 0 <= i < old(self).messages@.len() ==> if old(self).messages@[i].id@ == input.message_id@ {
                reviewed(old(self).messages@[i], #[trigger] final(self).messages@[i], review_note(input))
            } else {
                final(self).messages@[i] == old(self).messages@[i]
            },
            match last_reviewed(old(self).messages@, input.message_id@) {
                None => res@.len() == 0,
                Some(k) => res@.len() == 1 && (res@[0] matches ServerEvent::TranslationCompleted(c)
                    && TranslationResult::same(final(self).messages@[k].translations@.last(), c)),
            },
            originals_kept(old(self).messages@, final(self).messages@),
            old(self).consent_respected() ==> final(self).consent_respected(),
    {
        let mut note = input.reviewer_id.clone();
        push_str(&mut note, ": ");
        push_str(&mut note, input.note.as_str());
        let ghost before = self.messages@;
        let n = self.messages.len();
        let mut updated: Option<TranslationResult> = None;
        let mut i: usize = 0;
        while i < n
            invariant
                n == before.len(),
                self.messages@.len() == n,
                i <= n,
                note@ == review_note(input),
                NodeState::only_messages_changed(*old(self), *self),
                before == old(self).messages@,
                forall|j: int| 0 <= j < i ==> if before[j].id@ == input.message_id@ {
                    reviewed(before[j], #[trigger] self.messages@[j], note@)
                } else {
                    self.messages@[j] == before[j]
                },
                forall|j: int| i <= j < n ==> #[trigger] self.messages@[j] == before[j],
                match last_reviewed(before.take(i as int), input.message_id@) {
                    None => updated is None,
                    Some(k) => updated matches Some(c) && TranslationResult::same(self.messages@[k].translations@.last(), c),
                },
            decreases n - i,
        {
            assert(before.take(i + 1).drop_last() == before.take(i as int));
            assert(before.take(i + 1).last() == before[i as int]);
            proof {
                lemma_last_reviewed_bound(before.take(i as int), input.message_id@);
            }
            if str_eq(&self.messages[i].id, input.message_id.as_str()) {
                let ghost prior = self.messages@;
                let m = self.messages.remove(i);
                let (m2, last) = review_message(m, &note);
                self.messages.insert(i, m2);
                assert(self.messages@ =~= prior.update(i as int, m2));
                if last.is_some() {
                    updated = last;
                }
            }
            i = i + 1;
        }
        assert(before.take(n as int) == before);
        let mut events: Vec<ServerEvent> = Vec::new();
        match updated {
            Some(t) => events.push(ServerEvent::TranslationCompleted(t)),
            None => {},
        }
        events
    }
}

} // verus!

verus! {

/// Approvers recorded for the current revision include `p`.
pub open spec fn approved_by(approvals: Seq<String>, p: Seq<char>) -> bool {
    exists|j: int| 0 <= j < approvals.len() && #[trigger] approvals[j]@ == p
}

/// Every required approver has approved.
pub open spec fn all_approved(required: Seq<String>, approvals: Seq<String>) -> bool {
    forall|i: int| 0 <= i < required.len() ==> approved_by(approvals, #[trigger] required[i]@)
}

impl NodeState {
    /// What consent demands of the node at every moment: an artifact is
    /// approved only when every required approver has approved it, no
    /// Commons publication exposes the room transcript, and each approval is
    /// recorded once.
    pub open spec fn consent_respected(&self) -> bool {
        &&& match self.artifact {
            Some(a) => a.lifecycle == ArtifactLifecycle::Approved ==> all_approved(
                a.required_approvers@,
                self.approvals@,
            ),
            None => true,
        }
        &&& forall|i: int| 0 <= i < self.commons_publications@.len() ==> !(#[trigger] self.commons_publications@[i]).transcript_exposed
        &&& distinct_texts(self.approvals@)
    }
}

/// No text occurs twice in the list: each participant's approval is held
/// once.
pub open spec fn distinct_texts(s: Seq<String>) -> bool {
    forall|i: int, j: int| 0 <= i < j < s.len() ==> (#[trigger] s[i])@ != (#[trigger] s[j])@
}

/// The note a participant adds, given its id and creation time.
pub open spec fn context_note(input: CulturalContextInput, id: Seq<char>, created_at: String, note: CulturalContextNote) -> bool {
    &&& note.id@ == id
    &&& note.message_id == input.message_id
    &&& note.author_id == input.author_id
    &&& note.note_type == input.note_type
    &&& note.text == input.text
    &&& note.created_at == created_at
}

impl NodeState {
    /// Adds a participant's cultural context note, made at the given time,
    /// to the first message it refers to, and announces it. The note's id
    /// is `context-` and the time in microseconds.
    pub fn add_context_at(&mut self, input: CulturalContextInput, micros: i64, created_at: String) -> (res: ServerEvent)
        ensures
            res matches ServerEvent::ContextAdded(note) && context_note(
                input,
                "context-"@ + crate::text::signed_decimal(micros as int),
                created_at,
                note,
            ),
            NodeState::only_messages_changed(*old(self), *final(self)),
            (forall|k: int| !first_message(old(self).messages@, input.message_id@, k)) ==> final(self).messages == old(self).messages,
            forall|k: int| first_message(old(self).messages@, input.message_id@, k) ==> (res matches ServerEvent::ContextAdded(note)
                && message_replaced(old(self).messages@, final(self).messages@, k, final(self).messages@[k])
                && final(self).messages@[k].context_notes@ == old(self).messages@[k].context_notes@.push(note)
                && final(self).messages@[k].delivery_state == old(self).messages@[k].delivery_state
                && final(self).messages@[k].translations == old(self).messages@[k].translations),
            originals_kept(old(self).messages@, final(self).messages@),
            old(self).consent_respected() ==> final(self).consent_respected(),
    {
        let mut id = owned("context-");
        let digits = crate::text::i64_decimal(micros);
        push_str(&mut id, digits.as_str());
        let note = CulturalContextNote {
            id,
            message_id: input.message_id,
            author_id: input.author_id,
            note_type: input.note_type,
            text: input.text,
            created_at,
        };
        match self.message_position(note.message_id.as_str()) {
            Some(k) => {
                let ghost before = self.messages@;
                let mut m = self.messages.remove(k);
                m.context_notes.push(note.clone());
                self.messages.insert(k, m);
                assert(self.messages@ =~= before.update(k as int, self.messages@[k as int]));
                proof {
                    assert forall|c: int| first_message(before, note.message_id@, c) implies c == k by {
                        if c < k {
                            assert(before[c].id@ != note.message_id@);
                        } else if c > k {
                            assert(before[k as int].id@ != note.message_id@);
                        }
                    }
                }
            },
            None => {},
        }
        ServerEvent::ContextAdded(note)
    }

    /// Adds a participant's cultural context note, made now, to the first
    /// message it refers to, and announces it. The note's id is `context-`
    /// and the time in microseconds.
    pub fn add_context(&mut self, input: CulturalContextInput) -> (res: ServerEvent)
        ensures
            res matches ServerEvent::ContextAdded(note) && note.message_id == input.message_id
                && note.author_id == input.author_id && note.note_type == input.note_type
                && note.text == input.text
                && note.id@.len() > 8 && note.id@.take(8) == "context-"@,
            NodeState::only_messages_changed(*old(self), *final(self)),
            (forall|k: int| !first_message(old(self).messages@, input.message_id@, k)) ==> final(self).messages == old(self).messages,
            forall|k: int| first_message(old(self).messages@, input.message_id@, k) ==> (res matches ServerEvent::ContextAdded(note)
                && message_replaced(old(self).messages@, final(self).messages@, k, final(self).messages@[k])
                && final(self).messages@[k].context_notes@ == old(self).messages@[k].context_notes@.push(note)
                && final(self).messages@[k].delivery_state == old(self).messages@[k].delivery_state
                && final(self).messages@[k].translations == old(self).messages@[k].translations),
            originals_kept(old(self).messages@, final(self).messages@),
            old(self).consent_respected() ==> final(self).consent_respected(),
    {
        let micros = now_micros();
        let created_at = now_text();
        proof {
            reveal_strlit("context-");
            let digits = crate::text::signed_decimal(micros as int);
            crate::text::lemma_signed_decimal_nonempty(micros as int);
            assert(("context-"@ + digits).take(8) =~= "context-"@);
        }
        self.add_context_at(input, micros, created_at)
    }
}

} // verus!

verus! {

/// `k` is the first position of the repair `id` in the list.
pub open spec fn first_repair(rs: Seq<RepairThread>, id: Seq<char>, k: int) -> bool {
    &&& 0 <= k < rs.len()
    &&& rs[k].id@ == id
    &&& forall|j: int| 0 <= j < k ==> rs[j].id@ != id
}

/// Some repair in the list has the id.
pub open spec fn repair_known(rs: Seq<RepairThread>, id: Seq<char>) -> bool {
    exists|k: int| first_repair(rs, id, k)
}

/// `after` is `before` moved to `state`; only its update time may differ
/// besides.
pub open spec fn transitioned(before: RepairThread, after: RepairThread, state: crate::repair::RepairState) -> bool {
    after == RepairThread { state, updated_at: after.updated_at, ..before }
}

/// `k` is the first position of the facilitator response `id`.
pub open spec fn first_response(rs: Seq<FacilitationResponse>, id: Seq<char>, k: int) -> bool {
    &&& 0 <= k < rs.len()
    &&& rs[k].id@ == id
    &&& forall|j: int| 0 <= j < k ==> rs[j].id@ != id
}

/// The line of facilitator context about one message: who spoke, in which
/// language, and how many translations it has. Never the message text.
pub open spec fn context_line(m: Message) -> Seq<char> {
    m.sender_id@ + " said in "@ + m.original_language@ + ". Translation count: "@ + decimal(m.translations@.len())
}

/// The facilitator's view of the room: the lines of the last four messages,
/// newest first.
pub open spec fn visible_context(ms: Seq<Message>, lines: Seq<String>) -> bool {
    &&& lines.len() == if ms.len() < 4 { ms.len() } else { 4 }
    &&& forall|j: int| 0 <= j < lines.len() ==> (#[trigger] lines[j])@ == context_line(ms[ms.len() - 1 - j])
}

impl NodeState {
    /// Everything but the repairs and the artifact stays as it was.
    pub open spec fn only_repairs_changed(a: NodeState, b: NodeState) -> bool {
        &&& a.room == b.room
        &&& a.messages == b.messages
        &&& a.facilitator_responses == b.facilitator_responses
        &&& a.approvals == b.approvals
        &&& a.consent_receipts == b.consent_receipts
        &&& a.commons_publications == b.commons_publications
        &&& a.projects == b.projects
        &&& a.replay == b.replay
        &&& a.devices == b.devices
    }

    /// Everything but the facilitator responses stays as it was.
    pub open spec fn only_responses_changed(a: NodeState, b: NodeState) -> bool {
        &&& a.room == b.room
        &&& a.messages == b.messages
        &&& a.repairs == b.repairs
        &&& a.artifact == b.artifact
        &&& a.approvals == b.approvals
        &&& a.consent_receipts == b.consent_receipts
        &&& a.commons_publications == b.commons_publications
        &&& a.projects == b.projects
        &&& a.replay == b.replay
        &&& a.devices == b.devices
    }

    /// Opens a repair in the room and announces it. A repair puts the
    /// current artifact, if any, back under review.
    pub fn open_repair(&mut self, room_id: &str, input: RepairOpenInput) -> (res: ServerEvent)
        ensures
            res matches ServerEvent::RepairUpdated(r) && final(self).repairs@ == old(self).repairs@.push(r)
                && is_uuid_text(r.id@) && r.room_id@ == room_id@ && r.target_id@ == input.target_id@
                && r.opened_by@ == input.opened_by@ && r.reason == input.reason && r.note@ == input.note@
                && r.state == crate::repair::RepairState::Open && r.opened_at == r.updated_at,
            NodeState::only_repairs_changed(*old(self), *final(self)),
            match old(self).artifact {
                Some(a) => final(self).artifact == Some(UnderstandingArtifactDraft { lifecycle: ArtifactLifecycle::UnderReview, ..a }),
                None => final(self).artifact is None,
            },
            originals_kept(old(self).messages@, final(self).messages@),
            old(self).consent_respected() ==> final(self).consent_respected(),
    {
        let repair = RepairThread::open(
            owned(room_id),
            input.target_id.as_str(),
            input.opened_by.as_str(),
            input.reason,
            input.note.as_str(),
        );
        let copy = repair.clone();
        self.repairs.push(repair);
        match self.artifact.take() {
            Some(mut a) => {
                a.lifecycle = ArtifactLifecycle::UnderReview;
                self.artifact = Some(a);
            },
            None => {},
        }
        ServerEvent::RepairUpdated(copy)
    }

    /// Moves a repair to a new state and announces it. The repair id must
    /// read as a UUID; an unknown repair is left alone.
    pub fn transition_repair(&mut self, input: RepairTransitionInput) -> (res: Vec<ServerEvent>)
        ensures
            uuid_canonical(input.repair_id@) is None ==> *final(self) == *old(self) && res@.len() == 1
                && is_error(res@[0], "Invalid repair id"@),
            NodeState::only_repairs_changed(*old(self), *final(self)),
            final(self).artifact == old(self).artifact,
            (uuid_canonical(input.repair_id@) matches Some(u) && !repair_known(old(self).repairs@, u)) ==> *final(self) == *old(self) && res@.len() == 0,
            uuid_canonical(input.repair_id@) matches Some(u) ==> forall|k: int| first_repair(old(self).repairs@, u, k) ==> (
                final(self).repairs@ == old(self).repairs@.update(k, final(self).repairs@[k])
                && transitioned(old(self).repairs@[k], final(self).repairs@[k], input.state)
                && res@.len() == 1
                && (res@[0] matches ServerEvent::RepairUpdated(r) && r == final(self).repairs@[k])),
            originals_kept(old(self).messages@, final(self).messages@),
            old(self).consent_respected() ==> final(self).consent_respected(),
    {
        let mut events: Vec<ServerEvent> = Vec::new();
        let repair_id = match parse_uuid(input.repair_id.as_str()) {
            Some(id) => id,
            None => {
                events.push(error_event("Invalid repair id"));
                return events;
            },
        };
        let n = self.repairs.len();
        let mut i: usize = 0;
        while i < n
            invariant
                n == self.repairs@.len(),
                *self == *old(self),
                i <= n,
                uuid_canonical(input.repair_id@) == Some(repair_id@),
                events@.len() == 0,
                forall|j: int| 0 <= j < i ==> self.repairs@[j].id@ != repair_id@,
            decreases n - i,
        {
            if self.repairs[i].id == repair_id {
                let ghost before = self.repairs@;
                let mut r = self.repairs.remove(i);
                r.transition(input.state);
                let copy = r.clone();
                self.repairs.insert(i, r);
                assert(self.repairs@ =~= before.update(i as int, self.repairs@[i as int]));
                proof {
                    assert(first_repair(before, repair_id@, i as int));
                    assert(first_repair(old(self).repairs@, repair_id@, i as int));
                    assert(repair_known(old(self).repairs@, repair_id@));
                    assert forall|c: int| first_repair(before, repair_id@, c) implies c == i by {
                        if c < i {
                            assert(before[c].id@ != repair_id@);
                        } else if c > i {
                            assert(before[i as int].id@ != repair_id@);
                        }
                    }
                }
                events.push(ServerEvent::RepairUpdated(copy));
                return events;
            }
            i = i + 1;
        }
        events
    }

    /// What the facilitator is asked: the room, who asks, the prompt, and
    /// only who spoke in which language in the last four messages.
    pub fn facilitation_request(&self, room_id: &str, input: FacilitationInput) -> (res: FacilitationRequest)
        ensures
            res.room_id@ == room_id@,
            res.requested_by == input.requested_by,
            res.prompt == input.prompt,
            visible_context(self.messages@, res.visible_context@),
            res.visible_context@.len() == if self.messages@.len() < 4 { self.messages@.len() } else { 4 },
            self.messages@.len() > 0 ==> res.visible_context@[0]@ == context_line(self.messages@.last()),
            forall|j: int| 0 <= j < res.visible_context@.len()
                ==> (#[trigger] res.visible_context@[j])@ == context_line(self.messages@[self.messages@.len() - 1 - j]),
            forall|j: int| 0 <= j < res.visible_context@.len()
                ==> (#[trigger] res.visible_context@[j])@ == self.messages@[self.messages@.len() - 1 - j].sender_id@
                    + " said in "@ + self.messages@[self.messages@.len() - 1 - j].original_language@
                    + ". Translation count: "@ + decimal(self.messages@[self.messages@.len() - 1 - j].translations@.len()),
    {
        let mut lines: Vec<String> = Vec::new();
        let n = self.messages.len();
        let mut j: usize = 0;
        while j < 4 && j < n
            invariant
                n == self.messages@.len(),
                j <= 4,
                j <= n,
                lines@.len() == j,
                forall|k: int| 0 <= k < j ==> (#[trigger] lines@[k])@ == context_line(self.messages@[n - 1 - k]),
            decreases n - j,
        {
            let m = &self.messages[n - 1 - j];
            let mut line = m.sender_id.clone();
            push_str(&mut line, " said in ");
            push_str(&mut line, m.original_language.as_str());
            push_str(&mut line, ". Translation count: ");
            let count = u64_decimal(m.translations.len() as u64);
            push_str(&mut line, count.as_str());
            lines.push(line);
            j = j + 1;
        }
        proof {
            facilitator_sees_newest_first(self.messages@, lines@);
        }
        FacilitationRequest {
            room_id: owned(room_id),
            requested_by: input.requested_by,
            prompt: input.prompt,
            visible_context: lines,
        }
    }

    /// Records the facilitator's answer and announces it; a failure is
    /// announced as an error.
    pub fn record_facilitation(&mut self, outcome: Option<FacilitationResponse>) -> (res: ServerEvent)
        ensures
            outcome is None ==> *final(self) == *old(self) && is_error(res, "Facilitation failed"@),
            outcome matches Some(r) ==> final(self).facilitator_responses@ == old(self).facilitator_responses@.push(r)
                && NodeState::only_responses_changed(*old(self), *final(self))
                && res == ServerEvent::FacilitatorResponse(r),
            originals_kept(old(self).messages@, final(self).messages@),
            old(self).consent_respected() ==> final(self).consent_respected(),
    {
        match outcome {
            Some(r) => {
                let copy = r.clone();
                self.facilitator_responses.push(r);
                ServerEvent::FacilitatorResponse(copy)
            },
            None => error_event("Facilitation failed"),
        }
    }

    /// A participant rejects a facilitator suggestion: the first response
    /// with the id is marked not accepted and announced again.
    pub fn reject_facilitation(&mut self, response_id: &str) -> (res: Vec<ServerEvent>)
        ensures
            NodeState::only_responses_changed(*old(self), *final(self)),
            (forall|k: int| !first_response(old(self).facilitator_responses@, response_id@, k)) ==> *final(self) == *old(self) && res@.len() == 0,
            forall|k: int| first_response(old(self).facilitator_responses@, response_id@, k) ==> (
                final(self).facilitator_responses@ == old(self).facilitator_responses@.update(
                    k,
                    FacilitationResponse { accepted: Some(false), ..old(self).facilitator_responses@[k] },
                )
                && res@.len() == 1
                && res@[0] == ServerEvent::FacilitatorResponse(final(self).facilitator_responses@[k])),
            originals_kept(old(self).messages@, final(self).messages@),
            old(self).consent_respected() ==> final(self).consent_respected(),
    {
        let mut events: Vec<ServerEvent> = Vec::new();
        let n = self.facilitator_responses.len();
        let mut i: usize = 0;
        while i < n
            invariant
                n == self.facilitator_responses@.len(),
                *self == *old(self),
                i <= n,
                events@.len() == 0,
                forall|j: int| 0 <= j < i ==> self.facilitator_responses@[j].id@ != response_id@,
            decreases n - i,
        {
            if str_eq(&self.facilitator_responses[i].id, response_id) {
                let ghost before = self.facilitator_responses@;
                let mut r = self.facilitator_responses[i].clone();
                r.accepted = Some(false);
                let copy = r.clone();
                self.facilitator_responses.set(i, r);
                proof {
                    assert(first_response(before, response_id@, i as int));
                    assert forall|c: int| first_response(before, response_id@, c) implies c == i by {
                        if c < i {
                            assert(before[c].id@ != response_id@);
                        } else if c > i {
                            assert(before[i as int].id@ != response_id@);
                        }
                    }
                }
                events.push(ServerEvent::FacilitatorResponse(copy));
                return events;
            }
            i = i + 1;
        }
        events
    }
}

} // verus!

verus! {

/// Two optional drafts hold the same values.
pub open spec fn same_artifact(a: Option<UnderstandingArtifactDraft>, b: Option<UnderstandingArtifactDraft>) -> bool {
    match (a, b) {
        (None, None) => true,
        (Some(x), Some(y)) => UnderstandingArtifactDraft::same(x, y),
        _ => false,
    }
}

/// `snap` shows the room state `s`: the same room, messages, repairs,
/// facilitator responses, artifact, approvals, receipt ids, Commons
/// publications and projects.
pub open spec fn snapshot_of(s: NodeState, snap: RoomSnapshot) -> bool {
    &&& Room::same(s.room, snap.room)
    &&& snap.messages@.len() == s.messages@.len()
    &&& forall|i: int| 0 <= i < s.messages@.len() ==> Message::same(s.messages@[i], #[trigger] snap.messages@[i])
    &&& snap.repairs@ == s.repairs@
    &&& snap.facilitator_responses@ == s.facilitator_responses@
    &&& same_artifact(s.artifact, snap.artifact)
    &&& snap.approvals@ == s.approvals@
    &&& snap.consent_receipt_ids@.len() == s.consent_receipts@.len()
    &&& forall|i: int| 0 <= i < s.consent_receipts@.len() ==> (#[trigger] snap.consent_receipt_ids@[i])@ == s.consent_receipts@[i].receipt_id@
    &&& snap.commons_publications@ == s.commons_publications@
    &&& snap.projects@.len() == s.projects@.len()
    &&& forall|i: int| 0 <= i < s.projects@.len() ==> ProjectSummary::same(s.projects@[i], #[trigger] snap.projects@[i])
}

fn clone_artifact(a: &Option<UnderstandingArtifactDraft>) -> (res: Option<UnderstandingArtifactDraft>)
    ensures
        same_artifact(*a, res),
{
    match a {
        Some(x) => Some(x.clone()),
        None => None,
    }
}

impl NodeState {
    /// The room as a participant sees it, stamped with the given time.
    pub fn snapshot_at(&self, server_time: String) -> (res: RoomSnapshot)
        ensures
            snapshot_of(*self, res),
            res.server_time == server_time,
    {
        let messages = self.messages.clone();
        assert forall|i: int| 0 <= i < self.messages@.len() implies Message::same(self.messages@[i], #[trigger] messages@[i]) by {
            assert(cloned::<Message>(self.messages[i], messages[i]));
        }
        let projects = self.projects.clone();
        assert forall|i: int| 0 <= i < self.projects@.len() implies ProjectSummary::same(self.projects@[i], #[trigger] projects@[i]) by {
            assert(cloned::<ProjectSummary>(self.projects[i], projects[i]));
        }
        let mut receipt_ids: Vec<String> = Vec::new();
        let n = self.consent_receipts.len();
        let mut i: usize = 0;
        while i < n
            invariant
                n == self.consent_receipts@.len(),
                i <= n,
                receipt_ids@.len() == i,
                forall|j: int| 0 <= j < i ==> (#[trigger] receipt_ids@[j])@ == self.consent_receipts@[j].receipt_id@,
            decreases n - i,
        {
            receipt_ids.push(self.consent_receipts[i].receipt_id.clone());
            i = i + 1;
        }
        RoomSnapshot {
            room: self.room.clone(),
            messages,
            repairs: self.repairs.clone(),
            facilitator_responses: self.facilitator_responses.clone(),
            artifact: clone_artifact(&self.artifact),
            approvals: self.approvals.clone(),
            consent_receipt_ids: receipt_ids,
            commons_publications: self.commons_publications.clone(),
            projects,
            server_time,
        }
    }

    /// The room as a participant sees it now.
    pub fn snapshot(&self) -> (res: RoomSnapshot)
        ensures
            snapshot_of(*self, res),
    {
        self.snapshot_at(now_text())
    }

    /// Whether `p` has approved the current revision.
    pub fn has_approved(&self, p: &str) -> (res: bool)
        ensures
            res == approved_by(self.approvals@, p@),
    {
        let n = self.approvals.len();
        let mut i: usize = 0;
        while i < n
            invariant
                n == self.approvals@.len(),
                i <= n,
                forall|j: int| 0 <= j < i ==> self.approvals@[j]@ != p@,
            decreases n - i,
        {
            if str_eq(&self.approvals[i], p) {
                return true;
            }
            i = i + 1;
        }
        false
    }

    fn all_have_approved(&self, required: &Vec<String>) -> (res: bool)
        ensures
            res == all_approved(required@, self.approvals@),
    {
        let n = required.len();
        let mut i: usize = 0;
        while i < n
            invariant
                n == required@.len(),
                i <= n,
                forall|j: int| 0 <= j < i ==> approved_by(self.approvals@, #[trigger] required@[j]@),
            decreases n - i,
        {
            if !self.has_approved(required[i].as_str()) {
                return false;
            }
            i = i + 1;
        }
        true
    }

    /// What the proposal provider may see: the room, who asks, the
    /// participants, and no transcript.
    pub fn proposal_input(&self, room_id: &str, requested_by: String) -> (res: InsightProposalInput)
        ensures
            res.room_id@ == room_id@,
            res.requested_by == requested_by,
            res.participant_ids@.len() == self.room.participants@.len(),
            forall|i: int| 0 <= i < self.room.participants@.len() ==> (#[trigger] res.participant_ids@[i])@ == self.room.participants@[i].id@,
            res.visible_context@.len() == 1,
            res.visible_context@[0]@ == "Private transcript remains private."@,
    {
        let mut ids: Vec<String> = Vec::new();
        let n = self.room.participants.len();
        let mut i: usize = 0;
        while i < n
            invariant
                n == self.room.participants@.len(),
                i <= n,
                ids@.len() == i,
                forall|j: int| 0 <= j < i ==> (#[trigger] ids@[j])@ == self.room.participants@[j].id@,
            decreases n - i,
        {
            ids.push(self.room.participants[i].id.clone());
            i = i + 1;
        }
        let mut context: Vec<String> = Vec::new();
        context.push(owned("Private transcript remains private."));
        InsightProposalInput {
            room_id: owned(room_id),
            requested_by,
            participant_ids: ids,
            visible_context: context,
        }
    }

    /// Everything but the artifact, the approvals and the consent receipts
    /// stays as it was.
    pub open spec fn only_artifact_changed(a: NodeState, b: NodeState) -> bool {
        &&& a.room == b.room
        &&& a.messages == b.messages
        &&& a.repairs == b.repairs
        &&& a.facilitator_responses == b.facilitator_responses
        &&& a.commons_publications == b.commons_publications
        &&& a.projects == b.projects
        &&& a.replay == b.replay
        &&& a.devices == b.devices
    }

    /// Records a proposed artifact: it becomes the room's artifact, as
    /// proposed, and every earlier approval is dropped; it is announced with
    /// a fresh snapshot. A failure is announced as an error.
    pub fn record_proposal(&mut self, outcome: Result<UnderstandingArtifactDraft, InsightProposalError>) -> (res: Vec<ServerEvent>)
        ensures
            outcome is Err ==> *final(self) == *old(self) && res@.len() == 1 && is_error(res@[0], "Artifact proposal failed"@),
            outcome matches Ok(a) ==> final(self).artifact == Some(UnderstandingArtifactDraft { lifecycle: ArtifactLifecycle::Proposed, ..a })
                && final(self).approvals@.len() == 0
                && final(self).consent_receipts == old(self).consent_receipts
                && NodeState::only_artifact_changed(*old(self), *final(self))
                && res@.len() == 2
                && (res@[0] matches ServerEvent::ArtifactProposalCreated(c) && UnderstandingArtifactDraft::same(final(self).artifact->0, c))
                && (res@[1] matches ServerEvent::RoomSnapshot(snap) && snapshot_of(*final(self), snap)),
            originals_kept(old(self).messages@, final(self).messages@),
            old(self).consent_respected() ==> final(self).consent_respected(),
    {
        let mut events: Vec<ServerEvent> = Vec::new();
        match outcome {
            Err(_) => {
                events.push(error_event("Artifact proposal failed"));
            },
            Ok(a) => {
                let mut a = a;
                a.lifecycle = ArtifactLifecycle::Proposed;
                let copy = a.clone();
                self.approvals.clear();
                self.artifact = Some(a);
                events.push(ServerEvent::ArtifactProposalCreated(copy));
                let snap = self.snapshot();
                events.push(ServerEvent::RoomSnapshot(snap));
            },
        }
        events
    }
}

} // verus!

verus! {

/// The approvals after `p` approves: `p` is added unless already there.
pub open spec fn approvals_after(approvals: Seq<String>, p: String) -> Seq<String> {
    if approved_by(approvals, p@) {
        approvals
    } else {
        approvals.push(p)
    }
}

/// The consent receipt a participant gives for an artifact: the artifact's
/// exact revision hash, the participant's demo device (or `unknown-device`),
/// Commons scope, named attribution, English and Spanish, proposal
/// processing only, a demo signature.
pub open spec fn receipt_for(r: ConsentReceipt, a: UnderstandingArtifactDraft, participant_id: Seq<char>, device_id: Seq<char>) -> bool {
    &&& is_uuid_text(r.receipt_id@)
    &&& r.artifact_id == a.id
    &&& r.exact_revision_hash == a.revision_hash
    &&& r.approving_participant@ == participant_id
    &&& r.approving_device@ == device_id
    &&& r.approved_publication_scope == PublicationScope::Commons
    &&& r.attribution_preference == AttributionPreference::Named
    &&& r.approved_translations@.len() == 2
    &&& r.approved_translations@[0]@ == "en"@
    &&& r.approved_translations@[1]@ == "es"@
    &&& r.ai_processing_permissions@.len() == 1
    &&& r.ai_processing_permissions@[0]@ == "artifact_proposal"@
    &&& r.optional_review_date is None
    &&& r.consent_statement_version@ == "babel-consent/1"@
    &&& r.signature@ == "demo-consent-signature-"@ + participant_id
}

/// The device a participant approves from: their demo device, or
/// `unknown-device`.
pub open spec fn approving_device(devices: Seq<DemoIdentity>, participant_id: Seq<char>) -> Seq<char> {
    match device_of(devices, participant_id) {
        Some(d) => d.device_id@,
        None => "unknown-device"@,
    }
}

/// The Commons summary of a published artifact: its title, summary and
/// revision hash, consent verified, no transcript.
pub open spec fn commons_summary(a: UnderstandingArtifactDraft, s: PublicArtifactSummary) -> bool {
    &&& s.id@ == "commons-"@ + a.id@
    &&& s.title == a.title
    &&& s.summary == a.shared_summary
    &&& s.revision_hash == a.revision_hash
    &&& s.consent_verified
    &&& !s.transcript_exposed
}

/// The project formed from the latest Commons publication.
pub open spec fn project_from(p: ProjectSummary, source_id: String) -> bool {
    &&& p.id@.len() == 44
    &&& p.id@.take(8) == "project-"@
    &&& is_uuid_text(p.id@.skip(8))
    &&& p.title@ == "Community-led clean-water coordination"@
    &&& p.status@ == "forming"@
    &&& p.source_artifact_id == source_id
    &&& p.contribution_needs@.len() == 4
    &&& p.contribution_needs@[0]@ == "translation"@
    &&& p.contribution_needs@[1]@ == "engineering"@
    &&& p.contribution_needs@[2]@ == "local_context"@
    &&& p.contribution_needs@[3]@ == "care_work"@
}

fn make_receipt(a: &UnderstandingArtifactDraft, participant_id: &String, device_id: String) -> (res: ConsentReceipt)
    ensures
        receipt_for(res, *a, participant_id@, device_id@),
{
    let mut translations: Vec<String> = Vec::new();
    translations.push(owned("en"));
    translations.push(owned("es"));
    let mut permissions: Vec<String> = Vec::new();
    permissions.push(owned("artifact_proposal"));
    let mut signature = owned("demo-consent-signature-");
    push_str(&mut signature, participant_id.as_str());
    ConsentReceipt {
        receipt_id: new_uuid(),
        artifact_id: a.id.clone(),
        exact_revision_hash: a.revision_hash.clone(),
        approving_participant: participant_id.clone(),
        approving_device: device_id,
        approved_publication_scope: PublicationScope::Commons,
        attribution_preference: AttributionPreference::Named,
        approved_translations: translations,
        ai_processing_permissions: permissions,
        timestamp: now_text(),
        optional_review_date: None,
        consent_statement_version: owned("babel-consent/1"),
        signature,
    }
}

impl NodeState {
    /// Everything but the artifact and the Commons publications stays as it
    /// was.
    pub open spec fn only_publications_changed(a: NodeState, b: NodeState) -> bool {
        &&& a.room == b.room
        &&& a.messages == b.messages
        &&& a.repairs == b.repairs
        &&& a.facilitator_responses == b.facilitator_responses
        &&& a.approvals == b.approvals
        &&& a.consent_receipts == b.consent_receipts
        &&& a.projects == b.projects
        &&& a.replay == b.replay
        &&& a.devices == b.devices
    }

    /// A participant approves the current revision. Their approval is
    /// recorded; the artifact becomes approved once every required approver
    /// has approved, and is otherwise under review; a consent receipt for
    /// the exact revision is kept; the artifact and a fresh snapshot are
    /// announced. Without an artifact only the approval is recorded.
    pub fn approve_artifact(&mut self, input: ArtifactApprovalInput) -> (res: Vec<ServerEvent>)
        ensures
            final(self).approvals@ == approvals_after(old(self).approvals@, input.participant_id),
            NodeState::only_artifact_changed(*old(self), *final(self)),
            old(self).artifact is None ==> final(self).artifact is None && final(self).consent_receipts == old(self).consent_receipts && res@.len() == 0,
            old(self).artifact matches Some(a) ==> {
                let lifecycle = if all_approved(a.required_approvers@, final(self).approvals@) {
                    ArtifactLifecycle::Approved
                } else {
                    ArtifactLifecycle::UnderReview
                };
                &&& final(self).artifact == Some(UnderstandingArtifactDraft { lifecycle, ..a })
                &&& final(self).consent_receipts@.len() == old(self).consent_receipts@.len() + 1
                &&& final(self).consent_receipts@.drop_last() == old(self).consent_receipts@
                &&& receipt_for(final(self).consent_receipts@.last(), a, input.participant_id@, approving_device(old(self).devices@, input.participant_id@))
                &&& res@.len() == 2
                &&& res@[0] matches ServerEvent::ArtifactUpdated(c) && UnderstandingArtifactDraft::same(final(self).artifact->0, c)
                &&& res@[1] matches ServerEvent::RoomSnapshot(snap) && snapshot_of(*final(self), snap)
            },
            originals_kept(old(self).messages@, final(self).messages@),
            old(self).consent_respected() ==> final(self).consent_respected(),
    {
        if !self.has_approved(input.participant_id.as_str()) {
            self.approvals.push(input.participant_id.clone());
        }
        let mut events: Vec<ServerEvent> = Vec::new();
        match self.artifact.take() {
            None => {},
            Some(mut a) => {
                if self.all_have_approved(&a.required_approvers) {
                    a.lifecycle = ArtifactLifecycle::Approved;
                } else {
                    a.lifecycle = ArtifactLifecycle::UnderReview;
                }
                let device_id = match self.identity_of(input.participant_id.as_str()) {
                    Some(identity) => identity.device_id,
                    None => owned("unknown-device"),
                };
                let receipt = make_receipt(&a, &input.participant_id, device_id);
                let copy = a.clone();
                self.artifact = Some(a);
                let ghost receipts = self.consent_receipts@;
                self.consent_receipts.push(receipt);
                assert(self.consent_receipts@.drop_last() == receipts);
                events.push(ServerEvent::ArtifactUpdated(copy));
                let snap = self.snapshot();
                events.push(ServerEvent::RoomSnapshot(snap));
            },
        }
        events
    }

    /// Publishes the approved artifact to The Commons: only an artifact that
    /// every required approver has approved is published, as a summary
    /// without the transcript, and announced with a fresh snapshot.
    pub fn publish_artifact(&mut self) -> (res: Vec<ServerEvent>)
        ensures
            match old(self).artifact {
                None => *final(self) == *old(self) && res@.len() == 1 && is_error(res@[0], "No artifact exists"@),
                Some(a) => if a.lifecycle != ArtifactLifecycle::Approved {
                    *final(self) == *old(self) && res@.len() == 1
                        && is_error(res@[0], "All required participants must approve the exact revision first"@)
                } else {
                    &&& final(self).artifact == Some(UnderstandingArtifactDraft { lifecycle: ArtifactLifecycle::Published, ..a })
                    &&& NodeState::only_publications_changed(*old(self), *final(self))
                    &&& final(self).commons_publications@.len() == old(self).commons_publications@.len() + 1
                    &&& final(self).commons_publications@.drop_last() == old(self).commons_publications@
                    &&& commons_summary(a, final(self).commons_publications@.last())
                    &&& res@.len() == 2
                    &&& res@[0] == ServerEvent::CommonsPublished(final(self).commons_publications@.last())
                    &&& res@[1] matches ServerEvent::RoomSnapshot(snap) && snapshot_of(*final(self), snap)
                },
            },
            originals_kept(old(self).messages@, final(self).messages@),
            old(self).consent_respected() ==> final(self).consent_respected(),
    {
        let mut events: Vec<ServerEvent> = Vec::new();
        let approved = match &self.artifact {
            None => {
                events.push(error_event("No artifact exists"));
                return events;
            },
            Some(a) => a.lifecycle == ArtifactLifecycle::Approved,
        };
        if !approved {
            events.push(error_event("All required participants must approve the exact revision first"));
            return events;
        }
        let mut a = self.artifact.take().unwrap();
        a.lifecycle = ArtifactLifecycle::Published;
        let mut id = owned("commons-");
        push_str(&mut id, a.id.as_str());
        let summary = PublicArtifactSummary {
            id,
            title: a.title.clone(),
            summary: a.shared_summary.clone(),
            revision_hash: a.revision_hash.clone(),
            consent_verified: true,
            transcript_exposed: false,
        };
        self.artifact = Some(a);
        let copy = summary.clone();
        let ghost publications = self.commons_publications@;
        self.commons_publications.push(summary);
        assert(self.commons_publications@.drop_last() == publications);
        events.push(ServerEvent::CommonsPublished(copy));
        let snap = self.snapshot();
        events.push(ServerEvent::RoomSnapshot(snap));
        events
    }

    /// Forms a collaboration project from the latest Commons publication and
    /// announces it with a fresh snapshot; without a publication nothing is
    /// formed.
    pub fn create_project(&mut self) -> (res: Vec<ServerEvent>)
        ensures
            old(self).commons_publications@.len() == 0 ==> *final(self) == *old(self) && res@.len() == 1
                && is_error(res@[0], "Publish an approved artifact before creating a project"@),
            old(self).commons_publications@.len() > 0 ==> {
                &&& final(self).projects@.len() == old(self).projects@.len() + 1
                &&& final(self).projects@.drop_last() == old(self).projects@
                &&& project_from(final(self).projects@.last(), old(self).commons_publications@.last().id)
                &&& final(self).room == old(self).room
                &&& final(self).messages == old(self).messages
                &&& final(self).repairs == old(self).repairs
                &&& final(self).facilitator_responses == old(self).facilitator_responses
                &&& final(self).artifact == old(self).artifact
                &&& final(self).approvals == old(self).approvals
                &&& final(self).consent_receipts == old(self).consent_receipts
                &&& final(self).commons_publications == old(self).commons_publications
                &&& final(self).replay == old(self).replay
                &&& final(self).devices == old(self).devices
                &&& res@.len() == 2
                &&& res@[0] matches ServerEvent::ProjectCreated(c) && ProjectSummary::same(final(self).projects@.last(), c)
                &&& res@[1] matches ServerEvent::RoomSnapshot(snap) && snapshot_of(*final(self), snap)
            },
            originals_kept(old(self).messages@, final(self).messages@),
            old(self).consent_respected() ==> final(self).consent_respected(),
    {
        let mut events: Vec<ServerEvent> = Vec::new();
        let n = self.commons_publications.len();
        if n == 0 {
            events.push(error_event("Publish an approved artifact before creating a project"));
            return events;
        }
        let source = self.commons_publications[n - 1].id.clone();
        let mut id = owned("project-");
        let uuid = new_uuid();
        push_str(&mut id, uuid.as_str());
        proof {
            reveal_strlit("project-");
            assert(id@.take(8) =~= "project-"@);
            assert(id@.skip(8) =~= uuid@);
        }
        let mut needs: Vec<String> = Vec::new();
        needs.push(owned("translation"));
        needs.push(owned("engineering"));
        needs.push(owned("local_context"));
        needs.push(owned("care_work"));
        let project = ProjectSummary {
            id,
            title: owned("Community-led clean-water coordination"),
            status: owned("forming"),
            source_artifact_id: source,
            contribution_needs: needs,
        };
        let copy = project.clone();
        let ghost projects = self.projects@;
        self.projects.push(project);
        assert(self.projects@.drop_last() == projects);
        events.push(ServerEvent::ProjectCreated(copy));
        let snap = self.snapshot();
        events.push(ServerEvent::RoomSnapshot(snap));
        events
    }
}

} // verus!

verus! {

/// The Commons receives only what every required approver approved. In
/// every state of the node consent is respected (`new` starts so and every
/// operation keeps it), and `publish_artifact` publishes only an approved
/// artifact; such an artifact has the approval of each of its required
/// approvers.
pub proof fn publication_requires_every_approval(s: NodeState)
    requires
        s.consent_respected(),
        s.artifact matches Some(a) && a.lifecycle == ArtifactLifecycle::Approved,
    ensures
        all_approved(s.artifact->0.required_approvers@, s.approvals@),
{
}

/// Original messages are never overwritten, over any number of steps: each
/// operation keeps the originals, and so does any sequence of them.
pub proof fn originals_kept_across_steps(a: Seq<Message>, b: Seq<Message>, c: Seq<Message>)
    requires
        originals_kept(a, b),
        originals_kept(b, c),
    ensures
        originals_kept(a, c),
{
    assert forall|i: int| 0 <= i < a.len() implies Message::same_original(a[i], #[trigger] c[i]) by {
        assert(Message::same_original(a[i], b[i]));
        assert(Message::same_original(b[i], c[i]));
    }
}

} // verus!

verus! {

/// What the node says about a stored message event.
pub struct EventRecord {
    pub event_id: String,
    pub event_hash: String,
    pub signature_present: bool,
    pub original_message_preserved: bool,
}

/// What the node says about a consent receipt.
pub struct ConsentRecord {
    pub receipt_id: String,
    pub artifact_id: String,
    pub revision_hash: String,
    pub scope: PublicationScope,
    pub signature_present: bool,
}

/// The first Commons publication with the id, if any.
pub open spec fn publication_with(ps: Seq<PublicArtifactSummary>, id: Seq<char>) -> Option<PublicArtifactSummary>
    decreases ps.len(),
{
    if ps.len() == 0 {
        None
    } else if ps[0].id@ == id {
        Some(ps[0])
    } else {
        publication_with(ps.drop_first(), id)
    }
}

/// The position of the first project with the id, if any.
pub open spec fn project_position(ps: Seq<ProjectSummary>, id: Seq<char>) -> Option<int>
    decreases ps.len(),
{
    if ps.len() == 0 {
        None
    } else if ps[0].id@ == id {
        Some(0)
    } else {
        match project_position(ps.drop_first(), id) {
            Some(k) => Some(k + 1),
            None => None,
        }
    }
}

/// The first message with the id, if any.
pub open spec fn message_with(ms: Seq<Message>, id: Seq<char>) -> Option<Message>
    decreases ms.len(),
{
    if ms.len() == 0 {
        None
    } else if ms[0].id@ == id {
        Some(ms[0])
    } else {
        message_with(ms.drop_first(), id)
    }
}

/// The first consent receipt with the id, if any.
pub open spec fn receipt_with(rs: Seq<ConsentReceipt>, id: Seq<char>) -> Option<ConsentReceipt>
    decreases rs.len(),
{
    if rs.len() == 0 {
        None
    } else if rs[0].receipt_id@ == id {
        Some(rs[0])
    } else {
        receipt_with(rs.drop_first(), id)
    }
}

proof fn lemma_project_position_bound(ps: Seq<ProjectSummary>, id: Seq<char>)
    ensures
        project_position(ps, id) matches Some(k) ==> 0 <= k < ps.len() && ps[k].id@ == id,
    decreases ps.len(),
{
    if ps.len() > 0 {
        lemma_project_position_bound(ps.drop_first(), id);
    }
}

impl NodeState {
    /// The room's artifact, if it has the id.
    pub fn find_artifact(&self, id: &str) -> (res: Option<UnderstandingArtifactDraft>)
        ensures
            match self.artifact {
                Some(a) => if a.id@ == id@ {
                    res matches Some(c) && UnderstandingArtifactDraft::same(a, c)
                } else {
                    res is None
                },
                None => res is None,
            },
    {
        match &self.artifact {
            Some(a) => {
                if str_eq(&a.id, id) {
                    Some(a.clone())
                } else {
                    None
                }
            },
            None => None,
        }
    }

    /// The first Commons publication with the id.
    pub fn find_publication(&self, id: &str) -> (res: Option<PublicArtifactSummary>)
        ensures
            res == publication_with(self.commons_publications@, id@),
    {
        let ps = &self.commons_publications;
        let n = ps.len();
        let mut i: usize = 0;
        assert(ps@.skip(0) == ps@);
        while i < n
            invariant
                *ps == self.commons_publications,
                n == ps@.len(),
                i <= n,
                publication_with(ps@, id@) == publication_with(ps@.skip(i as int), id@),
            decreases n - i,
        {
            assert(ps@.skip(i as int)[0] == ps@[i as int]);
            if str_eq(&ps[i].id, id) {
                return Some(ps[i].clone());
            }
            assert(ps@.skip(i as int).drop_first() == ps@.skip(i + 1));
            i = i + 1;
        }
        None
    }

    /// The first project with the id.
    pub fn find_project(&self, id: &str) -> (res: Option<ProjectSummary>)
        ensures
            match project_position(self.projects@, id@) {
                Some(k) => res matches Some(c) && ProjectSummary::same(self.projects@[k], c),
                None => res is None,
            },
    {
        let ps = &self.projects;
        let n = ps.len();
        let mut i: usize = 0;
        assert(ps@.skip(0) == ps@);
        proof {
            lemma_project_position_bound(ps@, id@);
        }
        while i < n
            invariant
                *ps == self.projects,
                n == ps@.len(),
                i <= n,
                forall|j: int| 0 <= j < i ==> ps@[j].id@ != id@,
                project_position(ps@, id@) == match project_position(ps@.skip(i as int), id@) {
                    Some(k) => Some(k + i),
                    None => None,
                },
            decreases n - i,
        {
            assert(ps@.skip(i as int)[0] == ps@[i as int]);
            if str_eq(&ps[i].id, id) {
                return Some(ps[i].clone());
            }
            assert(ps@.skip(i as int).drop_first() == ps@.skip(i + 1));
            i = i + 1;
        }
        None
    }

    /// What the node says about the first message event with the id: its
    /// hash, whether it carries a signature, and that the original is kept.
    pub fn event_record(&self, id: &str) -> (res: Option<EventRecord>)
        ensures
            match message_with(self.messages@, id@) {
                Some(m) => res matches Some(r) && r.event_id == m.id && r.event_hash == m.event_hash
                    && r.signature_present == (m.signature@.len() > 0) && r.original_message_preserved,
                None => res is None,
            },
    {
        let ms = &self.messages;
        let n = ms.len();
        let mut i: usize = 0;
        assert(ms@.skip(0) == ms@);
        while i < n
            invariant
                *ms == self.messages,
                n == ms@.len(),
                i <= n,
                message_with(ms@, id@) == message_with(ms@.skip(i as int), id@),
            decreases n - i,
        {
            assert(ms@.skip(i as int)[0] == ms@[i as int]);
            if str_eq(&ms[i].id, id) {
                let m = &ms[i];
                return Some(EventRecord {
                    event_id: m.id.clone(),
                    event_hash: m.event_hash.clone(),
                    signature_present: !m.signature.as_str().is_empty(),
                    original_message_preserved: true,
                });
            }
            assert(ms@.skip(i as int).drop_first() == ms@.skip(i + 1));
            i = i + 1;
        }
        None
    }

    /// What the node says about the first consent receipt with the id: the
    /// artifact, the exact revision hash, the scope, and whether it carries
    /// a signature.
    pub fn consent_record(&self, id: &str) -> (res: Option<ConsentRecord>)
        ensures
            match receipt_with(self.consent_receipts@, id@) {
                Some(r) => res matches Some(c) && c.receipt_id == r.receipt_id && c.artifact_id == r.artifact_id
                    && c.revision_hash == r.exact_revision_hash && c.scope == r.approved_publication_scope
                    && c.signature_present == (r.signature@.len() > 0),
                None => res is None,
            },
    {
        let rs = &self.consent_receipts;
        let n = rs.len();
        let mut i: usize = 0;
        assert(rs@.skip(0) == rs@);
        while i < n
            invariant
                *rs == self.consent_receipts,
                n == rs@.len(),
                i <= n,
                receipt_with(rs@, id@) == receipt_with(rs@.skip(i as int), id@),
            decreases n - i,
        {
            assert(rs@.skip(i as int)[0] == rs@[i as int]);
            if str_eq(&rs[i].receipt_id, id) {
                let r = &rs[i];
                return Some(ConsentRecord {
                    receipt_id: r.receipt_id.clone(),
                    artifact_id: r.artifact_id.clone(),
                    revision_hash: r.exact_revision_hash.clone(),
                    scope: r.approved_publication_scope,
                    signature_present: !r.signature.as_str().is_empty(),
                });
            }
            assert(rs@.skip(i as int).drop_first() == rs@.skip(i + 1));
            i = i + 1;
        }
        None
    }
}

} // verus!

verus! {

proof fn lemma_uuid_not_blank(s: Seq<char>)
    requires
        is_uuid_text(s),
    ensures
        !blank(s),
{
    assert(crate::ids::is_lower_hex(s[0]));
}

proof fn lemma_device_of_participant(devices: Seq<DemoIdentity>, participant_id: Seq<char>)
    ensures
        device_of(devices, participant_id) matches Some(d) ==> d.participant_id@ == participant_id,
    decreases devices.len(),
{
    if devices.len() > 0 {
        lemma_device_of_participant(devices.drop_first(), participant_id);
    }
}

/// The JSON object `{"original_text": text}`.
pub fn original_text_content(text: &str) -> (res: JsonValue)
    ensures
        str_field(res, "original_text"@) == Some(text@),
        json_canonical(res),
        res matches JsonValue::Object(m) && m@.len() == 1 && m@[0].key@ == "original_text"@
            && (m@[0].value matches JsonValue::String(s) && s@ == text@),
{
    let mut members: Vec<JsonMember> = Vec::new();
    members.push(JsonMember { key: owned("original_text"), value: JsonValue::String(owned(text)) });
    assert(members@.drop_last() =~= Seq::<JsonMember>::empty());
    assert(crate::json::members_canonical(members@.drop_last()));
    assert(crate::json::json_canonical(members@.last().value));
    assert(crate::json::members_canonical(members@));
    JsonValue::Object(members)
}

/// A demo identity that can sign: its private key is Base64 of 32 bytes, and
/// neither its participant id nor its device id is blank.
pub open spec fn can_sign(d: DemoIdentity) -> bool {
    &&& base64_bytes(d.private_key@) matches Some(b) && b.len() == 32
    &&& !blank(d.device_id@)
    &&& !blank(d.participant_id@)
}

/// The chat message event a demo participant signs: a fresh id, the chat
/// schema, the participant and their demo device, the room, the sequence,
/// room scope, the content `{"original_text": text}`, valid, and signed
/// with the device's private key.
pub open spec fn demo_message_event(
    devices: Seq<DemoIdentity>,
    participant_id: Seq<char>,
    room_id: Seq<char>,
    sequence: u64,
    original_text: Seq<char>,
    res: ProtocolEvent,
) -> bool {
    &&& is_uuid_text(res.id@)
    &&& res.schema@ == message_schema()
    &&& res.author_id@ == participant_id
    &&& res.device_id@ == device_of(devices, participant_id)->0.device_id@
    &&& res.room_id matches Some(r) && r@ == room_id
    &&& res.client_sequence == sequence
    &&& res.scope == EventScope::Room
    &&& str_field(res.content, "original_text"@) == Some(original_text)
    &&& json_canonical(res.content)
    &&& res.content matches JsonValue::Object(m) && m@.len() == 1 && m@[0].key@ == "original_text"@
        && (m@[0].value matches JsonValue::String(s) && s@ == original_text)
    &&& crate::protocol::version_check(res) is Ok
    &&& signed_with(res, secret_of(device_of(devices, participant_id)->0.private_key@))
}

impl NodeState {
    /// The chat message event a demo participant signs, or nothing when the
    /// participant has no demo identity that can sign.
    pub fn try_demo_signed_message_event(
        &self,
        participant_id: &str,
        room_id: &str,
        sequence: u64,
        original_text: &str,
    ) -> (res: Option<ProtocolEvent>)
        ensures
            res is Some <==> (device_of(self.devices@, participant_id@) matches Some(d) && can_sign(d)),
            res matches Some(e) ==> demo_message_event(self.devices@, participant_id@, room_id@, sequence, original_text@, e),
    {
        let identity = match self.identity_of(participant_id) {
            Some(identity) => identity,
            None => return None,
        };
        if crate::text::is_blank(identity.device_id.as_str()) || crate::text::is_blank(identity.participant_id.as_str()) {
            return None;
        }
        match crate::crypto::base64_decode(identity.private_key.as_str()) {
            Ok(bytes) => {
                if bytes.len() != 32 {
                    return None;
                }
            },
            Err(_) => return None,
        }
        Some(self.demo_signed_message_event(participant_id, room_id, sequence, original_text))
    }

    /// A chat message event from a demo participant, signed with their demo
    /// device key. The participant must have a demo identity that can sign
    /// (`new` makes such identities); `try_demo_signed_message_event` checks
    /// that first.
    pub fn demo_signed_message_event(
        &self,
        participant_id: &str,
        room_id: &str,
        sequence: u64,
        original_text: &str,
    ) -> (res: ProtocolEvent)
        requires
            device_of(self.devices@, participant_id@) matches Some(d) && can_sign(d),
        ensures
            demo_message_event(self.devices@, participant_id@, room_id@, sequence, original_text@, res),
    {
        let identity = match self.identity_of(participant_id) {
            Some(identity) => identity,
            None => {
                proof {
                    assert(false);
                }
                return ProtocolEvent::new(
                    "babel.message.created/1",
                    participant_id,
                    participant_id,
                    None,
                    sequence,
                    EventScope::Room,
                    JsonValue::Null,
                );
            },
        };
        let mut event = ProtocolEvent::new(
            "babel.message.created/1",
            participant_id,
            identity.device_id.as_str(),
            Some(owned(room_id)),
            sequence,
            EventScope::Room,
            original_text_content(original_text),
        );
        proof {
            reveal_strlit("babel.message.created/1");
            reveal_strlit("babel/1");
            lemma_uuid_not_blank(event.id@);
            assert(!crate::text::is_white_space(event.schema@[0]));
            lemma_device_of_participant(self.devices@, participant_id@);
        }
        match sign_event_with_private_key(&mut event, identity.private_key.as_str()) {
            Ok(()) => {},
            Err(_) => {
                proof {
                    assert(false);
                }
            },
        }
        event
    }
}

/// A message that a room participant signed with their demo device key,
/// naming that device, for this room, with the chat schema, whose body is
/// what was signed and whose sequence is above the last one of the device, is
/// admitted.
pub proof fn signed_message_is_admitted(s: NodeState, room_id: Seq<char>, input: MessageSendInput)
    requires
        device_of(s.devices@, input.event.author_id@) matches Some(d) && key_pair_matches(material_of(d))
            && signed_with(input.event, secret_of(d.private_key@)) && input.event.device_id@ == d.device_id@,
        input.event.room_id matches Some(r) && r@ == room_id,
        input.event.schema@ == message_schema(),
        crate::protocol::version_check(input.event) is Ok,
        str_field(input.event.content, "original_text"@) == Some(input.original_text@),
        input.event.client_sequence > s.replay.last_sequence(input.event.device_id@),
    ensures
        admission_error(s, room_id, input) is None,
{
    reveal(admission_error_before_replay);
    let d = device_of(s.devices@, input.event.author_id@)->0;
    crate::identity::signed_event_verifies(material_of(d), input.event);
}

/// A duplicate is refused: once a message event is admitted, an event of
/// the same device whose sequence is not above it is refused, whatever else
/// it carries.
pub proof fn duplicate_message_is_refused(
    s1: NodeState,
    s2: NodeState,
    room_id: Seq<char>,
    first: MessageSendInput,
    later: MessageSendInput,
)
    requires
        admission_error(s1, room_id, first) is None,
        NodeState::same_but_replay(s1, s2),
        ReplayProtector::accept_step(s1.replay, s2.replay, first.event, true),
        later.event.device_id@ == first.event.device_id@,
        later.event.client_sequence <= first.event.client_sequence,
    ensures
        admission_error(s2, room_id, later) is Some,
{
    assert(s2.replay.last_sequence(first.event.device_id@) == first.event.client_sequence);
}

} // verus!

verus! {

/// A message is translated for the other participant, never for its sender:
/// the target is the translation target of the first participant whose id
/// differs from the sender's, participants with the sender's id skipped.
pub proof fn translation_target_is_first_other_participant(
    ps: Seq<crate::conversations::Participant>,
    sender: Seq<char>,
    k: int,
)
    requires
        0 <= k < ps.len(),
        ps[k].id@ != sender,
        forall|j: int| 0 <= j < k ==> ps[j].id@ == sender,
    ensures
        target_language(ps, sender) == ps[k].translation_target@,
    decreases k,
{
    if k > 0 {
        assert(ps[0].id@ == sender);
        translation_target_is_first_other_participant(ps.drop_first(), sender, k - 1);
    }
}

/// When nobody but the sender is in the room, a message is translated into
/// English.
pub proof fn translation_target_without_others(ps: Seq<crate::conversations::Participant>, sender: Seq<char>)
    requires
        forall|j: int| 0 <= j < ps.len() ==> ps[j].id@ == sender,
    ensures
        target_language(ps, sender) == "en"@,
    decreases ps.len(),
{
    if ps.len() > 0 {
        assert(ps[0].id@ == sender);
        translation_target_without_others(ps.drop_first(), sender);
    }
}

/// The facilitator sees the newest messages first: at most four lines, the
/// first describing the last message of the list, and line `j` the message
/// `j` places before it.
pub proof fn facilitator_sees_newest_first(ms: Seq<Message>, lines: Seq<String>)
    requires
        visible_context(ms, lines),
    ensures
        lines.len() == if ms.len() < 4 { ms.len() } else { 4 },
        ms.len() > 0 ==> lines.len() > 0 && lines[0]@ == context_line(ms.last()),
        forall|i: int| 0 <= i < lines.len() ==> (#[trigger] lines[i])@ == context_line(ms[ms.len() - (i + 1)]),
{
    if ms.len() > 0 {
        assert(lines[0]@ == context_line(ms[ms.len() - 1 - 0]));
    }
}

/// A new message comes first in the facilitator's view and moves every
/// earlier line back by one.
pub proof fn new_message_comes_first(ms: Seq<Message>, m: Message, before: Seq<String>, after: Seq<String>)
    requires
        visible_context(ms, before),
        visible_context(ms.push(m), after),
    ensures
        after.len() > 0,
        after[0]@ == context_line(m),
        forall|j: int| 0 <= j < after.len() - 1 ==> (#[trigger] after[j + 1])@ == before[j]@,
{
    let pushed = ms.push(m);
    assert(after[0]@ == context_line(pushed[pushed.len() - 1 - 0]));
    assert forall|j: int| 0 <= j < after.len() - 1 implies (#[trigger] after[j + 1])@ == before[j]@ by {
        assert(after[j + 1]@ == context_line(pushed[pushed.len() - 1 - (j + 1)]));
        assert(before[j]@ == context_line(ms[ms.len() - (j + 1)]));
        assert(pushed[pushed.len() - 1 - (j + 1)] == ms[ms.len() - 1 - j]);
    }
}

} // verus!

