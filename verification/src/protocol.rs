//! Signed protocol events: the envelope, its canonical signing payload,
//! content hashing, signature verification and per-device replay
//! protection.

use vstd::prelude::*;
use crate::crypto::{
    array32, base64_bytes, base64_decode, ed25519_accepts, ed25519_point, sha256, sha256_digest,
    signature_from_slice, verify_signature, verifying_key_from_bytes,
};
use crate::ids::{new_uuid, now_text};
use crate::json::{json_null, json_string, json_value, write_json_null, write_json_string, write_json_value, JsonValue};
use crate::text::{blank, decimal, hex_encode, hex_lower, is_blank, push_str, u64_decimal};
use vstd::utf8::encode_utf8;

verus! {

/// The protocol identifier every event carries.
pub const PROTOCOL_ID: &'static str = "babel/1";

/// The protocol version every event carries.
pub const PROTOCOL_VERSION: u32 = 1;

/// Who may see an event.
#[derive(Clone, Copy, Debug, PartialEq, Eq, Structural)]
pub enum EventScope {
    Private,
    Room,
    Community,
    Federated,
    Public,
}

/// The snake-case name of a scope, as events carry it.
pub open spec fn scope_name(scope: EventScope) -> Seq<char> {
    match scope {
        EventScope::Private => "private"@,
        EventScope::Room => "room"@,
        EventScope::Community => "community"@,
        EventScope::Federated => "federated"@,
        EventScope::Public => "public"@,
    }
}

impl EventScope {
    /// The snake-case name of the scope.
    pub fn name(&self) -> (res: &'static str)
        ensures
            res@ == scope_name(*self),
    {
        match self {
            EventScope::Private => "private",
            EventScope::Room => "room",
            EventScope::Community => "community",
            EventScope::Federated => "federated",
            EventScope::Public => "public",
        }
    }
}

/// A reference to a stored attachment.
pub struct AttachmentReference {
    pub id: String,
    pub media_type: String,
    pub byte_length: u64,
    pub content_hash: String,
    pub storage_url: Option<String>,
}

/// A signed protocol event. `room_id` holds a UUID as hyphenated lower-case
/// text; `created_at` and `expires_at` hold RFC 3339 UTC timestamps as
/// `chrono` writes them.
pub struct ProtocolEvent {
    pub protocol: String,
    pub id: String,
    pub schema: String,
    pub version: u32,
    pub author_id: String,
    pub device_id: String,
    pub room_id: Option<String>,
    pub created_at: String,
    pub client_sequence: u64,
    pub parent_ids: Vec<String>,
    pub scope: EventScope,
    pub expires_at: Option<String>,
    pub content: JsonValue,
    pub attachments: Vec<AttachmentReference>,
    pub signature: String,
}

/// Why an event was refused.
#[derive(Debug)]
pub enum ProtocolError {
    UnsupportedProtocol(String),
    UnsupportedVersion(u32),
    MissingSchema,
    MissingIdentity,
    MissingSignature,
    InvalidBase64(base64::DecodeError),
    InvalidPublicKey,
    InvalidSignature,
    ReplayDetected { device_id: String, sequence: u64 },
}

/// A JSON string, or `null` when there is none.
pub open spec fn json_opt_string(s: Option<String>) -> Seq<char> {
    match s {
        Some(t) => json_string(t@),
        None => json_null(),
    }
}

/// Comma-separated JSON strings.
pub open spec fn json_string_items(s: Seq<String>) -> Seq<char>
    decreases s.len(),
{
    if s.len() == 0 {
        Seq::empty()
    } else {
        let prefix = json_string_items(s.drop_last());
        (if s.len() == 1 {
            prefix
        } else {
            prefix + ","@
        }) + json_string(s.last()@)
    }
}

/// One attachment reference as a JSON object, fields in declaration order.
#[verifier::opaque]
pub open spec fn attachment_json(a: AttachmentReference) -> Seq<char> {
    "{\"id\":"@ + json_string(a.id@) + ",\"media_type\":"@ + json_string(a.media_type@)
        + ",\"byte_length\":"@ + decimal(a.byte_length as nat) + ",\"content_hash\":"@
        + json_string(a.content_hash@) + ",\"storage_url\":"@ + json_opt_string(a.storage_url)
        + "}"@
}

/// Comma-separated attachment objects.
pub open spec fn attachment_items(s: Seq<AttachmentReference>) -> Seq<char>
    decreases s.len(),
{
    if s.len() == 0 {
        Seq::empty()
    } else {
        let prefix = attachment_items(s.drop_last());
        (if s.len() == 1 {
            prefix
        } else {
            prefix + ","@
        }) + attachment_json(s.last())
    }
}

/// The canonical signing payload of an event as JSON text: every field but
/// the signature, in declaration order, in the compact form `serde_json`
/// writes.
pub open spec fn signing_text(e: ProtocolEvent) -> Seq<char> {
    "{\"protocol\":"@ + json_string(e.protocol@) + ",\"id\":"@ + json_string(e.id@)
        + ",\"schema\":"@ + json_string(e.schema@) + ",\"version\":"@ + decimal(e.version as nat)
        + ",\"author_id\":"@ + json_string(e.author_id@) + ",\"device_id\":"@ + json_string(
        e.device_id@,
    ) + ",\"room_id\":"@ + json_opt_string(e.room_id) + ",\"created_at\":"@ + json_string(
        e.created_at@,
    ) + ",\"client_sequence\":"@ + decimal(e.client_sequence as nat) + ",\"parent_ids\":["@
        + json_string_items(e.parent_ids@) + "],\"scope\":"@ + json_string(scope_name(e.scope))
        + ",\"expires_at\":"@ + json_opt_string(e.expires_at) + ",\"content\":"@ + json_value(
        e.content,
    ) + ",\"attachments\":["@ + attachment_items(e.attachments@) + "]}"@
}

/// The checks of `validate_version`, in their order.
pub open spec fn version_check(e: ProtocolEvent) -> Result<(), ProtocolError> {
    if e.protocol@ != PROTOCOL_ID@ {
        Err(ProtocolError::UnsupportedProtocol(e.protocol))
    } else if e.version != PROTOCOL_VERSION {
        Err(ProtocolError::UnsupportedVersion(e.version))
    } else if blank(e.schema@) {
        Err(ProtocolError::MissingSchema)
    } else if blank(e.id@) || blank(e.author_id@) || blank(e.device_id@) {
        Err(ProtocolError::MissingIdentity)
    } else {
        Ok(())
    }
}

/// The bytes that are signed and hashed: the UTF-8 encoding of
/// `signing_text`.
pub open spec fn signing_payload(e: ProtocolEvent) -> Seq<u8> {
    encode_utf8(signing_text(e))
}

/// The content hash of an event: lower-case hex of the SHA-256 of its
/// signing payload.
pub open spec fn event_hash(e: ProtocolEvent) -> Seq<char> {
    hex_lower(sha256(signing_payload(e)))
}

fn write_opt_string(out: &mut String, s: &Option<String>)
    ensures
        final(out)@ == old(out)@ + json_opt_string(*s),
{
    match s {
        Some(t) => write_json_string(out, t.as_str()),
        None => write_json_null(out),
    }
}

fn write_string_items(out: &mut String, s: &Vec<String>)
    ensures
        final(out)@ == old(out)@ + json_string_items(s@),
{
    let ghost start = out@;
    let n = s.len();
    let mut i: usize = 0;
    while i < n
        invariant
            n == s@.len(),
            i <= n,
            out@ == start + json_string_items(s@.take(i as int)),
        decreases n - i,
    {
        assert(s@.take(i + 1).drop_last() == s@.take(i as int));
        if i > 0 {
            push_str(out, ",");
        }
        write_json_string(out, s[i].as_str());
        i = i + 1;
    }
    assert(s@.take(n as int) == s@);
}

fn write_attachment(out: &mut String, a: &AttachmentReference)
    ensures
        final(out)@ == old(out)@ + attachment_json(*a),
{
    let ghost start = out@;
    push_str(out, "{\"id\":");
    write_json_string(out, a.id.as_str());
    push_str(out, ",\"media_type\":");
    write_json_string(out, a.media_type.as_str());
    push_str(out, ",\"byte_length\":");
    let len = u64_decimal(a.byte_length);
    push_str(out, len.as_str());
    push_str(out, ",\"content_hash\":");
    write_json_string(out, a.content_hash.as_str());
    push_str(out, ",\"storage_url\":");
    write_opt_string(out, &a.storage_url);
    push_str(out, "}");
    assert(out@ == start + attachment_json(*a)) by {
        reveal(attachment_json);
    }
}

fn write_attachments(out: &mut String, s: &Vec<AttachmentReference>)
    ensures
        final(out)@ == old(out)@ + attachment_items(s@),
{
    let ghost start = out@;
    let n = s.len();
    let mut i: usize = 0;
    while i < n
        invariant
            n == s@.len(),
            i <= n,
            out@ == start + attachment_items(s@.take(i as int)),
        decreases n - i,
    {
        assert(s@.take(i + 1).drop_last() == s@.take(i as int));
        if i > 0 {
            push_str(out, ",");
        }
        write_attachment(out, &s[i]);
        i = i + 1;
    }
    assert(s@.take(n as int) == s@);
}

/// Writes the canonical signing payload of an event as text.
pub fn signing_payload_text(e: &ProtocolEvent) -> (res: String)
    ensures
        res@ == signing_text(*e),
{
    let mut out = String::new();
    push_str(&mut out, "{\"protocol\":");
    write_json_string(&mut out, e.protocol.as_str());
    push_str(&mut out, ",\"id\":");
    write_json_string(&mut out, e.id.as_str());
    push_str(&mut out, ",\"schema\":");
    write_json_string(&mut out, e.schema.as_str());
    push_str(&mut out, ",\"version\":");
    let version = u64_decimal(e.version as u64);
    push_str(&mut out, version.as_str());
    push_str(&mut out, ",\"author_id\":");
    write_json_string(&mut out, e.author_id.as_str());
    push_str(&mut out, ",\"device_id\":");
    write_json_string(&mut out, e.device_id.as_str());
    push_str(&mut out, ",\"room_id\":");
    write_opt_string(&mut out, &e.room_id);
    push_str(&mut out, ",\"created_at\":");
    write_json_string(&mut out, e.created_at.as_str());
    push_str(&mut out, ",\"client_sequence\":");
    let sequence = u64_decimal(e.client_sequence);
    push_str(&mut out, sequence.as_str());
    push_str(&mut out, ",\"parent_ids\":[");
    write_string_items(&mut out, &e.parent_ids);
    push_str(&mut out, "],\"scope\":");
    write_json_string(&mut out, e.scope.name());
    push_str(&mut out, ",\"expires_at\":");
    write_opt_string(&mut out, &e.expires_at);
    push_str(&mut out, ",\"content\":");
    write_json_value(&mut out, &e.content);
    push_str(&mut out, ",\"attachments\":[");
    write_attachments(&mut out, &e.attachments);
    push_str(&mut out, "]}");
    out
}

} // verus!

verus! {

/// What `verify_with_public_key_b64` needs to accept an event: a non-blank
/// signature, a public key that decodes from Base64 to 32 bytes of a curve
/// point, a signature that decodes to 64 bytes, an event that passes
/// `validate_version`, and Ed25519 acceptance of the signing payload.
pub open spec fn signature_verifies(e: ProtocolEvent, public_key_b64: Seq<char>) -> bool {
    &&& !blank(e.signature@)
    &&& base64_bytes(public_key_b64) matches Some(pk)
    &&& pk.len() == 32
    &&& ed25519_point(pk)
    &&& base64_bytes(e.signature@) matches Some(sig)
    &&& sig.len() == 64
    &&& version_check(e) is Ok
    &&& ed25519_accepts(pk, signing_payload(e), sig)
}

impl ProtocolEvent {
    /// An unsigned event with the given id and creation time; no parents,
    /// no expiry, no attachments.
    pub fn assemble(
        id: String,
        created_at: String,
        schema: &str,
        author_id: &str,
        device_id: &str,
        room_id: Option<String>,
        client_sequence: u64,
        scope: EventScope,
        content: JsonValue,
    ) -> (res: Self)
        ensures
            res.protocol@ == PROTOCOL_ID@,
            res.id == id,
            res.schema@ == schema@,
            res.version == PROTOCOL_VERSION,
            res.author_id@ == author_id@,
            res.device_id@ == device_id@,
            res.room_id == room_id,
            res.created_at == created_at,
            res.client_sequence == client_sequence,
            res.parent_ids@.len() == 0,
            res.scope == scope,
            res.expires_at is None,
            res.content == content,
            res.attachments@.len() == 0,
            res.signature@.len() == 0,
    {
        ProtocolEvent {
            protocol: PROTOCOL_ID.to_owned(),
            id,
            schema: schema.to_owned(),
            version: PROTOCOL_VERSION,
            author_id: author_id.to_owned(),
            device_id: device_id.to_owned(),
            room_id,
            created_at,
            client_sequence,
            parent_ids: Vec::new(),
            scope,
            expires_at: None,
            content,
            attachments: Vec::new(),
            signature: String::new(),
        }
    }

    /// A new unsigned event with a fresh random id, created now.
    pub fn new(
        schema: &str,
        author_id: &str,
        device_id: &str,
        room_id: Option<String>,
        client_sequence: u64,
        scope: EventScope,
        content: JsonValue,
    ) -> (res: Self)
        ensures
            res.protocol@ == PROTOCOL_ID@,
            crate::ids::is_uuid_text(res.id@),
            res.schema@ == schema@,
            res.version == PROTOCOL_VERSION,
            res.author_id@ == author_id@,
            res.device_id@ == device_id@,
            res.room_id == room_id,
            res.client_sequence == client_sequence,
            res.parent_ids@.len() == 0,
            res.scope == scope,
            res.expires_at is None,
            res.content == content,
            res.attachments@.len() == 0,
            res.signature@.len() == 0,
    {
        let id = new_uuid();
        let created_at = now_text();
        Self::assemble(
            id,
            created_at,
            schema,
            author_id,
            device_id,
            room_id,
            client_sequence,
            scope,
            content,
        )
    }

    /// Checks the protocol identifier, the version, the schema and the
    /// identity fields, in that order.
    pub fn validate_version(&self) -> (res: Result<(), ProtocolError>)
        ensures
            res == version_check(*self),
    {
        if !crate::text::str_eq(&self.protocol, PROTOCOL_ID) {
            return Err(ProtocolError::UnsupportedProtocol(self.protocol.clone()));
        }
        if self.version != PROTOCOL_VERSION {
            return Err(ProtocolError::UnsupportedVersion(self.version));
        }
        if is_blank(self.schema.as_str()) {
            return Err(ProtocolError::MissingSchema);
        }
        if is_blank(self.id.as_str()) || is_blank(self.author_id.as_str()) || is_blank(
            self.device_id.as_str(),
        ) {
            return Err(ProtocolError::MissingIdentity);
        }
        Ok(())
    }

    /// The canonical bytes that are signed: refused as `validate_version`
    /// refuses, else the UTF-8 of the signing payload.
    pub fn signing_bytes(&self) -> (res: Result<Vec<u8>, ProtocolError>)
        ensures
            match version_check(*self) {
                Ok(_) => res matches Ok(b) && b@ == signing_payload(*self),
                Err(e) => res == Err::<Vec<u8>, ProtocolError>(e),
            },
    {
        self.validate_version()?;
        let text = signing_payload_text(self);
        Ok(vstd::slice::slice_to_vec(text.as_str().as_bytes()))
    }

    /// Lower-case hex of the SHA-256 of the signing bytes: 64 lower-case hex
    /// digits.
    pub fn content_hash(&self) -> (res: Result<String, ProtocolError>)
        ensures
            match version_check(*self) {
                Ok(_) => res matches Ok(h) && h@ == event_hash(*self),
                Err(e) => res == Err::<String, ProtocolError>(e),
            },
            res matches Ok(h) ==> h@.len() == 64 && forall|i: int| 0 <= i < 64 ==> crate::ids::is_lower_hex(#[trigger] h@[i]),
    {
        let bytes = self.signing_bytes()?;
        let digest = sha256_digest(bytes.as_slice());
        proof {
            crate::text::lemma_hex_lower_shape(digest@);
        }
        Ok(hex_encode(digest.as_slice()))
    }

    /// Verifies the event's Base64 signature with a Base64 public key.
    pub fn verify_with_public_key_b64(&self, public_key_b64: &str) -> (res: Result<
        (),
        ProtocolError,
    >)
        ensures
            res is Ok <==> signature_verifies(*self, public_key_b64@),
            blank(self.signature@) ==> res == Err::<(), ProtocolError>(
                ProtocolError::MissingSignature,
            ),
            !blank(self.signature@) && base64_bytes(public_key_b64@) is None ==> res matches Err(
                ProtocolError::InvalidBase64(_),
            ),
            !blank(self.signature@) && (base64_bytes(public_key_b64@) matches Some(pk) && (pk.len()
                != 32 || !ed25519_point(pk))) ==> res == Err::<(), ProtocolError>(
                ProtocolError::InvalidPublicKey,
            ),
            !blank(self.signature@) && (base64_bytes(public_key_b64@) matches Some(pk) && pk.len()
                == 32 && ed25519_point(pk)) ==> match base64_bytes(self.signature@) {
                None => res matches Err(ProtocolError::InvalidBase64(_)),
                Some(sig) => if sig.len() != 64 {
                    res == Err::<(), ProtocolError>(ProtocolError::InvalidSignature)
                } else {
                    match version_check(*self) {
                        Err(e) => res == Err::<(), ProtocolError>(e),
                        Ok(_) => res is Ok || res == Err::<(), ProtocolError>(
                            ProtocolError::InvalidSignature,
                        ),
                    }
                },
            },
    {
        if is_blank(self.signature.as_str()) {
            return Err(ProtocolError::MissingSignature);
        }
        let public_key = match base64_decode(public_key_b64) {
            Ok(bytes) => bytes,
            Err(error) => return Err(ProtocolError::InvalidBase64(error)),
        };
        if public_key.len() != 32 {
            return Err(ProtocolError::InvalidPublicKey);
        }
        let public_key = array32(&public_key);
        let verifying_key = match verifying_key_from_bytes(&public_key) {
            Some(key) => key,
            None => return Err(ProtocolError::InvalidPublicKey),
        };
        let signature_bytes = match base64_decode(self.signature.as_str()) {
            Ok(bytes) => bytes,
            Err(error) => return Err(ProtocolError::InvalidBase64(error)),
        };
        let signature = match signature_from_slice(signature_bytes.as_slice()) {
            Some(signature) => signature,
            None => return Err(ProtocolError::InvalidSignature),
        };
        let message = self.signing_bytes()?;
        if verify_signature(&verifying_key, message.as_slice(), &signature) {
            Ok(())
        } else {
            Err(ProtocolError::InvalidSignature)
        }
    }
}

} // verus!

verus! {

/// The last accepted sequence of a device in a list of (device, sequence)
/// entries: the first entry for the device decides, and a device without an
/// entry has 0.
pub open spec fn last_in(entries: Seq<(String, u64)>, device: Seq<char>) -> u64
    decreases entries.len(),
{
    if entries.len() == 0 {
        0
    } else if entries[0].0@ == device {
        entries[0].1
    } else {
        last_in(entries.drop_first(), device)
    }
}

/// Remembers the last accepted client sequence of every device.
pub struct ReplayProtector {
    last_sequence_by_device: Vec<(String, u64)>,
}

/// No device occurs twice among the entries.
pub open spec fn distinct_devices(entries: Seq<(String, u64)>) -> bool {
    forall|i: int, j: int| 0 <= i < j < entries.len() ==> (#[trigger] entries[i]).0@ != (#[trigger] entries[j]).0@
}

impl ReplayProtector {
    /// Every device has at most one entry.
    #[verifier::type_invariant]
    closed spec fn entries_distinct(self) -> bool {
        distinct_devices(self.last_sequence_by_device@)
    }

    /// The last client sequence accepted from a device; 0 before any.
    pub closed spec fn last_sequence(&self, device: Seq<char>) -> u64 {
        last_in(self.last_sequence_by_device@, device)
    }

    /// How `accept` changes the protector: an event is accepted exactly when
    /// its sequence is above the last one of its device, which then becomes
    /// its sequence; nothing else changes.
    pub open spec fn accept_step(
        before: ReplayProtector,
        after: ReplayProtector,
        event: ProtocolEvent,
        accepted: bool,
    ) -> bool {
        &&& accepted == (event.client_sequence > before.last_sequence(event.device_id@))
        &&& forall|d: Seq<char>|
            #[trigger] after.last_sequence(d) == if accepted && d == event.device_id@ {
                event.client_sequence
            } else {
                before.last_sequence(d)
            }
    }

    /// A protector that has accepted nothing.
    pub fn new() -> (res: Self)
        ensures
            forall|d: Seq<char>| #[trigger] res.last_sequence(d) == 0,
    {
        ReplayProtector { last_sequence_by_device: Vec::new() }
    }

    /// Accepts an event only if its client sequence is above the last one
    /// accepted from its device.
    pub fn accept(&mut self, event: &ProtocolEvent) -> (res: Result<(), ProtocolError>)
        ensures
            Self::accept_step(*old(self), *final(self), *event, res is Ok),
            res is Err ==> *final(self) == *old(self),
            res is Err ==> res == Err::<(), ProtocolError>(
                ProtocolError::ReplayDetected {
                    device_id: event.device_id,
                    sequence: event.client_sequence,
                },
            ),
    {
        proof {
            use_type_invariant(&*self);
        }
        let mut entries: Vec<(String, u64)> = Vec::new();
        std::mem::swap(&mut entries, &mut self.last_sequence_by_device);
        let res = Self::accept_into(&mut entries, event);
        self.last_sequence_by_device = entries;
        res
    }
}

impl ReplayProtector {
    /// `accept` on the entries themselves.
    fn accept_into(entries: &mut Vec<(String, u64)>, event: &ProtocolEvent) -> (res: Result<(), ProtocolError>)
        requires
            distinct_devices(old(entries)@),
        ensures
            distinct_devices(final(entries)@),
            res is Ok == (event.client_sequence > last_in(old(entries)@, event.device_id@)),
            forall|d: Seq<char>|
                #[trigger] last_in(final(entries)@, d) == if res is Ok && d == event.device_id@ {
                    event.client_sequence
                } else {
                    last_in(old(entries)@, d)
                },
            res is Err ==> *final(entries) == *old(entries),
            res is Err ==> res == Err::<(), ProtocolError>(
                ProtocolError::ReplayDetected {
                    device_id: event.device_id,
                    sequence: event.client_sequence,
                },
            ),
    {
        let ghost before = entries@;
        let n = entries.len();
        let mut i: usize = 0;
        while i < n
            invariant
                n == entries@.len(),
                entries@ == before,
                before == old(entries)@,
                distinct_devices(before),
                *entries == *old(entries),
                i <= n,
                forall|j: int| 0 <= j < i ==> before[j].0@ != event.device_id@,
            decreases n - i,
        {
            if crate::text::str_eq(&entries[i].0, event.device_id.as_str()) {
                let last = entries[i].1;
                proof {
                    lemma_last_at(before, event.device_id@, i as int);
                }
                if event.client_sequence <= last {
                    return Err(
                        ProtocolError::ReplayDetected {
                            device_id: event.device_id.clone(),
                            sequence: event.client_sequence,
                        },
                    );
                }
                entries.set(
                    i,
                    (event.device_id.clone(), event.client_sequence),
                );
                proof {
                    assert forall|d: Seq<char>| #[trigger]
                        last_in(entries@, d) == if d == event.device_id@ {
                            event.client_sequence
                        } else {
                            last_in(before, d)
                        } by {
                        lemma_last_update(before, i as int, event.device_id, event.client_sequence, d);
                    }
                }
                return Ok(());
            }
            i = i + 1;
        }
        proof {
            lemma_last_absent(before, event.device_id@);
        }
        if event.client_sequence == 0 {
            return Err(
                ProtocolError::ReplayDetected {
                    device_id: event.device_id.clone(),
                    sequence: event.client_sequence,
                },
            );
        }
        entries.push((event.device_id.clone(), event.client_sequence));
        proof {
            assert forall|d: Seq<char>| #[trigger]
                last_in(entries@, d) == if d == event.device_id@ {
                    event.client_sequence
                } else {
                    last_in(before, d)
                } by {
                lemma_last_push(before, event.device_id, event.client_sequence, d);
            }
        }
        Ok(())
    }
}


impl Default for ReplayProtector {
    fn default() -> (res: Self)
        ensures
            forall|d: Seq<char>| #[trigger] res.last_sequence(d) == 0,
    {
        Self::new()
    }
}

proof fn lemma_last_at(entries: Seq<(String, u64)>, device: Seq<char>, i: int)
    requires
        0 <= i < entries.len(),
        entries[i].0@ == device,
        forall|j: int| 0 <= j < i ==> entries[j].0@ != device,
    ensures
        last_in(entries, device) == entries[i].1,
    decreases i,
{
    if i > 0 {
        lemma_last_at(entries.drop_first(), device, i - 1);
    }
}

proof fn lemma_last_absent(entries: Seq<(String, u64)>, device: Seq<char>)
    requires
        forall|j: int| 0 <= j < entries.len() ==> entries[j].0@ != device,
    ensures
        last_in(entries, device) == 0,
    decreases entries.len(),
{
    if entries.len() > 0 {
        lemma_last_absent(entries.drop_first(), device);
    }
}

proof fn lemma_last_update(entries: Seq<(String, u64)>, i: int, key: String, v: u64, d: Seq<char>)
    requires
        0 <= i < entries.len(),
        entries[i].0@ == key@,
        forall|j: int| 0 <= j < i ==> entries[j].0@ != key@,
    ensures
        last_in(entries.update(i, (key, v)), d) == if d == key@ {
            v
        } else {
            last_in(entries, d)
        },
    decreases i,
{
    let updated = entries.update(i, (key, v));
    if i > 0 {
        assert(updated.drop_first() =~= entries.drop_first().update(i - 1, (key, v)));
        assert(updated[0] == entries[0]);
        assert forall|j: int| 0 <= j < i - 1 implies entries.drop_first()[j].0@ != key@ by {
            assert(entries.drop_first()[j] == entries[j + 1]);
        }
        lemma_last_update(entries.drop_first(), i - 1, key, v, d);
    } else {
        assert(updated.drop_first() =~= entries.drop_first());
    }
}

proof fn lemma_last_push(entries: Seq<(String, u64)>, key: String, v: u64, d: Seq<char>)
    requires
        forall|j: int| 0 <= j < entries.len() ==> entries[j].0@ != key@,
    ensures
        last_in(entries.push((key, v)), d) == if d == key@ {
            v
        } else {
            last_in(entries, d)
        },
    decreases entries.len(),
{
    let pushed = entries.push((key, v));
    if entries.len() > 0 {
        assert(pushed[0] == entries[0]);
        assert forall|j: int| 0 <= j < entries.drop_first().len() implies entries.drop_first()[j].0@ != key@ by {
            assert(entries.drop_first()[j] == entries[j + 1]);
        }
        assert(pushed.drop_first() =~= entries.drop_first().push((key, v)));
        lemma_last_push(entries.drop_first(), key, v, d);
        assert(last_in(pushed, d) == if pushed[0].0@ == d {
            pushed[0].1
        } else {
            last_in(pushed.drop_first(), d)
        });
    } else {
        assert(pushed.drop_first() =~= Seq::<(String, u64)>::empty());
        assert(last_in(pushed.drop_first(), d) == 0);
        assert(pushed[0] == (key, v));
    }
}

} // verus!

verus! {

/// Two events agree on every field but the signature.
pub open spec fn same_but_signature(a: ProtocolEvent, b: ProtocolEvent) -> bool {
    &&& a.protocol == b.protocol
    &&& a.id == b.id
    &&& a.schema == b.schema
    &&& a.version == b.version
    &&& a.author_id == b.author_id
    &&& a.device_id == b.device_id
    &&& a.room_id == b.room_id
    &&& a.created_at == b.created_at
    &&& a.client_sequence == b.client_sequence
    &&& a.parent_ids == b.parent_ids
    &&& a.scope == b.scope
    &&& a.expires_at == b.expires_at
    &&& a.content == b.content
    &&& a.attachments == b.attachments
}

/// The signature is left out of what is signed and hashed: two events that
/// differ at most in their signatures have the same signing payload, the
/// same content hash and the same `validate_version` outcome.
pub proof fn signature_excluded_from_hash(a: ProtocolEvent, b: ProtocolEvent)
    requires
        same_but_signature(a, b),
    ensures
        signing_payload(a) == signing_payload(b),
        event_hash(a) == event_hash(b),
        version_check(a) == version_check(b),
{
}

/// Replay protection: once an event is accepted, no later event of the same
/// device whose sequence is not above it is accepted.
pub proof fn accepted_sequence_is_spent(
    p0: ReplayProtector,
    p1: ReplayProtector,
    p2: ReplayProtector,
    first: ProtocolEvent,
    later: ProtocolEvent,
    later_accepted: bool,
)
    requires
        ReplayProtector::accept_step(p0, p1, first, true),
        later.device_id@ == first.device_id@,
        later.client_sequence <= first.client_sequence,
        ReplayProtector::accept_step(p1, p2, later, later_accepted),
    ensures
        !later_accepted,
{
    assert(p1.last_sequence(first.device_id@) == first.client_sequence);
}

/// The last accepted sequence of every device only grows.
pub proof fn last_sequences_never_decrease(
    before: ReplayProtector,
    after: ReplayProtector,
    event: ProtocolEvent,
    accepted: bool,
)
    requires
        ReplayProtector::accept_step(before, after, event, accepted),
    ensures
        forall|d: Seq<char>| #[trigger] after.last_sequence(d) >= before.last_sequence(d),
{
    assert forall|d: Seq<char>| #[trigger] after.last_sequence(d) >= before.last_sequence(d) by {
        assert(after.last_sequence(d) == if accepted && d == event.device_id@ {
            event.client_sequence
        } else {
            before.last_sequence(d)
        });
    }
}

} // verus!

verus! {

impl Clone for AttachmentReference {
    fn clone(&self) -> (res: Self)
        ensures
            res == *self,
    {
        AttachmentReference {
            id: self.id.clone(),
            media_type: self.media_type.clone(),
            byte_length: self.byte_length,
            content_hash: self.content_hash.clone(),
            storage_url: crate::text::clone_opt(&self.storage_url),
        }
    }
}

} // verus!

verus! {

/// The text of a replay refusal.
pub open spec fn replay_text(device_id: Seq<char>, sequence: u64) -> Seq<char> {
    "replay or stale sequence for device "@ + device_id + ": "@ + decimal(sequence as nat)
}

/// The text of an error; for a Base64 error, the part before the decoding
/// error's own text.
pub open spec fn error_text(e: ProtocolError) -> Seq<char> {
    match e {
        ProtocolError::UnsupportedProtocol(p) => "unsupported protocol identifier: "@ + p@,
        ProtocolError::UnsupportedVersion(v) => "unsupported protocol version: "@ + decimal(v as nat),
        ProtocolError::MissingSchema => "schema must not be empty"@,
        ProtocolError::MissingIdentity => "event author, device, and id are required"@,
        ProtocolError::MissingSignature => "event signature is missing"@,
        ProtocolError::InvalidBase64(_) => "invalid base64: "@,
        ProtocolError::InvalidPublicKey => "invalid public key"@,
        ProtocolError::InvalidSignature => "invalid signature"@,
        ProtocolError::ReplayDetected { device_id, sequence } => replay_text(device_id@, sequence),
    }
}

impl ProtocolError {
    /// The human-readable text of the error.
    pub fn message(&self) -> (res: String)
        ensures
            !(*self is InvalidBase64) ==> res@ == error_text(*self),
            *self is InvalidBase64 ==> res@.len() >= 16 && res@.take(16) == error_text(*self),
    {
        let mut res = String::new();
        match self {
            ProtocolError::UnsupportedProtocol(p) => {
                push_str(&mut res, "unsupported protocol identifier: ");
                push_str(&mut res, p.as_str());
            },
            ProtocolError::UnsupportedVersion(v) => {
                push_str(&mut res, "unsupported protocol version: ");
                let digits = u64_decimal(*v as u64);
                push_str(&mut res, digits.as_str());
            },
            ProtocolError::MissingSchema => push_str(&mut res, "schema must not be empty"),
            ProtocolError::MissingIdentity => push_str(&mut res, "event author, device, and id are required"),
            ProtocolError::MissingSignature => push_str(&mut res, "event signature is missing"),
            ProtocolError::InvalidBase64(error) => {
                push_str(&mut res, "invalid base64: ");
                proof {
                    reveal_strlit("invalid base64: ");
                }
                let detail = crate::crypto::decode_error_text(error);
                push_str(&mut res, detail.as_str());
                assert(res@.take(16) =~= "invalid base64: "@);
            },
            ProtocolError::InvalidPublicKey => push_str(&mut res, "invalid public key"),
            ProtocolError::InvalidSignature => push_str(&mut res, "invalid signature"),
            ProtocolError::ReplayDetected { device_id, sequence } => {
                push_str(&mut res, "replay or stale sequence for device ");
                push_str(&mut res, device_id.as_str());
                push_str(&mut res, ": ");
                let digits = u64_decimal(*sequence);
                push_str(&mut res, digits.as_str());
            },
        }
        res
    }
}

} // verus!
