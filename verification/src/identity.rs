//! Person and device identities, device key material and event signing.

use vstd::prelude::*;
use crate::crypto::{
    array32, base64_bytes, base64_decode, base64_encode, ed25519_accepts, ed25519_point,
    ed25519_public, ed25519_sign, generate_signing_key, sign_message, signing_key_from_bytes,
    verifying_key_bytes,
};
use crate::ids::{is_uuid_text, new_uuid};
use crate::protocol::{
    same_but_signature, signature_verifies, signing_payload, version_check, ProtocolError,
    ProtocolEvent,
};
use crate::text::{blank, push_str};

verus! {

/// A person, apart from the devices they use.
pub struct PersonIdentity {
    pub id: String,
    pub display_name: String,
    pub preferred_languages: Vec<String>,
    pub public_identity_key: String,
    pub created_at: String,
}

/// One device of a person, with its own key.
pub struct DeviceIdentity {
    pub id: String,
    pub person_id: String,
    pub display_name: String,
    pub public_key: String,
    pub revoked_at: Option<String>,
    pub created_at: String,
}

/// A device id with its Ed25519 key pair, both keys in standard Base64.
pub struct DeviceKeyMaterial {
    pub device_id: String,
    pub public_key: String,
    pub private_key: String,
}

/// Why an event could not be signed.
#[derive(Debug)]
pub enum IdentityError {
    InvalidPrivateKey,
    Protocol(ProtocolError),
    InvalidBase64(base64::DecodeError),
}

/// The secret key a Base64 private key decodes to.
pub open spec fn secret_of(private_key_b64: Seq<char>) -> Seq<u8> {
    base64_bytes(private_key_b64)->0
}

/// The two keys of the material belong together: the private key decodes
/// to a 32-byte secret whose Ed25519 public key, a curve point, is what the
/// public key decodes to.
pub open spec fn key_pair_matches(m: DeviceKeyMaterial) -> bool {
    &&& base64_bytes(m.private_key@) is Some
    &&& secret_of(m.private_key@).len() == 32
    &&& base64_bytes(m.public_key@) == Some(ed25519_public(secret_of(m.private_key@)))
    &&& ed25519_public(secret_of(m.private_key@)).len() == 32
    &&& ed25519_point(ed25519_public(secret_of(m.private_key@)))
}

/// The event carries, in Base64, the Ed25519 signature of its own signing
/// payload under `secret`, and the public key of that secret accepts it.
pub open spec fn signed_with(e: ProtocolEvent, secret: Seq<u8>) -> bool {
    &&& !blank(e.signature@)
    &&& base64_bytes(e.signature@) == Some(ed25519_sign(secret, signing_payload(e)))
    &&& ed25519_sign(secret, signing_payload(e)).len() == 64
    &&& ed25519_accepts(ed25519_public(secret), signing_payload(e), ed25519_sign(secret, signing_payload(e)))
}

proof fn lemma_base64_not_blank(s: Seq<char>)
    requires
        s.len() > 0,
        forall|i: int| 0 <= i < s.len() ==> crate::crypto::is_base64_char(#[trigger] s[i]),
    ensures
        !blank(s),
{
    assert(crate::crypto::is_base64_char(s[0]));
}

/// Fresh key material: a random Ed25519 key, `device-` and a random UUID as
/// the device id.
pub fn generate_device_key_material() -> (res: DeviceKeyMaterial)
    ensures
        key_pair_matches(res),
        res.device_id@.len() == 43,
        res.device_id@.take(7) == "device-"@,
        is_uuid_text(res.device_id@.skip(7)),
{
    let signing_key = generate_signing_key();
    let public = verifying_key_bytes(&signing_key);
    let secret = signing_key.to_bytes();
    let mut device_id = String::new();
    push_str(&mut device_id, "device-");
    let uuid = new_uuid();
    push_str(&mut device_id, uuid.as_str());
    proof {
        reveal_strlit("device-");
        assert(device_id@.take(7) =~= "device-"@);
        assert(device_id@.skip(7) =~= uuid@);
    }
    DeviceKeyMaterial {
        device_id,
        public_key: base64_encode(public.as_slice()),
        private_key: base64_encode(secret.as_slice()),
    }
}

/// Signs an event with a Base64 private key, replacing its signature.
pub fn sign_event_with_private_key(event: &mut ProtocolEvent, private_key_b64: &str) -> (res:
    Result<(), IdentityError>)
    ensures
        base64_bytes(private_key_b64@) is None ==> res matches Err(IdentityError::InvalidBase64(_)),
        base64_bytes(private_key_b64@) matches Some(b) && b.len() != 32 ==> res matches Err(
            IdentityError::InvalidPrivateKey,
        ),
        base64_bytes(private_key_b64@) matches Some(b) && b.len() == 32 ==> match version_check(
            *old(event),
        ) {
            Err(e) => res == Err::<(), IdentityError>(IdentityError::Protocol(e)),
            Ok(_) => res is Ok,
        },
        res is Err ==> *final(event) == *old(event),
        res is Ok ==> same_but_signature(*old(event), *final(event)) && signed_with(
            *final(event),
            secret_of(private_key_b64@),
        ) && final(event).signature@ == crate::crypto::base64_text(
            ed25519_sign(secret_of(private_key_b64@), signing_payload(*old(event))),
        ),
{
    let bytes = match base64_decode(private_key_b64) {
        Ok(bytes) => bytes,
        Err(error) => return Err(IdentityError::InvalidBase64(error)),
    };
    if bytes.len() != 32 {
        return Err(IdentityError::InvalidPrivateKey);
    }
    let secret = array32(&bytes);
    let signing_key = signing_key_from_bytes(&secret);
    let message = match event.signing_bytes() {
        Ok(message) => message,
        Err(error) => return Err(IdentityError::Protocol(error)),
    };
    let signature = sign_message(&signing_key, message.as_slice());
    let text = base64_encode(signature.as_slice());
    proof {
        lemma_base64_not_blank(text@);
    }
    event.signature = text;
    proof {
        assert(signing_payload(*event) == signing_payload(*old(event)));
    }
    Ok(())
}

/// An event signed with the private key of matching key material verifies
/// with the material's public key, as long as the event passes
/// `validate_version`.
pub proof fn signed_event_verifies(m: DeviceKeyMaterial, e: ProtocolEvent)
    requires
        key_pair_matches(m),
        signed_with(e, secret_of(m.private_key@)),
        version_check(e) is Ok,
    ensures
        signature_verifies(e, m.public_key@),
{
}

} // verus!

verus! {

impl IdentityError {
    /// The human-readable text of the error.
    pub fn message(&self) -> (res: String)
        ensures
            *self is InvalidPrivateKey ==> res@ == "invalid private key"@,
            *self matches IdentityError::Protocol(e) ==> res@.len() >= 16 && res@.take(16) == "protocol error: "@
                && (!(e is InvalidBase64) ==> res@ == "protocol error: "@ + crate::protocol::error_text(e)),
            *self is InvalidBase64 ==> res@.len() >= 16 && res@.take(16) == "invalid base64: "@,
    {
        let mut res = String::new();
        match self {
            IdentityError::InvalidPrivateKey => push_str(&mut res, "invalid private key"),
            IdentityError::Protocol(error) => {
                push_str(&mut res, "protocol error: ");
                proof {
                    reveal_strlit("protocol error: ");
                }
                let detail = error.message();
                push_str(&mut res, detail.as_str());
                assert(res@.take(16) =~= "protocol error: "@);
            },
            IdentityError::InvalidBase64(error) => {
                push_str(&mut res, "invalid base64: ");
                proof {
                    reveal_strlit("invalid base64: ");
                }
                let detail = crate::crypto::decode_error_text(error);
                push_str(&mut res, detail.as_str());
                assert(res@.take(16) =~= "invalid base64: "@);
            },
        }
        res
    }
}

} // verus!
