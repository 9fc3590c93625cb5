//! Hashing, Base64 and Ed25519, each a call into its crate behind a trusted
//! item, with the byte shuffling around the calls verified.

use vstd::prelude::*;
use base64::{engine::general_purpose::STANDARD, Engine as _};
use ed25519_dalek::{Signer, Verifier};
use sha2::{Digest, Sha256};

verus! {

/// SHA-256 digest of a byte string.
pub uninterp spec fn sha256(data: Seq<u8>) -> Seq<u8>;

/// The character of a six-bit value in the standard Base64 alphabet.
pub open spec fn base64_char(n: int) -> char {
    if n < 26 {
        (65 + n) as char
    } else if n < 52 {
        (97 + n - 26) as char
    } else if n < 62 {
        (48 + n - 52) as char
    } else if n == 62 {
        '+'
    } else {
        '/'
    }
}

/// Standard Base64 text with padding (RFC 4648): every group of three bytes
/// gives four characters, high bits first; a last group of one or two bytes
/// gives two or three characters and is padded with `=` to four.
pub open spec fn base64_text(data: Seq<u8>) -> Seq<char>
    decreases data.len(),
{
    if data.len() == 0 {
        Seq::empty()
    } else {
        let b0 = data[0] as int;
        let b1 = if data.len() > 1 { data[1] as int } else { 0 };
        let b2 = if data.len() > 2 { data[2] as int } else { 0 };
        let c0 = base64_char(b0 / 4);
        let c1 = base64_char((b0 % 4) * 16 + b1 / 16);
        let c2 = if data.len() > 1 { base64_char((b1 % 16) * 4 + b2 / 64) } else { '=' };
        let c3 = if data.len() > 2 { base64_char(b2 % 64) } else { '=' };
        seq![c0, c1, c2, c3] + if data.len() > 3 {
            base64_text(data.skip(3))
        } else {
            Seq::empty()
        }
    }
}


/// Whether 32 bytes are the compressed form of a point on the Ed25519
/// curve, so that `VerifyingKey::from_bytes` accepts them.
pub uninterp spec fn ed25519_point(public_key: Seq<u8>) -> bool;

/// The Ed25519 public key that belongs to a 32-byte secret key.
pub uninterp spec fn ed25519_public(secret: Seq<u8>) -> Seq<u8>;

/// The 64-byte Ed25519 signature of a message under a secret key.
pub uninterp spec fn ed25519_sign(secret: Seq<u8>, message: Seq<u8>) -> Seq<u8>;

/// Whether `Verifier::verify` of `ed25519_dalek` accepts a signature on a
/// message under a public key.
pub uninterp spec fn ed25519_accepts(public_key: Seq<u8>, message: Seq<u8>, signature: Seq<u8>) -> bool;

#[verifier::external_type_specification]
#[verifier::external_body]
pub struct ExDecodeError(base64::DecodeError);

#[verifier::external_type_specification]
#[verifier::external_body]
pub struct ExSigningKey(ed25519_dalek::SigningKey);

#[verifier::external_type_specification]
#[verifier::external_body]
pub struct ExVerifyingKey(ed25519_dalek::VerifyingKey);

#[verifier::external_type_specification]
#[verifier::external_body]
pub struct ExSignature(ed25519_dalek::Signature);

/// `Sha256::digest` of `sha2`: the result is named `sha256` of the input and
/// is 32 bytes long, the output size of SHA-256.
#[verifier::external_body]
pub(crate) fn sha256_digest(data: &[u8]) -> (res: Vec<u8>)
    ensures
        res@ == sha256(data@),
        res@.len() == 32,
{
    Sha256::digest(data).to_vec()
}

/// A character of the standard Base64 alphabet, or the padding `=`.
pub open spec fn is_base64_char(c: char) -> bool {
    ('A' <= c && c <= 'Z') || ('a' <= c && c <= 'z') || ('0' <= c && c <= '9') || c == '+' || c
        == '/' || c == '='
}

/// The bytes that standard Base64 decoding gives for a text, or nothing.
/// Decoding requires canonical padding and no trailing bits, so a text
/// decodes exactly when it is the `base64_text` of some bytes, and then to
/// those bytes (`lemma_base64_text_injective`: there is only one).
pub open spec fn base64_bytes(text: Seq<char>) -> Option<Seq<u8>> {
    if exists|d: Seq<u8>| #[trigger] base64_text(d) == text {
        Some(choose|d: Seq<u8>| #[trigger] base64_text(d) == text)
    } else {
        None
    }
}

proof fn lemma_base64_char(n: int, m: int)
    requires
        0 <= n < 64,
        0 <= m < 64,
    ensures
        base64_char(n) != '=',
        base64_char(n) == base64_char(m) ==> n == m,
{
    assert(n < 26 ==> base64_char(n) as int == 65 + n);
    assert(26 <= n < 52 ==> base64_char(n) as int == 71 + n);
    assert(52 <= n < 62 ==> base64_char(n) as int == n - 4);
    assert(m < 26 ==> base64_char(m) as int == 65 + m);
    assert(26 <= m < 52 ==> base64_char(m) as int == 71 + m);
    assert(52 <= m < 62 ==> base64_char(m) as int == m - 4);
}

/// Different bytes have different standard Base64 texts.
pub proof fn lemma_base64_text_injective(d1: Seq<u8>, d2: Seq<u8>)
    requires
        base64_text(d1) == base64_text(d2),
    ensures
        d1 == d2,
    decreases d1.len(),
{
    let t = base64_text(d1);
    if d1.len() == 0 || d2.len() == 0 {
        assert(t.len() == 0 ==> d1.len() == 0 && d2.len() == 0);
        assert(d1 =~= d2);
    } else {
        let a0 = d1[0] as int;
        let a1 = if d1.len() > 1 { d1[1] as int } else { 0 };
        let a2 = if d1.len() > 2 { d1[2] as int } else { 0 };
        let b0 = d2[0] as int;
        let b1 = if d2.len() > 1 { d2[1] as int } else { 0 };
        let b2 = if d2.len() > 2 { d2[2] as int } else { 0 };
        assert(t[0] == base64_char(a0 / 4) && t[0] == base64_char(b0 / 4));
        lemma_base64_char(a0 / 4, b0 / 4);
        let x1 = (a0 % 4) * 16 + a1 / 16;
        let y1 = (b0 % 4) * 16 + b1 / 16;
        assert(t[1] == base64_char(x1) && t[1] == base64_char(y1));
        lemma_base64_char(x1, y1);
        assert(a0 % 4 == b0 % 4 && a1 / 16 == b1 / 16);
        assert(a0 == b0);
        let x2 = (a1 % 16) * 4 + a2 / 64;
        let y2 = (b1 % 16) * 4 + b2 / 64;
        lemma_base64_char(x2, y2);
        lemma_base64_char(a2 % 64, b2 % 64);
        assert(t[2] == base64_text(d2)[2]);
        assert(t[3] == base64_text(d2)[3]);
        assert(d1.len() > 1 <==> d2.len() > 1);
        if d1.len() > 1 {
            assert(t[2] == base64_char(x2));
            assert(base64_text(d2)[2] == base64_char(y2));
            assert(x2 == y2);
            assert(0 <= a2 / 64 < 4 && 0 <= b2 / 64 < 4);
            assert(a1 % 16 == b1 % 16 && a2 / 64 == b2 / 64);
            assert(a1 == b1);
            assert(d1.len() > 2 <==> d2.len() > 2);
            if d1.len() > 2 {
                assert(t[3] == base64_char(a2 % 64));
                assert(base64_text(d2)[3] == base64_char(b2 % 64));
                assert(a2 % 64 == b2 % 64);
                assert(a2 == b2);
            }
        }
        lemma_base64_shape(d1);
        lemma_base64_shape(d2);
        assert(d1.len() > 3 <==> t.len() > 4);
        assert(d2.len() > 3 <==> t.len() > 4);
        if d1.len() > 3 {
            let r1 = base64_text(d1.skip(3));
            let r2 = base64_text(d2.skip(3));
            assert(r1 =~= t.skip(4));
            assert(r2 =~= base64_text(d2).skip(4));
            lemma_base64_text_injective(d1.skip(3), d2.skip(3));
            assert forall|i: int| 0 <= i < d1.len() implies d1[i] == d2[i] by {
                if i >= 3 {
                    assert(d1[i] == d1.skip(3)[i - 3]);
                    assert(d2[i] == d2.skip(3)[i - 3]);
                }
            }
        }
        assert(d1 =~= d2);
    }
}

/// `STANDARD.encode` of `base64`: the result is the padded standard Base64
/// text `base64_text` of the input.
#[verifier::external_body]
fn encode_standard(data: &[u8]) -> (res: String)
    ensures
        res@ == base64_text(data@),
{
    STANDARD.encode(data)
}

proof fn lemma_base64_shape(data: Seq<u8>)
    ensures
        base64_text(data).len() == 4 * ((data.len() + 2) / 3),
        forall|i: int| 0 <= i < base64_text(data).len() ==> is_base64_char(#[trigger] base64_text(data)[i]),
    decreases data.len(),
{
    if data.len() > 0 {
        let b0 = data[0] as int;
        let b1 = if data.len() > 1 { data[1] as int } else { 0 };
        let b2 = if data.len() > 2 { data[2] as int } else { 0 };
        assert(0 <= b0 / 4 < 64);
        assert(0 <= (b0 % 4) * 16 + b1 / 16 < 64);
        assert(0 <= (b1 % 16) * 4 + b2 / 64 < 64);
        assert(0 <= b2 % 64 < 64);
        assert forall|n: int| 0 <= n < 64 implies is_base64_char(#[trigger] base64_char(n)) by {
            if n < 26 {
                assert(base64_char(n) as int == 65 + n);
            } else if n < 52 {
                assert(base64_char(n) as int == 97 + n - 26);
            } else if n < 62 {
                assert(base64_char(n) as int == 48 + n - 52);
            }
        }
        let t = base64_text(data);
        if data.len() > 3 {
            lemma_base64_shape(data.skip(3));
            let rest = base64_text(data.skip(3));
            assert forall|i: int| 0 <= i < t.len() implies is_base64_char(#[trigger] t[i]) by {
                if i >= 4 {
                    assert(t[i] == rest[i - 4]);
                }
            }
        }
    }
}

/// Standard Base64 text of bytes: four alphabet characters for every
/// started group of three bytes; standard decoding gives the bytes back.
pub(crate) fn base64_encode(data: &[u8]) -> (res: String)
    ensures
        res@ == base64_text(data@),
        base64_bytes(res@) == Some(data@),
        res@.len() == 4 * ((data@.len() + 2) / 3),
        forall|i: int| 0 <= i < res@.len() ==> is_base64_char(#[trigger] res@[i]),
{
    proof {
        lemma_base64_shape(data@);
        assert(base64_text(data@) == base64_text(data@));
        let d = choose|d: Seq<u8>| #[trigger] base64_text(d) == base64_text(data@);
        lemma_base64_text_injective(d, data@);
    }
    encode_standard(data)
}

/// `STANDARD.decode` of `base64`: with canonical padding required and no
/// trailing bits allowed, it succeeds exactly when `base64_bytes` of the text
/// is something, and then gives those bytes. Which error comes back on
/// failure is not stated.
#[verifier::external_body]
pub(crate) fn base64_decode(text: &str) -> (res: Result<Vec<u8>, base64::DecodeError>)
    ensures
        res is Ok <==> base64_bytes(text@) is Some,
        res matches Ok(b) ==> base64_bytes(text@) == Some(b@),
{
    STANDARD.decode(text)
}

/// The `Display` text of a Base64 decoding error; what it says is not
/// stated.
#[verifier::external_body]
pub(crate) fn decode_error_text(error: &base64::DecodeError) -> String {
    error.to_string()
}

/// An Ed25519 signing key together with the 32 secret bytes it was made from.
pub(crate) struct Ed25519SigningKey {
    secret: [u8; 32],
    key: ed25519_dalek::SigningKey,
}

impl Ed25519SigningKey {
    /// The secret bytes of the key.
    pub closed spec fn secret(&self) -> Seq<u8> {
        self.secret@
    }

    /// The secret bytes of the key.
    pub fn to_bytes(&self) -> (res: [u8; 32])
        ensures
            res@ == self.secret(),
    {
        self.secret
    }
}

/// An Ed25519 public key that decompressed to a curve point, together with
/// its 32 bytes.
pub(crate) struct Ed25519VerifyingKey {
    bytes: [u8; 32],
    key: ed25519_dalek::VerifyingKey,
}

impl Ed25519VerifyingKey {
    /// The compressed bytes of the key.
    pub closed spec fn bytes(&self) -> Seq<u8> {
        self.bytes@
    }
}

/// An Ed25519 signature together with its 64 bytes.
pub(crate) struct Ed25519Signature {
    bytes: [u8; 64],
    signature: ed25519_dalek::Signature,
}

impl Ed25519Signature {
    /// The bytes of the signature.
    pub closed spec fn bytes(&self) -> Seq<u8> {
        self.bytes@
    }
}

/// `SigningKey::generate` of `ed25519_dalek` with the operating system's
/// random source; which key comes back is chance and is not stated.
#[verifier::external_body]
pub(crate) fn generate_signing_key() -> (res: Ed25519SigningKey) {
    let key = ed25519_dalek::SigningKey::generate(&mut rand_core::OsRng);
    Ed25519SigningKey { secret: key.to_bytes(), key }
}

/// `SigningKey::from_bytes` of `ed25519_dalek`: the key keeps the secret
/// bytes it was given.
#[verifier::external_body]
pub(crate) fn signing_key_from_bytes(secret: &[u8; 32]) -> (res: Ed25519SigningKey)
    ensures
        res.secret() == secret@,
{
    Ed25519SigningKey { secret: *secret, key: ed25519_dalek::SigningKey::from_bytes(secret) }
}

/// `SigningKey::verifying_key` of `ed25519_dalek`, as bytes: the result is
/// named `ed25519_public` of the secret, and being a point on the curve it
/// decompresses again.
#[verifier::external_body]
pub(crate) fn verifying_key_bytes(key: &Ed25519SigningKey) -> (res: [u8; 32])
    ensures
        res@ == ed25519_public(key.secret()),
        ed25519_point(res@),
{
    key.key.verifying_key().to_bytes()
}

/// `Signer::sign` of `ed25519_dalek`, as bytes: the result is named
/// `ed25519_sign` of the secret and the message, and the public key of the
/// same secret accepts it.
#[verifier::external_body]
pub(crate) fn sign_message(key: &Ed25519SigningKey, message: &[u8]) -> (res: [u8; 64])
    ensures
        res@ == ed25519_sign(key.secret(), message@),
        ed25519_accepts(ed25519_public(key.secret()), message@, res@),
{
    key.key.sign(message).to_bytes()
}

/// `VerifyingKey::from_bytes` of `ed25519_dalek`: succeeds exactly when the
/// bytes are a curve point, and the key keeps those bytes.
#[verifier::external_body]
pub(crate) fn verifying_key_from_bytes(bytes: &[u8; 32]) -> (res: Option<Ed25519VerifyingKey>)
    ensures
        res is Some <==> ed25519_point(bytes@),
        res matches Some(k) ==> k.bytes() == bytes@,
{
    match ed25519_dalek::VerifyingKey::from_bytes(bytes) {
        Ok(key) => Some(Ed25519VerifyingKey { bytes: *bytes, key }),
        Err(_) => None,
    }
}

/// `Signature::from_slice` of `ed25519`: succeeds exactly on 64 bytes, and
/// the signature keeps them.
#[verifier::external_body]
pub(crate) fn signature_from_slice(bytes: &[u8]) -> (res: Option<Ed25519Signature>)
    ensures
        res is Some <==> bytes@.len() == 64,
        res matches Some(s) ==> s.bytes() == bytes@,
{
    match ed25519_dalek::Signature::from_slice(bytes) {
        Ok(signature) => Some(Ed25519Signature { bytes: signature.to_bytes(), signature }),
        Err(_) => None,
    }
}

/// `Verifier::verify` of `ed25519_dalek`: whether it accepts is named
/// `ed25519_accepts` of the key's bytes, the message and the signature's
/// bytes. The key and the signature are only ever built by the two functions
/// above, so their bytes are those they were made from.
#[verifier::external_body]
pub(crate) fn verify_signature(key: &Ed25519VerifyingKey, message: &[u8], signature: &Ed25519Signature) -> (res: bool)
    ensures
        res == ed25519_accepts(key.bytes(), message@, signature.bytes()),
{
    key.key.verify(message, &signature.signature).is_ok()
}

/// The 32 bytes of a vector that has exactly 32.
pub(crate) fn array32(v: &Vec<u8>) -> (res: [u8; 32])
    requires
        v@.len() == 32,
    ensures
        res@ == v@,
{
    let mut res = [0u8; 32];
    let mut i: usize = 0;
    while i < 32
        invariant
            v@.len() == 32,
            i <= 32,
            forall|j: int| 0 <= j < i ==> res@[j] == v@[j],
        decreases 32 - i,
    {
        res[i] = v[i];
        i = i + 1;
    }
    assert(res@ =~= v@);
    res
}

} // verus!
