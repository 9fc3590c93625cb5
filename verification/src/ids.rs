//! Identifiers and timestamps: random UUIDs, UUID parsing and the clock.
//! A UUID is held as its hyphenated lower-case text and a timestamp as the
//! RFC 3339 text that `chrono` writes for it.

use vstd::prelude::*;

verus! {

/// A lower-case hexadecimal digit.
pub open spec fn is_lower_hex(c: char) -> bool {
    ('0' <= c && c <= '9') || ('a' <= c && c <= 'f')
}

/// The hyphenated lower-case form of a UUID: 8-4-4-4-12 hex digits.
pub open spec fn is_uuid_text(s: Seq<char>) -> bool {
    &&& s.len() == 36
    &&& forall|i: int|
        0 <= i < 36 ==> if i == 8 || i == 13 || i == 18 || i == 23 {
            #[trigger] s[i] == '-'
        } else {
            is_lower_hex(s[i])
        }
}

/// The hyphenated lower-case form of the UUID that `Uuid::parse_str` reads
/// from a text, or nothing when it reads none.
pub uninterp spec fn uuid_canonical(text: Seq<char>) -> Option<Seq<char>>;

/// `Uuid::new_v4` of `uuid`, as its `Display` text: random, and in the
/// hyphenated lower-case form.
#[verifier::external_body]
pub(crate) fn new_uuid() -> (res: String)
    ensures
        is_uuid_text(res@),
{
    uuid::Uuid::new_v4().to_string()
}

/// `Uuid::parse_str` of `uuid`, as the `Display` text of what it reads: the
/// result is named `uuid_canonical` of the input and is in the hyphenated
/// lower-case form, which `parse_str` reads back unchanged.
#[verifier::external_body]
pub(crate) fn parse_uuid(text: &str) -> (res: Option<String>)
    ensures
        match res {
            Some(s) => uuid_canonical(text@) == Some(s@) && is_uuid_text(s@),
            None => uuid_canonical(text@) is None,
        },
        res is None ==> !is_uuid_text(text@),
        res matches Some(s) ==> (is_uuid_text(text@) ==> s@ == text@),
{
    match uuid::Uuid::parse_str(text) {
        Ok(u) => Some(u.to_string()),
        Err(_) => None,
    }
}

/// `Utc::now` of `chrono`, as the RFC 3339 text that its `serde`
/// serialization writes (`SecondsFormat::AutoSi`, `Z`); what time it is
/// is not stated.
#[verifier::external_body]
pub(crate) fn now_text() -> (res: String) {
    chrono::Utc::now().to_rfc3339_opts(chrono::SecondsFormat::AutoSi, true)
}

/// `Utc::now().timestamp_micros()` of `chrono`; what time it is is not
/// stated.
#[verifier::external_body]
pub(crate) fn now_micros() -> (res: i64) {
    chrono::Utc::now().timestamp_micros()
}

} // verus!
