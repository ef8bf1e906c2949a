//! Fresh identifiers and the current time: what the library has from `uuid` and `chrono`.
use vstd::prelude::*;

verus! {

/// A lowercase hexadecimal digit.
pub open spec fn is_lower_hex(c: char) -> bool {
    ('0' <= c && c <= '9') || ('a' <= c && c <= 'f')
}

/// Where the hyphenated text of a UUID has its hyphens.
pub open spec fn is_uuid_hyphen_index(i: int) -> bool {
    i == 8 || i == 13 || i == 18 || i == 23
}

/// The hyphenated text of a random (version 4) UUID: 36 characters, hyphens at 8, 13, 18
/// and 23, lowercase hex digits elsewhere, the version digit `4` at 14 and the variant
/// digit (one of `8`, `9`, `a`, `b`) at 19.
pub open spec fn is_uuid_text(s: Seq<char>) -> bool {
    &&& s.len() == 36
    &&& forall|i: int|
        0 <= i < 36 ==> if is_uuid_hyphen_index(i) {
            s[i] == '-'
        } else {
            is_lower_hex(#[trigger] s[i])
        }
    &&& s[14] == '4'
    &&& (s[19] == '8' || s[19] == '9' || s[19] == 'a' || s[19] == 'b')
}

/// The simple text of a random (version 4) UUID: 32 lowercase hex digits, the version
/// digit `4` at 12 and the variant digit (one of `8`, `9`, `a`, `b`) at 16.
pub open spec fn is_simple_uuid_text(s: Seq<char>) -> bool {
    &&& s.len() == 32
    &&& forall|i: int| 0 <= i < 32 ==> is_lower_hex(#[trigger] s[i])
    &&& s[12] == '4'
    &&& (s[16] == '8' || s[16] == '9' || s[16] == 'a' || s[16] == 'b')
}

/// `uuid::Uuid::new_v4().to_string()`: a random UUID in its hyphenated lowercase text.
/// Which UUID comes out is chance; only its form is stated.
#[verifier::external_body]
pub(crate) fn uuid_text() -> (r: String)
    ensures
        is_uuid_text(r@),
{
    uuid::Uuid::new_v4().to_string()
}

/// `uuid::Uuid::new_v4().simple().to_string()`: a random UUID as 32 lowercase hex digits.
/// Only its form is stated.
#[verifier::external_body]
pub(crate) fn uuid_simple_text() -> (r: String)
    ensures
        is_simple_uuid_text(r@),
{
    uuid::Uuid::new_v4().simple().to_string()
}

/// `chrono::Utc::now().timestamp()`: the clock's seconds since the Unix epoch. `Utc::now`
/// panics on a clock set before the epoch, so a value that comes back is not negative;
/// nothing else is stated.
#[verifier::external_body]
pub(crate) fn unix_seconds() -> (r: i64)
    ensures
        r >= 0,
{
    chrono::Utc::now().timestamp()
}

/// `chrono::Utc::now().timestamp_millis()`: the clock's milliseconds since the Unix epoch,
/// not negative for the same reason; nothing else is stated.
#[verifier::external_body]
pub(crate) fn unix_millis() -> (r: i64)
    ensures
        r >= 0,
{
    chrono::Utc::now().timestamp_millis()
}

/// A character of RFC 3339 date-time text: a digit, `-`, `:`, `T`, `.` or `+`.
pub open spec fn is_rfc3339_char(c: char) -> bool {
    ('0' <= c && c <= '9') || c == '-' || c == ':' || c == 'T' || c == '.' || c == '+'
}

/// RFC 3339 text of a UTC time as chrono writes it: date, `T`, time with optional
/// fraction, and the offset `+00:00`; at least 25 characters of that alphabet.
pub open spec fn is_rfc3339_utc_text(s: Seq<char>) -> bool {
    &&& s.len() >= 25
    &&& s.subrange(s.len() - 6, s.len() as int) == "+00:00"@
    &&& forall|i: int| 0 <= i < s.len() ==> is_rfc3339_char(#[trigger] s[i])
}

/// `chrono::Utc::now().to_rfc3339()`: the clock's time as RFC 3339 text with the offset
/// `+00:00` (`SecondsFormat::AutoSi`, no `Z`). What time it is is not stated.
#[verifier::external_body]
pub(crate) fn now_rfc3339() -> (r: String)
    ensures
        is_rfc3339_utc_text(r@),
{
    chrono::Utc::now().to_rfc3339()
}

} // verus!
