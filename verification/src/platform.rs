//! What the server takes from the machine it runs on: the wall clock and fresh
//! identifiers.

use vstd::prelude::*;

verus! {

/// The latest second that the clock can show: the last one of the year 262142.
pub const LAST_SECOND: i64 = 8_210_266_876_799;

/// Calls `chrono::Utc::now` and `DateTime::timestamp`: the seconds since the
/// Unix epoch, which is not before it and not behind the last day that the
/// calendar counts. Which second it is depends on the machine's clock. A clock
/// set before the epoch panics inside `now`.
#[verifier::external_body]
pub(crate) fn utc_now() -> (r: i64)
    ensures
        0 <= r <= LAST_SECOND,
{
    chrono::Utc::now().timestamp()
}

/// A lower-case hexadecimal digit.
pub open spec fn hex_digit(c: char) -> bool {
    ('0' <= c && c <= '9') || ('a' <= c && c <= 'f')
}

/// The hyphenated form of a UUID.
pub open spec fn uuid_shaped(s: Seq<char>) -> bool {
    &&& s.len() == 36
    &&& forall|i: int|
        #![trigger s[i]]
        0 <= i < 36 ==> if i == 8 || i == 13 || i == 18 || i == 23 {
            s[i] == '-'
        } else {
            hex_digit(s[i])
        }
}

/// Calls `uuid::Uuid::new_v4` and writes the result with its `Display`: the
/// hyphenated lower-case form. Which UUID it is depends on chance.
#[verifier::external_body]
pub(crate) fn fresh_uuid() -> (r: String)
    ensures
        uuid_shaped(r@),
{
    uuid::Uuid::new_v4().to_string()
}

/// The form of an approval id.
pub open spec fn approval_shaped(s: Seq<char>) -> bool {
    exists|u: Seq<char>| uuid_shaped(u) && s == #[trigger] ("appr-"@ + u)
}

/// A fresh approval id.
pub fn fresh_approval_id() -> (r: String)
    ensures
        approval_shaped(r@),
{
    let uuid: String = fresh_uuid();
    let mut out: String = "appr-".to_owned();
    out.append(uuid.as_str());
    assert(out@ == "appr-"@ + uuid@);
    out
}

} // verus!
