//! Expiry of API keys. A key carries its expiry as an RFC 3339 text; a key
//! whose expiry does not parse does not expire.

use vstd::prelude::*;

verus! {

/// The instant that `chrono::DateTime::parse_from_rfc3339` finds in a text,
/// as whole seconds since the epoch and the nanoseconds within the second;
/// nothing where the text does not parse.
pub uninterp spec fn rfc3339_instant(text: Seq<char>) -> Option<(i64, u32)>;

/// Parses an RFC 3339 date and time with
/// `chrono::DateTime::parse_from_rfc3339` and reads the result with
/// `timestamp` and `timestamp_subsec_nanos`. The contract only names the
/// result; two instants compare as their pairs of seconds and nanoseconds
/// do.
#[verifier::external_body]
fn parse_rfc3339(text: &str) -> (instant: Option<(i64, u32)>)
    ensures
        instant == rfc3339_instant(text@),
{
    match chrono::DateTime::parse_from_rfc3339(text) {
        Ok(moment) => Some((moment.timestamp(), moment.timestamp_subsec_nanos())),
        Err(_) => None,
    }
}

/// Whether an expiry, if there is one, lies strictly before the instant
/// given by `now_seconds` and `now_nanos`.
pub open spec fn expiry_passed(expiry: Option<(i64, u32)>, now_seconds: i64, now_nanos: u32) -> bool {
    match expiry {
        Some((seconds, nanos)) => seconds < now_seconds || (seconds == now_seconds && nanos
            < now_nanos),
        None => false,
    }
}

/// Decides whether a parsed expiry has passed.
pub fn has_passed(expiry: Option<(i64, u32)>, now_seconds: i64, now_nanos: u32) -> (passed: bool)
    ensures
        passed == expiry_passed(expiry, now_seconds, now_nanos),
{
    match expiry {
        Some((seconds, nanos)) => seconds < now_seconds || (seconds == now_seconds && nanos
            < now_nanos),
        None => false,
    }
}

/// Decides whether a key with the given expiry text has expired at the
/// given instant. A key without expiry, or with an expiry that is not an
/// RFC 3339 date and time, has not.
pub fn api_key_expired(expires_at: Option<&str>, now_seconds: i64, now_nanos: u32) -> (expired:
    bool)
    ensures
        expired == match expires_at {
            Some(text) => expiry_passed(rfc3339_instant(text@), now_seconds, now_nanos),
            None => false,
        },
{
    match expires_at {
        Some(text) => has_passed(parse_rfc3339(text), now_seconds, now_nanos),
        None => false,
    }
}

} // verus!
