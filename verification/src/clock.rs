//! The current time, through `chrono`.

use vstd::prelude::*;

verus! {

/// `chrono::Utc::now().to_rfc3339()`: the current time as RFC 3339 text.
/// The value depends on the clock, so nothing is stated about it.
#[verifier::external_body]
pub(crate) fn now_rfc3339() -> String {
    chrono::Utc::now().to_rfc3339()
}


/// The whole days from `since` to `now`, two RFC 3339 texts, as
/// `chrono::DateTime::parse_from_rfc3339`, `signed_duration_since` and
/// `TimeDelta::num_days` (rounding toward zero) count them; nothing when a
/// text does not parse.
pub uninterp spec fn rfc3339_elapsed_days(now: Seq<char>, since: Seq<char>) -> Option<int>;

/// Parses both texts with `chrono::DateTime::parse_from_rfc3339` and counts
/// the whole days of the signed duration between them; `None` when a text
/// does not parse.
#[verifier::external_body]
pub(crate) fn elapsed_days(now: &str, since: &str) -> (r: Option<i64>)
    ensures
        match r {
            Some(d) => rfc3339_elapsed_days(now@, since@) == Some(d as int),
            None => rfc3339_elapsed_days(now@, since@) is None,
        },
{
    match (chrono::DateTime::parse_from_rfc3339(now), chrono::DateTime::parse_from_rfc3339(since)) {
        (Ok(now), Ok(since)) => Some(now.signed_duration_since(since).num_days()),
        _ => None,
    }
}

/// Whether more than `seconds` seconds lie between `since` and `now`, two
/// RFC 3339 texts, as `chrono::DateTime::parse_from_rfc3339`,
/// `signed_duration_since` and a comparison with `Duration::seconds` decide
/// it; nothing when a text does not parse.
pub uninterp spec fn rfc3339_elapsed_exceeds_seconds(now: Seq<char>, since: Seq<char>, seconds: i64) -> Option<bool>;

/// Parses both texts with `chrono::DateTime::parse_from_rfc3339` and
/// compares the signed duration between them with
/// `Duration::seconds(seconds)`; `None` when a text does not parse.
/// `Duration::seconds` panics past about 9.2e15 seconds, so `seconds` is
/// bounded.
#[verifier::external_body]
pub(crate) fn elapsed_exceeds_seconds(now: &str, since: &str, seconds: i64) -> (r: Option<bool>)
    requires
        -1_000_000_000_000 <= seconds <= 1_000_000_000_000,
    ensures
        match r {
            Some(b) => rfc3339_elapsed_exceeds_seconds(now@, since@, seconds) == Some(b),
            None => rfc3339_elapsed_exceeds_seconds(now@, since@, seconds) is None,
        },
{
    match (chrono::DateTime::parse_from_rfc3339(now), chrono::DateTime::parse_from_rfc3339(since)) {
        (Ok(now), Ok(since)) => Some(now.signed_duration_since(since) > chrono::Duration::seconds(seconds)),
        _ => None,
    }
}

} // verus!
