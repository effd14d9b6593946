//! Time stamps of project refreshes (RFC 3339, through `chrono`).
use vstd::prelude::*;

verus! {

/// `chrono::DateTime::parse_from_rfc3339` accepts `s`.
pub uninterp spec fn rfc3339_valid(s: Seq<char>) -> bool;

/// Parses `stamp` with `chrono::DateTime::parse_from_rfc3339` and, when that
/// succeeds, gives the whole hours from it to now
/// (`Utc::now().signed_duration_since(..).num_hours()`). The number depends on
/// the clock, so nothing is claimed of it; `None` exactly when the stamp does
/// not parse.
#[verifier::external_body]
pub(crate) fn hours_since_rfc3339(stamp: &str) -> (r: Option<i64>)
    ensures
        r is Some <==> rfc3339_valid(stamp@),
{
    match chrono::DateTime::parse_from_rfc3339(stamp) {
        Ok(dt) => Some(chrono::Utc::now().signed_duration_since(dt.with_timezone(&chrono::Utc)).num_hours()),
        Err(_) => None,
    }
}

/// The current time as an RFC 3339 string (`Utc::now().to_rfc3339()`); it
/// depends on the clock, so nothing is claimed of it.
#[verifier::external_body]
pub(crate) fn now_rfc3339() -> (r: String) {
    chrono::Utc::now().to_rfc3339()
}

/// Whether a refresh is due: never refreshed, an unreadable time stamp, or
/// one at least 24 hours old.
pub open spec fn refresh_due(last_refresh: Option<Seq<char>>, hours_since: Option<i64>) -> bool {
    match last_refresh {
        None => true,
        Some(_) => match hours_since {
            None => true,
            Some(h) => h >= 24,
        },
    }
}

/// Whether a refresh is due, given the last refresh and the whole hours
/// since it (None when the stamp is unreadable).
pub fn is_refresh_due(last_refresh: &Option<String>, hours_since: Option<i64>) -> (r: bool)
    ensures
        r == refresh_due(crate::model::opt_view(*last_refresh), hours_since),
{
    match last_refresh {
        None => true,
        Some(_) => match hours_since {
            None => true,
            Some(h) => h >= 24,
        },
    }
}

} // verus!
