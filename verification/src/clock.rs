//! Trusted access to calendar time, through chrono.

use vstd::prelude::*;

verus! {

/// The UTC seconds denoted by an RFC 3339 / ISO-8601 instant, or `None` when
/// the text is not such an instant. Named but not written out: what chrono's
/// parser accepts takes pages to state, and it is a pure function of the text.
pub uninterp spec fn utc_secs_of(s: Seq<char>) -> Option<int>;

/// Relies on chrono's DateTime::parse_from_rfc3339 and DateTime::timestamp:
/// both depend on the text alone, so the result is exactly [`utc_secs_of`] of
/// it.
#[verifier::external_body]
pub fn parse_utc_instant(s: &str) -> (r: Option<i64>)
    ensures
        match r {
            Some(t) => utc_secs_of(s@) == Some(t as int),
            None => utc_secs_of(s@) is None,
        },
{
    chrono::DateTime::parse_from_rfc3339(s).ok().map(|d| d.timestamp())
}

/// Relies on std::time::SystemTime for the current instant, as UTC seconds;
/// a clock reading before the epoch becomes a negative count, so no reading
/// panics. Nothing is assumed of the value: it changes from run to run.
#[verifier::external_body]
pub fn now_timestamp() -> (r: i64) {
    match std::time::SystemTime::now().duration_since(std::time::UNIX_EPOCH) {
        Ok(since) => since.as_secs() as i64,
        Err(e) => -(e.duration().as_secs() as i64),
    }
}

} // verus!
