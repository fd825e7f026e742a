//! Rendering an instant for people, through chrono.
use vstd::prelude::*;
use crate::issue::{Timestamp, opt_text};

verus! {

/// What chrono renders, with the pattern `%Y-%m-%d %H:%M UTC`, for the UTC
/// instant `secs` seconds and `nanos` nanoseconds after the Unix epoch; `None`
/// when chrono has no such instant.
pub uninterp spec fn utc_minute_text(secs: i64, nanos: u32) -> Option<Seq<char>>;

/// Calls chrono's `DateTime::<Utc>::from_timestamp(secs, nanos)` and, when it
/// yields an instant, `format("%Y-%m-%d %H:%M UTC")` on it. Trusted: the
/// result is named `utc_minute_text`; the calendar arithmetic is left unsaid.
#[verifier::external_body]
pub(crate) fn format_utc_minute(at: Timestamp) -> (r: Option<String>)
    ensures
        opt_text(r) == utc_minute_text(at.secs, at.nanos),
{
    match chrono::DateTime::from_timestamp(at.secs, at.nanos) {
        Some(d) => Some(d.format("%Y-%m-%d %H:%M UTC").to_string()),
        None => None,
    }
}

} // verus!
