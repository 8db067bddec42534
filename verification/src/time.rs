//! Points in time, held as whole seconds since the Unix epoch, and the two
//! facts about them that come from the calendar library: which second
//! counts are representable, and what time it is now.
use vstd::prelude::*;

verus! {

/// The earliest second count the calendar library represents: the start
/// of January 1 of the year -262143.
pub const MIN_TIMESTAMP: i64 = -8334601228800;

/// The latest second count the calendar library represents: the last
/// second of December 31 of the year 262142.
pub const MAX_TIMESTAMP: i64 = 8210266876799;

/// Whether `chrono::DateTime::<Utc>::from_timestamp(secs, 0)` accepts the
/// second count `secs`: whether that instant lies within the range of
/// dates the calendar library represents (years -262143 to 262142).
pub open spec fn utc_accepts_timestamp(secs: i64) -> bool {
    MIN_TIMESTAMP <= secs <= MAX_TIMESTAMP
}

/// `chrono::DateTime::from_timestamp(secs, 0)`, asked only whether it
/// accepts `secs`.
#[verifier::external_body]
pub(crate) fn timestamp_is_representable(secs: i64) -> (ok: bool)
    ensures
        ok == utc_accepts_timestamp(secs),
{
    chrono::DateTime::from_timestamp(secs, 0).is_some()
}

/// The instant `secs`, or the epoch when the calendar library cannot
/// represent it (its default date).
pub open spec fn spec_timestamp_or_epoch(secs: i64) -> i64 {
    if utc_accepts_timestamp(secs) {
        secs
    } else {
        0
    }
}

pub fn timestamp_or_epoch(secs: i64) -> (t: i64)
    ensures
        t == spec_timestamp_or_epoch(secs),
{
    if timestamp_is_representable(secs) {
        secs
    } else {
        0
    }
}

/// The instant `secs` when the calendar library can represent it.
pub fn timestamp(value: Option<i64>) -> (t: Option<i64>)
    ensures
        t == match value {
            Some(secs) => if utc_accepts_timestamp(secs) {
                Some(secs)
            } else {
                None
            },
            None => None,
        },
{
    match value {
        Some(secs) => if timestamp_is_representable(secs) {
            Some(secs)
        } else {
            None
        },
        None => None,
    }
}

/// The whole seconds elapsed from the instant `secs` to now, as
/// `chrono::Utc::now().signed_duration_since(then).num_seconds()` counts
/// them (truncated toward zero). It depends on the clock, so nothing is
/// promised of its value.
#[verifier::external_body]
pub(crate) fn seconds_since(secs: i64) -> (elapsed: i64)
    requires
        utc_accepts_timestamp(secs),
{
    let then = chrono::DateTime::from_timestamp(secs, 0).unwrap();
    chrono::Utc::now().signed_duration_since(then).num_seconds()
}

} // verus!
