//! Points in time: milliseconds since the beginning of 1970 in UTC.

use vstd::prelude::*;

verus! {

/// The first and the last millisecond that a calendar date can be given for:
/// January 1 of the year 262144 BCE and December 31 of the year 262142 CE.
pub const FIRST_MILLIS: i64 = -8334601228800000;

pub const LAST_MILLIS: i64 = 8210266876799999;

/// Whether a calendar date can be given for a millisecond.
pub open spec fn is_date(millis: i64) -> bool {
    FIRST_MILLIS <= millis <= LAST_MILLIS
}

/// `chrono::TimeZone::timestamp_millis_opt` of `chrono::Utc`: whether it gives a
/// single date, which it does for exactly the milliseconds of the dates that
/// chrono can hold.
#[verifier::external_body]
fn has_date(millis: i64) -> (r: bool)
    ensures
        r == is_date(millis),
{
    chrono::TimeZone::timestamp_millis_opt(&chrono::Utc, millis).single().is_some()
}

/// `chrono::Utc::now`, in milliseconds. What the clock says is left open, but for
/// its being a date that chrono can hold.
#[verifier::external_body]
fn clock_millis() -> (r: i64)
    ensures
        is_date(r),
{
    chrono::Utc::now().timestamp_millis()
}

/// Whether a calendar date can be given for a millisecond.
pub fn valid_millis(millis: i64) -> (r: bool)
    ensures
        r == is_date(millis),
{
    has_date(millis)
}

/// What the clock says: a millisecond with a calendar date.
pub fn current_millis() -> (r: i64)
    ensures
        is_date(r),
{
    clock_millis()
}

} // verus!
