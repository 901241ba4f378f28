//! Instants are plain numbers of seconds since the Unix epoch. Calendar
//! arithmetic on them is left to `chrono`.

use vstd::prelude::*;

verus! {

/// The number of whole calendar years from the instant `since` to the instant
/// `now`, as `chrono::DateTime::<Utc>::years_since` counts them; `None` where
/// `since` is later than `now` or either instant lies outside the range of
/// dates that `chrono` represents.
pub uninterp spec fn whole_years_between(now: i64, since: i64) -> Option<u32>;

/// Calls `chrono::DateTime::<Utc>::years_since` on the two instants, each made
/// by `DateTime::from_timestamp`. Trusted: the result is the one function of
/// the two numbers that `whole_years_between` names.
#[verifier::external_body]
pub(crate) fn years_since(now: i64, since: i64) -> (years: Option<u32>)
    ensures
        years == whole_years_between(now, since),
{
    let later = chrono::DateTime::from_timestamp(now, 0)?;
    let earlier = chrono::DateTime::from_timestamp(since, 0)?;
    later.years_since(earlier)
}

/// Reads the wall clock through `chrono::Utc::now` and gives it in seconds
/// since the Unix epoch. Nothing is claimed of the value. `chrono` does not
/// return where the system's clock stands before the epoch.
#[verifier::external_body]
pub(crate) fn unix_now() -> (now: i64) {
    chrono::Utc::now().timestamp()
}

} // verus!
