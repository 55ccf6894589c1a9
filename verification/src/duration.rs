//! Subscription durations: the priced, duration-typed offerings a relayer
//! sells, and the single place where a duration is turned into its fixed
//! length in seconds and its price.

use vstd::prelude::*;

verus! {

/// Seconds in a week-long subscription term.
pub const WEEK_SECS: u64 = 604800;

/// Seconds in a month-long subscription term (a fixed 30-day
/// approximation, not calendar-aware).
pub const MONTH_SECS: u64 = 2592000;

/// Seconds in a year-long subscription term (a fixed 365-day
/// approximation, not calendar-aware).
pub const YEAR_SECS: u64 = 31536000;

/// A subscription term together with its price in the host's base unit.
/// `Unknown` is a sentinel for "no match found", never a billable term.
#[derive(Clone, Copy, PartialEq, Eq, Structural, Debug)]
pub enum SubscriptionDuration {
    Month(u128),
    Week(u128),
    Year(u128),
    Unknown,
}

/// A duration paired with its price, as offered by a relayer.
#[derive(Clone, Copy, Debug)]
pub struct SubscriptionPlanDuration {
    pub duration: SubscriptionDuration,
    pub price: u128,
}

/// The fixed length in seconds of a subscription term.
pub open spec fn spec_duration_secs(d: SubscriptionDuration) -> u64 {
    match d {
        SubscriptionDuration::Week(_) => WEEK_SECS,
        SubscriptionDuration::Month(_) => MONTH_SECS,
        SubscriptionDuration::Year(_) => YEAR_SECS,
        SubscriptionDuration::Unknown => 0,
    }
}

/// The price carried by a subscription term.
pub open spec fn spec_duration_price(d: SubscriptionDuration) -> u128 {
    match d {
        SubscriptionDuration::Week(p) => p,
        SubscriptionDuration::Month(p) => p,
        SubscriptionDuration::Year(p) => p,
        SubscriptionDuration::Unknown => 0,
    }
}

/// Computes the fixed length in seconds of a subscription term.
pub fn duration_secs(d: &SubscriptionDuration) -> (r: u64)
    ensures
        r == spec_duration_secs(*d),
{
    match d {
        SubscriptionDuration::Week(_) => WEEK_SECS,
        SubscriptionDuration::Month(_) => MONTH_SECS,
        SubscriptionDuration::Year(_) => YEAR_SECS,
        SubscriptionDuration::Unknown => 0,
    }
}

/// Extracts the price carried by a subscription term.
pub fn duration_price(d: &SubscriptionDuration) -> (r: u128)
    ensures
        r == spec_duration_price(*d),
{
    match d {
        SubscriptionDuration::Week(p) => *p,
        SubscriptionDuration::Month(p) => *p,
        SubscriptionDuration::Year(p) => *p,
        SubscriptionDuration::Unknown => 0,
    }
}

} // verus!
