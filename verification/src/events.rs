//! Notifications: the observable side effect of each successful state
//! transition. The core returns them as values; the host emits them,
//! exactly once per transition.

use vstd::prelude::*;
use crate::account::AccountId;

verus! {

/// A subscriber joined a relayer's plan.
#[derive(Clone, Copy, PartialEq, Eq, Debug)]
pub struct Subscribed {
    pub subscriber: AccountId,
    pub relayer: AccountId,
    pub amount: u128,
}

/// Collateral was added to a relayer's stake.
#[derive(Clone, Copy, PartialEq, Eq, Debug)]
pub struct Staked {
    pub staker: AccountId,
    pub relayer_id: AccountId,
    pub amount: u128,
}

/// A misconduct report was filed against a relayer.
#[derive(Debug)]
pub struct ReportEvent {
    pub relayer: AccountId,
    pub receipt: Vec<u8>,
    pub report_id: u64,
}

/// A report was adjudicated by the designated challenger.
#[derive(Clone, Copy, PartialEq, Eq, Debug)]
pub struct Challenged {
    pub reporter: AccountId,
    pub report_id: u64,
}

/// A penalty was drawn from a relayer's stake.
#[derive(Clone, Copy, PartialEq, Eq, Debug)]
pub struct PenaltyApplied {
    pub relayer_id: AccountId,
    pub amount: u128,
}

/// A subscription passed its expiry date.
#[derive(Clone, Copy, PartialEq, Eq, Debug)]
pub struct SubscriptionExpired {
    pub subscriber: AccountId,
    pub expiry_date: u64,
}

/// A subscribe call named a plan that does not exist.
#[derive(Clone, Copy, PartialEq, Eq, Debug)]
pub struct SubscriptionPlanNotFound {
    pub not_found_id: AccountId,
    pub relayer_id: AccountId,
    pub subscriber: AccountId,
}

/// A subscription's start date was fixed.
#[derive(Clone, Copy, PartialEq, Eq, Debug)]
pub struct StartDateTimeSet {
    pub start_date: u64,
}

/// A subscription's expiry date was fixed.
#[derive(Clone, Copy, PartialEq, Eq, Debug)]
pub struct ExpiryDateTimeSet {
    pub expiry_date: u64,
}

} // verus!
