//! The shared, versioned contract state and its mathematical model.
//!
//! Every operation is one atomic transaction against this state: it takes
//! the caller and the current time from the host as plain values, either
//! fails with a typed error and leaves the state unchanged, or commits and
//! returns the notifications the host must emit.

use vstd::prelude::*;
use crate::account::AccountId;
use crate::duration::{spec_duration_price, spec_duration_secs, SubscriptionDuration};
use crate::errors::Error;
use crate::plans::{PlanView, SubscriptionPlan};
use crate::reports::{Report, ReportView};
use crate::stakes::{stake_index, stake_of, StakeEntry};
use crate::subscriptions::Subscription;

verus! {

/// The contract state: the plan catalog, the subscription ledger, the
/// report registry, the stake ledger, and the designated roles.
#[derive(Debug)]
pub struct NostrContract {
    pub owner: AccountId,
    pub subscription_plans: Vec<SubscriptionPlan>,
    pub subscriptions: Vec<Subscription>,
    pub reports: Vec<Report>,
    pub next_report_id: u64,
    pub challenger: Option<AccountId>,
    pub nostr_public_keys: Vec<(AccountId, Vec<u8>)>,
    pub next_plan_id: u64,
    pub stakes: Vec<StakeEntry>,
}

/// The mathematical model of the contract state.
pub ghost struct StateView {
    pub owner: AccountId,
    pub plans: Seq<PlanView>,
    pub subscriptions: Seq<Subscription>,
    pub reports: Seq<ReportView>,
    pub next_report_id: u64,
    pub challenger: Option<AccountId>,
    pub nostr_public_keys: Seq<(AccountId, Seq<u8>)>,
    pub next_plan_id: u64,
    pub stakes: Seq<StakeEntry>,
}

impl View for NostrContract {
    type V = StateView;

    open spec fn view(&self) -> StateView {
        StateView {
            owner: self.owner,
            plans: Seq::new(self.subscription_plans@.len(), |i: int| self.subscription_plans@[i]@),
            subscriptions: self.subscriptions@,
            reports: Seq::new(self.reports@.len(), |i: int| self.reports@[i]@),
            next_report_id: self.next_report_id,
            challenger: self.challenger,
            nostr_public_keys: crate::subscriptions::pubkeys_view(self.nostr_public_keys@),
            next_plan_id: self.next_plan_id,
            stakes: self.stakes@,
        }
    }
}

/// A well-formed subscription: billable term, and an expiry that is the
/// start plus exactly the term's fixed length.
pub open spec fn subscription_wf(s: Subscription) -> bool {
    &&& !(s.duration is Unknown)
    &&& s.expiry_date == s.start_date + spec_duration_secs(s.duration)
}

impl StateView {
    /// Well-formedness of the contract state. Constructors establish it
    /// and every operation preserves it:
    /// - plan ids are assigned consecutively starting at 1, so they are
    ///   unique and strictly increasing in creation order, and the next
    ///   counter is always one past the catalog;
    /// - no catalog entry carries the `Unknown` sentinel, and each entry's
    ///   price is the price carried by its term;
    /// - report ids are assigned consecutively starting at 1;
    /// - every subscription is well-formed;
    /// - the stake ledger holds at most one entry per relayer.
    pub open spec fn wf(self) -> bool {
        &&& self.next_plan_id == self.plans.len() + 1
        &&& forall|i: int| 0 <= i < self.plans.len() ==> (#[trigger] self.plans[i]).plan_id == i + 1
        &&& forall|i: int|
            0 <= i < self.plans.len() ==> !((#[trigger] self.plans[i]).duration is Unknown)
        &&& forall|i: int|
            0 <= i < self.plans.len() ==> (#[trigger] self.plans[i]).price == spec_duration_price(
                self.plans[i].duration,
            )
        &&& self.next_report_id == self.reports.len() + 1
        &&& forall|i: int|
            0 <= i < self.reports.len() ==> (#[trigger] self.reports[i]).report_id == i + 1
        &&& forall|i: int|
            0 <= i < self.subscriptions.len() ==> subscription_wf(#[trigger] self.subscriptions[i])
        &&& forall|i: int, j: int|
            0 <= i < j < self.stakes.len() ==> (#[trigger] self.stakes[i]).relayer_id != (
            #[trigger] self.stakes[j]).relayer_id
    }
}

impl NostrContract {
    /// Deploys a fresh contract: empty catalog and ledgers, counters at 1,
    /// no challenger designated, and the deploying caller as owner.
    pub fn new(caller: AccountId) -> (r: NostrContract)
        ensures
            r@ == (StateView {
                owner: caller,
                plans: Seq::<PlanView>::empty(),
                subscriptions: Seq::<Subscription>::empty(),
                reports: Seq::<ReportView>::empty(),
                next_report_id: 1u64,
                challenger: None::<AccountId>,
                nostr_public_keys: Seq::<(AccountId, Seq<u8>)>::empty(),
                next_plan_id: 1u64,
                stakes: Seq::<StakeEntry>::empty(),
            }),
            r@.wf(),
    {
        let r = NostrContract {
            owner: caller,
            subscription_plans: Vec::new(),
            subscriptions: Vec::new(),
            reports: Vec::new(),
            next_report_id: 1,
            challenger: None,
            nostr_public_keys: Vec::new(),
            next_plan_id: 1,
            stakes: Vec::new(),
        };
        proof {
            assert(r@.plans =~= Seq::<PlanView>::empty());
            assert(r@.reports =~= Seq::<ReportView>::empty());
            assert(r@.nostr_public_keys =~= Seq::<(AccountId, Seq<u8>)>::empty());
        }
        r
    }

    /// Designates the single active challenger account. This is the one
    /// mutation point for the role; only the owner may use it, and any
    /// other caller fails with `Unauthorized` and changes nothing.
    pub fn set_challenger(&mut self, caller: AccountId, new_challenger: AccountId) -> (r: Result<
        (),
        Error,
    >)
        ensures
            r == if caller == old(self)@.owner {
                Ok::<(), Error>(())
            } else {
                Err::<(), Error>(Error::Unauthorized)
            },
            final(self)@ == if caller == old(self)@.owner {
                (StateView { challenger: Some(new_challenger), ..old(self)@ })
            } else {
                old(self)@
            },
            old(self)@.wf() ==> final(self)@.wf(),
    {
        if crate::account::account_eq(&caller, &self.owner) {
            self.challenger = Some(new_challenger);
            Ok(())
        } else {
            Err(Error::Unauthorized)
        }
    }

    /// Reads the currently designated challenger, if one is set.
    pub fn get_challenger(&self) -> (r: Option<AccountId>)
        ensures
            r == self@.challenger,
    {
        self.challenger
    }

    /// Reads a relayer's accumulated collateral; a relayer never staked
    /// for holds zero.
    pub fn get_stake(&self, relayer_id: AccountId) -> (r: u128)
        ensures
            r == stake_of(self@.stakes, relayer_id),
    {
        let mut i: usize = 0;
        while i < self.stakes.len()
            invariant
                0 <= i <= self.stakes@.len(),
                forall|j: int|
                    0 <= j < i ==> (#[trigger] self.stakes@[j]).relayer_id != relayer_id,
            decreases self.stakes@.len() - i,
        {
            if crate::account::account_eq(&self.stakes[i].relayer_id, &relayer_id) {
                proof {
                    crate::stakes::lemma_stake_index_of(self.stakes@, relayer_id, i as int);
                }
                return self.stakes[i].amount;
            }
            i += 1;
        }
        proof {
            crate::stakes::lemma_stake_index_props(self.stakes@, relayer_id);
            assert(stake_index(self.stakes@, relayer_id) is None);
        }
        0
    }

    /// Reconstructs an account identifier from its wire bytes. A payload
    /// of the wrong width is a caller bypassing the wire-encoding
    /// boundary, a programming-contract violation, so the width is a
    /// precondition rather than a recoverable error.
    pub fn decode_account_id(&self, bytes: &[u8]) -> (r: AccountId)
        requires
            bytes@.len() == 32,
        ensures
            r@ == bytes@,
    {
        let mut array = [0u8; 32];
        let mut i: usize = 0;
        while i < 32
            invariant
                0 <= i <= 32,
                bytes@.len() == 32,
                array@.len() == 32,
                forall|j: int| 0 <= j < i ==> array@[j] == bytes@[j],
            decreases 32 - i,
        {
            array[i] = bytes[i];
            i += 1;
        }
        let r = AccountId { bytes: array };
        proof {
            assert(r@ =~= bytes@);
        }
        r
    }
}

} // verus!
