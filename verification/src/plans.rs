//! The plan registry's catalog entries: priced, duration-typed offerings,
//! each owned by the relayer that created it.

use vstd::prelude::*;
use crate::account::AccountId;
use crate::duration::{duration_price, spec_duration_price, SubscriptionDuration};
use crate::errors::Error;
use crate::state::{NostrContract, StateView};

verus! {

/// A subscription plan in the registry's append-only catalog.
///
/// `plan_id` is unique and monotonically assigned starting at 1;
/// `subscribers` is mutated only by the subscription ledger on a
/// successful subscribe.
#[derive(Debug)]
pub struct SubscriptionPlan {
    pub relayer_id: AccountId,
    pub subscribers: Vec<AccountId>,
    pub plan_id: u64,
    pub price: u128,
    pub duration: SubscriptionDuration,
}

/// The mathematical model of a plan: its subscribers as a sequence.
pub ghost struct PlanView {
    pub relayer_id: AccountId,
    pub subscribers: Seq<AccountId>,
    pub plan_id: u64,
    pub price: u128,
    pub duration: SubscriptionDuration,
}

impl View for SubscriptionPlan {
    type V = PlanView;

    open spec fn view(&self) -> PlanView {
        PlanView {
            relayer_id: self.relayer_id,
            subscribers: self.subscribers@,
            plan_id: self.plan_id,
            price: self.price,
            duration: self.duration,
        }
    }
}

/// The public projection of a plan: who offers it and on what term.
#[derive(Clone, Copy, PartialEq, Eq, Debug)]
pub struct PlansInfo {
    pub relayer_id: AccountId,
    pub duration: SubscriptionDuration,
}

/// A relayer's offering grouped by term, as reported to callers.
#[derive(Clone, Copy, Debug)]
pub struct SubscriptionPlanInfo {
    pub relayer_id: AccountId,
    pub price: PriceInfo,
    pub plan_id: PlanId,
}

/// Prices of a relayer's offerings, one slot per term kind.
#[derive(Clone, Copy, Debug, Default)]
pub struct PriceInfo {
    pub price_per_month: Option<u128>,
    pub price_per_week: Option<u128>,
    pub price_per_year: Option<u128>,
}

/// Plan identifiers of a relayer's offerings, one slot per term kind.
#[derive(Clone, Copy, Debug, Default)]
pub struct PlanId {
    pub week_plan_id: Option<u64>,
    pub month_plan_id: Option<u64>,
    pub year_plan_id: Option<u64>,
}

/// Whether some plan in the catalog carries the given identifier.
pub open spec fn has_plan(plans: Seq<PlanView>, plan_id: u64) -> bool {
    exists|i: int| 0 <= i < plans.len() && (#[trigger] plans[i]).plan_id == plan_id
}

/// The first catalog entry offered by the given relayer, if any.
pub open spec fn find_plan_by_relayer(plans: Seq<PlanView>, relayer_id: AccountId) -> Option<
    PlanView,
>
    decreases plans.len(),
{
    if plans.len() == 0 {
        None
    } else if plans[0].relayer_id == relayer_id {
        Some(plans[0])
    } else {
        find_plan_by_relayer(plans.drop_first(), relayer_id)
    }
}

/// Under well-formedness, plan ids are exactly the positions shifted by
/// one, so a plan with a given id exists exactly when the id is between
/// one and the catalog length, and then sits at position `id - 1`.
pub proof fn lemma_has_plan_iff(plans: Seq<PlanView>, plan_id: u64)
    requires
        forall|i: int| 0 <= i < plans.len() ==> (#[trigger] plans[i]).plan_id == i + 1,
    ensures
        has_plan(plans, plan_id) <==> 1 <= plan_id <= plans.len(),
        has_plan(plans, plan_id) ==> plans[plan_id - 1].plan_id == plan_id,
{
    if 1 <= plan_id <= plans.len() {
        assert(plans[plan_id - 1].plan_id == plan_id);
    }
}

impl NostrContract {
    /// Creates a new subscription plan offered by the caller: allocates
    /// the next plan id and stores the plan with an empty subscriber set.
    /// Any price is legal (zero is a free tier), but the `Unknown`
    /// sentinel is not a billable term and is rejected with
    /// `InvalidInput`, leaving the state unchanged.
    pub fn create_subscription_plan(
        &mut self,
        caller: AccountId,
        duration: SubscriptionDuration,
    ) -> (r: Result<(u64, PlansInfo), Error>)
        requires
            old(self)@.wf(),
            old(self)@.next_plan_id < u64::MAX,
        ensures
            duration is Unknown ==> r == Err::<(u64, PlansInfo), Error>(Error::InvalidInput)
                && final(self)@ == old(self)@,
            !(duration is Unknown) ==> {
                &&& r == Ok::<(u64, PlansInfo), Error>(
                    (
                        old(self)@.next_plan_id,
                        PlansInfo { relayer_id: caller, duration },
                    ),
                )
                &&& final(self)@ == (StateView {
                    plans: old(self)@.plans.push(
                        PlanView {
                            relayer_id: caller,
                            subscribers: Seq::<AccountId>::empty(),
                            plan_id: old(self)@.next_plan_id,
                            price: spec_duration_price(duration),
                            duration,
                        },
                    ),
                    next_plan_id: (old(self)@.next_plan_id + 1) as u64,
                    ..old(self)@
                })
            },
            final(self)@.wf(),
    {
        if let SubscriptionDuration::Unknown = duration {
            return Err(Error::InvalidInput);
        }
        let plan_id = self.next_plan_id;
        self.next_plan_id = self.next_plan_id + 1;

        let price = duration_price(&duration);

        let plan = SubscriptionPlan {
            relayer_id: caller,
            subscribers: Vec::new(),
            price,
            duration,
            plan_id,
        };
        self.subscription_plans.push(plan);

        let plan_info = PlansInfo { relayer_id: caller, duration };
        proof {
            assert(self@.plans =~= old(self)@.plans.push(
                PlanView {
                    relayer_id: caller,
                    subscribers: Seq::<AccountId>::empty(),
                    plan_id: old(self)@.next_plan_id,
                    price: spec_duration_price(duration),
                    duration,
                },
            ));
            assert(self@.reports =~= old(self)@.reports);
            assert(self@.nostr_public_keys =~= old(self)@.nostr_public_keys);
        }
        Ok((plan_id, plan_info))
    }

    /// Read-only projection of the catalog, in creation order, so callers
    /// can paginate deterministically.
    pub fn get_subscription_plans(&self) -> (r: Vec<(u64, PlansInfo)>)
        ensures
            r@.len() == self@.plans.len(),
            forall|i: int|
                0 <= i < r@.len() ==> r@[i] == (
                    self@.plans[i].plan_id,
                    PlansInfo {
                        relayer_id: self@.plans[i].relayer_id,
                        duration: self@.plans[i].duration,
                    },
                ),
    {
        let mut r: Vec<(u64, PlansInfo)> = Vec::new();
        let mut i: usize = 0;
        while i < self.subscription_plans.len()
            invariant
                0 <= i <= self@.plans.len(),
                self@.plans.len() == self.subscription_plans@.len(),
                r@.len() == i,
                forall|j: int|
                    0 <= j < i ==> r@[j] == (
                        self@.plans[j].plan_id,
                        PlansInfo {
                            relayer_id: self@.plans[j].relayer_id,
                            duration: self@.plans[j].duration,
                        },
                    ),
            decreases self.subscription_plans@.len() - i,
        {
            let plan = &self.subscription_plans[i];
            r.push(
                (
                    plan.plan_id,
                    PlansInfo { relayer_id: plan.relayer_id, duration: plan.duration },
                ),
            );
            i += 1;
        }
        r
    }
}

/// A first-match search skips exactly the non-matching prefix: if nothing
/// before `i` matches, the search over the whole catalog is the search
/// over the tail that starts at `i`.
pub proof fn lemma_find_plan_by_relayer_skip(plans: Seq<PlanView>, relayer_id: AccountId, i: int)
    requires
        0 <= i <= plans.len(),
        forall|j: int| 0 <= j < i ==> (#[trigger] plans[j]).relayer_id != relayer_id,
    ensures
        find_plan_by_relayer(plans, relayer_id) == find_plan_by_relayer(
            plans.skip(i),
            relayer_id,
        ),
    decreases i,
{
    if i > 0 {
        lemma_find_plan_by_relayer_skip(plans.drop_first(), relayer_id, i - 1);
        assert(plans.skip(0) =~= plans);
        assert(plans.drop_first().skip(i - 1) =~= plans.skip(i));
        assert(find_plan_by_relayer(plans, relayer_id) == find_plan_by_relayer(
            plans.drop_first(),
            relayer_id,
        ));
    } else {
        assert(plans.skip(0) =~= plans);
    }
}

} // verus!
