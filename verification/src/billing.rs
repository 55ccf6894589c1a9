//! The billing engine: finds expired, not-yet-settled subscriptions,
//! computes the relayer's share of each, and marks a subscription settled
//! once the host confirms the payout, so nothing is ever paid twice.
//!
//! The host performs the actual transfers: `pay_relayer` returns one
//! settlement instruction per due subscription, each independent of the
//! others, so one failed transfer never blocks another relayer's payout.

use vstd::prelude::*;
use crate::account::{account_eq, AccountId};
use crate::duration::spec_duration_price;
use crate::errors::Error;
use crate::plans::PlanView;
use crate::state::{NostrContract, StateView};
use crate::subscriptions::Subscription;
use vstd::arithmetic::div_mod::{
    lemma_div_is_ordered, lemma_fundamental_div_mod, lemma_fundamental_div_mod_converse_div,
    lemma_mod_bound,
};

verus! {

/// The relayer's share of a subscription price, in percent; the rest is
/// retained by the protocol treasury.
pub const RELAYER_SHARE_PERCENT: u128 = 70;

/// The relayer's share of a price: seventy percent, truncating.
pub open spec fn spec_earnings(price: u128) -> u128 {
    ((price * RELAYER_SHARE_PERCENT) / 100) as u128
}

/// Computes the relayer's share of a price without overflowing, by
/// splitting the price at the percent base.
pub fn earnings(price: u128) -> (r: u128)
    ensures
        r == spec_earnings(price),
{
    let q = price / 100;
    let rem = price % 100;
    proof {
        let p = price as int;
        let qi = p / 100;
        let remi = p % 100;
        lemma_fundamental_div_mod(p, 100);
        lemma_mod_bound(p, 100);
        lemma_fundamental_div_mod(70 * remi, 100);
        lemma_mod_bound(70 * remi, 100);
        assert(p * 70 == 100 * (70 * qi + (70 * remi) / 100) + (70 * remi) % 100);
        lemma_fundamental_div_mod_converse_div(
            p * 70,
            100,
            70 * qi + (70 * remi) / 100,
            (70 * remi) % 100,
        );
        lemma_div_is_ordered(p, u128::MAX as int, 100);
        lemma_div_is_ordered(70 * remi, 6930, 100);
    }
    q * 70 + (rem * 70) / 100
}

/// One settlement instruction: pay the relayer its share for the expired
/// subscription at the given position, then confirm with `mark_settled`.
#[derive(Clone, Copy, PartialEq, Eq, Debug)]
pub struct Settlement {
    pub subscription_index: usize,
    pub relayer_id: AccountId,
    pub amount: u128,
}

/// The settlements owed at the given time: one per subscription that has
/// expired and has not been settled, in ledger order.
pub open spec fn due_settlements(subs: Seq<Subscription>, now: u64) -> Seq<Settlement>
    decreases subs.len(),
{
    if subs.len() == 0 {
        Seq::empty()
    } else {
        let prefix = due_settlements(subs.drop_last(), now);
        let s = subs.last();
        if s.expiry_date <= now && !s.settled {
            prefix.push(
                Settlement {
                    subscription_index: (subs.len() - 1) as usize,
                    relayer_id: s.relayer_id,
                    amount: spec_earnings(spec_duration_price(s.duration)),
                },
            )
        } else {
            prefix
        }
    }
}

/// What the due settlements hold: every instruction points at an expired,
/// unsettled subscription and pays its relayer exactly the share of its
/// term's price; and every expired, unsettled subscription is listed.
pub proof fn lemma_due_settlements_sound(subs: Seq<Subscription>, now: u64)
    requires
        subs.len() <= usize::MAX,
    ensures
        forall|k: int|
            0 <= k < due_settlements(subs, now).len() ==> {
                let st = #[trigger] due_settlements(subs, now)[k];
                &&& st.subscription_index < subs.len()
                &&& subs[st.subscription_index as int].expiry_date <= now
                &&& !subs[st.subscription_index as int].settled
                &&& st.relayer_id == subs[st.subscription_index as int].relayer_id
                &&& st.amount == spec_earnings(
                    spec_duration_price(subs[st.subscription_index as int].duration),
                )
            },
        forall|i: int|
            0 <= i < subs.len() && (#[trigger] subs[i]).expiry_date <= now && !subs[i].settled
                ==> exists|k: int|
                0 <= k < due_settlements(subs, now).len() && (#[trigger] due_settlements(
                    subs,
                    now,
                )[k]).subscription_index == i,
    decreases subs.len(),
{
    if subs.len() > 0 {
        lemma_due_settlements_sound(subs.drop_last(), now);
        let prefix = due_settlements(subs.drop_last(), now);
        let whole = due_settlements(subs, now);
        assert forall|i: int|
            0 <= i < subs.len() && (#[trigger] subs[i]).expiry_date <= now
                && !subs[i].settled implies exists|k: int|
            0 <= k < whole.len() && (#[trigger] whole[k]).subscription_index == i by {
            if i == subs.len() - 1 {
                assert(whole[whole.len() - 1].subscription_index == i);
            } else {
                assert(subs.drop_last()[i] == subs[i]);
                let k = choose|k: int|
                    0 <= k < prefix.len() && (#[trigger] prefix[k]).subscription_index == i;
                assert(whole[k].subscription_index == i);
            }
        }
    }
}

/// Keeps a running total saturated at the top of the amount range.
pub open spec fn saturate_u128(x: int) -> u128 {
    if x >= u128::MAX {
        u128::MAX
    } else if x <= 0 {
        0
    } else {
        x as u128
    }
}

/// Whether a subscription counts toward a plan's current earnings: it
/// names the caller as relayer, runs on the plan's term, and is active
/// at the given time.
pub open spec fn sub_counts(sub: Subscription, plan: PlanView, caller: AccountId, now: u64) -> bool {
    &&& sub.relayer_id == caller
    &&& sub.duration == plan.duration
    &&& sub.start_date <= now
    &&& sub.expiry_date >= now
}

/// The plan's price, once for each counting subscription.
pub open spec fn plan_earnings_sum(
    subs: Seq<Subscription>,
    plan: PlanView,
    caller: AccountId,
    now: u64,
) -> int
    decreases subs.len(),
{
    if subs.len() == 0 {
        0
    } else {
        plan_earnings_sum(subs.drop_last(), plan, caller, now) + if sub_counts(
            subs.last(),
            plan,
            caller,
            now,
        ) {
            plan.price as int
        } else {
            0
        }
    }
}

/// The caller's current earnings across all its plans.
pub open spec fn total_earnings_sum(
    plans: Seq<PlanView>,
    subs: Seq<Subscription>,
    caller: AccountId,
    now: u64,
) -> int
    decreases plans.len(),
{
    if plans.len() == 0 {
        0
    } else {
        total_earnings_sum(plans.drop_last(), subs, caller, now) + if plans.last().relayer_id
            == caller {
            plan_earnings_sum(subs, plans.last(), caller, now)
        } else {
            0
        }
    }
}

/// A per-plan earnings sum adds only non-negative prices.
pub proof fn lemma_plan_earnings_sum_nonneg(
    subs: Seq<Subscription>,
    plan: PlanView,
    caller: AccountId,
    now: u64,
)
    ensures
        plan_earnings_sum(subs, plan, caller, now) >= 0,
    decreases subs.len(),
{
    if subs.len() > 0 {
        lemma_plan_earnings_sum_nonneg(subs.drop_last(), plan, caller, now);
    }
}

/// A total earnings sum adds only non-negative per-plan sums.
pub proof fn lemma_total_earnings_sum_nonneg(
    plans: Seq<PlanView>,
    subs: Seq<Subscription>,
    caller: AccountId,
    now: u64,
)
    ensures
        total_earnings_sum(plans, subs, caller, now) >= 0,
    decreases plans.len(),
{
    if plans.len() > 0 {
        lemma_total_earnings_sum_nonneg(plans.drop_last(), subs, caller, now);
        lemma_plan_earnings_sum_nonneg(subs, plans.last(), caller, now);
    }
}

impl NostrContract {
    /// Sweeps the ledger and returns the settlements owed at the given
    /// time: for each expired, unsettled subscription, the relayer's
    /// share (seventy percent of the term's price, truncating) to pay.
    /// Each instruction is independent, so a transfer failure is fatal
    /// only for that relayer's settlement in this pass; the host confirms
    /// each successful transfer with `mark_settled`.
    pub fn pay_relayer(&self, now: u64) -> (r: Vec<Settlement>)
        ensures
            r@ == due_settlements(self@.subscriptions, now),
    {
        let mut r: Vec<Settlement> = Vec::new();
        proof {
            assert(self@.subscriptions.take(0) =~= Seq::<Subscription>::empty());
        }
        let mut i: usize = 0;
        while i < self.subscriptions.len()
            invariant
                0 <= i <= self@.subscriptions.len(),
                r@ == due_settlements(self@.subscriptions.take(i as int), now),
            decreases self@.subscriptions.len() - i,
        {
            proof {
                assert(self@.subscriptions.take(i + 1).drop_last() =~= self@.subscriptions.take(
                    i as int,
                ));
                assert(self@.subscriptions.take(i + 1).last() == self@.subscriptions[i as int]);
            }
            let s = self.subscriptions[i];
            if s.expiry_date <= now && !s.settled {
                let amount = earnings(crate::duration::duration_price(&s.duration));
                r.push(Settlement { subscription_index: i, relayer_id: s.relayer_id, amount });
            }
            i += 1;
        }
        proof {
            assert(self@.subscriptions.take(self@.subscriptions.len() as int)
                =~= self@.subscriptions);
        }
        r
    }

    /// Confirms a successful payout: marks the subscription at the given
    /// position settled, so later billing passes skip it. Fails with
    /// `NotFound`, changing nothing, when the position is out of range.
    pub fn mark_settled(&mut self, subscription_index: usize) -> (r: Result<(), Error>)
        ensures
            subscription_index < old(self)@.subscriptions.len() ==> r == Ok::<(), Error>(())
                && final(self)@ == (StateView {
                subscriptions: old(self)@.subscriptions.update(
                    subscription_index as int,
                    (Subscription {
                        settled: true,
                        ..old(self)@.subscriptions[subscription_index as int]
                    }),
                ),
                ..old(self)@
            }),
            subscription_index >= old(self)@.subscriptions.len() ==> r == Err::<(), Error>(
                Error::NotFound,
            ) && final(self)@ == old(self)@,
            old(self)@.wf() ==> final(self)@.wf(),
    {
        if subscription_index < self.subscriptions.len() {
            let s = &mut self.subscriptions[subscription_index];
            s.settled = true;
            Ok(())
        } else {
            Err(Error::NotFound)
        }
    }

    /// The caller's current earnings: for each of its plans, the plan's
    /// price once per active subscription on the same term, summed with
    /// saturation at the top of the amount range.
    pub fn get_total_earnings(&self, caller: AccountId, now: u64) -> (r: u128)
        ensures
            r == saturate_u128(
                total_earnings_sum(self@.plans, self@.subscriptions, caller, now),
            ),
    {
        let mut total: u128 = 0;
        proof {
            assert(self@.plans.take(0) =~= Seq::<PlanView>::empty());
        }
        let mut i: usize = 0;
        while i < self.subscription_plans.len()
            invariant
                0 <= i <= self@.plans.len(),
                self@.plans.len() == self.subscription_plans@.len(),
                total == saturate_u128(
                    total_earnings_sum(
                        self@.plans.take(i as int),
                        self@.subscriptions,
                        caller,
                        now,
                    ),
                ),
            decreases self@.plans.len() - i,
        {
            proof {
                assert(self@.plans.take(i + 1).drop_last() =~= self@.plans.take(i as int));
                assert(self@.plans.take(i + 1).last() == self@.plans[i as int]);
                lemma_total_earnings_sum_nonneg(
                    self@.plans.take(i as int),
                    self@.subscriptions,
                    caller,
                    now,
                );
            }
            let ghost outer_sum = total_earnings_sum(
                self@.plans.take(i as int),
                self@.subscriptions,
                caller,
                now,
            );
            let plan = &self.subscription_plans[i];
            let ghost plan_v = self@.plans[i as int];
            if account_eq(&plan.relayer_id, &caller) {
                proof {
                    assert(self@.subscriptions.take(0) =~= Seq::<Subscription>::empty());
                }
                let mut j: usize = 0;
                while j < self.subscriptions.len()
                    invariant
                        0 <= j <= self@.subscriptions.len(),
                        i < self.subscription_plans@.len(),
                        plan == &self.subscription_plans@[i as int],
                        plan_v == self@.plans[i as int],
                        outer_sum >= 0,
                        outer_sum == total_earnings_sum(
                            self@.plans.take(i as int),
                            self@.subscriptions,
                            caller,
                            now,
                        ),
                        total == saturate_u128(
                            outer_sum + plan_earnings_sum(
                                self@.subscriptions.take(j as int),
                                plan_v,
                                caller,
                                now,
                            ),
                        ),
                    decreases self@.subscriptions.len() - j,
                {
                    proof {
                        assert(self@.subscriptions.take(j + 1).drop_last()
                            =~= self@.subscriptions.take(j as int));
                        assert(self@.subscriptions.take(j + 1).last() == self@.subscriptions[
                            j as int
                        ]);
                        lemma_plan_earnings_sum_nonneg(
                            self@.subscriptions.take(j as int),
                            plan_v,
                            caller,
                            now,
                        );
                    }
                    let s = self.subscriptions[j];
                    if account_eq(&s.relayer_id, &caller) && s.duration == plan.duration
                        && s.start_date <= now && s.expiry_date >= now {
                        total = total.saturating_add(plan.price);
                    }
                    j += 1;
                }
                proof {
                    assert(self@.subscriptions.take(self@.subscriptions.len() as int)
                        =~= self@.subscriptions);
                }
            }
            i += 1;
        }
        proof {
            assert(self@.plans.take(self@.plans.len() as int) =~= self@.plans);
        }
        total
    }
}

} // verus!
