//! Protocol laws: properties that relate several operations or hold of
//! every reachable state, stated over the mathematical model and proved
//! once and for all.

use vstd::prelude::*;
use crate::account::AccountId;
use crate::dispute::{challenge_next, challenge_outcome, sweep_due, sweep_from};
use crate::duration::spec_duration_secs;
use crate::errors::Error;
use crate::events::{Challenged, PenaltyApplied};
use crate::reports::ReportView;
use crate::stakes::{lemma_apply_penalty, stake_of};
use crate::state::StateView;

verus! {

/// Plan identifiers are unique and strictly increasing in creation
/// order, in every well-formed state; an id is never reused.
pub proof fn lemma_plan_ids_strictly_increasing(s: StateView)
    requires
        s.wf(),
    ensures
        forall|i: int, j: int|
            0 <= i < j < s.plans.len() ==> (#[trigger] s.plans[i]).plan_id < (
            #[trigger] s.plans[j]).plan_id,
{
}

/// Report identifiers are unique and strictly increasing in filing
/// order, in every well-formed state; an id is never reused.
pub proof fn lemma_report_ids_strictly_increasing(s: StateView)
    requires
        s.wf(),
    ensures
        forall|i: int, j: int|
            0 <= i < j < s.reports.len() ==> (#[trigger] s.reports[i]).report_id < (
            #[trigger] s.reports[j]).report_id,
{
}

/// Every subscription's settlement window is exact: the expiry date is
/// the start date plus precisely the fixed length of its term, and the
/// term is always billable.
pub proof fn lemma_subscription_window_exact(s: StateView)
    requires
        s.wf(),
    ensures
        forall|i: int|
            0 <= i < s.subscriptions.len() ==> (#[trigger] s.subscriptions[i]).expiry_date
                - s.subscriptions[i].start_date == spec_duration_secs(
                s.subscriptions[i].duration,
            ),
        forall|i: int|
            0 <= i < s.subscriptions.len() ==> !((#[trigger] s.subscriptions[i]).duration
                is Unknown),
{
}

/// A caller other than the designated challenger can never resolve a
/// report: the call fails with `Unauthorized` and the state — so every
/// report's `Open` status — is unchanged.
pub proof fn lemma_challenge_only_challenger(s: StateView, caller: AccountId, report_id: u64)
    requires
        s.challenger != Some(caller),
    ensures
        challenge_outcome(s, caller, report_id) == Err::<
            (Challenged, Option<PenaltyApplied>),
            Error,
        >(Error::Unauthorized),
        challenge_next(s, caller, report_id) == s,
{
}

/// A report resolves exactly once: after a successful challenge, the
/// same challenge fails with `AlreadyResolved` and changes nothing, so
/// the state after both calls is the state after the first.
pub proof fn lemma_challenge_resolves_once(s: StateView, caller: AccountId, report_id: u64)
    requires
        s.wf(),
        challenge_outcome(s, caller, report_id) is Ok,
    ensures
        challenge_outcome(challenge_next(s, caller, report_id), caller, report_id) == Err::<
            (Challenged, Option<PenaltyApplied>),
            Error,
        >(Error::AlreadyResolved),
        challenge_next(challenge_next(s, caller, report_id), caller, report_id)
            == challenge_next(s, caller, report_id),
{
    let s1 = challenge_next(s, caller, report_id);
    assert(s.reports[report_id - 1].report_id == report_id);
    assert(s1.reports[report_id - 1].report_id == report_id);
    assert(crate::reports::has_report(s1.reports, report_id));
    assert(s1.reports[report_id - 1].challenged);
}

/// A penalty never drives a relayer's stake below zero: amounts are
/// unsigned, the drawn penalty is half the stake and so never more than
/// the stake holds, and the deduction is exact.
pub proof fn lemma_penalty_within_stake(s: StateView, caller: AccountId, report_id: u64)
    requires
        s.wf(),
    ensures
        match challenge_outcome(s, caller, report_id) {
            Ok((_, penalty)) => match penalty {
                Some(p) => {
                    &&& p.amount <= stake_of(s.stakes, p.relayer_id)
                    &&& stake_of(
                        challenge_next(s, caller, report_id).stakes,
                        p.relayer_id,
                    ) == stake_of(s.stakes, p.relayer_id) - p.amount
                },
                None => challenge_next(s, caller, report_id).stakes == s.stakes,
            },
            Err(_) => challenge_next(s, caller, report_id).stakes == s.stakes,
        },
{
    match challenge_outcome(s, caller, report_id) {
        Ok((_, penalty)) => match penalty {
            Some(p) => {
                lemma_apply_penalty(s.stakes, p.relayer_id);
            },
            None => {},
        },
        Err(_) => {},
    }
}

/// What one sweep pass leaves behind: the registry keeps its length,
/// reports before the sweep position are untouched, and from the sweep
/// position on no report is still due — each was either resolved by the
/// pass or was not due to begin with.
pub proof fn lemma_sweep_resolves(s: StateView, now: u64, i: int)
    requires
        0 <= i,
    ensures
        sweep_from(s, now, i).0.reports.len() == s.reports.len(),
        forall|j: int|
            0 <= j < i && j < s.reports.len() ==> sweep_from(s, now, i).0.reports[j]
                == s.reports[j],
        forall|j: int|
            i <= j < s.reports.len() ==> !sweep_due(
                #[trigger] sweep_from(s, now, i).0.reports[j],
                now,
            ),
    decreases s.reports.len() - i,
{
    if i < s.reports.len() {
        if sweep_due(s.reports[i], now) {
            let rep = s.reports[i];
            let s1 = StateView {
                reports: s.reports.update(i, (ReportView { challenged: true, ..rep })),
                stakes: crate::stakes::apply_penalty(s.stakes, rep.relayer),
                ..s
            };
            lemma_sweep_resolves(s1, now, i + 1);
            let sf = sweep_from(s, now, i).0;
            assert(sf == sweep_from(s1, now, i + 1).0);
            assert(sf.reports[i] == s1.reports[i]);
            assert(!sweep_due(sf.reports[i], now));
            assert(forall|j: int|
                0 <= j < i && j < s.reports.len() ==> sf.reports[j] == s1.reports[j]
                    && s1.reports[j] == s.reports[j]);
        } else {
            lemma_sweep_resolves(s, now, i + 1);
            let sf = sweep_from(s, now, i).0;
            assert(sf == sweep_from(s, now, i + 1).0);
            assert(sf.reports[i] == s.reports[i]);
            assert(!sweep_due(sf.reports[i], now));
        }
    }
}

/// A sweep over a registry with nothing due changes nothing and emits
/// nothing.
pub proof fn lemma_sweep_noop(s: StateView, now: u64, i: int)
    requires
        0 <= i,
        forall|j: int| i <= j < s.reports.len() ==> !sweep_due(#[trigger] s.reports[j], now),
    ensures
        sweep_from(s, now, i).0 == s,
        sweep_from(s, now, i).1 == Seq::<PenaltyApplied>::empty(),
    decreases s.reports.len() - i,
{
    if i < s.reports.len() {
        lemma_sweep_noop(s, now, i + 1);
    }
}

/// The expiry sweep is idempotent: running it again at the same time,
/// right after a pass, changes nothing and penalizes nobody — a report
/// resolved by the pass is never penalized again.
pub proof fn lemma_sweep_idempotent(s: StateView, now: u64)
    ensures
        sweep_from(sweep_from(s, now, 0).0, now, 0).0 == sweep_from(s, now, 0).0,
        sweep_from(sweep_from(s, now, 0).0, now, 0).1 == Seq::<PenaltyApplied>::empty(),
{
    let s1 = sweep_from(s, now, 0).0;
    lemma_sweep_resolves(s, now, 0);
    lemma_sweep_noop(s1, now, 0);
}

} // verus!
