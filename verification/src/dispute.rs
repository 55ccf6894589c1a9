//! The dispute flow: reporters file misconduct reports, the single
//! designated challenger adjudicates them, and an invalid verdict draws a
//! penalty from the offending relayer's stake in the same atomic step.
//!
//! Each report is a two-state machine: `Open` (`challenged == false`)
//! moves to `Resolved` (`challenged == true`) exactly once and never
//! back. Reports left open past the challenge window are resolved against
//! their relayer by the periodic sweep.

use vstd::prelude::*;
use crate::account::{account_eq, AccountId};
use crate::errors::Error;
use crate::events::{Challenged, PenaltyApplied, ReportEvent};
use crate::reports::{
    clone_bytes, find_report, has_report, lemma_find_report_skip, lemma_has_report_iff, Report,
    ReportView, spec_is_valid,
};
use crate::stakes::{apply_penalty, stake_index, stake_of};
use crate::state::{NostrContract, StateView};

verus! {

/// How long a report may stay open before the sweep resolves it against
/// the relayer.
pub const CHALLENGE_WINDOW_SECS: u64 = 3600;

/// The outcome of a challenge: who may resolve, what must exist, and the
/// verdict. The designated challenger alone may resolve; the report must
/// exist and still be open; the verdict is the report's evidence policy,
/// and an invalid verdict carries the penalty of half the relayer's
/// stake.
pub open spec fn challenge_outcome(s: StateView, caller: AccountId, report_id: u64) -> Result<
    (Challenged, Option<PenaltyApplied>),
    Error,
>
    recommends
        s.wf(),
{
    if s.challenger != Some(caller) {
        Err(Error::Unauthorized)
    } else if !has_report(s.reports, report_id) {
        Err(Error::NotFound)
    } else if s.reports[report_id - 1].challenged {
        Err(Error::AlreadyResolved)
    } else {
        let rep = s.reports[report_id - 1];
        let resolved = Challenged { reporter: rep.reporter, report_id };
        if spec_is_valid(rep) {
            Ok((resolved, None))
        } else {
            Ok(
                (
                    resolved,
                    Some(
                        PenaltyApplied {
                            relayer_id: rep.relayer,
                            amount: stake_of(s.stakes, rep.relayer) / 2,
                        },
                    ),
                ),
            )
        }
    }
}

/// The state after a challenge: unchanged on any failure; on success the
/// report's latch flips, and on an invalid verdict the relayer's stake is
/// drawn down by the penalty.
pub open spec fn challenge_next(s: StateView, caller: AccountId, report_id: u64) -> StateView
    recommends
        s.wf(),
{
    if challenge_outcome(s, caller, report_id) is Err {
        s
    } else {
        let rep = s.reports[report_id - 1];
        let resolved = StateView {
            reports: s.reports.update(report_id - 1, (ReportView { challenged: true, ..rep })),
            ..s
        };
        if spec_is_valid(rep) {
            resolved
        } else {
            StateView { stakes: apply_penalty(s.stakes, rep.relayer), ..resolved }
        }
    }
}

/// Whether the sweep must resolve this report now: still open, and filed
/// a full challenge window ago.
pub open spec fn sweep_due(rep: ReportView, now: u64) -> bool {
    &&& !rep.challenged
    &&& rep.filed_at + CHALLENGE_WINDOW_SECS <= now
}

/// The sweep from position `i`: each due report is resolved and its
/// relayer penalized by half its stake, in registry order; each report is
/// visited once, so no report is penalized twice in one pass.
pub open spec fn sweep_from(s: StateView, now: u64, i: int) -> (StateView, Seq<PenaltyApplied>)
    decreases s.reports.len() - i,
{
    if i < 0 || i >= s.reports.len() {
        (s, Seq::empty())
    } else if sweep_due(s.reports[i], now) {
        let rep = s.reports[i];
        let s1 = StateView {
            reports: s.reports.update(i, (ReportView { challenged: true, ..rep })),
            stakes: apply_penalty(s.stakes, rep.relayer),
            ..s
        };
        let ev = PenaltyApplied {
            relayer_id: rep.relayer,
            amount: stake_of(s.stakes, rep.relayer) / 2,
        };
        let rest = sweep_from(s1, now, i + 1);
        (rest.0, seq![ev] + rest.1)
    } else {
        sweep_from(s, now, i + 1)
    }
}

impl NostrContract {
    /// Files a misconduct report by the caller against the relayer named
    /// by its wire bytes: allocates the next report id, stores the report
    /// open with the receipt as its opaque evidence, and returns the id
    /// with the notification to emit. The report is then immutable except
    /// for its resolution latch.
    pub fn report(
        &mut self,
        caller: AccountId,
        now: u64,
        relayer_bytes: Vec<u8>,
        receipt: Vec<u8>,
    ) -> (r: (u64, ReportEvent))
        requires
            old(self)@.wf(),
            relayer_bytes@.len() == 32,
            old(self)@.next_report_id < u64::MAX,
        ensures
            r.0 == old(self)@.next_report_id,
            r.1.report_id == r.0,
            r.1.receipt@ == receipt@,
            r.1.relayer@ == relayer_bytes@,
            final(self)@ == (StateView {
                reports: old(self)@.reports.push(
                    (ReportView {
                        reporter: caller,
                        relayer: r.1.relayer,
                        challenged: false,
                        report_id: old(self)@.next_report_id,
                        evidence: receipt@,
                        filed_at: now,
                    }),
                ),
                next_report_id: (old(self)@.next_report_id + 1) as u64,
                ..old(self)@
            }),
            final(self)@.wf(),
    {
        let next_report_id = self.next_report_id;
        self.next_report_id = self.next_report_id + 1;

        let relayer = self.decode_account_id(relayer_bytes.as_slice());

        let event_receipt = clone_bytes(&receipt);
        self.reports.push(
            Report {
                reporter: caller,
                relayer,
                challenged: false,
                report_id: next_report_id,
                evidence: receipt,
                filed_at: now,
            },
        );

        let event = ReportEvent { relayer, receipt: event_receipt, report_id: next_report_id };

        self.listen_for_challenges();

        proof {
            assert(self@.reports =~= old(self)@.reports.push(
                (ReportView {
                    reporter: caller,
                    relayer,
                    challenged: false,
                    report_id: old(self)@.next_report_id,
                    evidence: event.receipt@,
                    filed_at: now,
                }),
            ));
            assert(self@.plans =~= old(self)@.plans);
        }
        (next_report_id, event)
    }

    /// Looks up a report by id.
    pub fn get_report(&self, report_id: u64) -> (r: Option<Report>)
        ensures
            match r {
                Some(rep) => find_report(self@.reports, report_id) == Some(rep@),
                None => find_report(self@.reports, report_id) is None,
            },
    {
        let mut i: usize = 0;
        while i < self.reports.len()
            invariant
                0 <= i <= self@.reports.len(),
                forall|j: int| 0 <= j < i ==> (#[trigger] self@.reports[j]).report_id != report_id,
            decreases self@.reports.len() - i,
        {
            if self.reports[i].report_id == report_id {
                proof {
                    lemma_find_report_skip(self@.reports, report_id, i as int);
                    assert(self@.reports.skip(i as int)[0] == self@.reports[i as int]);
                }
                return Some(self.reports[i].clone());
            }
            i += 1;
        }
        proof {
            lemma_find_report_skip(self@.reports, report_id, self@.reports.len() as int);
            assert(self@.reports.skip(self@.reports.len() as int) =~= Seq::<ReportView>::empty());
        }
        None
    }

    /// Draws the penalty — half the relayer's stake, rounded down — from
    /// the stake ledger. A relayer without an entry has nothing to draw
    /// from: the ledger is unchanged and the reported amount is zero.
    fn penalize_relayer(&mut self, relayer_id: AccountId) -> (ev: PenaltyApplied)
        ensures
            ev == (PenaltyApplied {
                relayer_id,
                amount: stake_of(old(self)@.stakes, relayer_id) / 2,
            }),
            final(self)@ == (StateView {
                stakes: apply_penalty(old(self)@.stakes, relayer_id),
                ..old(self)@
            }),
            old(self)@.wf() ==> final(self)@.wf(),
    {
        let mut i: usize = 0;
        while i < self.stakes.len()
            invariant
                *self == *old(self),
                0 <= i <= self.stakes@.len(),
                forall|j: int|
                    0 <= j < i ==> (#[trigger] self.stakes@[j]).relayer_id != relayer_id,
            decreases self.stakes@.len() - i,
        {
            if account_eq(&self.stakes[i].relayer_id, &relayer_id) {
                proof {
                    crate::stakes::lemma_stake_index_of(self.stakes@, relayer_id, i as int);
                }
                let amount = self.stakes[i].amount;
                let penalty = amount / 2;
                let entry = &mut self.stakes[i];
                entry.amount = amount - penalty;
                return PenaltyApplied { relayer_id, amount: penalty };
            }
            i += 1;
        }
        proof {
            crate::stakes::lemma_stake_index_props(self.stakes@, relayer_id);
            assert(stake_index(self.stakes@, relayer_id) is None);
        }
        PenaltyApplied { relayer_id, amount: 0 }
    }

    /// Adjudicates an open report. Only the designated challenger may
    /// resolve, and any other caller fails with `Unauthorized`; a missing
    /// report fails with `NotFound`; a resolved one with
    /// `AlreadyResolved`; every failure leaves the state unchanged. On
    /// success the report's latch flips, the verdict is computed from its
    /// evidence, and an invalid verdict draws half the relayer's stake in
    /// the same atomic step, so a report is never left half resolved.
    pub fn challenge(&mut self, caller: AccountId, report_id: u64) -> (r: Result<
        (Challenged, Option<PenaltyApplied>),
        Error,
    >)
        requires
            old(self)@.wf(),
        ensures
            r == challenge_outcome(old(self)@, caller, report_id),
            final(self)@ == challenge_next(old(self)@, caller, report_id),
            final(self)@.wf(),
    {
        let authorized = match &self.challenger {
            Some(c) => account_eq(c, &caller),
            None => false,
        };
        if !authorized {
            return Err(Error::Unauthorized);
        }
        proof {
            lemma_has_report_iff(self@.reports, report_id);
        }
        let n = self.reports.len();
        if report_id < 1 || report_id > n as u64 {
            return Err(Error::NotFound);
        }
        let idx = (report_id - 1) as usize;
        if self.reports[idx].challenged {
            return Err(Error::AlreadyResolved);
        }
        let reporter = self.reports[idx].reporter;
        let relayer = self.reports[idx].relayer;
        let valid = self.reports[idx].evidence.len() > 0;

        let rep = &mut self.reports[idx];
        rep.challenged = true;

        proof {
            assert(self@.reports =~= old(self)@.reports.update(
                report_id - 1,
                (ReportView { challenged: true, ..old(self)@.reports[report_id - 1] }),
            ));
        }
        let resolved = Challenged { reporter, report_id };
        if valid {
            Ok((resolved, None))
        } else {
            let penalty = self.penalize_relayer(relayer);
            Ok((resolved, Some(penalty)))
        }
    }

    /// The periodic sweep: resolves every report left open past the
    /// challenge window against its relayer, drawing half that relayer's
    /// stake per report, and returns the penalties to emit. Safe to call
    /// repeatedly — a resolved report is never penalized again — and each
    /// report is visited once per pass.
    pub fn handle_challenge_task(&mut self, now: u64) -> (r: Vec<PenaltyApplied>)
        requires
            old(self)@.wf(),
        ensures
            final(self)@ == sweep_from(old(self)@, now, 0).0,
            r@ == sweep_from(old(self)@, now, 0).1,
            final(self)@.wf(),
    {
        let mut events: Vec<PenaltyApplied> = Vec::new();
        let mut i: usize = 0;
        let n = self.reports.len();
        while i < n
            invariant
                0 <= i <= n,
                n == self@.reports.len(),
                self@.wf(),
                sweep_from(old(self)@, now, 0).0 == sweep_from(self@, now, i as int).0,
                sweep_from(old(self)@, now, 0).1 == events@ + sweep_from(self@, now, i as int).1,
            decreases n - i,
        {
            let ghost s_before = self@;
            let challenged = self.reports[i].challenged;
            let filed_at = self.reports[i].filed_at;
            let due = !challenged && now >= CHALLENGE_WINDOW_SECS && filed_at <= now
                - CHALLENGE_WINDOW_SECS;
            if due {
                let relayer = self.reports[i].relayer;
                let rep = &mut self.reports[i];
                rep.challenged = true;
                proof {
                    assert(self@.reports =~= s_before.reports.update(
                        i as int,
                        (ReportView { challenged: true, ..s_before.reports[i as int] }),
                    ));
                }
                let ev = self.penalize_relayer(relayer);
                events.push(ev);
                proof {
                    let stepped = StateView {
                        reports: s_before.reports.update(
                            i as int,
                            (ReportView { challenged: true, ..s_before.reports[i as int] }),
                        ),
                        stakes: apply_penalty(s_before.stakes, relayer),
                        ..s_before
                    };
                    assert(self@ == stepped);
                    assert(sweep_from(s_before, now, i as int).0 == sweep_from(
                        self@,
                        now,
                        i + 1,
                    ).0);
                    assert(sweep_from(s_before, now, i as int).1 == seq![ev] + sweep_from(
                        self@,
                        now,
                        i + 1,
                    ).1);
                    assert(events@ + sweep_from(self@, now, i + 1).1 =~= events@.drop_last()
                        + sweep_from(s_before, now, i as int).1);
                }
            } else {
                proof {
                    assert(!sweep_due(s_before.reports[i as int], now));
                    assert(sweep_from(s_before, now, i as int) == sweep_from(
                        s_before,
                        now,
                        i + 1,
                    ));
                }
            }
            i += 1;
        }
        proof {
            assert(sweep_from(self@, now, n as int).0 == self@);
            assert(sweep_from(self@, now, n as int).1 =~= Seq::<PenaltyApplied>::empty());
            assert(events@ + Seq::<PenaltyApplied>::empty() =~= events@);
        }
        events
    }

    /// Scheduling hook for the host: the periodic adjudication sweep
    /// itself is `handle_challenge_task`, re-invoked by an external
    /// scheduler, so this entry point has nothing to do in the core and
    /// changes nothing.
    pub fn listen_for_challenges(&mut self)
        ensures
            *final(self) == *old(self),
    {
    }
}

} // verus!
