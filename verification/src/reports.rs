//! The report registry: misconduct reports, immutable once filed except
//! for the `challenged` latch, which flips once and never reverts.

use vstd::prelude::*;
use crate::account::AccountId;

verus! {

/// A misconduct report. `report_id` is unique and monotonically assigned
/// starting at 1; the evidence payload is opaque bytes, examined only
/// when the report is adjudicated.
#[derive(Debug)]
pub struct Report {
    pub reporter: AccountId,
    pub relayer: AccountId,
    pub challenged: bool,
    pub report_id: u64,
    pub evidence: Vec<u8>,
    pub filed_at: u64,
}

/// The mathematical model of a report.
pub ghost struct ReportView {
    pub reporter: AccountId,
    pub relayer: AccountId,
    pub challenged: bool,
    pub report_id: u64,
    pub evidence: Seq<u8>,
    pub filed_at: u64,
}

impl View for Report {
    type V = ReportView;

    open spec fn view(&self) -> ReportView {
        ReportView {
            reporter: self.reporter,
            relayer: self.relayer,
            challenged: self.challenged,
            report_id: self.report_id,
            evidence: self.evidence@,
            filed_at: self.filed_at,
        }
    }
}

impl Clone for Report {
    /// Copies a report, evidence bytes included.
    fn clone(&self) -> (r: Self)
        ensures
            r@ == self@,
    {
        Report {
            reporter: self.reporter,
            relayer: self.relayer,
            challenged: self.challenged,
            report_id: self.report_id,
            evidence: clone_bytes(&self.evidence),
            filed_at: self.filed_at,
        }
    }
}

/// Copies a byte payload.
pub fn clone_bytes(v: &Vec<u8>) -> (r: Vec<u8>)
    ensures
        r@ == v@,
{
    let mut r: Vec<u8> = Vec::new();
    let mut i: usize = 0;
    while i < v.len()
        invariant
            0 <= i <= v@.len(),
            r@ == v@.take(i as int),
        decreases v@.len() - i,
    {
        r.push(v[i]);
        proof {
            assert(v@.take(i + 1) =~= v@.take(i as int).push(v@[i as int]));
        }
        i += 1;
    }
    proof {
        assert(v@.take(v@.len() as int) =~= v@);
    }
    r
}

/// Whether some report in the registry carries the given identifier.
pub open spec fn has_report(reports: Seq<ReportView>, report_id: u64) -> bool {
    exists|i: int| 0 <= i < reports.len() && (#[trigger] reports[i]).report_id == report_id
}

/// Under well-formedness, report ids are exactly the positions shifted by
/// one, so a report with a given id exists exactly when the id is between
/// one and the registry length, and then sits at position `id - 1`.
pub proof fn lemma_has_report_iff(reports: Seq<ReportView>, report_id: u64)
    requires
        forall|i: int| 0 <= i < reports.len() ==> (#[trigger] reports[i]).report_id == i + 1,
    ensures
        has_report(reports, report_id) <==> 1 <= report_id <= reports.len(),
        has_report(reports, report_id) ==> reports[report_id - 1].report_id == report_id,
{
    if 1 <= report_id <= reports.len() {
        assert(reports[report_id - 1].report_id == report_id);
    }
}

/// The first report carrying the given identifier, if any.
pub open spec fn find_report(reports: Seq<ReportView>, report_id: u64) -> Option<ReportView>
    decreases reports.len(),
{
    if reports.len() == 0 {
        None
    } else if reports[0].report_id == report_id {
        Some(reports[0])
    } else {
        find_report(reports.drop_first(), report_id)
    }
}

/// A first-match search skips exactly the non-matching prefix.
pub proof fn lemma_find_report_skip(reports: Seq<ReportView>, report_id: u64, i: int)
    requires
        0 <= i <= reports.len(),
        forall|j: int| 0 <= j < i ==> (#[trigger] reports[j]).report_id != report_id,
    ensures
        find_report(reports, report_id) == find_report(reports.skip(i), report_id),
    decreases i,
{
    if i > 0 {
        lemma_find_report_skip(reports.drop_first(), report_id, i - 1);
        assert(reports.drop_first().skip(i - 1) =~= reports.skip(i));
    } else {
        assert(reports.skip(0) =~= reports);
    }
}

/// A report's verdict under the base policy: its conduct evidence is
/// valid when the payload is non-empty.
pub open spec fn spec_is_valid(report: ReportView) -> bool {
    report.evidence.len() > 0
}

} // verus!
