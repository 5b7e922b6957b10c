//! Rollup counts of one update cycle.
use vstd::prelude::*;

use crate::dmarc_report::{DMARCResultType, RecordType, Report};

verus! {

/// What one cycle found, stamped with the time the cycle finished.
#[derive(Debug, Clone, Copy, PartialEq, Eq, Structural)]
pub struct Summary {
    pub mail_count: usize,
    pub xml_file_count: usize,
    pub report_count: usize,
    pub xml_error_count: usize,
    pub pass_count: u64,
    pub fail_count: u64,
    pub last_update: u64,
}

/// A record passes DMARC when its evaluated DKIM or SPF outcome is a pass.
pub open spec fn record_passes(r: RecordType) -> bool {
    r.row.policy_evaluated.dkim == Some(DMARCResultType::Pass)
        || r.row.policy_evaluated.spf == Some(DMARCResultType::Pass)
}

/// How many of the records pass (`want`) or fail (`!want`).
pub open spec fn records_with(rs: Seq<RecordType>, want: bool) -> nat
    decreases rs.len(),
{
    if rs.len() == 0 {
        0
    } else {
        records_with(rs.drop_last(), want) + if record_passes(rs.last()) == want {
            1nat
        } else {
            0nat
        }
    }
}

/// How many records of all the reports pass (`want`) or fail (`!want`).
pub open spec fn reports_with(reps: Seq<Report>, want: bool) -> nat
    decreases reps.len(),
{
    if reps.len() == 0 {
        0
    } else {
        reports_with(reps.drop_last(), want) + records_with(reps.last().record@, want)
    }
}

pub open spec fn capped(n: int) -> int {
    if n > u64::MAX {
        u64::MAX as int
    } else {
        n
    }
}

fn record_passes_exec(r: &RecordType) -> (b: bool)
    ensures
        b == record_passes(*r),
{
    let e = &r.row.policy_evaluated;
    matches!(e.dkim, Some(DMARCResultType::Pass)) || matches!(e.spf, Some(DMARCResultType::Pass))
}

/// Counts the records of all the reports that pass (`want`) or fail
/// (`!want`), up to the largest `u64`.
pub fn count_records(reps: &Vec<Report>, want: bool) -> (r: u64)
    ensures
        r == capped(reports_with(reps@, want) as int),
{
    let mut total: u64 = 0;
    let mut i: usize = 0;
    while i < reps.len()
        invariant
            i <= reps@.len(),
            total == capped(reports_with(reps@.take(i as int), want) as int),
        decreases reps@.len() - i,
    {
        let recs = &reps[i].record;
        let ghost base = reports_with(reps@.take(i as int), want);
        let mut j: usize = 0;
        while j < recs.len()
            invariant
                i < reps@.len(),
                recs == reps@[i as int].record,
                j <= recs@.len(),
                base == reports_with(reps@.take(i as int), want),
                total == capped((base + records_with(recs@.take(j as int), want)) as int),
            decreases recs@.len() - j,
        {
            assert(recs@.take(j + 1).drop_last() =~= recs@.take(j as int));
            if record_passes_exec(&recs[j]) == want && total < u64::MAX {
                total = total + 1;
            }
            j += 1;
        }
        assert(recs@.take(j as int) =~= recs@);
        assert(reps@.take(i + 1).drop_last() =~= reps@.take(i as int));
        i += 1;
    }
    assert(reps@.take(i as int) =~= reps@);
    total
}

impl Summary {
    /// The summary of a cycle that read `mail_count` mails holding
    /// `xml_file_count` documents, of which `reports` could be read, at `now`.
    pub fn new(mail_count: usize, xml_file_count: usize, reports: &Vec<Report>, now: u64) -> (r:
        Summary)
        requires
            reports@.len() <= xml_file_count,
        ensures
            r.mail_count == mail_count,
            r.xml_file_count == xml_file_count,
            r.report_count == reports@.len(),
            r.xml_error_count == xml_file_count - reports@.len(),
            r.pass_count == capped(reports_with(reports@, true) as int),
            r.fail_count == capped(reports_with(reports@, false) as int),
            r.last_update == now,
    {
        Summary {
            mail_count,
            xml_file_count,
            report_count: reports.len(),
            xml_error_count: xml_file_count - reports.len(),
            pass_count: count_records(reports, true),
            fail_count: count_records(reports, false),
            last_update: now,
        }
    }

    /// The summary before any cycle has run.
    pub fn empty() -> (r: Summary)
        ensures
            r.mail_count == 0,
            r.xml_file_count == 0,
            r.report_count == 0,
            r.xml_error_count == 0,
            r.pass_count == 0,
            r.fail_count == 0,
            r.last_update == 0,
    {
        Summary {
            mail_count: 0,
            xml_file_count: 0,
            report_count: 0,
            xml_error_count: 0,
            pass_count: 0,
            fail_count: 0,
            last_update: 0,
        }
    }
}

} // verus!
