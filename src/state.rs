//! One update cycle, from fetched mails to the published snapshot.
use vstd::prelude::*;

use crate::decode::{document_fits, parse_report};
use crate::dmarc_report::Report;
use crate::extract::{documents_from, extract_documents};
use crate::summary::{capped, reports_with, Summary};
use crate::text::{decode_lossy, lossy_text};

verus! {

/// A mail as the mail source hands it over; the body is absent where it could
/// not be retrieved or decoded.
#[derive(Debug, Clone, PartialEq)]
pub struct RawMail {
    pub uid: u32,
    pub body: Option<Vec<u8>>,
}

/// A document that could not be read as a report.
#[derive(Debug, Clone, PartialEq)]
pub struct XmlError {
    /// Why it could not be read.
    pub error: String,
    /// The document, decoded as UTF-8 with invalid sequences replaced.
    pub xml: String,
}

/// The documents that the bodies of `mails` carry, mail by mail, in order.
pub open spec fn mail_documents(mails: Seq<RawMail>) -> Seq<Seq<u8>>
    decreases mails.len(),
{
    if mails.len() == 0 {
        Seq::empty()
    } else {
        mail_documents(mails.drop_last()) + match mails.last().body {
            Some(b) => documents_from(b@, 0),
            None => Seq::empty(),
        }
    }
}

pub open spec fn files_view(files: Seq<Vec<u8>>) -> Seq<Seq<u8>> {
    files.map_values(|f: Vec<u8>| f@)
}

/// Collects the report documents of all mails in one flat sequence.
pub fn extract_xml_files(mails: &Vec<RawMail>) -> (r: Vec<Vec<u8>>)
    ensures
        files_view(r@) == mail_documents(mails@),
{
    let mut out: Vec<Vec<u8>> = Vec::new();
    let mut i: usize = 0;
    while i < mails.len()
        invariant
            i <= mails@.len(),
            files_view(out@) == mail_documents(mails@.take(i as int)),
        decreases mails@.len() - i,
    {
        assert(mails@.take(i + 1).drop_last() =~= mails@.take(i as int));
        match &mails[i].body {
            Some(b) => {
                let mut docs = extract_documents(b.as_slice());
                let ghost before = files_view(out@);
                let ghost added = files_view(docs@);
                out.append(&mut docs);
                assert(files_view(out@) =~= before + added);
            },
            None => {
                assert(files_view(out@) =~= files_view(out@) + Seq::<Seq<u8>>::empty());
            },
        }
        i += 1;
    }
    assert(mails@.take(i as int) =~= mails@);
    out
}

/// That a document holds a report.
pub open spec fn parses(doc: Seq<u8>) -> bool {
    exists|v: Report| #[trigger] document_fits(doc, v)
}

/// The documents that hold a report (`ok`), or those that do not (`!ok`), in order.
pub open spec fn sorted_out(docs: Seq<Seq<u8>>, ok: bool) -> Seq<Seq<u8>>
    decreases docs.len(),
{
    if docs.len() == 0 {
        Seq::empty()
    } else {
        sorted_out(docs.drop_last(), ok) + if parses(docs.last()) == ok {
            seq![docs.last()]
        } else {
            Seq::empty()
        }
    }
}

/// That `reports` are the reports of the documents that hold one, in order.
pub open spec fn reports_fit(docs: Seq<Seq<u8>>, reports: Seq<Report>) -> bool {
    let good = sorted_out(docs, true);
    &&& reports.len() == good.len()
    &&& forall|i: int| 0 <= i < good.len() ==> document_fits(good[i], #[trigger] reports[i])
}

/// That `errors` stand for the documents that hold no report, in order.
pub open spec fn errors_fit(docs: Seq<Seq<u8>>, errors: Seq<XmlError>) -> bool {
    let bad = sorted_out(docs, false);
    &&& errors.len() == bad.len()
    &&& forall|i: int| 0 <= i < bad.len() ==> (#[trigger] errors[i]).xml@ == lossy_text(bad[i])
}

/// Reads every document; each one gives either a report or an error, and the
/// order of the documents is kept on both sides.
pub fn parse_xml_files(files: &Vec<Vec<u8>>) -> (r: (Vec<Report>, Vec<XmlError>))
    ensures
        reports_fit(files_view(files@), r.0@),
        errors_fit(files_view(files@), r.1@),
        r.0@.len() + r.1@.len() == files@.len(),
{
    let ghost fv = files_view(files@);
    let mut reports: Vec<Report> = Vec::new();
    let mut errors: Vec<XmlError> = Vec::new();
    let mut i: usize = 0;
    while i < files.len()
        invariant
            i <= files@.len(),
            fv == files_view(files@),
            reports_fit(fv.take(i as int), reports@),
            errors_fit(fv.take(i as int), errors@),
        decreases files@.len() - i,
    {
        let ghost pre = fv.take(i as int);
        let ghost next = fv.take(i + 1);
        assert(next.drop_last() =~= pre);
        assert(next.last() == files@[i as int]@);
        match parse_report(files[i].as_slice()) {
            Ok(rep) => {
                assert(parses(files@[i as int]@));
                reports.push(rep);
                assert(sorted_out(next, true) =~= sorted_out(pre, true).push(files@[i as int]@));
                assert(sorted_out(next, false) =~= sorted_out(pre, false));
            },
            Err(e) => {
                assert(!parses(files@[i as int]@));
                let xml = decode_lossy(files[i].as_slice());
                errors.push(XmlError { error: e.message(), xml });
                assert(sorted_out(next, false) =~= sorted_out(pre, false).push(files@[i as int]@));
                assert(sorted_out(next, true) =~= sorted_out(pre, true));
            },
        }
        i += 1;
    }
    assert(fv.take(i as int) =~= fv);
    proof {
        lemma_sorted_out_len(fv);
    }
    (reports, errors)
}

/// Every document ends up on exactly one side.
pub proof fn lemma_sorted_out_len(docs: Seq<Seq<u8>>)
    ensures
        sorted_out(docs, true).len() + sorted_out(docs, false).len() == docs.len(),
    decreases docs.len(),
{
    if docs.len() > 0 {
        lemma_sorted_out_len(docs.drop_last());
    }
}

/// The shared snapshot that readers see: everything one cycle found.
#[derive(Debug, Clone, PartialEq)]
pub struct AppState {
    pub mails: Vec<RawMail>,
    pub xml_files: usize,
    pub reports: Vec<Report>,
    pub xml_errors: Vec<XmlError>,
    pub summary: Summary,
    pub last_update: u64,
}

impl AppState {
    /// Every field belongs to the same cycle: the summary counts what the
    /// snapshot holds and carries its time stamp.
    pub open spec fn consistent(&self) -> bool {
        &&& self.summary.mail_count == self.mails@.len()
        &&& self.summary.xml_file_count == self.xml_files
        &&& self.summary.report_count == self.reports@.len()
        &&& self.summary.xml_error_count == self.xml_errors@.len()
        &&& self.summary.pass_count == capped(reports_with(self.reports@, true) as int)
        &&& self.summary.fail_count == capped(reports_with(self.reports@, false) as int)
        &&& self.summary.last_update == self.last_update
        &&& self.reports@.len() + self.xml_errors@.len() == self.xml_files
    }

    /// The snapshot before any cycle has run.
    pub fn new() -> (r: AppState)
        ensures
            r.consistent(),
            r.mails@.len() == 0,
            r.reports@.len() == 0,
            r.xml_errors@.len() == 0,
            r.xml_files == 0,
            r.last_update == 0,
    {
        let reports: Vec<Report> = Vec::new();
        assert(reports_with(reports@, true) == 0);
        assert(reports_with(reports@, false) == 0);
        AppState {
            mails: Vec::new(),
            xml_files: 0,
            reports,
            xml_errors: Vec::new(),
            summary: Summary::empty(),
            last_update: 0,
        }
    }

    /// Replaces the whole snapshot at once.
    pub fn publish(&mut self, next: AppState)
        ensures
            *final(self) == next,
    {
        *self = next;
    }
}

/// What a cycle computed before it was stamped with a time.
pub struct CycleData {
    pub mails: Vec<RawMail>,
    pub xml_files: usize,
    pub reports: Vec<Report>,
    pub xml_errors: Vec<XmlError>,
}

/// Why a cycle published nothing.
#[derive(Debug, Clone, PartialEq)]
pub enum CycleError {
    /// The mail source failed, with its description of the failure.
    Fetch(String),
    /// The current time could not be read.
    Clock,
}

/// That `d` is what a cycle computes from the fetched `mails`.
pub open spec fn data_fits(mails: Seq<RawMail>, d: CycleData) -> bool {
    let docs = mail_documents(mails);
    &&& d.mails@ == mails
    &&& d.xml_files == docs.len()
    &&& reports_fit(docs, d.reports@)
    &&& errors_fit(docs, d.xml_errors@)
}

/// That `s` is the snapshot of the cycle that computed from `mails` and
/// finished at `now`.
pub open spec fn snapshot_fits(mails: Seq<RawMail>, now: u64, s: AppState) -> bool {
    let docs = mail_documents(mails);
    &&& s.mails@ == mails
    &&& s.xml_files == docs.len()
    &&& reports_fit(docs, s.reports@)
    &&& errors_fit(docs, s.xml_errors@)
    &&& s.last_update == now
    &&& s.consistent()
}

/// The outcome of a cycle for what the mail source returned and the clock read.
pub open spec fn cycle_fits(
    fetched: Result<Vec<RawMail>, String>,
    now: Option<u64>,
    r: Result<AppState, CycleError>,
) -> bool {
    match fetched {
        Err(e) => r == Err::<AppState, CycleError>(CycleError::Fetch(e)),
        Ok(mails) => match now {
            None => r == Err::<AppState, CycleError>(CycleError::Clock),
            Some(t) => match r {
                Ok(s) => snapshot_fits(mails@, t, s),
                Err(_) => false,
            },
        },
    }
}

/// Extracts and reads the documents of the fetched mails. A failed fetch ends
/// the cycle here.
pub fn begin_cycle(fetched: Result<Vec<RawMail>, String>) -> (r: Result<CycleData, CycleError>)
    ensures
        match fetched {
            Err(e) => r == Err::<CycleData, CycleError>(CycleError::Fetch(e)),
            Ok(mails) => match r {
                Ok(d) => data_fits(mails@, d),
                Err(_) => false,
            },
        },
{
    let mails = match fetched {
        Ok(m) => m,
        Err(e) => {
            return Err(CycleError::Fetch(e));
        },
    };
    let files = extract_xml_files(&mails);
    let (reports, xml_errors) = parse_xml_files(&files);
    proof {
        lemma_sorted_out_len(files_view(files@));
    }
    Ok(CycleData { mails, xml_files: files.len(), reports, xml_errors })
}

/// Stamps what a cycle computed with the time it finished, and builds the
/// snapshot to publish.
pub fn finish_cycle(data: CycleData, now: u64) -> (r: AppState)
    requires
        data.reports@.len() + data.xml_errors@.len() == data.xml_files,
    ensures
        r.mails == data.mails,
        r.xml_files == data.xml_files,
        r.reports == data.reports,
        r.xml_errors == data.xml_errors,
        r.last_update == now,
        r.consistent(),
{
    let summary = Summary::new(data.mails.len(), data.xml_files, &data.reports, now);
    AppState {
        mails: data.mails,
        xml_files: data.xml_files,
        reports: data.reports,
        xml_errors: data.xml_errors,
        summary,
        last_update: now,
    }
}

/// One whole cycle between the fetch and the publish: a failed fetch or an
/// unreadable clock gives an error, anything else the snapshot to publish.
pub fn run_cycle(fetched: Result<Vec<RawMail>, String>, now: Option<u64>) -> (r: Result<
    AppState,
    CycleError,
>)
    ensures
        cycle_fits(fetched, now, r),
{
    let data = begin_cycle(fetched)?;
    let t = match now {
        Some(t) => t,
        None => {
            return Err(CycleError::Clock);
        },
    };
    proof {
        lemma_sorted_out_len(mail_documents(data.mails@));
    }
    let s = finish_cycle(data, t);
    Ok(s)
}

/// Publishes the outcome of a cycle: a snapshot replaces the state whole, an
/// error leaves it as it was.
pub fn apply_cycle(state: &mut AppState, outcome: Result<AppState, CycleError>)
    ensures
        match outcome {
            Ok(s) => *final(state) == s,
            Err(_) => *final(state) == *old(state),
        },
{
    if let Ok(s) = outcome {
        state.publish(s);
    }
}

/// Each document of a cycle gives either a report or an error.
pub proof fn lemma_cycle_accounts_for_every_document(mails: Seq<RawMail>, now: u64, s: AppState)
    requires
        snapshot_fits(mails, now, s),
    ensures
        s.reports@.len() + s.xml_errors@.len() == mail_documents(mails).len(),
        s.xml_files == mail_documents(mails).len(),
{
    lemma_sorted_out_len(mail_documents(mails));
}

/// A published snapshot counts its own reports and errors and carries its
/// own time stamp.
pub proof fn lemma_snapshot_counts_itself(mails: Seq<RawMail>, now: u64, s: AppState)
    requires
        snapshot_fits(mails, now, s),
    ensures
        s.summary.report_count == s.reports@.len(),
        s.summary.xml_error_count == s.xml_errors@.len(),
        s.summary.last_update == s.last_update,
        s.last_update == now,
{
}

/// A failed fetch leaves the published state as it was.
pub proof fn lemma_failed_fetch_keeps_state(
    before: AppState,
    after: AppState,
    e: String,
    now: Option<u64>,
    outcome: Result<AppState, CycleError>,
)
    requires
        cycle_fits(Err(e), now, outcome),
        match outcome {
            Ok(s) => after == s,
            Err(_) => after == before,
        },
    ensures
        after == before,
{
}

/// Whatever a cycle publishes is consistent, so a reader that sees a
/// snapshot never sees fields of two cycles.
pub proof fn lemma_published_state_consistent(
    before: AppState,
    after: AppState,
    fetched: Result<Vec<RawMail>, String>,
    now: Option<u64>,
    outcome: Result<AppState, CycleError>,
)
    requires
        before.consistent(),
        cycle_fits(fetched, now, outcome),
        match outcome {
            Ok(s) => after == s,
            Err(_) => after == before,
        },
    ensures
        after.consistent(),
{
}

} // verus!
