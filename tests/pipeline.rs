use dmarc_reports::config::{Configuration, LogLevel};
use dmarc_reports::decode::{parse_report, DecodeError};
use dmarc_reports::dmarc_report::{
    alignment_from, dkim_result_from, ip_from, number_from, AlignmentType, DKIMResultType,
    DMARCResultType, DispositionType, IpAddress,
};
use dmarc_reports::extract::extract_documents;
use dmarc_reports::scheduler::{Action, Event, Phase, Scheduler};
use dmarc_reports::state::{
    apply_cycle, extract_xml_files, parse_xml_files, run_cycle, AppState, CycleError, RawMail,
};
use dmarc_reports::summary::Summary;
use dmarc_reports::text::trim_text;

fn document(report_id: Option<&str>, adkim: &str, dkim: &str, spf: &str) -> String {
    let id = match report_id {
        Some(id) => format!("<report_id>{id}</report_id>"),
        None => String::new(),
    };
    format!(
        "<?xml version=\"1.0\"?>\n<feedback>\n<report_metadata><org_name>Example</org_name>\
         <email>dmarc@example.org</email>{id}<date_range><begin>10</begin><end>20</end>\
         </date_range></report_metadata>\n<policy_published><domain>example.org</domain>\
         <adkim>{adkim}</adkim><p>reject</p><pct>100</pct></policy_published>\n<record><row>\
         <source_ip>192.0.2.1</source_ip><count>3</count><policy_evaluated>\
         <disposition>reject</disposition><dkim>{dkim}</dkim><spf>{spf}</spf>\
         </policy_evaluated></row><identifiers><header_from>example.org</header_from>\
         </identifiers><auth_results><spf><domain>example.org</domain><result>pass</result>\
         </spf></auth_results></record>\n</feedback>\n"
    )
}

fn mail(uid: u32, body: &str) -> RawMail {
    RawMail { uid, body: Some(body.as_bytes().to_vec()) }
}

#[test]
fn conformant_document_with_reject_policy() {
    let doc = document(Some("r1"), "r", "pass", "pass");
    let report = parse_report(doc.as_bytes()).unwrap();
    assert_eq!(report.policy_published.pct, 100);
    assert_eq!(report.policy_published.p, DispositionType::Reject);
    assert_eq!(report.record.len(), 1);
    assert_eq!(report.record[0].row.policy_evaluated.dkim, Some(DMARCResultType::Pass));
    assert_eq!(report.record[0].row.policy_evaluated.spf, Some(DMARCResultType::Pass));
    assert_eq!(report.record[0].row.count, 3);
    assert_eq!(report.report_metadata.report_id, "r1");
}

#[test]
fn short_and_full_alignment_spellings_agree() {
    let short = parse_report(document(Some("a"), "r", "pass", "pass").as_bytes()).unwrap();
    let full = parse_report(document(Some("a"), "relaxed", "pass", "pass").as_bytes()).unwrap();
    assert_eq!(short.policy_published.adkim, Some(AlignmentType::Relaxed));
    assert_eq!(full.policy_published.adkim, Some(AlignmentType::Relaxed));
    assert_eq!(alignment_from("s"), Some(AlignmentType::Strict));
    assert_eq!(alignment_from("strict"), Some(AlignmentType::Strict));
    assert_eq!(alignment_from("R"), None);
    assert_eq!(dkim_result_from("temperror"), Some(DKIMResultType::TemporaryError));
    assert_eq!(dkim_result_from("temporary_error"), Some(DKIMResultType::TemporaryError));
}

#[test]
fn missing_report_id_gives_one_error() {
    let doc = document(None, "r", "pass", "pass");
    let files = vec![doc.as_bytes().to_vec()];
    let (reports, errors) = parse_xml_files(&files);
    assert_eq!(reports.len(), 0);
    assert_eq!(errors.len(), 1);
    assert_eq!(errors[0].xml, doc);
    assert_eq!(errors[0].error, "missing or invalid element: report_id");
}

#[test]
fn every_document_is_a_report_or_an_error() {
    let good = document(Some("a"), "r", "pass", "fail");
    let bad = document(Some("b"), "x", "pass", "pass");
    let body = format!("Subject: reports\n\n{good}\n--\n{bad}\n--\n{good}");
    let mails = vec![mail(1, &body), RawMail { uid: 2, body: None }, mail(3, "no report here")];
    let files = extract_xml_files(&mails);
    assert_eq!(files.len(), 3);
    let (reports, errors) = parse_xml_files(&files);
    assert_eq!(reports.len() + errors.len(), files.len());
    assert_eq!(reports.len(), 2);
    assert_eq!(errors.len(), 1);
    assert_eq!(errors[0].error, "missing or invalid element: adkim");
}

#[test]
fn snapshot_counts_its_own_contents() {
    let pass = document(Some("a"), "r", "pass", "fail");
    let fail = document(Some("b"), "r", "fail", "fail");
    let broken = "<feedback><report_metadata></feedback>";
    let body = format!("{pass}{fail}{broken}");
    let state = run_cycle(Ok(vec![mail(7, &body)]), Some(1_700_000_000)).unwrap();
    assert_eq!(state.mails.len(), 1);
    assert_eq!(state.xml_files, 3);
    assert_eq!(state.reports.len(), 2);
    assert_eq!(state.xml_errors.len(), 1);
    assert_eq!(state.summary.report_count, state.reports.len());
    assert_eq!(state.summary.xml_error_count, state.xml_errors.len());
    assert_eq!(state.summary.mail_count, 1);
    assert_eq!(state.summary.xml_file_count, 3);
    assert_eq!(state.summary.pass_count, 1);
    assert_eq!(state.summary.fail_count, 1);
    assert_eq!(state.summary.last_update, 1_700_000_000);
    assert_eq!(state.last_update, 1_700_000_000);
    assert_eq!(state.xml_errors[0].error, "elements are not nested properly");
}

#[test]
fn failed_fetch_keeps_state() {
    let first = run_cycle(Ok(vec![mail(1, &document(Some("a"), "r", "pass", "pass"))]), Some(5));
    let mut state = AppState::new();
    apply_cycle(&mut state, first);
    let before = state.clone();
    let outcome = run_cycle(Err(String::from("connection refused")), Some(9));
    assert_eq!(outcome, Err(CycleError::Fetch(String::from("connection refused"))));
    apply_cycle(&mut state, outcome);
    assert_eq!(state, before);
    assert_eq!(state.last_update, 5);
    assert_eq!(state.reports.len(), 1);
}

#[test]
fn unreadable_clock_keeps_state() {
    let mut state = AppState::new();
    let outcome = run_cycle(Ok(vec![mail(1, &document(Some("a"), "r", "pass", "pass"))]), None);
    assert_eq!(outcome, Err(CycleError::Clock));
    apply_cycle(&mut state, outcome);
    assert_eq!(state, AppState::new());
}

#[test]
fn publish_replaces_every_field() {
    let mut state = AppState::new();
    apply_cycle(&mut state, run_cycle(Ok(vec![mail(1, &document(Some("a"), "r", "pass", "pass"))]), Some(5)));
    let next = run_cycle(Ok(vec![]), Some(6)).unwrap();
    state.publish(next.clone());
    assert_eq!(state, next);
    assert_eq!(state.reports.len(), 0);
    assert_eq!(state.summary.report_count, 0);
    assert_eq!(state.last_update, 6);
    assert_eq!(state.summary.last_update, 6);
}

#[test]
fn shutdown_while_waiting_exits_before_next_tick() {
    let mut s = Scheduler::new();
    assert_eq!(s.step(Event::CycleFinished), Action::Wait);
    assert_eq!(s.phase, Phase::Waiting);
    assert_eq!(s.step(Event::ShutdownRequested), Action::Exit);
    assert!(s.is_stopped());
    assert_eq!(s.step(Event::TimerFired), Action::Exit);
}

#[test]
fn shutdown_during_cycle_waits_for_publish() {
    let mut s = Scheduler::new();
    assert_eq!(s.step(Event::ShutdownRequested), Action::Wait);
    assert_eq!(s.phase, Phase::Running);
    assert_eq!(s.step(Event::TimerFired), Action::Wait);
    assert_eq!(s.step(Event::CycleFinished), Action::Exit);
    assert!(s.is_stopped());
}

#[test]
fn timer_starts_next_cycle() {
    let mut s = Scheduler::new();
    assert_eq!(s.step(Event::CycleFinished), Action::Wait);
    assert_eq!(s.step(Event::TimerFired), Action::StartCycle);
    assert_eq!(s.phase, Phase::Running);
}

#[test]
fn ip_addresses() {
    assert_eq!(ip_from("125.125.125.125"), Some(IpAddress::V4(125, 125, 125, 125)));
    assert_eq!(ip_from("0.0.0.0"), Some(IpAddress::V4(0, 0, 0, 0)));
    assert_eq!(ip_from("2001:db8::1"), Some(IpAddress::V6(String::from("2001:db8::1"))));
    assert_eq!(ip_from("256.1.1.1"), None);
    assert_eq!(ip_from("1.2.3"), None);
    assert_eq!(ip_from("1.2.3.4.5"), None);
    assert_eq!(ip_from("example.org"), None);
}

#[test]
fn numbers() {
    assert_eq!(number_from("100", 100), Some(100));
    assert_eq!(number_from("101", 100), None);
    assert_eq!(number_from("4294967295", u32::MAX), Some(u32::MAX));
    assert_eq!(number_from("4294967296", u32::MAX), None);
    assert_eq!(number_from("", 10), None);
    assert_eq!(number_from("1a", 10), None);
}

#[test]
fn pct_above_hundred_is_an_error() {
    let doc = document(Some("a"), "r", "pass", "pass").replace("<pct>100</pct>", "<pct>101</pct>");
    match parse_report(doc.as_bytes()) {
        Err(DecodeError::Field(name)) => assert_eq!(name, "pct"),
        other => panic!("unexpected {other:?}"),
    }
}

#[test]
fn malformed_documents() {
    assert_eq!(parse_report(b"<feedback"), Err(DecodeError::Syntax));
    assert_eq!(parse_report(b"<a></b>"), Err(DecodeError::Structure));
    assert_eq!(parse_report(b""), Err(DecodeError::Structure));
    let e = DecodeError::Syntax.message();
    assert_eq!(e, "not an XML document");
}

#[test]
fn invalid_utf8_is_replaced_in_errors() {
    let files = vec![vec![0x3c, 0x61, 0x3e, 0xff, 0x3c, 0x2f, 0x61, 0x3e]];
    let (reports, errors) = parse_xml_files(&files);
    assert!(reports.is_empty());
    assert_eq!(errors[0].xml, "<a>\u{fffd}</a>");
}

#[test]
fn documents_in_mail_bodies() {
    let docs = extract_documents(b"x<feedback>1</feedback>y<feedback a=\"b\">2</feedback>z<feedback>");
    assert_eq!(docs, vec![b"<feedback>1</feedback>".to_vec(), b"<feedback a=\"b\">2</feedback>".to_vec()]);
    assert!(extract_documents(b"").is_empty());
}

#[test]
fn trimming() {
    assert_eq!(trim_text("  a b \n"), "a b");
    assert_eq!(trim_text(" \t "), "");
    assert_eq!(trim_text("x"), "x");
}

#[test]
fn empty_summary_and_state() {
    let s = Summary::empty();
    assert_eq!(s.report_count, 0);
    let st = AppState::new();
    assert_eq!(st.summary, s);
    assert_eq!(st.xml_files, 0);
}

#[test]
fn configuration_defaults() {
    let c = Configuration::new(
        String::from("imap.example.org"),
        String::from("user"),
        String::from("secret"),
        String::new(),
    );
    assert_eq!(c.imap_port, 993);
    assert_eq!(c.imap_timeout, 10);
    assert_eq!(c.imap_check_interval, 1000);
    assert_eq!(c.http_server_port, 8080);
    assert_eq!(c.http_server_binding, "0.0.0.0");
    assert_eq!(c.http_server_user, "dmarc");
    assert_eq!(c.log_level, LogLevel::Info);
    assert_eq!(c.imap_host, "imap.example.org");
}

#[test]
fn entities_and_empty_elements() {
    let doc = document(Some("a&amp;b&lt;c&gt;&quot;&apos;"), "r", "pass", "pass")
        .replace("<email>dmarc@example.org</email>", "<email>dmarc@example.org</email><extra_contact_info/>")
        .replace("192.0.2.1", "2001:db8::7");
    let report = parse_report(doc.as_bytes()).unwrap();
    assert_eq!(report.report_metadata.report_id, "a&b<c>\"'");
    assert_eq!(report.report_metadata.extra_contact_info, Some(String::new()));
    assert_eq!(report.record[0].row.source_ip, IpAddress::V6(String::from("2001:db8::7")));
}

#[test]
fn unknown_enumeration_value_is_an_error() {
    let doc = document(Some("a"), "r", "maybe", "pass");
    match parse_report(doc.as_bytes()) {
        Err(DecodeError::Field(name)) => assert_eq!(name, "dkim"),
        other => panic!("unexpected {other:?}"),
    }
}

#[test]
fn report_without_records_is_an_error() {
    let doc = document(Some("a"), "r", "pass", "pass");
    let start = doc.find("<record>").unwrap();
    let end = doc.find("</record>").unwrap() + "</record>".len();
    let without = format!("{}{}", &doc[..start], &doc[end..]);
    match parse_report(without.as_bytes()) {
        Err(DecodeError::Field(name)) => assert_eq!(name, "record"),
        other => panic!("unexpected {other:?}"),
    }
}

#[test]
fn comments_and_declarations_are_skipped() {
    let doc = document(Some("a"), "r", "pass", "pass")
        .replace("<feedback>", "<!DOCTYPE feedback>\n<!-- sent by a > b -->\n<feedback>");
    let report = parse_report(doc.as_bytes()).unwrap();
    assert_eq!(report.report_metadata.report_id, "a");
    assert_eq!(parse_report(b"<!-- unterminated"), Err(DecodeError::Syntax));
}
