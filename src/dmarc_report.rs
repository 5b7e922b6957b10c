//! The aggregate report format of RFC 7489, appendix C, and the decoding of
//! its enumerated values and numbers from text.
use vstd::prelude::*;

use crate::text::same_text;

verus! {

#[derive(Debug, Clone, PartialEq)]
pub struct DateRangeType {
    pub begin: u32,
    pub end: u32,
}

#[derive(Debug, Clone, PartialEq)]
pub struct ReportMetadataType {
    pub org_name: String,
    pub email: String,
    pub extra_contact_info: Option<String>,
    pub report_id: String,
    pub date_range: DateRangeType,
    pub error: Option<Vec<String>>,
}

#[derive(Debug, Clone, Copy, PartialEq, Eq, Structural)]
pub enum AlignmentType {
    Relaxed,
    Strict,
}

#[derive(Debug, Clone, Copy, PartialEq, Eq, Structural)]
pub enum DispositionType {
    /// There is no preference on how a failed DMARC should be handled.
    NoPolicy,
    /// The message should be quarantined, which usually means the spam folder.
    Quarantine,
    /// The message should be rejected.
    Reject,
}

#[derive(Debug, Clone, PartialEq)]
pub struct PolicyPublishedType {
    pub domain: String,
    pub adkim: Option<AlignmentType>,
    pub aspf: Option<AlignmentType>,
    pub p: DispositionType,
    pub sp: Option<DispositionType>,
    pub pct: u8,
    pub fo: Option<String>,
}

#[derive(Debug, Clone, Copy, PartialEq, Eq, Structural)]
pub enum DMARCResultType {
    Pass,
    Fail,
}

#[derive(Debug, Clone, Copy, PartialEq, Eq, Structural)]
pub enum PolicyOverrideType {
    Forwarded,
    SampledOut,
    TrustedForwarder,
    MailingList,
    LocalPolicy,
    Other,
}

/// Why a receiver applied a policy other than the published one. The element
/// that holds the kind is named `type` in the document.
#[derive(Debug, Clone, PartialEq)]
pub struct PolicyOverrideReason {
    pub kind: PolicyOverrideType,
    pub comment: Option<String>,
}

#[derive(Debug, Clone, PartialEq)]
pub struct PolicyEvaluatedType {
    pub disposition: DispositionType,
    pub dkim: Option<DMARCResultType>,
    pub spf: Option<DMARCResultType>,
    pub reason: Option<Vec<PolicyOverrideReason>>,
}

/// The address that a record's messages came from.
#[derive(Debug, Clone, PartialEq)]
pub enum IpAddress {
    /// An IPv4 address, by its four octets.
    V4(u8, u8, u8, u8),
    /// An IPv6 address, as written in the report.
    V6(String),
}

#[derive(Debug, Clone, PartialEq)]
pub struct RowType {
    pub source_ip: IpAddress,
    pub count: u32,
    pub policy_evaluated: PolicyEvaluatedType,
}

#[derive(Debug, Clone, PartialEq)]
pub struct IdentifierType {
    pub envelope_to: Option<String>,
    pub envelope_from: Option<String>,
    pub header_from: String,
}

#[derive(Debug, Clone, Copy, PartialEq, Eq, Structural)]
pub enum DKIMResultType {
    NoResult,
    Pass,
    Fail,
    Policy,
    Neutral,
    TemporaryError,
    PermanentError,
}

#[derive(Debug, Clone, PartialEq)]
pub struct DKIMAuthResultType {
    pub domain: String,
    pub selector: Option<String>,
    pub result: DKIMResultType,
    pub human_result: Option<String>,
}

#[derive(Debug, Clone, Copy, PartialEq, Eq, Structural)]
pub enum SPFDomainScope {
    Helo,
    Mfrom,
}

#[derive(Debug, Clone, Copy, PartialEq, Eq, Structural)]
pub enum SPFResultType {
    NoResult,
    Neutral,
    Pass,
    Fail,
    SoftFail,
    TemporaryError,
    PermanentError,
}

#[derive(Debug, Clone, PartialEq)]
pub struct SPFAuthResultType {
    pub domain: String,
    pub scope: Option<SPFDomainScope>,
    pub result: SPFResultType,
}

#[derive(Debug, Clone, PartialEq)]
pub struct AuthResultType {
    pub dkim: Option<Vec<DKIMAuthResultType>>,
    pub spf: Vec<SPFAuthResultType>,
}

#[derive(Debug, Clone, PartialEq)]
pub struct RecordType {
    pub row: RowType,
    pub identifiers: IdentifierType,
    pub auth_results: AuthResultType,
}

#[derive(Debug, Clone, PartialEq)]
pub struct Report {
    pub version: Option<String>,
    pub report_metadata: ReportMetadataType,
    pub policy_published: PolicyPublishedType,
    pub record: Vec<RecordType>,
}

/// The alignment mode that a text names: senders write either the short tag
/// of the policy record (`r`, `s`) or the full word (`relaxed`, `strict`).
pub open spec fn alignment_of(s: Seq<char>) -> Option<AlignmentType> {
    if s == "r"@ || s == "relaxed"@ {
        Some(AlignmentType::Relaxed)
    } else if s == "s"@ || s == "strict"@ {
        Some(AlignmentType::Strict)
    } else {
        None
    }
}

pub open spec fn disposition_of(s: Seq<char>) -> Option<DispositionType> {
    if s == "none"@ {
        Some(DispositionType::NoPolicy)
    } else if s == "quarantine"@ {
        Some(DispositionType::Quarantine)
    } else if s == "reject"@ {
        Some(DispositionType::Reject)
    } else {
        None
    }
}

pub open spec fn dmarc_result_of(s: Seq<char>) -> Option<DMARCResultType> {
    if s == "pass"@ {
        Some(DMARCResultType::Pass)
    } else if s == "fail"@ {
        Some(DMARCResultType::Fail)
    } else {
        None
    }
}

pub open spec fn override_of(s: Seq<char>) -> Option<PolicyOverrideType> {
    if s == "forwarded"@ {
        Some(PolicyOverrideType::Forwarded)
    } else if s == "sampled_out"@ {
        Some(PolicyOverrideType::SampledOut)
    } else if s == "trusted_forwarder"@ {
        Some(PolicyOverrideType::TrustedForwarder)
    } else if s == "mailing_list"@ {
        Some(PolicyOverrideType::MailingList)
    } else if s == "local_policy"@ {
        Some(PolicyOverrideType::LocalPolicy)
    } else if s == "other"@ {
        Some(PolicyOverrideType::Other)
    } else {
        None
    }
}

/// DKIM outcomes; the two error outcomes are written `temperror` and
/// `permerror`, or in full as `temporary_error` and `permanent_error`.
pub open spec fn dkim_result_of(s: Seq<char>) -> Option<DKIMResultType> {
    if s == "none"@ {
        Some(DKIMResultType::NoResult)
    } else if s == "pass"@ {
        Some(DKIMResultType::Pass)
    } else if s == "fail"@ {
        Some(DKIMResultType::Fail)
    } else if s == "policy"@ {
        Some(DKIMResultType::Policy)
    } else if s == "neutral"@ {
        Some(DKIMResultType::Neutral)
    } else if s == "temperror"@ || s == "temporary_error"@ {
        Some(DKIMResultType::TemporaryError)
    } else if s == "permerror"@ || s == "permanent_error"@ {
        Some(DKIMResultType::PermanentError)
    } else {
        None
    }
}

pub open spec fn spf_scope_of(s: Seq<char>) -> Option<SPFDomainScope> {
    if s == "helo"@ {
        Some(SPFDomainScope::Helo)
    } else if s == "mfrom"@ {
        Some(SPFDomainScope::Mfrom)
    } else {
        None
    }
}

/// SPF outcomes, with the same two spellings of the error outcomes as DKIM's.
pub open spec fn spf_result_of(s: Seq<char>) -> Option<SPFResultType> {
    if s == "none"@ {
        Some(SPFResultType::NoResult)
    } else if s == "neutral"@ {
        Some(SPFResultType::Neutral)
    } else if s == "pass"@ {
        Some(SPFResultType::Pass)
    } else if s == "fail"@ {
        Some(SPFResultType::Fail)
    } else if s == "softfail"@ {
        Some(SPFResultType::SoftFail)
    } else if s == "temperror"@ || s == "temporary_error"@ {
        Some(SPFResultType::TemporaryError)
    } else if s == "permerror"@ || s == "permanent_error"@ {
        Some(SPFResultType::PermanentError)
    } else {
        None
    }
}

pub fn alignment_from(s: &str) -> (r: Option<AlignmentType>)
    ensures
        r == alignment_of(s@),
{
    if same_text(s, "r") || same_text(s, "relaxed") {
        Some(AlignmentType::Relaxed)
    } else if same_text(s, "s") || same_text(s, "strict") {
        Some(AlignmentType::Strict)
    } else {
        None
    }
}

pub fn disposition_from(s: &str) -> (r: Option<DispositionType>)
    ensures
        r == disposition_of(s@),
{
    if same_text(s, "none") {
        Some(DispositionType::NoPolicy)
    } else if same_text(s, "quarantine") {
        Some(DispositionType::Quarantine)
    } else if same_text(s, "reject") {
        Some(DispositionType::Reject)
    } else {
        None
    }
}

pub fn dmarc_result_from(s: &str) -> (r: Option<DMARCResultType>)
    ensures
        r == dmarc_result_of(s@),
{
    if same_text(s, "pass") {
        Some(DMARCResultType::Pass)
    } else if same_text(s, "fail") {
        Some(DMARCResultType::Fail)
    } else {
        None
    }
}

pub fn override_from(s: &str) -> (r: Option<PolicyOverrideType>)
    ensures
        r == override_of(s@),
{
    if same_text(s, "forwarded") {
        Some(PolicyOverrideType::Forwarded)
    } else if same_text(s, "sampled_out") {
        Some(PolicyOverrideType::SampledOut)
    } else if same_text(s, "trusted_forwarder") {
        Some(PolicyOverrideType::TrustedForwarder)
    } else if same_text(s, "mailing_list") {
        Some(PolicyOverrideType::MailingList)
    } else if same_text(s, "local_policy") {
        Some(PolicyOverrideType::LocalPolicy)
    } else if same_text(s, "other") {
        Some(PolicyOverrideType::Other)
    } else {
        None
    }
}

pub fn dkim_result_from(s: &str) -> (r: Option<DKIMResultType>)
    ensures
        r == dkim_result_of(s@),
{
    if same_text(s, "none") {
        Some(DKIMResultType::NoResult)
    } else if same_text(s, "pass") {
        Some(DKIMResultType::Pass)
    } else if same_text(s, "fail") {
        Some(DKIMResultType::Fail)
    } else if same_text(s, "policy") {
        Some(DKIMResultType::Policy)
    } else if same_text(s, "neutral") {
        Some(DKIMResultType::Neutral)
    } else if same_text(s, "temperror") || same_text(s, "temporary_error") {
        Some(DKIMResultType::TemporaryError)
    } else if same_text(s, "permerror") || same_text(s, "permanent_error") {
        Some(DKIMResultType::PermanentError)
    } else {
        None
    }
}

pub fn spf_scope_from(s: &str) -> (r: Option<SPFDomainScope>)
    ensures
        r == spf_scope_of(s@),
{
    if same_text(s, "helo") {
        Some(SPFDomainScope::Helo)
    } else if same_text(s, "mfrom") {
        Some(SPFDomainScope::Mfrom)
    } else {
        None
    }
}

pub fn spf_result_from(s: &str) -> (r: Option<SPFResultType>)
    ensures
        r == spf_result_of(s@),
{
    if same_text(s, "none") {
        Some(SPFResultType::NoResult)
    } else if same_text(s, "neutral") {
        Some(SPFResultType::Neutral)
    } else if same_text(s, "pass") {
        Some(SPFResultType::Pass)
    } else if same_text(s, "fail") {
        Some(SPFResultType::Fail)
    } else if same_text(s, "softfail") {
        Some(SPFResultType::SoftFail)
    } else if same_text(s, "temperror") || same_text(s, "temporary_error") {
        Some(SPFResultType::TemporaryError)
    } else if same_text(s, "permerror") || same_text(s, "permanent_error") {
        Some(SPFResultType::PermanentError)
    } else {
        None
    }
}

pub open spec fn is_digit(c: char) -> bool {
    '0' <= c && c <= '9'
}

pub open spec fn digit_value(c: char) -> int {
    c as int - '0' as int
}

/// The number that a run of decimal digits writes.
pub open spec fn decimal_value(s: Seq<char>) -> int
    decreases s.len(),
{
    if s.len() == 0 {
        0
    } else {
        decimal_value(s.drop_last()) * 10 + digit_value(s.last())
    }
}

pub open spec fn all_digits(s: Seq<char>) -> bool {
    forall|k: int| 0 <= k < s.len() ==> is_digit(#[trigger] s[k])
}

/// The number that a text writes in decimal, when it is one of at most `max`.
pub open spec fn number_of(s: Seq<char>, max: int) -> Option<int> {
    if s.len() > 0 && all_digits(s) && decimal_value(s) <= max {
        Some(decimal_value(s))
    } else {
        None
    }
}

proof fn lemma_decimal_grows(s: Seq<char>, i: int)
    requires
        0 <= i <= s.len(),
        all_digits(s),
    ensures
        0 <= decimal_value(s.subrange(0, i)) <= decimal_value(s),
    decreases s.len() - i,
{
    if i < s.len() {
        lemma_decimal_grows(s, i + 1);
        assert(s.subrange(0, i + 1).drop_last() =~= s.subrange(0, i));
        assert(is_digit(s[i]));
    } else {
        assert(s.subrange(0, i) =~= s);
        lemma_decimal_nonneg(s);
    }
}

proof fn lemma_decimal_nonneg(s: Seq<char>)
    requires
        all_digits(s),
    ensures
        decimal_value(s) >= 0,
    decreases s.len(),
{
    if s.len() > 0 {
        assert(all_digits(s.drop_last()));
        assert(is_digit(s[s.len() - 1]));
        lemma_decimal_nonneg(s.drop_last());
    }
}

/// Reads a decimal number of at most `max`.
pub fn number_from(s: &str, max: u32) -> (r: Option<u32>)
    ensures
        match r {
            Some(v) => number_of(s@, max as int) == Some(v as int),
            None => number_of(s@, max as int) is None,
        },
{
    let n = s.unicode_len();
    if n == 0 {
        return None;
    }
    let mut v: u64 = 0;
    let mut i: usize = 0;
    while i < n
        invariant
            n == s@.len(),
            i <= n,
            v <= max,
            v == decimal_value(s@.subrange(0, i as int)),
            all_digits(s@.subrange(0, i as int)),
        decreases n - i,
    {
        let c = s.get_char(i);
        if !('0' <= c && c <= '9') {
            assert(!all_digits(s@));
            return None;
        }
        let d = (c as u32 - '0' as u32) as u64;
        assert(s@.subrange(0, i + 1).drop_last() =~= s@.subrange(0, i as int));
        assert(all_digits(s@.subrange(0, i + 1)));
        v = v * 10 + d;
        i += 1;
        if v > max as u64 {
            proof {
                if all_digits(s@) {
                    lemma_decimal_grows(s@, i as int);
                }
            }
            return None;
        }
    }
    assert(s@.subrange(0, n as int) =~= s@);
    Some(v as u32)
}

/// The first index at or after `i` that holds `c`, or the length when none does.
pub open spec fn find_char(s: Seq<char>, i: int, c: char) -> int
    decreases s.len() - i,
{
    if i < 0 || i >= s.len() {
        s.len() as int
    } else if s[i] == c {
        i
    } else {
        find_char(s, i + 1, c)
    }
}

/// The four octets of an IPv4 address in dotted decimal notation.
pub open spec fn ipv4_of(s: Seq<char>) -> Option<(u8, u8, u8, u8)> {
    let d1 = find_char(s, 0, '.');
    let d2 = find_char(s, d1 + 1, '.');
    let d3 = find_char(s, d2 + 1, '.');
    if d3 >= s.len() {
        None
    } else {
        match (
            number_of(s.subrange(0, d1), 255),
            number_of(s.subrange(d1 + 1, d2), 255),
            number_of(s.subrange(d2 + 1, d3), 255),
            number_of(s.subrange(d3 + 1, s.len() as int), 255),
        ) {
            (Some(a), Some(b), Some(c), Some(d)) => Some((a as u8, b as u8, c as u8, d as u8)),
            _ => None,
        }
    }
}

pub open spec fn is_ipv6_char(c: char) -> bool {
    ('0' <= c && c <= '9') || ('a' <= c && c <= 'f') || ('A' <= c && c <= 'F') || c == ':' || c
        == '.'
}

/// Text in the shape of an IPv6 address: hexadecimal groups and colons, with
/// dots for an embedded IPv4 part.
pub open spec fn ipv6_text(s: Seq<char>) -> bool {
    &&& find_char(s, 0, ':') < s.len()
    &&& forall|k: int| 0 <= k < s.len() ==> is_ipv6_char(#[trigger] s[k])
}

/// That `v` is the address that the text `s` writes.
pub open spec fn ip_fits(s: Seq<char>, v: IpAddress) -> bool {
    match v {
        IpAddress::V4(a, b, c, d) => ipv4_of(s) == Some((a, b, c, d)),
        IpAddress::V6(x) => ipv4_of(s) is None && ipv6_text(s) && x@ == s,
    }
}

fn find_char_from(s: &str, i: usize, c: char) -> (r: usize)
    requires
        i <= s@.len(),
    ensures
        r as int == find_char(s@, i as int, c),
        i <= r <= s@.len(),
{
    let n = s.unicode_len();
    let mut k = i;
    while k < n
        invariant
            n == s@.len(),
            i <= k <= n,
            find_char(s@, i as int, c) == find_char(s@, k as int, c),
        decreases n - k,
    {
        if s.get_char(k) == c {
            return k;
        }
        k += 1;
    }
    k
}

fn ipv4_from(s: &str) -> (r: Option<(u8, u8, u8, u8)>)
    ensures
        r == ipv4_of(s@),
{
    let n = s.unicode_len();
    let d1 = find_char_from(s, 0, '.');
    if d1 >= n {
        return None;
    }
    let d2 = find_char_from(s, d1 + 1, '.');
    if d2 >= n {
        return None;
    }
    let d3 = find_char_from(s, d2 + 1, '.');
    if d3 >= n {
        return None;
    }
    let a = number_from(s.substring_char(0, d1), 255);
    let b = number_from(s.substring_char(d1 + 1, d2), 255);
    let c = number_from(s.substring_char(d2 + 1, d3), 255);
    let d = number_from(s.substring_char(d3 + 1, n), 255);
    match (a, b, c, d) {
        (Some(a), Some(b), Some(c), Some(d)) => Some((a as u8, b as u8, c as u8, d as u8)),
        _ => None,
    }
}

fn ipv6_char(c: char) -> (r: bool)
    ensures
        r == is_ipv6_char(c),
{
    ('0' <= c && c <= '9') || ('a' <= c && c <= 'f') || ('A' <= c && c <= 'F') || c == ':' || c
        == '.'
}

/// Reads an IP address, in dotted decimal for IPv4 or in colon notation for IPv6.
pub fn ip_from(s: &str) -> (r: Option<IpAddress>)
    ensures
        match r {
            Some(v) => ip_fits(s@, v),
            None => forall|v: IpAddress| !#[trigger] ip_fits(s@, v),
        },
{
    let v4 = ipv4_from(s);
    if let Some((a, b, c, d)) = v4 {
        return Some(IpAddress::V4(a, b, c, d));
    }
    let n = s.unicode_len();
    if find_char_from(s, 0, ':') >= n {
        return None;
    }
    let mut k: usize = 0;
    while k < n
        invariant
            n == s@.len(),
            k <= n,
            ipv4_of(s@) is None,
            forall|m: int| 0 <= m < k ==> is_ipv6_char(#[trigger] s@[m]),
        decreases n - k,
    {
        if !ipv6_char(s.get_char(k)) {
            return None;
        }
        k += 1;
    }
    Some(IpAddress::V6(String::from_str(s)))
}

} // verus!
