//! Reading an aggregate report out of the tokens of its XML document.
//!
//! Each `*_fits` predicate says that a value is what the element whose content
//! is the span `[lo, hi)` of the tokens encodes. Each decoder returns the value
//! that fits, or an error exactly when no value fits.
use vstd::prelude::*;

use crate::dmarc_report::{
    alignment_from, alignment_of, disposition_from, disposition_of, dkim_result_from,
    dkim_result_of, dmarc_result_from, dmarc_result_of, ip_fits, ip_from, number_from, number_of,
    override_from, override_of, spf_result_from, spf_result_of, spf_scope_from, spf_scope_of,
    AlignmentType, AuthResultType, DKIMAuthResultType, DMARCResultType, DateRangeType,
    DispositionType, IdentifierType, PolicyEvaluatedType, PolicyOverrideReason,
    PolicyPublishedType, RecordType, Report, ReportMetadataType, RowType, SPFAuthResultType,
};
use crate::doc::{
    child, children, find_child, find_children, leaf_text, root, root_span, text_in, Found,
};
use crate::xml::{lex, tokenize, tokens_view, Token, TokenV};

verus! {

/// Why a document is not a report.
#[derive(Debug, Clone, PartialEq)]
pub enum DecodeError {
    /// The bytes are not a sequence of XML tags and character data.
    Syntax,
    /// Tags are not nested properly, or the root is not a report.
    Structure,
    /// The named element is missing or holds an invalid value.
    Field(String),
}

impl DecodeError {
    /// A description of the error for people.
    pub fn message(&self) -> (r: String)
        ensures
            r@ == match self {
                DecodeError::Syntax => "not an XML document"@,
                DecodeError::Structure => "elements are not nested properly"@,
                DecodeError::Field(name) => "missing or invalid element: "@ + name@,
            },
    {
        match self {
            DecodeError::Syntax => String::from_str("not an XML document"),
            DecodeError::Structure => String::from_str("elements are not nested properly"),
            DecodeError::Field(name) => String::from_str("missing or invalid element: ").concat(
                name.as_str(),
            ),
        }
    }
}

fn field_error(name: &str) -> (r: DecodeError)
    ensures
        r matches DecodeError::Field(n) && n@ == name@,
{
    DecodeError::Field(String::from_str(name))
}

/// The text of the child element `name`: `Some(None)` when it is absent,
/// `None` when the element holds elements or the nesting is broken.
pub open spec fn field(t: Seq<TokenV>, lo: int, hi: int, name: Seq<char>) -> Option<
    Option<Seq<char>>,
> {
    match find_child(t, lo, hi, name) {
        Found::Span(a, b) => match leaf_text(t, a, b) {
            Some(x) => Some(Some(x)),
            None => None,
        },
        Found::Absent => Some(None),
        Found::Broken => None,
    }
}

/// The text of a child element that must be present.
pub open spec fn required(t: Seq<TokenV>, lo: int, hi: int, name: Seq<char>) -> Option<Seq<char>> {
    match field(t, lo, hi, name) {
        Some(Some(x)) => Some(x),
        _ => None,
    }
}

pub open spec fn text_fits(t: Seq<TokenV>, lo: int, hi: int, name: Seq<char>, v: String) -> bool {
    required(t, lo, hi, name) == Some(v@)
}

pub open spec fn opt_text_fits(
    t: Seq<TokenV>,
    lo: int,
    hi: int,
    name: Seq<char>,
    v: Option<String>,
) -> bool {
    match v {
        Some(s) => field(t, lo, hi, name) == Some(Some(s@)),
        None => field(t, lo, hi, name) == Some(None::<Seq<char>>),
    }
}

/// The number in a child element that must be present, when it is at most `max`.
pub open spec fn number_field(t: Seq<TokenV>, lo: int, hi: int, name: Seq<char>, max: int) -> Option<
    int,
> {
    match required(t, lo, hi, name) {
        Some(x) => number_of(x, max),
        None => None,
    }
}

/// The content span of a child element that must be present.
pub open spec fn span_of(t: Seq<TokenV>, lo: int, hi: int, name: Seq<char>) -> Option<(int, int)> {
    match find_child(t, lo, hi, name) {
        Found::Span(a, b) => Some((a, b)),
        _ => None,
    }
}

fn text_field(t: &Vec<Token>, lo: usize, hi: usize, name: &str) -> (r: Result<
    Option<String>,
    DecodeError,
>)
    requires
        hi <= t@.len(),
    ensures
        !(r matches Err(DecodeError::Syntax)),
        match r {
            Ok(Some(s)) => field(tokens_view(t@), lo as int, hi as int, name@) == Some(Some(s@)),
            Ok(None) => field(tokens_view(t@), lo as int, hi as int, name@) == Some(
                None::<Seq<char>>,
            ),
            Err(_) => field(tokens_view(t@), lo as int, hi as int, name@) is None,
        },
{
    match child(t, lo, hi, name) {
        Ok(Some((a, b))) => match text_in(t, a, b) {
            Some(s) => Ok(Some(s)),
            None => Err(field_error(name)),
        },
        Ok(None) => Ok(None),
        Err(_) => Err(DecodeError::Structure),
    }
}

fn required_text(t: &Vec<Token>, lo: usize, hi: usize, name: &str) -> (r: Result<
    String,
    DecodeError,
>)
    requires
        hi <= t@.len(),
    ensures
        !(r matches Err(DecodeError::Syntax)),
        match r {
            Ok(s) => required(tokens_view(t@), lo as int, hi as int, name@) == Some(s@),
            Err(_) => required(tokens_view(t@), lo as int, hi as int, name@) is None,
        },
{
    match text_field(t, lo, hi, name) {
        Ok(Some(s)) => Ok(s),
        Ok(None) => Err(field_error(name)),
        Err(e) => Err(e),
    }
}

fn number_field_of(t: &Vec<Token>, lo: usize, hi: usize, name: &str, max: u32) -> (r: Result<
    u32,
    DecodeError,
>)
    requires
        hi <= t@.len(),
    ensures
        !(r matches Err(DecodeError::Syntax)),
        match r {
            Ok(v) => number_field(tokens_view(t@), lo as int, hi as int, name@, max as int) == Some(
                v as int,
            ),
            Err(_) => number_field(tokens_view(t@), lo as int, hi as int, name@, max as int) is None,
        },
{
    let s = required_text(t, lo, hi, name)?;
    match number_from(s.as_str(), max) {
        Some(v) => Ok(v),
        None => Err(field_error(name)),
    }
}

fn required_span(t: &Vec<Token>, lo: usize, hi: usize, name: &str) -> (r: Result<
    (usize, usize),
    DecodeError,
>)
    requires
        hi <= t@.len(),
    ensures
        !(r matches Err(DecodeError::Syntax)),
        match r {
            Ok((a, b)) => span_of(tokens_view(t@), lo as int, hi as int, name@) == Some(
                (a as int, b as int),
            ) && a <= b < hi,
            Err(_) => span_of(tokens_view(t@), lo as int, hi as int, name@) is None,
        },
{
    match child(t, lo, hi, name) {
        Ok(Some(p)) => Ok(p),
        Ok(None) => Err(field_error(name)),
        Err(_) => Err(DecodeError::Structure),
    }
}

pub open spec fn date_range_fits(t: Seq<TokenV>, lo: int, hi: int, v: DateRangeType) -> bool {
    &&& number_field(t, lo, hi, "begin"@, u32::MAX as int) == Some(v.begin as int)
    &&& number_field(t, lo, hi, "end"@, u32::MAX as int) == Some(v.end as int)
}

pub fn decode_date_range(t: &Vec<Token>, lo: usize, hi: usize) -> (r: Result<
    DateRangeType,
    DecodeError,
>)
    requires
        hi <= t@.len(),
    ensures
        !(r matches Err(DecodeError::Syntax)),
        match r {
            Ok(v) => date_range_fits(tokens_view(t@), lo as int, hi as int, v),
            Err(_) => forall|v: DateRangeType| !#[trigger] date_range_fits(tokens_view(t@), lo as int, hi as int, v),
        },
{
    let begin = number_field_of(t, lo, hi, "begin", u32::MAX)?;
    let end = number_field_of(t, lo, hi, "end", u32::MAX)?;
    Ok(DateRangeType { begin, end })
}

/// The texts of all child elements named `name`: `None` as the value where
/// there is none, and no value at all where one of them holds elements.
pub open spec fn text_list_fits(
    t: Seq<TokenV>,
    lo: int,
    hi: int,
    name: Seq<char>,
    v: Option<Vec<String>>,
) -> bool {
    match find_children(t, lo, hi, name) {
        Some(sp) => match v {
            None => sp.len() == 0,
            Some(l) => sp.len() > 0 && l@.len() == sp.len() && forall|i: int|
                0 <= i < sp.len() ==> leaf_text(t, #[trigger] sp[i].0, sp[i].1) == Some(l@[i]@),
        },
        None => false,
    }
}

fn decode_text_list(t: &Vec<Token>, lo: usize, hi: usize, name: &str) -> (r: Result<
    Option<Vec<String>>,
    DecodeError,
>)
    requires
        hi <= t@.len(),
    ensures
        !(r matches Err(DecodeError::Syntax)),
        match r {
            Ok(v) => text_list_fits(tokens_view(t@), lo as int, hi as int, name@, v),
            Err(_) => forall|v: Option<Vec<String>>| !#[trigger] text_list_fits(tokens_view(t@), lo as int, hi as int, name@, v),
        },
{
    let ghost tv = tokens_view(t@);
    let spans = match children(t, lo, hi, name) {
        Some(s) => s,
        None => {
            return Err(DecodeError::Structure);
        },
    };
    let ghost sp = crate::doc::spans_view(spans@);
    if spans.len() == 0 {
        return Ok(None);
    }
    let mut out: Vec<String> = Vec::new();
    let mut i: usize = 0;
    while i < spans.len()
        invariant
            tv == tokens_view(t@),
            hi <= t@.len(),
            sp == crate::doc::spans_view(spans@),
            find_children(tv, lo as int, hi as int, name@) == Some(sp),
            sp.len() == spans@.len(),
            forall|j: int| #![trigger spans@[j]] 0 <= j < spans@.len() ==> spans@[j].0 <= spans@[j].1 < hi,
            i <= spans@.len(),
            out@.len() == i,
            forall|j: int| 0 <= j < i ==> leaf_text(tv, #[trigger] sp[j].0, sp[j].1) == Some(out@[j]@),
        decreases spans@.len() - i,
    {
        let (a, b) = spans[i];
        match text_in(t, a, b) {
            Some(s) => {
                out.push(s);
            },
            None => {
                proof {
                    assert forall|v: Option<Vec<String>>| !#[trigger] text_list_fits(tv, lo as int, hi as int, name@, v) by {
                        if text_list_fits(tv, lo as int, hi as int, name@, v) {
                            let l = v->Some_0;
                            assert(leaf_text(tv, sp[i as int].0, sp[i as int].1) == Some(l@[i as int]@));
                        }
                    }
                }
                return Err(field_error(name));
            },
        }
        i += 1;
    }
    Ok(Some(out))
}

pub open spec fn metadata_fits(t: Seq<TokenV>, lo: int, hi: int, v: ReportMetadataType) -> bool {
    &&& text_fits(t, lo, hi, "org_name"@, v.org_name)
    &&& text_fits(t, lo, hi, "email"@, v.email)
    &&& opt_text_fits(t, lo, hi, "extra_contact_info"@, v.extra_contact_info)
    &&& text_fits(t, lo, hi, "report_id"@, v.report_id)
    &&& match span_of(t, lo, hi, "date_range"@) {
        Some((a, b)) => date_range_fits(t, a, b, v.date_range),
        None => false,
    }
    &&& text_list_fits(t, lo, hi, "error"@, v.error)
}

pub fn decode_metadata(t: &Vec<Token>, lo: usize, hi: usize) -> (r: Result<
    ReportMetadataType,
    DecodeError,
>)
    requires
        hi <= t@.len(),
    ensures
        !(r matches Err(DecodeError::Syntax)),
        match r {
            Ok(v) => metadata_fits(tokens_view(t@), lo as int, hi as int, v),
            Err(_) => forall|v: ReportMetadataType| !#[trigger] metadata_fits(tokens_view(t@), lo as int, hi as int, v),
        },
{
    let ghost tv = tokens_view(t@);
    let org_name = required_text(t, lo, hi, "org_name")?;
    let email = required_text(t, lo, hi, "email")?;
    let extra_contact_info = text_field(t, lo, hi, "extra_contact_info")?;
    let report_id = required_text(t, lo, hi, "report_id")?;
    let (a, b) = required_span(t, lo, hi, "date_range")?;
    let date_range = match decode_date_range(t, a, b) {
        Ok(d) => d,
        Err(e) => {
            assert forall|v: ReportMetadataType| !#[trigger] metadata_fits(tv, lo as int, hi as int, v) by {
                if metadata_fits(tv, lo as int, hi as int, v) {
                    assert(date_range_fits(tv, a as int, b as int, v.date_range));
                }
            }
            return Err(e);
        },
    };
    let error = match decode_text_list(t, lo, hi, "error") {
        Ok(l) => l,
        Err(e) => {
            assert forall|v: ReportMetadataType| !#[trigger] metadata_fits(tv, lo as int, hi as int, v) by {
                if metadata_fits(tv, lo as int, hi as int, v) {
                    assert(text_list_fits(tv, lo as int, hi as int, "error"@, v.error));
                }
            }
            return Err(e);
        },
    };
    Ok(ReportMetadataType { org_name, email, extra_contact_info, report_id, date_range, error })
}

pub open spec fn policy_fits(t: Seq<TokenV>, lo: int, hi: int, v: PolicyPublishedType) -> bool {
    &&& text_fits(t, lo, hi, "domain"@, v.domain)
    &&& match field(t, lo, hi, "adkim"@) {
        Some(Some(x)) => alignment_of(x) is Some && v.adkim == alignment_of(x),
        Some(None) => v.adkim is None,
        None => false,
    }
    &&& match field(t, lo, hi, "aspf"@) {
        Some(Some(x)) => alignment_of(x) is Some && v.aspf == alignment_of(x),
        Some(None) => v.aspf is None,
        None => false,
    }
    &&& match required(t, lo, hi, "p"@) {
        Some(x) => disposition_of(x) == Some(v.p),
        None => false,
    }
    &&& match field(t, lo, hi, "sp"@) {
        Some(Some(x)) => disposition_of(x) is Some && v.sp == disposition_of(x),
        Some(None) => v.sp is None,
        None => false,
    }
    &&& number_field(t, lo, hi, "pct"@, 100) == Some(v.pct as int)
    &&& opt_text_fits(t, lo, hi, "fo"@, v.fo)
}

fn optional_alignment(t: &Vec<Token>, lo: usize, hi: usize, name: &str) -> (r: Result<
    Option<AlignmentType>,
    DecodeError,
>)
    requires
        hi <= t@.len(),
    ensures
        !(r matches Err(DecodeError::Syntax)),
        match r {
            Ok(v) => match field(tokens_view(t@), lo as int, hi as int, name@) {
                Some(Some(x)) => alignment_of(x) is Some && v == alignment_of(x),
                Some(None) => v is None,
                None => false,
            },
            Err(_) => match field(tokens_view(t@), lo as int, hi as int, name@) {
                Some(Some(x)) => alignment_of(x) is None,
                Some(None) => false,
                None => true,
            },
        },
{
    match text_field(t, lo, hi, name)? {
        Some(s) => match alignment_from(s.as_str()) {
            Some(a) => Ok(Some(a)),
            None => Err(field_error(name)),
        },
        None => Ok(None),
    }
}

fn optional_disposition(t: &Vec<Token>, lo: usize, hi: usize, name: &str) -> (r: Result<
    Option<DispositionType>,
    DecodeError,
>)
    requires
        hi <= t@.len(),
    ensures
        !(r matches Err(DecodeError::Syntax)),
        match r {
            Ok(v) => match field(tokens_view(t@), lo as int, hi as int, name@) {
                Some(Some(x)) => disposition_of(x) is Some && v == disposition_of(x),
                Some(None) => v is None,
                None => false,
            },
            Err(_) => match field(tokens_view(t@), lo as int, hi as int, name@) {
                Some(Some(x)) => disposition_of(x) is None,
                Some(None) => false,
                None => true,
            },
        },
{
    match text_field(t, lo, hi, name)? {
        Some(s) => match disposition_from(s.as_str()) {
            Some(a) => Ok(Some(a)),
            None => Err(field_error(name)),
        },
        None => Ok(None),
    }
}

fn optional_dmarc_result(t: &Vec<Token>, lo: usize, hi: usize, name: &str) -> (r: Result<
    Option<DMARCResultType>,
    DecodeError,
>)
    requires
        hi <= t@.len(),
    ensures
        !(r matches Err(DecodeError::Syntax)),
        match r {
            Ok(v) => match field(tokens_view(t@), lo as int, hi as int, name@) {
                Some(Some(x)) => dmarc_result_of(x) is Some && v == dmarc_result_of(x),
                Some(None) => v is None,
                None => false,
            },
            Err(_) => match field(tokens_view(t@), lo as int, hi as int, name@) {
                Some(Some(x)) => dmarc_result_of(x) is None,
                Some(None) => false,
                None => true,
            },
        },
{
    match text_field(t, lo, hi, name)? {
        Some(s) => match dmarc_result_from(s.as_str()) {
            Some(a) => Ok(Some(a)),
            None => Err(field_error(name)),
        },
        None => Ok(None),
    }
}

pub fn decode_policy(t: &Vec<Token>, lo: usize, hi: usize) -> (r: Result<
    PolicyPublishedType,
    DecodeError,
>)
    requires
        hi <= t@.len(),
    ensures
        !(r matches Err(DecodeError::Syntax)),
        match r {
            Ok(v) => policy_fits(tokens_view(t@), lo as int, hi as int, v),
            Err(_) => forall|v: PolicyPublishedType| !#[trigger] policy_fits(tokens_view(t@), lo as int, hi as int, v),
        },
{
    let domain = required_text(t, lo, hi, "domain")?;
    let adkim = optional_alignment(t, lo, hi, "adkim")?;
    let aspf = optional_alignment(t, lo, hi, "aspf")?;
    let p = match disposition_from(required_text(t, lo, hi, "p")?.as_str()) {
        Some(d) => d,
        None => {
            return Err(field_error("p"));
        },
    };
    let sp = optional_disposition(t, lo, hi, "sp")?;
    let pct = number_field_of(t, lo, hi, "pct", 100)?;
    let fo = text_field(t, lo, hi, "fo")?;
    Ok(PolicyPublishedType { domain, adkim, aspf, p, sp, pct: pct as u8, fo })
}

pub open spec fn reason_fits(t: Seq<TokenV>, lo: int, hi: int, v: PolicyOverrideReason) -> bool {
    &&& match required(t, lo, hi, "type"@) {
        Some(x) => override_of(x) == Some(v.kind),
        None => false,
    }
    &&& opt_text_fits(t, lo, hi, "comment"@, v.comment)
}

pub fn decode_reason(t: &Vec<Token>, lo: usize, hi: usize) -> (r: Result<
    PolicyOverrideReason,
    DecodeError,
>)
    requires
        hi <= t@.len(),
    ensures
        !(r matches Err(DecodeError::Syntax)),
        match r {
            Ok(v) => reason_fits(tokens_view(t@), lo as int, hi as int, v),
            Err(_) => forall|v: PolicyOverrideReason| !#[trigger] reason_fits(tokens_view(t@), lo as int, hi as int, v),
        },
{
    let kind = match override_from(required_text(t, lo, hi, "type")?.as_str()) {
        Some(k) => k,
        None => {
            return Err(field_error("type"));
        },
    };
    let comment = text_field(t, lo, hi, "comment")?;
    Ok(PolicyOverrideReason { kind, comment })
}

pub open spec fn reason_list_fits(t: Seq<TokenV>, lo: int, hi: int, name: Seq<char>, v: Option<Vec<PolicyOverrideReason>>) -> bool {
    match find_children(t, lo, hi, name) {
        Some(sp) => match v {
            None => sp.len() == 0,
            Some(l) => sp.len() > 0 && l@.len() == sp.len() && forall|i: int|
                0 <= i < sp.len() ==> reason_fits(t, #[trigger] sp[i].0, sp[i].1, l@[i]),
        },
        None => false,
    }
}

fn decode_reason_list(t: &Vec<Token>, lo: usize, hi: usize, name: &str) -> (r: Result<
    Option<Vec<PolicyOverrideReason>>,
    DecodeError,
>)
    requires
        hi <= t@.len(),
    ensures
        !(r matches Err(DecodeError::Syntax)),
        match r {
            Ok(v) => reason_list_fits(tokens_view(t@), lo as int, hi as int, name@, v),
            Err(_) => forall|v: Option<Vec<PolicyOverrideReason>>| !#[trigger] reason_list_fits(tokens_view(t@), lo as int, hi as int, name@, v),
        },
{
    let ghost tv = tokens_view(t@);
    let spans = match children(t, lo, hi, name) {
        Some(s) => s,
        None => {
            return Err(DecodeError::Structure);
        },
    };
    let ghost sp = crate::doc::spans_view(spans@);
    if spans.len() == 0 {
        return Ok(None);
    }
    let mut out: Vec<PolicyOverrideReason> = Vec::new();
    let mut i: usize = 0;
    while i < spans.len()
        invariant
            tv == tokens_view(t@),
            hi <= t@.len(),
            sp == crate::doc::spans_view(spans@),
            find_children(tv, lo as int, hi as int, name@) == Some(sp),
            sp.len() == spans@.len(),
            sp.len() > 0,
            forall|j: int| #![trigger spans@[j]] 0 <= j < spans@.len() ==> spans@[j].0 <= spans@[j].1 < hi,
            i <= spans@.len(),
            out@.len() == i,
            forall|j: int| 0 <= j < i ==> reason_fits(tv, #[trigger] sp[j].0, sp[j].1, out@[j]),
        decreases spans@.len() - i,
    {
        let (a, b) = spans[i];
        match decode_reason(t, a, b) {
            Ok(x) => {
                out.push(x);
            },
            Err(e) => {
                proof {
                    assert forall|v: Option<Vec<PolicyOverrideReason>>| !#[trigger] reason_list_fits(tv, lo as int, hi as int, name@, v) by {
                        if reason_list_fits(tv, lo as int, hi as int, name@, v) {
                            let l = v->Some_0;
                            assert(reason_fits(tv, sp[i as int].0, sp[i as int].1, l@[i as int]));
                        }
                    }
                }
                return Err(e);
            },
        }
        i += 1;
    }
    Ok(Some(out))
}

pub open spec fn evaluated_fits(t: Seq<TokenV>, lo: int, hi: int, v: PolicyEvaluatedType) -> bool {
    &&& match required(t, lo, hi, "disposition"@) {
        Some(x) => disposition_of(x) == Some(v.disposition),
        None => false,
    }
    &&& match field(t, lo, hi, "dkim"@) {
        Some(Some(x)) => dmarc_result_of(x) is Some && v.dkim == dmarc_result_of(x),
        Some(None) => v.dkim is None,
        None => false,
    }
    &&& match field(t, lo, hi, "spf"@) {
        Some(Some(x)) => dmarc_result_of(x) is Some && v.spf == dmarc_result_of(x),
        Some(None) => v.spf is None,
        None => false,
    }
    &&& reason_list_fits(t, lo, hi, "reason"@, v.reason)
}

pub fn decode_evaluated(t: &Vec<Token>, lo: usize, hi: usize) -> (r: Result<
    PolicyEvaluatedType,
    DecodeError,
>)
    requires
        hi <= t@.len(),
    ensures
        !(r matches Err(DecodeError::Syntax)),
        match r {
            Ok(v) => evaluated_fits(tokens_view(t@), lo as int, hi as int, v),
            Err(_) => forall|v: PolicyEvaluatedType| !#[trigger] evaluated_fits(tokens_view(t@), lo as int, hi as int, v),
        },
{
    let ghost tv = tokens_view(t@);
    let disposition = match disposition_from(required_text(t, lo, hi, "disposition")?.as_str()) {
        Some(d) => d,
        None => {
            return Err(field_error("disposition"));
        },
    };
    let dkim = optional_dmarc_result(t, lo, hi, "dkim")?;
    let spf = optional_dmarc_result(t, lo, hi, "spf")?;
    let reason = match decode_reason_list(t, lo, hi, "reason") {
        Ok(l) => l,
        Err(e) => {
            assert forall|v: PolicyEvaluatedType| !#[trigger] evaluated_fits(tv, lo as int, hi as int, v) by {
                if evaluated_fits(tv, lo as int, hi as int, v) {
                    assert(reason_list_fits(tv, lo as int, hi as int, "reason"@, v.reason));
                }
            }
            return Err(e);
        },
    };
    Ok(PolicyEvaluatedType { disposition, dkim, spf, reason })
}

pub open spec fn row_fits(t: Seq<TokenV>, lo: int, hi: int, v: RowType) -> bool {
    &&& match required(t, lo, hi, "source_ip"@) {
        Some(x) => ip_fits(x, v.source_ip),
        None => false,
    }
    &&& number_field(t, lo, hi, "count"@, u32::MAX as int) == Some(v.count as int)
    &&& match span_of(t, lo, hi, "policy_evaluated"@) {
        Some((a, b)) => evaluated_fits(t, a, b, v.policy_evaluated),
        None => false,
    }
}

pub fn decode_row(t: &Vec<Token>, lo: usize, hi: usize) -> (r: Result<RowType, DecodeError>)
    requires
        hi <= t@.len(),
    ensures
        !(r matches Err(DecodeError::Syntax)),
        match r {
            Ok(v) => row_fits(tokens_view(t@), lo as int, hi as int, v),
            Err(_) => forall|v: RowType| !#[trigger] row_fits(tokens_view(t@), lo as int, hi as int, v),
        },
{
    let ghost tv = tokens_view(t@);
    let ip_text = required_text(t, lo, hi, "source_ip")?;
    let source_ip = match ip_from(ip_text.as_str()) {
        Some(ip) => ip,
        None => {
            assert forall|v: RowType| !#[trigger] row_fits(tv, lo as int, hi as int, v) by {
                if row_fits(tv, lo as int, hi as int, v) {
                    assert(ip_fits(ip_text@, v.source_ip));
                }
            }
            return Err(field_error("source_ip"));
        },
    };
    let count = number_field_of(t, lo, hi, "count", u32::MAX)?;
    let (a, b) = required_span(t, lo, hi, "policy_evaluated")?;
    let policy_evaluated = match decode_evaluated(t, a, b) {
        Ok(p) => p,
        Err(e) => {
            assert forall|v: RowType| !#[trigger] row_fits(tv, lo as int, hi as int, v) by {
                if row_fits(tv, lo as int, hi as int, v) {
                    assert(evaluated_fits(tv, a as int, b as int, v.policy_evaluated));
                }
            }
            return Err(e);
        },
    };
    Ok(RowType { source_ip, count, policy_evaluated })
}

pub open spec fn identifiers_fits(t: Seq<TokenV>, lo: int, hi: int, v: IdentifierType) -> bool {
    &&& opt_text_fits(t, lo, hi, "envelope_to"@, v.envelope_to)
    &&& opt_text_fits(t, lo, hi, "envelope_from"@, v.envelope_from)
    &&& text_fits(t, lo, hi, "header_from"@, v.header_from)
}

pub fn decode_identifiers(t: &Vec<Token>, lo: usize, hi: usize) -> (r: Result<
    IdentifierType,
    DecodeError,
>)
    requires
        hi <= t@.len(),
    ensures
        !(r matches Err(DecodeError::Syntax)),
        match r {
            Ok(v) => identifiers_fits(tokens_view(t@), lo as int, hi as int, v),
            Err(_) => forall|v: IdentifierType| !#[trigger] identifiers_fits(tokens_view(t@), lo as int, hi as int, v),
        },
{
    let envelope_to = text_field(t, lo, hi, "envelope_to")?;
    let envelope_from = text_field(t, lo, hi, "envelope_from")?;
    let header_from = required_text(t, lo, hi, "header_from")?;
    Ok(IdentifierType { envelope_to, envelope_from, header_from })
}

pub open spec fn dkim_fits(t: Seq<TokenV>, lo: int, hi: int, v: DKIMAuthResultType) -> bool {
    &&& text_fits(t, lo, hi, "domain"@, v.domain)
    &&& opt_text_fits(t, lo, hi, "selector"@, v.selector)
    &&& match required(t, lo, hi, "result"@) {
        Some(x) => dkim_result_of(x) == Some(v.result),
        None => false,
    }
    &&& opt_text_fits(t, lo, hi, "human_result"@, v.human_result)
}

pub fn decode_dkim(t: &Vec<Token>, lo: usize, hi: usize) -> (r: Result<
    DKIMAuthResultType,
    DecodeError,
>)
    requires
        hi <= t@.len(),
    ensures
        !(r matches Err(DecodeError::Syntax)),
        match r {
            Ok(v) => dkim_fits(tokens_view(t@), lo as int, hi as int, v),
            Err(_) => forall|v: DKIMAuthResultType| !#[trigger] dkim_fits(tokens_view(t@), lo as int, hi as int, v),
        },
{
    let domain = required_text(t, lo, hi, "domain")?;
    let selector = text_field(t, lo, hi, "selector")?;
    let result = match dkim_result_from(required_text(t, lo, hi, "result")?.as_str()) {
        Some(x) => x,
        None => {
            return Err(field_error("result"));
        },
    };
    let human_result = text_field(t, lo, hi, "human_result")?;
    Ok(DKIMAuthResultType { domain, selector, result, human_result })
}

pub open spec fn spf_fits(t: Seq<TokenV>, lo: int, hi: int, v: SPFAuthResultType) -> bool {
    &&& text_fits(t, lo, hi, "domain"@, v.domain)
    &&& match field(t, lo, hi, "scope"@) {
        Some(Some(x)) => spf_scope_of(x) is Some && v.scope == spf_scope_of(x),
        Some(None) => v.scope is None,
        None => false,
    }
    &&& match required(t, lo, hi, "result"@) {
        Some(x) => spf_result_of(x) == Some(v.result),
        None => false,
    }
}

pub fn decode_spf(t: &Vec<Token>, lo: usize, hi: usize) -> (r: Result<
    SPFAuthResultType,
    DecodeError,
>)
    requires
        hi <= t@.len(),
    ensures
        !(r matches Err(DecodeError::Syntax)),
        match r {
            Ok(v) => spf_fits(tokens_view(t@), lo as int, hi as int, v),
            Err(_) => forall|v: SPFAuthResultType| !#[trigger] spf_fits(tokens_view(t@), lo as int, hi as int, v),
        },
{
    let domain = required_text(t, lo, hi, "domain")?;
    let scope = match text_field(t, lo, hi, "scope")? {
        Some(s) => match spf_scope_from(s.as_str()) {
            Some(x) => Some(x),
            None => {
                return Err(field_error("scope"));
            },
        },
        None => None,
    };
    let result = match spf_result_from(required_text(t, lo, hi, "result")?.as_str()) {
        Some(x) => x,
        None => {
            return Err(field_error("result"));
        },
    };
    Ok(SPFAuthResultType { domain, scope, result })
}

pub open spec fn dkim_list_fits(t: Seq<TokenV>, lo: int, hi: int, name: Seq<char>, v: Option<Vec<DKIMAuthResultType>>) -> bool {
    match find_children(t, lo, hi, name) {
        Some(sp) => match v {
            None => sp.len() == 0,
            Some(l) => sp.len() > 0 && l@.len() == sp.len() && forall|i: int|
                0 <= i < sp.len() ==> dkim_fits(t, #[trigger] sp[i].0, sp[i].1, l@[i]),
        },
        None => false,
    }
}

fn decode_dkim_list(t: &Vec<Token>, lo: usize, hi: usize, name: &str) -> (r: Result<
    Option<Vec<DKIMAuthResultType>>,
    DecodeError,
>)
    requires
        hi <= t@.len(),
    ensures
        !(r matches Err(DecodeError::Syntax)),
        match r {
            Ok(v) => dkim_list_fits(tokens_view(t@), lo as int, hi as int, name@, v),
            Err(_) => forall|v: Option<Vec<DKIMAuthResultType>>| !#[trigger] dkim_list_fits(tokens_view(t@), lo as int, hi as int, name@, v),
        },
{
    let ghost tv = tokens_view(t@);
    let spans = match children(t, lo, hi, name) {
        Some(s) => s,
        None => {
            return Err(DecodeError::Structure);
        },
    };
    let ghost sp = crate::doc::spans_view(spans@);
    if spans.len() == 0 {
        return Ok(None);
    }
    let mut out: Vec<DKIMAuthResultType> = Vec::new();
    let mut i: usize = 0;
    while i < spans.len()
        invariant
            tv == tokens_view(t@),
            hi <= t@.len(),
            sp == crate::doc::spans_view(spans@),
            find_children(tv, lo as int, hi as int, name@) == Some(sp),
            sp.len() == spans@.len(),
            sp.len() > 0,
            forall|j: int| #![trigger spans@[j]] 0 <= j < spans@.len() ==> spans@[j].0 <= spans@[j].1 < hi,
            i <= spans@.len(),
            out@.len() == i,
            forall|j: int| 0 <= j < i ==> dkim_fits(tv, #[trigger] sp[j].0, sp[j].1, out@[j]),
        decreases spans@.len() - i,
    {
        let (a, b) = spans[i];
        match decode_dkim(t, a, b) {
            Ok(x) => {
                out.push(x);
            },
            Err(e) => {
                proof {
                    assert forall|v: Option<Vec<DKIMAuthResultType>>| !#[trigger] dkim_list_fits(tv, lo as int, hi as int, name@, v) by {
                        if dkim_list_fits(tv, lo as int, hi as int, name@, v) {
                            let l = v->Some_0;
                            assert(dkim_fits(tv, sp[i as int].0, sp[i as int].1, l@[i as int]));
                        }
                    }
                }
                return Err(e);
            },
        }
        i += 1;
    }
    Ok(Some(out))
}

pub open spec fn spf_list_fits(t: Seq<TokenV>, lo: int, hi: int, name: Seq<char>, v: Vec<SPFAuthResultType>) -> bool {
    match find_children(t, lo, hi, name) {
        Some(sp) => sp.len() > 0 && v@.len() == sp.len() && forall|i: int|
            0 <= i < sp.len() ==> spf_fits(t, #[trigger] sp[i].0, sp[i].1, v@[i]),
        None => false,
    }
}

fn decode_spf_list(t: &Vec<Token>, lo: usize, hi: usize, name: &str) -> (r: Result<
    Vec<SPFAuthResultType>,
    DecodeError,
>)
    requires
        hi <= t@.len(),
    ensures
        !(r matches Err(DecodeError::Syntax)),
        match r {
            Ok(v) => spf_list_fits(tokens_view(t@), lo as int, hi as int, name@, v),
            Err(_) => forall|v: Vec<SPFAuthResultType>| !#[trigger] spf_list_fits(tokens_view(t@), lo as int, hi as int, name@, v),
        },
{
    let ghost tv = tokens_view(t@);
    let spans = match children(t, lo, hi, name) {
        Some(s) => s,
        None => {
            return Err(DecodeError::Structure);
        },
    };
    let ghost sp = crate::doc::spans_view(spans@);
    if spans.len() == 0 {
        return Err(field_error(name));
    }
    let mut out: Vec<SPFAuthResultType> = Vec::new();
    let mut i: usize = 0;
    while i < spans.len()
        invariant
            tv == tokens_view(t@),
            hi <= t@.len(),
            sp == crate::doc::spans_view(spans@),
            find_children(tv, lo as int, hi as int, name@) == Some(sp),
            sp.len() == spans@.len(),
            sp.len() > 0,
            forall|j: int| #![trigger spans@[j]] 0 <= j < spans@.len() ==> spans@[j].0 <= spans@[j].1 < hi,
            i <= spans@.len(),
            out@.len() == i,
            forall|j: int| 0 <= j < i ==> spf_fits(tv, #[trigger] sp[j].0, sp[j].1, out@[j]),
        decreases spans@.len() - i,
    {
        let (a, b) = spans[i];
        match decode_spf(t, a, b) {
            Ok(x) => {
                out.push(x);
            },
            Err(e) => {
                proof {
                    assert forall|v: Vec<SPFAuthResultType>| !#[trigger] spf_list_fits(tv, lo as int, hi as int, name@, v) by {
                        if spf_list_fits(tv, lo as int, hi as int, name@, v) {
                            let l = v;
                            assert(spf_fits(tv, sp[i as int].0, sp[i as int].1, l@[i as int]));
                        }
                    }
                }
                return Err(e);
            },
        }
        i += 1;
    }
    Ok(out)
}

pub open spec fn auth_results_fits(t: Seq<TokenV>, lo: int, hi: int, v: AuthResultType) -> bool {
    &&& dkim_list_fits(t, lo, hi, "dkim"@, v.dkim)
    &&& spf_list_fits(t, lo, hi, "spf"@, v.spf)
}

pub fn decode_auth_results(t: &Vec<Token>, lo: usize, hi: usize) -> (r: Result<
    AuthResultType,
    DecodeError,
>)
    requires
        hi <= t@.len(),
    ensures
        !(r matches Err(DecodeError::Syntax)),
        match r {
            Ok(v) => auth_results_fits(tokens_view(t@), lo as int, hi as int, v),
            Err(_) => forall|v: AuthResultType| !#[trigger] auth_results_fits(tokens_view(t@), lo as int, hi as int, v),
        },
{
    let ghost tv = tokens_view(t@);
    let dkim = match decode_dkim_list(t, lo, hi, "dkim") {
        Ok(l) => l,
        Err(e) => {
            assert forall|v: AuthResultType| !#[trigger] auth_results_fits(tv, lo as int, hi as int, v) by {
                if auth_results_fits(tv, lo as int, hi as int, v) {
                    assert(dkim_list_fits(tv, lo as int, hi as int, "dkim"@, v.dkim));
                }
            }
            return Err(e);
        },
    };
    let spf = match decode_spf_list(t, lo, hi, "spf") {
        Ok(l) => l,
        Err(e) => {
            assert forall|v: AuthResultType| !#[trigger] auth_results_fits(tv, lo as int, hi as int, v) by {
                if auth_results_fits(tv, lo as int, hi as int, v) {
                    assert(spf_list_fits(tv, lo as int, hi as int, "spf"@, v.spf));
                }
            }
            return Err(e);
        },
    };
    Ok(AuthResultType { dkim, spf })
}

pub open spec fn record_fits(t: Seq<TokenV>, lo: int, hi: int, v: RecordType) -> bool {
    &&& match span_of(t, lo, hi, "row"@) {
        Some((a, b)) => row_fits(t, a, b, v.row),
        None => false,
    }
    &&& match span_of(t, lo, hi, "identifiers"@) {
        Some((a, b)) => identifiers_fits(t, a, b, v.identifiers),
        None => false,
    }
    &&& match span_of(t, lo, hi, "auth_results"@) {
        Some((a, b)) => auth_results_fits(t, a, b, v.auth_results),
        None => false,
    }
}

pub fn decode_record(t: &Vec<Token>, lo: usize, hi: usize) -> (r: Result<RecordType, DecodeError>)
    requires
        hi <= t@.len(),
    ensures
        !(r matches Err(DecodeError::Syntax)),
        match r {
            Ok(v) => record_fits(tokens_view(t@), lo as int, hi as int, v),
            Err(_) => forall|v: RecordType| !#[trigger] record_fits(tokens_view(t@), lo as int, hi as int, v),
        },
{
    let ghost tv = tokens_view(t@);
    let (a, b) = required_span(t, lo, hi, "row")?;
    let row = match decode_row(t, a, b) {
        Ok(x) => x,
        Err(e) => {
            assert forall|v: RecordType| !#[trigger] record_fits(tv, lo as int, hi as int, v) by {
                if record_fits(tv, lo as int, hi as int, v) {
                    assert(row_fits(tv, a as int, b as int, v.row));
                }
            }
            return Err(e);
        },
    };
    let (a, b) = required_span(t, lo, hi, "identifiers")?;
    let identifiers = match decode_identifiers(t, a, b) {
        Ok(x) => x,
        Err(e) => {
            assert forall|v: RecordType| !#[trigger] record_fits(tv, lo as int, hi as int, v) by {
                if record_fits(tv, lo as int, hi as int, v) {
                    assert(identifiers_fits(tv, a as int, b as int, v.identifiers));
                }
            }
            return Err(e);
        },
    };
    let (a, b) = required_span(t, lo, hi, "auth_results")?;
    let auth_results = match decode_auth_results(t, a, b) {
        Ok(x) => x,
        Err(e) => {
            assert forall|v: RecordType| !#[trigger] record_fits(tv, lo as int, hi as int, v) by {
                if record_fits(tv, lo as int, hi as int, v) {
                    assert(auth_results_fits(tv, a as int, b as int, v.auth_results));
                }
            }
            return Err(e);
        },
    };
    Ok(RecordType { row, identifiers, auth_results })
}

pub open spec fn record_list_fits(t: Seq<TokenV>, lo: int, hi: int, name: Seq<char>, v: Vec<RecordType>) -> bool {
    match find_children(t, lo, hi, name) {
        Some(sp) => sp.len() > 0 && v@.len() == sp.len() && forall|i: int|
            0 <= i < sp.len() ==> record_fits(t, #[trigger] sp[i].0, sp[i].1, v@[i]),
        None => false,
    }
}

fn decode_record_list(t: &Vec<Token>, lo: usize, hi: usize, name: &str) -> (r: Result<
    Vec<RecordType>,
    DecodeError,
>)
    requires
        hi <= t@.len(),
    ensures
        !(r matches Err(DecodeError::Syntax)),
        match r {
            Ok(v) => record_list_fits(tokens_view(t@), lo as int, hi as int, name@, v),
            Err(_) => forall|v: Vec<RecordType>| !#[trigger] record_list_fits(tokens_view(t@), lo as int, hi as int, name@, v),
        },
{
    let ghost tv = tokens_view(t@);
    let spans = match children(t, lo, hi, name) {
        Some(s) => s,
        None => {
            return Err(DecodeError::Structure);
        },
    };
    let ghost sp = crate::doc::spans_view(spans@);
    if spans.len() == 0 {
        return Err(field_error(name));
    }
    let mut out: Vec<RecordType> = Vec::new();
    let mut i: usize = 0;
    while i < spans.len()
        invariant
            tv == tokens_view(t@),
            hi <= t@.len(),
            sp == crate::doc::spans_view(spans@),
            find_children(tv, lo as int, hi as int, name@) == Some(sp),
            sp.len() == spans@.len(),
            sp.len() > 0,
            forall|j: int| #![trigger spans@[j]] 0 <= j < spans@.len() ==> spans@[j].0 <= spans@[j].1 < hi,
            i <= spans@.len(),
            out@.len() == i,
            forall|j: int| 0 <= j < i ==> record_fits(tv, #[trigger] sp[j].0, sp[j].1, out@[j]),
        decreases spans@.len() - i,
    {
        let (a, b) = spans[i];
        match decode_record(t, a, b) {
            Ok(x) => {
                out.push(x);
            },
            Err(e) => {
                proof {
                    assert forall|v: Vec<RecordType>| !#[trigger] record_list_fits(tv, lo as int, hi as int, name@, v) by {
                        if record_list_fits(tv, lo as int, hi as int, name@, v) {
                            let l = v;
                            assert(record_fits(tv, sp[i as int].0, sp[i as int].1, l@[i as int]));
                        }
                    }
                }
                return Err(e);
            },
        }
        i += 1;
    }
    Ok(out)
}

/// That `v` is the report that the tokens `t` encode: a single root element
/// `feedback` with the metadata, the published policy and at least one record.
pub open spec fn report_fits(t: Seq<TokenV>, v: Report) -> bool {
    match root_span(t, "feedback"@) {
        Some((lo, hi)) => {
            &&& opt_text_fits(t, lo, hi, "version"@, v.version)
            &&& match span_of(t, lo, hi, "report_metadata"@) {
                Some((a, b)) => metadata_fits(t, a, b, v.report_metadata),
                None => false,
            }
            &&& match span_of(t, lo, hi, "policy_published"@) {
                Some((a, b)) => policy_fits(t, a, b, v.policy_published),
                None => false,
            }
            &&& record_list_fits(t, lo, hi, "record"@, v.record)
        },
        None => false,
    }
}

/// That `v` is the report that the document `doc` holds.
pub open spec fn document_fits(doc: Seq<u8>, v: Report) -> bool {
    match lex(doc) {
        Some(t) => report_fits(t, v),
        None => false,
    }
}

pub fn decode_tokens(t: &Vec<Token>) -> (r: Result<Report, DecodeError>)
    ensures
        !(r matches Err(DecodeError::Syntax)),
        match r {
            Ok(v) => report_fits(tokens_view(t@), v),
            Err(_) => forall|v: Report| !#[trigger] report_fits(tokens_view(t@), v),
        },
        root_span(tokens_view(t@), "feedback"@) is None ==> r == Err::<Report, DecodeError>(
            DecodeError::Structure,
        ),
{
    let ghost tv = tokens_view(t@);
    let (lo, hi) = match root(t, "feedback") {
        Some(p) => p,
        None => {
            return Err(DecodeError::Structure);
        },
    };
    let version = text_field(t, lo, hi, "version")?;
    let (a, b) = required_span(t, lo, hi, "report_metadata")?;
    let report_metadata = match decode_metadata(t, a, b) {
        Ok(x) => x,
        Err(e) => {
            assert forall|v: Report| !#[trigger] report_fits(tv, v) by {
                if report_fits(tv, v) {
                    assert(metadata_fits(tv, a as int, b as int, v.report_metadata));
                }
            }
            return Err(e);
        },
    };
    let (a, b) = required_span(t, lo, hi, "policy_published")?;
    let policy_published = match decode_policy(t, a, b) {
        Ok(x) => x,
        Err(e) => {
            assert forall|v: Report| !#[trigger] report_fits(tv, v) by {
                if report_fits(tv, v) {
                    assert(policy_fits(tv, a as int, b as int, v.policy_published));
                }
            }
            return Err(e);
        },
    };
    let record = match decode_record_list(t, lo, hi, "record") {
        Ok(x) => x,
        Err(e) => {
            assert forall|v: Report| !#[trigger] report_fits(tv, v) by {
                if report_fits(tv, v) {
                    assert(record_list_fits(tv, lo as int, hi as int, "record"@, v.record));
                }
            }
            return Err(e);
        },
    };
    Ok(Report { version, report_metadata, policy_published, record })
}

/// Reads an aggregate report out of the bytes of its XML document. The error
/// is `Syntax` exactly when the bytes are not a sequence of tags and text, and
/// `Structure` when they are but do not form one `feedback` element.
pub fn parse_report(doc: &[u8]) -> (r: Result<Report, DecodeError>)
    ensures
        match r {
            Ok(v) => document_fits(doc@, v),
            Err(_) => forall|v: Report| !#[trigger] document_fits(doc@, v),
        },
        r == Err::<Report, DecodeError>(DecodeError::Syntax) <==> lex(doc@) is None,
        match lex(doc@) {
            Some(t) => root_span(t, "feedback"@) is None ==> r == Err::<Report, DecodeError>(
                DecodeError::Structure,
            ),
            None => true,
        },
{
    let t = match tokenize(doc) {
        Some(t) => t,
        None => {
            return Err(DecodeError::Syntax);
        },
    };
    let r = decode_tokens(&t);
    proof {
        if r is Err {
            assert forall|v: Report| !#[trigger] document_fits(doc@, v) by {
                if document_fits(doc@, v) {
                    assert(report_fits(tokens_view(t@), v));
                }
            }
        }
    }
    r
}

} // verus!
