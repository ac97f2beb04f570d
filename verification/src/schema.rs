use vstd::prelude::*;

use crate::ip::{spec_parse_ip, parse_ip};
use crate::report::{
    Alignment, AuthResults, AuthResultsView, DateRange, Disposition, DkimAuthResult,
    DkimAuthResultView, DkimResult, DmarcResult, Feedback, FeedbackView, Identifier,
    IdentifierView, PolicyEvaluated, PolicyEvaluatedView, PolicyOverride, PolicyOverrideReason,
    PolicyOverrideReasonView, PolicyPublished, PolicyPublishedView, Record, RecordView,
    ReportMetadata, ReportMetadataView, Row, RowView, SpfAuthResult, SpfAuthResultView, SpfResult,
    UtcInstant,
};
use crate::text::{parse_u64_str, parse_u8_str, spec_parse_u64, spec_parse_u8, str_eq};
use crate::xmltree::{nodes_view, parse_xml_tree, spec_xml_tree, XmlNode, XmlNodeView};
use crate::ParseError;

verus! {

// What each wire token denotes. Tokens are the exact lowercase wire
// strings; anything else is rejected, never defaulted.

pub open spec fn spec_alignment(s: Seq<char>) -> Option<Alignment> {
    if s == "r"@ {
        Some(Alignment::Relaxed)
    } else if s == "s"@ {
        Some(Alignment::Strict)
    } else {
        Option::None
    }
}

pub open spec fn spec_disposition(s: Seq<char>) -> Option<Disposition> {
    if s == "none"@ {
        Some(Disposition::NoAction)
    } else if s == "quarantine"@ {
        Some(Disposition::Quarantine)
    } else if s == "reject"@ {
        Some(Disposition::Reject)
    } else {
        Option::None
    }
}

pub open spec fn spec_dmarc_result(s: Seq<char>) -> Option<DmarcResult> {
    if s == "pass"@ {
        Some(DmarcResult::Pass)
    } else if s == "fail"@ {
        Some(DmarcResult::Fail)
    } else {
        Option::None
    }
}

pub open spec fn spec_spf_result(s: Seq<char>) -> Option<SpfResult> {
    if s == "none"@ {
        Some(SpfResult::NoResult)
    } else if s == "pass"@ {
        Some(SpfResult::Pass)
    } else if s == "fail"@ {
        Some(SpfResult::Fail)
    } else if s == "softfail"@ {
        Some(SpfResult::SoftFail)
    } else if s == "neutral"@ {
        Some(SpfResult::Neutral)
    } else if s == "temperror"@ {
        Some(SpfResult::TempError)
    } else if s == "permerror"@ {
        Some(SpfResult::PermError)
    } else {
        Option::None
    }
}

/// The DKIM result tokens, with the two documented legacy aliases:
/// `unknown` for `temperror` and `error` for `permerror`.
pub open spec fn spec_dkim_result(s: Seq<char>) -> Option<DkimResult> {
    if s == "none"@ {
        Some(DkimResult::NoResult)
    } else if s == "pass"@ {
        Some(DkimResult::Pass)
    } else if s == "fail"@ {
        Some(DkimResult::Fail)
    } else if s == "policy"@ {
        Some(DkimResult::Policy)
    } else if s == "neutral"@ {
        Some(DkimResult::Neutral)
    } else if s == "temperror"@ || s == "unknown"@ {
        Some(DkimResult::TempError)
    } else if s == "permerror"@ || s == "error"@ {
        Some(DkimResult::PermError)
    } else {
        Option::None
    }
}

pub open spec fn spec_policy_override(s: Seq<char>) -> Option<PolicyOverride> {
    if s == "forwarded"@ {
        Some(PolicyOverride::Forwarded)
    } else if s == "sampled_out"@ {
        Some(PolicyOverride::SampledOut)
    } else if s == "trusted_forwarder"@ {
        Some(PolicyOverride::TrustedForwarder)
    } else if s == "mailing_list"@ {
        Some(PolicyOverride::MailingList)
    } else if s == "local_policy"@ {
        Some(PolicyOverride::LocalPolicy)
    } else if s == "other"@ {
        Some(PolicyOverride::Other)
    } else {
        Option::None
    }
}

/// A date is written as decimal seconds since the Unix epoch.
pub open spec fn spec_timestamp(s: Seq<char>) -> Option<UtcInstant> {
    match spec_parse_u64(s) {
        Option::Some(v) => Some(UtcInstant { epoch_seconds: v }),
        Option::None => Option::None,
    }
}

/// The children of one element that bear the given name, in order.
pub open spec fn filter_named(s: Seq<XmlNodeView>, name: Seq<char>) -> Seq<XmlNodeView>
    decreases s.len(),
{
    if s.len() == 0 {
        Seq::<XmlNodeView>::empty()
    } else {
        let pre = filter_named(s.drop_last(), name);
        if s.last().name == name {
            pre.push(s.last())
        } else {
            pre
        }
    }
}

pub open spec fn named(t: XmlNodeView, name: Seq<char>) -> Seq<XmlNodeView> {
    filter_named(t.children, name)
}


/// A scalar element's text: it must have no child elements.
pub open spec fn spec_text_of(n: XmlNodeView) -> Option<Seq<char>> {
    if n.children.len() == 0 {
        Some(n.text)
    } else {
        Option::None
    }
}

/// A required scalar field: exactly one child of that name, text only.
pub open spec fn spec_req_text(t: XmlNodeView, name: Seq<char>) -> Option<Seq<char>> {
    let fs = named(t, name);
    if fs.len() == 1 {
        spec_text_of(fs[0])
    } else {
        Option::None
    }
}

/// An optional scalar field: absent means `Some(None)`; more than one
/// occurrence, or one with child elements, is a failure.
pub open spec fn spec_opt_text(t: XmlNodeView, name: Seq<char>) -> Option<Option<Seq<char>>> {
    let fs = named(t, name);
    if fs.len() == 0 {
        Some(Option::None)
    } else if fs.len() == 1 {
        match spec_text_of(fs[0]) {
            Option::Some(x) => Some(Some(x)),
            Option::None => Option::None,
        }
    } else {
        Option::None
    }
}

/// A required structured field: exactly one child of that name.
pub open spec fn spec_req_child(t: XmlNodeView, name: Seq<char>) -> Option<XmlNodeView> {
    let fs = named(t, name);
    if fs.len() == 1 {
        Some(fs[0])
    } else {
        Option::None
    }
}

pub open spec fn spec_date_range(t: XmlNodeView) -> Option<DateRange> {
    match (spec_req_text(t, "begin"@), spec_req_text(t, "end"@)) {
        (Some(b), Some(e)) => match (spec_timestamp(b), spec_timestamp(e)) {
            (Some(b), Some(e)) => Some(DateRange { begin: b, end: e }),
            _ => Option::None,
        },
        _ => Option::None,
    }
}


/// The texts of a run of scalar elements; one failure fails the list.
pub open spec fn spec_texts(s: Seq<XmlNodeView>) -> Option<Seq<Seq<char>>>
    decreases s.len(),
{
    if s.len() == 0 {
        Some(Seq::<Seq<char>>::empty())
    } else {
        match (spec_texts(s.drop_last()), spec_text_of(s.last())) {
            (Some(p), Some(v)) => Some(p.push(v)),
            _ => Option::None,
        }
    }
}

pub open spec fn spec_metadata(t: XmlNodeView) -> Option<ReportMetadataView> {
    match (spec_req_text(t, "org_name"@), spec_req_text(t, "email"@), spec_opt_text(t, "extra_contact_info"@), spec_req_text(t, "report_id"@), spec_req_child(t, "date_range"@), spec_texts(named(t, "errors"@))) {
        (Some(org), Some(email), Some(extra), Some(rid), Some(dr), Some(errs)) => match spec_date_range(dr) {
            Option::Some(range) => Some(
                ReportMetadataView {
                    org_name: org,
                    email: email,
                    extra_contact_info: extra,
                    report_id: rid,
                    date_range: range,
                    errors: errs,
                },
            ),
            Option::None => Option::None,
        },
        _ => Option::None,
    }
}

pub open spec fn spec_policy_published(t: XmlNodeView) -> Option<PolicyPublishedView> {
    match (spec_req_text(t, "domain"@), spec_req_text(t, "adkim"@), spec_req_text(t, "aspf"@), spec_req_text(t, "p"@), spec_req_text(t, "sp"@), spec_req_text(t, "pct"@), spec_opt_text(t, "failure_reporting"@)) {
        (Some(dom), Some(ad), Some(asp), Some(p), Some(sp), Some(pct), Some(fr)) => match (spec_alignment(ad), spec_alignment(asp), spec_disposition(p), spec_disposition(sp), spec_parse_u8(pct)) {
            (Some(ad), Some(asp), Some(p), Some(sp), Some(pct)) => Some(
                PolicyPublishedView {
                    domain: dom,
                    dkim_alignment: ad,
                    spf_alignment: asp,
                    domain_policy: p,
                    subdomain_policy: sp,
                    percentage: pct,
                    failure_reporting: fr,
                },
            ),
            _ => Option::None,
        },
        _ => Option::None,
    }
}

pub open spec fn spec_reason(t: XmlNodeView) -> Option<PolicyOverrideReasonView> {
    match (spec_req_text(t, "override_type"@), spec_opt_text(t, "comment"@)) {
        (Some(ot), Some(c)) => match spec_policy_override(ot) {
            Option::Some(ot) => Some(PolicyOverrideReasonView { override_type: ot, comment: c }),
            Option::None => Option::None,
        },
        _ => Option::None,
    }
}


pub open spec fn spec_reasons(s: Seq<XmlNodeView>) -> Option<Seq<PolicyOverrideReasonView>>
    decreases s.len(),
{
    if s.len() == 0 {
        Some(Seq::<PolicyOverrideReasonView>::empty())
    } else {
        match (spec_reasons(s.drop_last()), spec_reason(s.last())) {
            (Some(p), Some(v)) => Some(p.push(v)),
            _ => Option::None,
        }
    }
}

pub open spec fn spec_policy_evaluated(t: XmlNodeView) -> Option<PolicyEvaluatedView> {
    match (spec_req_text(t, "disposition"@), spec_req_text(t, "dkim"@), spec_req_text(t, "spf"@), spec_reasons(named(t, "reasons"@))) {
        (Some(d), Some(dk), Some(sp), Some(rs)) => match (spec_disposition(d), spec_dmarc_result(dk), spec_dmarc_result(sp)) {
            (Some(d), Some(dk), Some(sp)) => Some(
                PolicyEvaluatedView { disposition: d, dkim: dk, spf: sp, reasons: rs },
            ),
            _ => Option::None,
        },
        _ => Option::None,
    }
}

pub open spec fn spec_row(t: XmlNodeView) -> Option<RowView> {
    match (spec_req_text(t, "source_ip"@), spec_req_text(t, "count"@), spec_req_child(t, "policy_evaluated"@)) {
        (Some(ip), Some(cnt), Some(pe)) => match (spec_parse_ip(ip), spec_parse_u64(cnt), spec_policy_evaluated(pe)) {
            (Some(ip), Some(cnt), Some(pe)) => Some(
                RowView { source_ip: ip, count: cnt, policy_evaluated: pe },
            ),
            _ => Option::None,
        },
        _ => Option::None,
    }
}

pub open spec fn spec_identifier(t: XmlNodeView) -> Option<IdentifierView> {
    match (spec_opt_text(t, "envelope_to"@), spec_opt_text(t, "envelope_from"@), spec_req_text(t, "header_from"@)) {
        (Some(et), Some(ef), Some(hf)) => Some(
            IdentifierView { envelope_to: et, envelope_from: ef, header_from: hf },
        ),
        _ => Option::None,
    }
}

pub open spec fn spec_spf_auth(t: XmlNodeView) -> Option<SpfAuthResultView> {
    match (spec_req_text(t, "domain"@), spec_req_text(t, "result"@)) {
        (Some(d), Some(res)) => match spec_spf_result(res) {
            Option::Some(res) => Some(SpfAuthResultView { domain: d, result: res }),
            Option::None => Option::None,
        },
        _ => Option::None,
    }
}

pub open spec fn spec_dkim_auth(t: XmlNodeView) -> Option<DkimAuthResultView> {
    match (spec_req_text(t, "domain"@), spec_req_text(t, "selector"@), spec_req_text(t, "result"@)) {
        (Some(d), Some(sel), Some(res)) => match spec_dkim_result(res) {
            Option::Some(res) => Some(
                DkimAuthResultView { domain: d, selector: sel, result: res },
            ),
            Option::None => Option::None,
        },
        _ => Option::None,
    }
}


pub open spec fn spec_spf_auths(s: Seq<XmlNodeView>) -> Option<Seq<SpfAuthResultView>>
    decreases s.len(),
{
    if s.len() == 0 {
        Some(Seq::<SpfAuthResultView>::empty())
    } else {
        match (spec_spf_auths(s.drop_last()), spec_spf_auth(s.last())) {
            (Some(p), Some(v)) => Some(p.push(v)),
            _ => Option::None,
        }
    }
}

pub open spec fn spec_dkim_auths(s: Seq<XmlNodeView>) -> Option<Seq<DkimAuthResultView>>
    decreases s.len(),
{
    if s.len() == 0 {
        Some(Seq::<DkimAuthResultView>::empty())
    } else {
        match (spec_dkim_auths(s.drop_last()), spec_dkim_auth(s.last())) {
            (Some(p), Some(v)) => Some(p.push(v)),
            _ => Option::None,
        }
    }
}

pub open spec fn spec_auth_results(t: XmlNodeView) -> Option<AuthResultsView> {
    match (spec_spf_auths(named(t, "spf"@)), spec_dkim_auths(named(t, "dkim"@))) {
        (Some(s), Some(d)) => Some(AuthResultsView { spf: s, dkim: d }),
        _ => Option::None,
    }
}

pub open spec fn spec_record(t: XmlNodeView) -> Option<RecordView> {
    match (spec_req_child(t, "row"@), spec_req_child(t, "identifiers"@), spec_req_child(t, "auth_results"@)) {
        (Some(r), Some(i), Some(a)) => match (spec_row(r), spec_identifier(i), spec_auth_results(a)) {
            (Some(r), Some(i), Some(a)) => Some(
                RecordView { row: r, identifiers: i, auth_results: a },
            ),
            _ => Option::None,
        },
        _ => Option::None,
    }
}


pub open spec fn spec_records(s: Seq<XmlNodeView>) -> Option<Seq<RecordView>>
    decreases s.len(),
{
    if s.len() == 0 {
        Some(Seq::<RecordView>::empty())
    } else {
        match (spec_records(s.drop_last()), spec_record(s.last())) {
            (Some(p), Some(v)) => Some(p.push(v)),
            _ => Option::None,
        }
    }
}

/// What one element tree denotes as a whole aggregate report. The root
/// element's own name is not inspected; missing `record` elements mean
/// an empty record list, while a missing or repeated
/// `report_metadata` or `policy_published` is a failure.
pub open spec fn spec_feedback(t: XmlNodeView) -> Option<FeedbackView> {
    match (spec_req_child(t, "report_metadata"@), spec_req_child(t, "policy_published"@), spec_records(named(t, "record"@))) {
        (Some(md), Some(pp), Some(recs)) => match (spec_metadata(md), spec_policy_published(pp)) {
            (Some(md), Some(pp)) => Some(
                FeedbackView { report_metadata: md, policy_published: pp, records: recs },
            ),
            _ => Option::None,
        },
        _ => Option::None,
    }
}

/// A report without any `record` element decodes to an empty record
/// list, never to a failure on that account.
pub proof fn lemma_missing_records_empty(t: XmlNodeView, f: FeedbackView)
    requires
        spec_feedback(t) == Some(f),
        named(t, "record"@).len() == 0,
    ensures
        f.records == Seq::<RecordView>::empty(),
{
    assert(named(t, "record"@) =~= Seq::<XmlNodeView>::empty());
}

/// The DKIM result aliases decode exactly as the tokens they stand
/// for: `unknown` as `temperror`, `error` as `permerror`.
pub proof fn lemma_dkim_result_aliases()
    ensures
        spec_dkim_result("unknown"@) == spec_dkim_result("temperror"@),
        spec_dkim_result("unknown"@) == Some(DkimResult::TempError),
        spec_dkim_result("error"@) == spec_dkim_result("permerror"@),
        spec_dkim_result("error"@) == Some(DkimResult::PermError),
{
    reveal_strlit("none");
    reveal_strlit("pass");
    reveal_strlit("fail");
    reveal_strlit("policy");
    reveal_strlit("neutral");
    reveal_strlit("temperror");
    reveal_strlit("unknown");
    reveal_strlit("permerror");
    reveal_strlit("error");
    assert("unknown"@ != "neutral"@) by {
        assert("unknown"@[0] != "neutral"@[0]);
    }
    assert("unknown"@ != "temperror"@) by {
        assert("unknown"@.len() != "temperror"@.len());
    }
    assert("error"@ != "none"@) by {
        assert("error"@[0] != "none"@[0]);
    }
    assert("temperror"@ != "none"@) by {
        assert("temperror"@.len() != "none"@.len());
    }
    assert("temperror"@ != "pass"@) by {
        assert("temperror"@.len() != "pass"@.len());
    }
    assert("temperror"@ != "fail"@) by {
        assert("temperror"@.len() != "fail"@.len());
    }
    assert("temperror"@ != "policy"@) by {
        assert("temperror"@.len() != "policy"@.len());
    }
    assert("temperror"@ != "neutral"@) by {
        assert("temperror"@.len() != "neutral"@.len());
    }
    assert("error"@ != "pass"@) by {
        assert("error"@[0] != "pass"@[0]);
    }
    assert("error"@ != "fail"@) by {
        assert("error"@[0] != "fail"@[0]);
    }
    assert("error"@ != "policy"@) by {
        assert("error"@[0] != "policy"@[0]);
    }
    assert("error"@ != "neutral"@) by {
        assert("error"@[0] != "neutral"@[0]);
    }
    assert("error"@ != "temperror"@) by {
        assert("error"@.len() != "temperror"@.len());
    }
    assert("error"@ != "unknown"@) by {
        assert("error"@.len() != "unknown"@.len());
    }
    assert("permerror"@ != "none"@) by {
        assert("permerror"@.len() != "none"@.len());
    }
    assert("permerror"@ != "pass"@) by {
        assert("permerror"@.len() != "pass"@.len());
    }
    assert("permerror"@ != "fail"@) by {
        assert("permerror"@.len() != "fail"@.len());
    }
    assert("permerror"@ != "policy"@) by {
        assert("permerror"@.len() != "policy"@.len());
    }
    assert("permerror"@ != "neutral"@) by {
        assert("permerror"@.len() != "neutral"@.len());
    }
    assert("permerror"@ != "temperror"@) by {
        assert("permerror"@[0] != "temperror"@[0]);
    }
    assert("permerror"@ != "unknown"@) by {
        assert("permerror"@.len() != "unknown"@.len());
    }
}

proof fn lemma_texts_extend(s: Seq<XmlNodeView>, j: int)
    requires
        0 <= j <= s.len(),
        spec_texts(s.take(j)) is None,
    ensures
        spec_texts(s) is None,
    decreases s.len() - j,
{
    if j < s.len() {
        assert(s.take(j + 1).drop_last() =~= s.take(j));
        lemma_texts_extend(s, j + 1);
    } else {
        assert(s.take(j) =~= s);
    }
}

proof fn lemma_reasons_extend(s: Seq<XmlNodeView>, j: int)
    requires
        0 <= j <= s.len(),
        spec_reasons(s.take(j)) is None,
    ensures
        spec_reasons(s) is None,
    decreases s.len() - j,
{
    if j < s.len() {
        assert(s.take(j + 1).drop_last() =~= s.take(j));
        lemma_reasons_extend(s, j + 1);
    } else {
        assert(s.take(j) =~= s);
    }
}

proof fn lemma_spf_auths_extend(s: Seq<XmlNodeView>, j: int)
    requires
        0 <= j <= s.len(),
        spec_spf_auths(s.take(j)) is None,
    ensures
        spec_spf_auths(s) is None,
    decreases s.len() - j,
{
    if j < s.len() {
        assert(s.take(j + 1).drop_last() =~= s.take(j));
        lemma_spf_auths_extend(s, j + 1);
    } else {
        assert(s.take(j) =~= s);
    }
}

proof fn lemma_dkim_auths_extend(s: Seq<XmlNodeView>, j: int)
    requires
        0 <= j <= s.len(),
        spec_dkim_auths(s.take(j)) is None,
    ensures
        spec_dkim_auths(s) is None,
    decreases s.len() - j,
{
    if j < s.len() {
        assert(s.take(j + 1).drop_last() =~= s.take(j));
        lemma_dkim_auths_extend(s, j + 1);
    } else {
        assert(s.take(j) =~= s);
    }
}

proof fn lemma_records_extend(s: Seq<XmlNodeView>, j: int)
    requires
        0 <= j <= s.len(),
        spec_records(s.take(j)) is None,
    ensures
        spec_records(s) is None,
    decreases s.len() - j,
{
    if j < s.len() {
        assert(s.take(j + 1).drop_last() =~= s.take(j));
        lemma_records_extend(s, j + 1);
    } else {
        assert(s.take(j) =~= s);
    }
}

fn err_msg(m: &str) -> (e: ParseError)
    ensures
        e@ == m@,
{
    ParseError(m.to_owned())
}

/// The children of `t` named `name`, in order.
fn find_named<'a>(t: &'a XmlNode, name: &str) -> (r: Vec<&'a XmlNode>)
    ensures
        r@.map_values(|p: &XmlNode| p.deep_view()) == named(t.deep_view(), name@),
        forall|k: int| 0 <= k < r@.len() ==> named(t.deep_view(), name@)[k] == r@[k].deep_view(),
{
    let ghost cv = t.deep_view().children;
    let mut out: Vec<&XmlNode> = Vec::new();
    let mut i: usize = 0;
    proof {
        assert(cv == nodes_view(t.children));
        assert(cv.len() == t.children@.len());
        assert(forall|j: int| 0 <= j < cv.len() ==> cv[j] == t.children@[j].deep_view());
        assert(cv.take(0) =~= Seq::<XmlNodeView>::empty());
        assert(out@.map_values(|p: &XmlNode| p.deep_view()) =~= filter_named(cv.take(0), name@));
    }
    while i < t.children.len()
        invariant
            i <= t.children@.len(),
            cv == t.deep_view().children,
            cv.len() == t.children@.len(),
            forall|j: int| 0 <= j < cv.len() ==> cv[j] == t.children@[j].deep_view(),
            out@.map_values(|p: &XmlNode| p.deep_view()) == filter_named(cv.take(i as int), name@),
        decreases t.children@.len() - i,
    {
        proof {
            assert(cv.take(i + 1).drop_last() =~= cv.take(i as int));
            assert(cv.take(i + 1).last() == cv[i as int]);
        }
        let c = &t.children[i];
        proof {
            assert(cv[i as int].name == c.name@);
        }
        if str_eq(c.name.as_str(), name) {
            out.push(c);
            proof {
                assert(out@.map_values(|p: &XmlNode| p.deep_view()) =~= filter_named(
                    cv.take(i + 1),
                    name@,
                ));
            }
        } else {
            proof {
                assert(out@.map_values(|p: &XmlNode| p.deep_view()) =~= filter_named(
                    cv.take(i + 1),
                    name@,
                ));
            }
        }
        i = i + 1;
    }
    proof {
        assert(cv.take(cv.len() as int) =~= cv);
        assert(forall|k: int|
            0 <= k < out@.len() ==> named(t.deep_view(), name@)[k] == (#[trigger] out@[k]).deep_view());
    }
    out
}

/// One required scalar field's text.
fn req_text<'a>(t: &'a XmlNode, name: &str) -> (r: Result<&'a String, ParseError>)
    ensures
        match r {
            Result::Ok(s) => spec_req_text(t.deep_view(), name@) == Some(s@),
            Result::Err(_) => spec_req_text(t.deep_view(), name@) is None,
        },
{
    let fs = find_named(t, name);
    let ghost fsp = named(t.deep_view(), name@);
    if fs.len() == 1 {
        let n = fs[0];
        proof {
            assert(fsp[0] == fs@[0].deep_view());
            assert(fsp[0].children.len() == n.children@.len());
            assert(fsp[0].text == n.text@);
        }
        if n.children.len() == 0 {
            Ok(&n.text)
        } else {
            Err(err_msg("A scalar element has child elements"))
        }
    } else {
        Err(err_msg("An element required exactly once is missing or repeated"))
    }
}

/// One optional scalar field's text; absent is no failure.
fn opt_text<'a>(t: &'a XmlNode, name: &str) -> (r: Result<Option<&'a String>, ParseError>)
    ensures
        match r {
            Result::Ok(s) => spec_opt_text(t.deep_view(), name@) == Some(
                match s {
                    Option::Some(x) => Some(x@),
                    Option::None => Option::None::<Seq<char>>,
                },
            ),
            Result::Err(_) => spec_opt_text(t.deep_view(), name@) is None,
        },
{
    let fs = find_named(t, name);
    let ghost fsp = named(t.deep_view(), name@);
    if fs.len() == 0 {
        Ok(None)
    } else if fs.len() == 1 {
        let n = fs[0];
        proof {
            assert(fsp[0] == fs@[0].deep_view());
            assert(fsp[0].children.len() == n.children@.len());
            assert(fsp[0].text == n.text@);
        }
        if n.children.len() == 0 {
            Ok(Some(&n.text))
        } else {
            Err(err_msg("A scalar element has child elements"))
        }
    } else {
        Err(err_msg("An optional element is repeated"))
    }
}

/// One required structured field.
fn req_child<'a>(t: &'a XmlNode, name: &str) -> (r: Result<&'a XmlNode, ParseError>)
    ensures
        match r {
            Result::Ok(n) => spec_req_child(t.deep_view(), name@) == Some(n.deep_view()),
            Result::Err(_) => spec_req_child(t.deep_view(), name@) is None,
        },
{
    let fs = find_named(t, name);
    let ghost fsp = named(t.deep_view(), name@);
    if fs.len() == 1 {
        proof {
            assert(fsp[0] == fs@[0].deep_view());
        }
        Ok(fs[0])
    } else {
        Err(err_msg("An element required exactly once is missing or repeated"))
    }
}

fn alignment_from_token(s: &str) -> (r: Option<Alignment>)
    ensures
        r == spec_alignment(s@),
{
    if str_eq(s, "r") {
        Some(Alignment::Relaxed)
    } else if str_eq(s, "s") {
        Some(Alignment::Strict)
    } else {
        None
    }
}

fn disposition_from_token(s: &str) -> (r: Option<Disposition>)
    ensures
        r == spec_disposition(s@),
{
    if str_eq(s, "none") {
        Some(Disposition::NoAction)
    } else if str_eq(s, "quarantine") {
        Some(Disposition::Quarantine)
    } else if str_eq(s, "reject") {
        Some(Disposition::Reject)
    } else {
        None
    }
}

fn dmarc_result_from_token(s: &str) -> (r: Option<DmarcResult>)
    ensures
        r == spec_dmarc_result(s@),
{
    if str_eq(s, "pass") {
        Some(DmarcResult::Pass)
    } else if str_eq(s, "fail") {
        Some(DmarcResult::Fail)
    } else {
        None
    }
}

fn spf_result_from_token(s: &str) -> (r: Option<SpfResult>)
    ensures
        r == spec_spf_result(s@),
{
    if str_eq(s, "none") {
        Some(SpfResult::NoResult)
    } else if str_eq(s, "pass") {
        Some(SpfResult::Pass)
    } else if str_eq(s, "fail") {
        Some(SpfResult::Fail)
    } else if str_eq(s, "softfail") {
        Some(SpfResult::SoftFail)
    } else if str_eq(s, "neutral") {
        Some(SpfResult::Neutral)
    } else if str_eq(s, "temperror") {
        Some(SpfResult::TempError)
    } else if str_eq(s, "permerror") {
        Some(SpfResult::PermError)
    } else {
        None
    }
}

fn dkim_result_from_token(s: &str) -> (r: Option<DkimResult>)
    ensures
        r == spec_dkim_result(s@),
{
    if str_eq(s, "none") {
        Some(DkimResult::NoResult)
    } else if str_eq(s, "pass") {
        Some(DkimResult::Pass)
    } else if str_eq(s, "fail") {
        Some(DkimResult::Fail)
    } else if str_eq(s, "policy") {
        Some(DkimResult::Policy)
    } else if str_eq(s, "neutral") {
        Some(DkimResult::Neutral)
    } else if str_eq(s, "temperror") || str_eq(s, "unknown") {
        Some(DkimResult::TempError)
    } else if str_eq(s, "permerror") || str_eq(s, "error") {
        Some(DkimResult::PermError)
    } else {
        None
    }
}

fn policy_override_from_token(s: &str) -> (r: Option<PolicyOverride>)
    ensures
        r == spec_policy_override(s@),
{
    if str_eq(s, "forwarded") {
        Some(PolicyOverride::Forwarded)
    } else if str_eq(s, "sampled_out") {
        Some(PolicyOverride::SampledOut)
    } else if str_eq(s, "trusted_forwarder") {
        Some(PolicyOverride::TrustedForwarder)
    } else if str_eq(s, "mailing_list") {
        Some(PolicyOverride::MailingList)
    } else if str_eq(s, "local_policy") {
        Some(PolicyOverride::LocalPolicy)
    } else if str_eq(s, "other") {
        Some(PolicyOverride::Other)
    } else {
        None
    }
}

/// Parses one Unix-epoch-second token into an instant.
pub fn timestamp_from_token(s: &str) -> (r: Option<UtcInstant>)
    ensures
        r == spec_timestamp(s@),
{
    match parse_u64_str(s) {
        Option::Some(v) => Some(UtcInstant { epoch_seconds: v }),
        Option::None => None,
    }
}

fn map_date_range(t: &XmlNode) -> (r: Result<DateRange, ParseError>)
    ensures
        match r {
            Result::Ok(d) => spec_date_range(t.deep_view()) == Some(d),
            Result::Err(_) => spec_date_range(t.deep_view()) is None,
        },
{
    let b = match req_text(t, "begin") {
        Result::Ok(s) => s,
        Result::Err(e) => return Err(e),
    };
    let e = match req_text(t, "end") {
        Result::Ok(s) => s,
        Result::Err(e) => return Err(e),
    };
    let begin = match timestamp_from_token(b.as_str()) {
        Option::Some(v) => v,
        Option::None => return Err(err_msg("A date is not written as epoch seconds")),
    };
    let end = match timestamp_from_token(e.as_str()) {
        Option::Some(v) => v,
        Option::None => return Err(err_msg("A date is not written as epoch seconds")),
    };
    Ok(DateRange { begin, end })
}

fn map_metadata(t: &XmlNode) -> (r: Result<ReportMetadata, ParseError>)
    ensures
        match r {
            Result::Ok(m) => spec_metadata(t.deep_view()) == Some(m.deep_view()),
            Result::Err(_) => spec_metadata(t.deep_view()) is None,
        },
{
    let org_name = match req_text(t, "org_name") {
        Result::Ok(s) => s.clone(),
        Result::Err(e) => return Err(e),
    };
    let email = match req_text(t, "email") {
        Result::Ok(s) => s.clone(),
        Result::Err(e) => return Err(e),
    };
    let extra_contact_info = match opt_text(t, "extra_contact_info") {
        Result::Ok(Option::Some(s)) => Some(s.clone()),
        Result::Ok(Option::None) => None,
        Result::Err(e) => return Err(e),
    };
    let report_id = match req_text(t, "report_id") {
        Result::Ok(s) => s.clone(),
        Result::Err(e) => return Err(e),
    };
    let dr = match req_child(t, "date_range") {
        Result::Ok(n) => n,
        Result::Err(e) => return Err(e),
    };
    let date_range = match map_date_range(dr) {
        Result::Ok(d) => d,
        Result::Err(e) => return Err(e),
    };
    let errs = find_named(t, "errors");
    let ghost errsp = named(t.deep_view(), "errors"@);
    let mut errors: Vec<String> = Vec::new();
    let mut i: usize = 0;
    proof {
        assert(errsp.take(0) =~= Seq::<XmlNodeView>::empty());
        assert(errors.deep_view() =~= Seq::<Seq<char>>::empty());
    }
    while i < errs.len()
        invariant
            i <= errs@.len(),
            errs@.map_values(|p: &XmlNode| p.deep_view()) == errsp,
            errsp == named(t.deep_view(), "errors"@),
            errsp.len() == errs@.len(),
            spec_texts(errsp.take(i as int)) == Some(errors.deep_view()),
        decreases errs@.len() - i,
    {
        let ghost e0 = errors.deep_view();
        proof {
            assert(errsp.take(i + 1).drop_last() =~= errsp.take(i as int));
            assert(errsp.take(i + 1).last() == errsp[i as int]);
            assert(errsp[i as int] == errs@[i as int].deep_view());
        }
        let n = errs[i];
        proof {
            assert(errsp[i as int].children.len() == n.children@.len());
            assert(errsp[i as int].text == n.text@);
        }
        if n.children.len() == 0 {
            errors.push(n.text.clone());
            proof {
                assert(errors.deep_view() =~= e0.push(n.text@));
            }
        } else {
            proof {
                lemma_texts_extend(errsp, i + 1);
            }
            return Err(err_msg("A report error entry has child elements"));
        }
        i = i + 1;
    }
    proof {
        assert(errsp.take(errsp.len() as int) =~= errsp);
    }
    let m = ReportMetadata { org_name, email, extra_contact_info, report_id, date_range, errors };
    proof {
        assert(spec_metadata(t.deep_view()) == Some(m.deep_view())) by {
            assert(spec_metadata(t.deep_view()) matches Some(x) && x =~= m.deep_view());
        }
    }
    Ok(m)
}

fn map_policy_published(t: &XmlNode) -> (r: Result<PolicyPublished, ParseError>)
    ensures
        match r {
            Result::Ok(p) => spec_policy_published(t.deep_view()) == Some(p.deep_view()),
            Result::Err(_) => spec_policy_published(t.deep_view()) is None,
        },
{
    let domain = match req_text(t, "domain") {
        Result::Ok(s) => s.clone(),
        Result::Err(e) => return Err(e),
    };
    let ad = match req_text(t, "adkim") {
        Result::Ok(s) => s,
        Result::Err(e) => return Err(e),
    };
    let dkim_alignment = match alignment_from_token(ad.as_str()) {
        Option::Some(v) => v,
        Option::None => return Err(err_msg("Unknown alignment token")),
    };
    let asp = match req_text(t, "aspf") {
        Result::Ok(s) => s,
        Result::Err(e) => return Err(e),
    };
    let spf_alignment = match alignment_from_token(asp.as_str()) {
        Option::Some(v) => v,
        Option::None => return Err(err_msg("Unknown alignment token")),
    };
    let p = match req_text(t, "p") {
        Result::Ok(s) => s,
        Result::Err(e) => return Err(e),
    };
    let domain_policy = match disposition_from_token(p.as_str()) {
        Option::Some(v) => v,
        Option::None => return Err(err_msg("Unknown disposition token")),
    };
    let sp = match req_text(t, "sp") {
        Result::Ok(s) => s,
        Result::Err(e) => return Err(e),
    };
    let subdomain_policy = match disposition_from_token(sp.as_str()) {
        Option::Some(v) => v,
        Option::None => return Err(err_msg("Unknown disposition token")),
    };
    let pct = match req_text(t, "pct") {
        Result::Ok(s) => s,
        Result::Err(e) => return Err(e),
    };
    let percentage = match parse_u8_str(pct.as_str()) {
        Option::Some(v) => v,
        Option::None => return Err(err_msg("The percentage is not an eight-bit number")),
    };
    let failure_reporting = match opt_text(t, "failure_reporting") {
        Result::Ok(Option::Some(s)) => Some(s.clone()),
        Result::Ok(Option::None) => None,
        Result::Err(e) => return Err(e),
    };
    let out = PolicyPublished {
        domain,
        dkim_alignment,
        spf_alignment,
        domain_policy,
        subdomain_policy,
        percentage,
        failure_reporting,
    };
    proof {
        assert(spec_policy_published(t.deep_view()) == Some(out.deep_view())) by {
            assert(spec_policy_published(t.deep_view()) matches Some(x) && x =~= out.deep_view());
        }
    }
    Ok(out)
}

fn map_reason(t: &XmlNode) -> (r: Result<PolicyOverrideReason, ParseError>)
    ensures
        match r {
            Result::Ok(x) => spec_reason(t.deep_view()) == Some(x.deep_view()),
            Result::Err(_) => spec_reason(t.deep_view()) is None,
        },
{
    let ot = match req_text(t, "override_type") {
        Result::Ok(s) => s,
        Result::Err(e) => return Err(e),
    };
    let override_type = match policy_override_from_token(ot.as_str()) {
        Option::Some(v) => v,
        Option::None => return Err(err_msg("Unknown policy override token")),
    };
    let comment = match opt_text(t, "comment") {
        Result::Ok(Option::Some(s)) => Some(s.clone()),
        Result::Ok(Option::None) => None,
        Result::Err(e) => return Err(e),
    };
    let out = PolicyOverrideReason { override_type, comment };
    proof {
        assert(spec_reason(t.deep_view()) == Some(out.deep_view())) by {
            assert(spec_reason(t.deep_view()) matches Some(x) && x =~= out.deep_view());
        }
    }
    Ok(out)
}

fn map_policy_evaluated(t: &XmlNode) -> (r: Result<PolicyEvaluated, ParseError>)
    ensures
        match r {
            Result::Ok(x) => spec_policy_evaluated(t.deep_view()) == Some(x.deep_view()),
            Result::Err(_) => spec_policy_evaluated(t.deep_view()) is None,
        },
{
    let d = match req_text(t, "disposition") {
        Result::Ok(s) => s,
        Result::Err(e) => return Err(e),
    };
    let disposition = match disposition_from_token(d.as_str()) {
        Option::Some(v) => v,
        Option::None => return Err(err_msg("Unknown disposition token")),
    };
    let dk = match req_text(t, "dkim") {
        Result::Ok(s) => s,
        Result::Err(e) => return Err(e),
    };
    let dkim = match dmarc_result_from_token(dk.as_str()) {
        Option::Some(v) => v,
        Option::None => return Err(err_msg("Unknown DMARC result token")),
    };
    let sp = match req_text(t, "spf") {
        Result::Ok(s) => s,
        Result::Err(e) => return Err(e),
    };
    let spf = match dmarc_result_from_token(sp.as_str()) {
        Option::Some(v) => v,
        Option::None => return Err(err_msg("Unknown DMARC result token")),
    };
    let rs = find_named(t, "reasons");
    let ghost rsp = named(t.deep_view(), "reasons"@);
    let mut reasons: Vec<PolicyOverrideReason> = Vec::new();
    let mut i: usize = 0;
    proof {
        assert(rsp.take(0) =~= Seq::<XmlNodeView>::empty());
        assert(reasons.deep_view() =~= Seq::<PolicyOverrideReasonView>::empty());
    }
    while i < rs.len()
        invariant
            i <= rs@.len(),
            rs@.map_values(|p: &XmlNode| p.deep_view()) == rsp,
            rsp == named(t.deep_view(), "reasons"@),
            rsp.len() == rs@.len(),
            spec_reasons(rsp.take(i as int)) == Some(reasons.deep_view()),
        decreases rs@.len() - i,
    {
        let ghost r0 = reasons.deep_view();
        proof {
            assert(rsp.take(i + 1).drop_last() =~= rsp.take(i as int));
            assert(rsp.take(i + 1).last() == rsp[i as int]);
            assert(rsp[i as int] == rs@[i as int].deep_view());
        }
        match map_reason(rs[i]) {
            Result::Ok(x) => {
                reasons.push(x);
                proof {
                    assert(reasons.deep_view() =~= r0.push(reasons@[reasons@.len() - 1].deep_view()));
                }
            },
            Result::Err(e) => {
                proof {
                    lemma_reasons_extend(rsp, i + 1);
                }
                return Err(e);
            },
        }
        i = i + 1;
    }
    proof {
        assert(rsp.take(rsp.len() as int) =~= rsp);
    }
    let out = PolicyEvaluated { disposition, dkim, spf, reasons };
    proof {
        assert(spec_policy_evaluated(t.deep_view()) == Some(out.deep_view())) by {
            assert(spec_policy_evaluated(t.deep_view()) matches Some(x) && x =~= out.deep_view());
        }
    }
    Ok(out)
}

fn map_row(t: &XmlNode) -> (r: Result<Row, ParseError>)
    ensures
        match r {
            Result::Ok(x) => spec_row(t.deep_view()) == Some(x.deep_view()),
            Result::Err(_) => spec_row(t.deep_view()) is None,
        },
{
    let ip = match req_text(t, "source_ip") {
        Result::Ok(s) => s,
        Result::Err(e) => return Err(e),
    };
    let source_ip = match parse_ip(ip.as_str()) {
        Option::Some(v) => v,
        Option::None => return Err(err_msg("The source is not an IP address")),
    };
    let cnt = match req_text(t, "count") {
        Result::Ok(s) => s,
        Result::Err(e) => return Err(e),
    };
    let count = match parse_u64_str(cnt.as_str()) {
        Option::Some(v) => v,
        Option::None => return Err(err_msg("The count is not a number")),
    };
    let pe = match req_child(t, "policy_evaluated") {
        Result::Ok(n) => n,
        Result::Err(e) => return Err(e),
    };
    let policy_evaluated = match map_policy_evaluated(pe) {
        Result::Ok(x) => x,
        Result::Err(e) => return Err(e),
    };
    let out = Row { source_ip, count, policy_evaluated };
    proof {
        assert(spec_row(t.deep_view()) == Some(out.deep_view())) by {
            assert(spec_row(t.deep_view()) matches Some(x) && x =~= out.deep_view());
        }
    }
    Ok(out)
}

fn map_identifier(t: &XmlNode) -> (r: Result<Identifier, ParseError>)
    ensures
        match r {
            Result::Ok(x) => spec_identifier(t.deep_view()) == Some(x.deep_view()),
            Result::Err(_) => spec_identifier(t.deep_view()) is None,
        },
{
    let envelope_to = match opt_text(t, "envelope_to") {
        Result::Ok(Option::Some(s)) => Some(s.clone()),
        Result::Ok(Option::None) => None,
        Result::Err(e) => return Err(e),
    };
    let envelope_from = match opt_text(t, "envelope_from") {
        Result::Ok(Option::Some(s)) => Some(s.clone()),
        Result::Ok(Option::None) => None,
        Result::Err(e) => return Err(e),
    };
    let header_from = match req_text(t, "header_from") {
        Result::Ok(s) => s.clone(),
        Result::Err(e) => return Err(e),
    };
    let out = Identifier { envelope_to, envelope_from, header_from };
    proof {
        assert(spec_identifier(t.deep_view()) == Some(out.deep_view())) by {
            assert(spec_identifier(t.deep_view()) matches Some(x) && x =~= out.deep_view());
        }
    }
    Ok(out)
}

fn map_spf_auth(t: &XmlNode) -> (r: Result<SpfAuthResult, ParseError>)
    ensures
        match r {
            Result::Ok(x) => spec_spf_auth(t.deep_view()) == Some(x.deep_view()),
            Result::Err(_) => spec_spf_auth(t.deep_view()) is None,
        },
{
    let domain = match req_text(t, "domain") {
        Result::Ok(s) => s.clone(),
        Result::Err(e) => return Err(e),
    };
    let res = match req_text(t, "result") {
        Result::Ok(s) => s,
        Result::Err(e) => return Err(e),
    };
    let result = match spf_result_from_token(res.as_str()) {
        Option::Some(v) => v,
        Option::None => return Err(err_msg("Unknown SPF result token")),
    };
    let out = SpfAuthResult { domain, result };
    proof {
        assert(spec_spf_auth(t.deep_view()) == Some(out.deep_view())) by {
            assert(spec_spf_auth(t.deep_view()) matches Some(x) && x =~= out.deep_view());
        }
    }
    Ok(out)
}

fn map_dkim_auth(t: &XmlNode) -> (r: Result<DkimAuthResult, ParseError>)
    ensures
        match r {
            Result::Ok(x) => spec_dkim_auth(t.deep_view()) == Some(x.deep_view()),
            Result::Err(_) => spec_dkim_auth(t.deep_view()) is None,
        },
{
    let domain = match req_text(t, "domain") {
        Result::Ok(s) => s.clone(),
        Result::Err(e) => return Err(e),
    };
    let selector = match req_text(t, "selector") {
        Result::Ok(s) => s.clone(),
        Result::Err(e) => return Err(e),
    };
    let res = match req_text(t, "result") {
        Result::Ok(s) => s,
        Result::Err(e) => return Err(e),
    };
    let result = match dkim_result_from_token(res.as_str()) {
        Option::Some(v) => v,
        Option::None => return Err(err_msg("Unknown DKIM result token")),
    };
    let out = DkimAuthResult { domain, selector, result };
    proof {
        assert(spec_dkim_auth(t.deep_view()) == Some(out.deep_view())) by {
            assert(spec_dkim_auth(t.deep_view()) matches Some(x) && x =~= out.deep_view());
        }
    }
    Ok(out)
}

fn map_auth_results(t: &XmlNode) -> (r: Result<AuthResults, ParseError>)
    ensures
        match r {
            Result::Ok(x) => spec_auth_results(t.deep_view()) == Some(x.deep_view()),
            Result::Err(_) => spec_auth_results(t.deep_view()) is None,
        },
{
    let sn = find_named(t, "spf");
    let ghost snp = named(t.deep_view(), "spf"@);
    let mut spf: Vec<SpfAuthResult> = Vec::new();
    let mut i: usize = 0;
    proof {
        assert(snp.take(0) =~= Seq::<XmlNodeView>::empty());
        assert(spf.deep_view() =~= Seq::<SpfAuthResultView>::empty());
    }
    while i < sn.len()
        invariant
            i <= sn@.len(),
            sn@.map_values(|p: &XmlNode| p.deep_view()) == snp,
            snp == named(t.deep_view(), "spf"@),
            snp.len() == sn@.len(),
            spec_spf_auths(snp.take(i as int)) == Some(spf.deep_view()),
        decreases sn@.len() - i,
    {
        let ghost s0 = spf.deep_view();
        proof {
            assert(snp.take(i + 1).drop_last() =~= snp.take(i as int));
            assert(snp.take(i + 1).last() == snp[i as int]);
            assert(snp[i as int] == sn@[i as int].deep_view());
        }
        match map_spf_auth(sn[i]) {
            Result::Ok(x) => {
                spf.push(x);
                proof {
                    assert(spf.deep_view() =~= s0.push(spf@[spf@.len() - 1].deep_view()));
                }
            },
            Result::Err(e) => {
                proof {
                    lemma_spf_auths_extend(snp, i + 1);
                }
                return Err(e);
            },
        }
        i = i + 1;
    }
    proof {
        assert(snp.take(snp.len() as int) =~= snp);
    }
    let dn = find_named(t, "dkim");
    let ghost dnp = named(t.deep_view(), "dkim"@);
    let mut dkim: Vec<DkimAuthResult> = Vec::new();
    let mut j: usize = 0;
    proof {
        assert(dnp.take(0) =~= Seq::<XmlNodeView>::empty());
        assert(dkim.deep_view() =~= Seq::<DkimAuthResultView>::empty());
    }
    while j < dn.len()
        invariant
            j <= dn@.len(),
            dn@.map_values(|p: &XmlNode| p.deep_view()) == dnp,
            dnp == named(t.deep_view(), "dkim"@),
            dnp.len() == dn@.len(),
            spec_dkim_auths(dnp.take(j as int)) == Some(dkim.deep_view()),
        decreases dn@.len() - j,
    {
        let ghost d0 = dkim.deep_view();
        proof {
            assert(dnp.take(j + 1).drop_last() =~= dnp.take(j as int));
            assert(dnp.take(j + 1).last() == dnp[j as int]);
            assert(dnp[j as int] == dn@[j as int].deep_view());
        }
        match map_dkim_auth(dn[j]) {
            Result::Ok(x) => {
                dkim.push(x);
                proof {
                    assert(dkim.deep_view() =~= d0.push(dkim@[dkim@.len() - 1].deep_view()));
                }
            },
            Result::Err(e) => {
                proof {
                    lemma_dkim_auths_extend(dnp, j + 1);
                }
                return Err(e);
            },
        }
        j = j + 1;
    }
    proof {
        assert(dnp.take(dnp.len() as int) =~= dnp);
    }
    let out = AuthResults { spf, dkim };
    proof {
        assert(spec_auth_results(t.deep_view()) == Some(out.deep_view())) by {
            assert(spec_auth_results(t.deep_view()) matches Some(x) && x =~= out.deep_view());
        }
    }
    Ok(out)
}

fn map_record(t: &XmlNode) -> (r: Result<Record, ParseError>)
    ensures
        match r {
            Result::Ok(x) => spec_record(t.deep_view()) == Some(x.deep_view()),
            Result::Err(_) => spec_record(t.deep_view()) is None,
        },
{
    let rn = match req_child(t, "row") {
        Result::Ok(n) => n,
        Result::Err(e) => return Err(e),
    };
    let row = match map_row(rn) {
        Result::Ok(x) => x,
        Result::Err(e) => return Err(e),
    };
    let idn = match req_child(t, "identifiers") {
        Result::Ok(n) => n,
        Result::Err(e) => return Err(e),
    };
    let identifiers = match map_identifier(idn) {
        Result::Ok(x) => x,
        Result::Err(e) => return Err(e),
    };
    let arn = match req_child(t, "auth_results") {
        Result::Ok(n) => n,
        Result::Err(e) => return Err(e),
    };
    let auth_results = match map_auth_results(arn) {
        Result::Ok(x) => x,
        Result::Err(e) => return Err(e),
    };
    let out = Record { row, identifiers, auth_results };
    proof {
        assert(spec_record(t.deep_view()) == Some(out.deep_view())) by {
            assert(spec_record(t.deep_view()) matches Some(x) && x =~= out.deep_view());
        }
    }
    Ok(out)
}

/// Maps one element tree onto the report schema, exactly as
/// `spec_feedback` describes it.
pub fn feedback_from_tree(t: &XmlNode) -> (r: Result<Feedback, ParseError>)
    ensures
        match r {
            Result::Ok(f) => spec_feedback(t.deep_view()) == Some(f.deep_view()),
            Result::Err(_) => spec_feedback(t.deep_view()) is None,
        },
{
    let mdn = match req_child(t, "report_metadata") {
        Result::Ok(n) => n,
        Result::Err(e) => return Err(e),
    };
    let report_metadata = match map_metadata(mdn) {
        Result::Ok(x) => x,
        Result::Err(e) => return Err(e),
    };
    let ppn = match req_child(t, "policy_published") {
        Result::Ok(n) => n,
        Result::Err(e) => return Err(e),
    };
    let policy_published = match map_policy_published(ppn) {
        Result::Ok(x) => x,
        Result::Err(e) => return Err(e),
    };
    let rn = find_named(t, "record");
    let ghost rnp = named(t.deep_view(), "record"@);
    let mut records: Vec<Record> = Vec::new();
    let mut i: usize = 0;
    proof {
        assert(rnp.take(0) =~= Seq::<XmlNodeView>::empty());
        assert(records.deep_view() =~= Seq::<RecordView>::empty());
    }
    while i < rn.len()
        invariant
            i <= rn@.len(),
            rn@.map_values(|p: &XmlNode| p.deep_view()) == rnp,
            rnp == named(t.deep_view(), "record"@),
            rnp.len() == rn@.len(),
            spec_records(rnp.take(i as int)) == Some(records.deep_view()),
        decreases rn@.len() - i,
    {
        let ghost r0 = records.deep_view();
        proof {
            assert(rnp.take(i + 1).drop_last() =~= rnp.take(i as int));
            assert(rnp.take(i + 1).last() == rnp[i as int]);
            assert(rnp[i as int] == rn@[i as int].deep_view());
        }
        match map_record(rn[i]) {
            Result::Ok(x) => {
                records.push(x);
                proof {
                    assert(records.deep_view() =~= r0.push(records@[records@.len() - 1].deep_view()));
                }
            },
            Result::Err(e) => {
                proof {
                    lemma_records_extend(rnp, i + 1);
                }
                return Err(e);
            },
        }
        i = i + 1;
    }
    proof {
        assert(rnp.take(rnp.len() as int) =~= rnp);
    }
    let out = Feedback { report_metadata, policy_published, records };
    proof {
        assert(spec_feedback(t.deep_view()) == Some(out.deep_view())) by {
            assert(spec_feedback(t.deep_view()) matches Some(x) && x =~= out.deep_view());
        }
    }
    Ok(out)
}

/// What the report's XML text denotes: the schema mapping of the
/// element tree the text parses to, or nothing when the text is no
/// well-formed document or the tree does not satisfy the schema.
pub open spec fn spec_feedback_of_text(text: Seq<char>) -> Option<FeedbackView> {
    match spec_xml_tree(text) {
        Option::Some(v) => spec_feedback(v),
        Option::None => Option::None,
    }
}

/// Deserializes the report's XML text: parses it into an element tree
/// and maps that onto the schema, exactly as `spec_feedback_of_text`
/// describes it.
pub fn feedback_from_xml(text: &str) -> (r: Result<Feedback, ParseError>)
    ensures
        match spec_feedback_of_text(text@) {
            Option::Some(fv) => r matches Ok(f) && f.deep_view() == fv,
            Option::None => r is Err,
        },
{
    let tree = match parse_xml_tree(text) {
        Result::Ok(t) => t,
        Result::Err(e) => return Err(e),
    };
    feedback_from_tree(&tree)
}

} // verus!
