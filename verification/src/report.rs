use vstd::prelude::*;

use crate::ip::IpAddress;

verus! {

/// A moment in time, counted in whole seconds since the Unix epoch
/// (1970-01-01T00:00:00Z). DMARC aggregate reports carry their date
/// ranges as decimal epoch-second strings, so the count of seconds is
/// the whole content of such an instant.
#[derive(Clone, Copy, Debug, PartialEq, Eq, Structural)]
pub struct UtcInstant {
    pub epoch_seconds: u64,
}

/// The policy action a receiver applied to a message.
#[derive(Clone, Copy, Debug, PartialEq, Eq, Structural)]
pub enum Disposition {
    NoAction,
    Quarantine,
    Reject,
}

/// Whether DKIM/SPF domain matching uses organizational-domain
/// ("relaxed") or exact ("strict") comparison.
#[derive(Clone, Copy, Debug, PartialEq, Eq, Structural)]
pub enum Alignment {
    Relaxed,
    Strict,
}

/// Per-mechanism SPF outcome reported for one message source.
#[derive(Clone, Copy, Debug, PartialEq, Eq, Structural)]
pub enum SpfResult {
    NoResult,
    Pass,
    Fail,
    SoftFail,
    Neutral,
    TempError,
    PermError,
}

/// Per-mechanism DKIM outcome reported for one message source.
#[derive(Clone, Copy, Debug, PartialEq, Eq, Structural)]
pub enum DkimResult {
    NoResult,
    Pass,
    Fail,
    Policy,
    Neutral,
    TempError,
    PermError,
}

/// DMARC evaluation outcome for one mechanism (aligned pass or not).
#[derive(Clone, Copy, Debug, PartialEq, Eq, Structural)]
pub enum DmarcResult {
    Pass,
    Fail,
}

/// Why a receiver overrode the published policy.
#[derive(Clone, Copy, Debug, PartialEq, Eq, Structural)]
pub enum PolicyOverride {
    Forwarded,
    SampledOut,
    TrustedForwarder,
    MailingList,
    LocalPolicy,
    Other,
}

/// The reporting period of one aggregate report, both ends inclusive.
#[derive(Clone, Copy, Debug, PartialEq, Eq, Structural)]
pub struct DateRange {
    pub begin: UtcInstant,
    pub end: UtcInstant,
}

/// Who produced the report, for which report id, and over which period.
#[derive(Clone, Debug, PartialEq)]
pub struct ReportMetadata {
    pub org_name: String,
    pub email: String,
    pub extra_contact_info: Option<String>,
    pub report_id: String,
    pub date_range: DateRange,
    pub errors: Vec<String>,
}

/// The DMARC policy the domain owner had published when the report was made.
#[derive(Clone, Debug, PartialEq)]
pub struct PolicyPublished {
    pub domain: String,
    pub dkim_alignment: Alignment,
    pub spf_alignment: Alignment,
    pub domain_policy: Disposition,
    pub subdomain_policy: Disposition,
    pub percentage: u8,
    pub failure_reporting: Option<String>,
}

/// One override of the published policy, with an optional comment.
#[derive(Clone, Debug, PartialEq)]
pub struct PolicyOverrideReason {
    pub override_type: PolicyOverride,
    pub comment: Option<String>,
}

/// The policy evaluation for one source: the action taken, the two
/// aligned results, and any overrides applied.
#[derive(Clone, Debug, PartialEq)]
pub struct PolicyEvaluated {
    pub disposition: Disposition,
    pub dkim: DmarcResult,
    pub spf: DmarcResult,
    pub reasons: Vec<PolicyOverrideReason>,
}

/// One reported source: its address, how many messages it sent, and
/// how the policy evaluated for them.
#[derive(Clone, Debug, PartialEq)]
pub struct Row {
    pub source_ip: IpAddress,
    pub count: u64,
    pub policy_evaluated: PolicyEvaluated,
}

/// The message identifiers the report ties a row to.
#[derive(Clone, Debug, PartialEq)]
pub struct Identifier {
    pub envelope_to: Option<String>,
    pub envelope_from: Option<String>,
    pub header_from: String,
}

/// One raw SPF authentication result.
#[derive(Clone, Debug, PartialEq)]
pub struct SpfAuthResult {
    pub domain: String,
    pub result: SpfResult,
}

/// One raw DKIM authentication result.
#[derive(Clone, Debug, PartialEq)]
pub struct DkimAuthResult {
    pub domain: String,
    pub selector: String,
    pub result: DkimResult,
}

/// The raw authentication results for one row, possibly empty on
/// either side.
#[derive(Clone, Debug, PartialEq)]
pub struct AuthResults {
    pub spf: Vec<SpfAuthResult>,
    pub dkim: Vec<DkimAuthResult>,
}

/// One `<record>` of the report.
#[derive(Clone, Debug, PartialEq)]
pub struct Record {
    pub row: Row,
    pub identifiers: Identifier,
    pub auth_results: AuthResults,
}

/// A whole decoded aggregate report.
#[derive(Clone, Debug, PartialEq)]
pub struct Feedback {
    pub report_metadata: ReportMetadata,
    pub policy_published: PolicyPublished,
    pub records: Vec<Record>,
}

// Mathematical views of the model. Strings become sequences of
// characters and vectors become sequences; the all-scalar types stand
// for themselves.

#[verifier::ext_equal]
pub ghost struct ReportMetadataView {
    pub org_name: Seq<char>,
    pub email: Seq<char>,
    pub extra_contact_info: Option<Seq<char>>,
    pub report_id: Seq<char>,
    pub date_range: DateRange,
    pub errors: Seq<Seq<char>>,
}

#[verifier::ext_equal]
pub ghost struct PolicyPublishedView {
    pub domain: Seq<char>,
    pub dkim_alignment: Alignment,
    pub spf_alignment: Alignment,
    pub domain_policy: Disposition,
    pub subdomain_policy: Disposition,
    pub percentage: u8,
    pub failure_reporting: Option<Seq<char>>,
}

#[verifier::ext_equal]
pub ghost struct PolicyOverrideReasonView {
    pub override_type: PolicyOverride,
    pub comment: Option<Seq<char>>,
}

#[verifier::ext_equal]
pub ghost struct PolicyEvaluatedView {
    pub disposition: Disposition,
    pub dkim: DmarcResult,
    pub spf: DmarcResult,
    pub reasons: Seq<PolicyOverrideReasonView>,
}

#[verifier::ext_equal]
pub ghost struct RowView {
    pub source_ip: IpAddress,
    pub count: u64,
    pub policy_evaluated: PolicyEvaluatedView,
}

#[verifier::ext_equal]
pub ghost struct IdentifierView {
    pub envelope_to: Option<Seq<char>>,
    pub envelope_from: Option<Seq<char>>,
    pub header_from: Seq<char>,
}

#[verifier::ext_equal]
pub ghost struct SpfAuthResultView {
    pub domain: Seq<char>,
    pub result: SpfResult,
}

#[verifier::ext_equal]
pub ghost struct DkimAuthResultView {
    pub domain: Seq<char>,
    pub selector: Seq<char>,
    pub result: DkimResult,
}

#[verifier::ext_equal]
pub ghost struct AuthResultsView {
    pub spf: Seq<SpfAuthResultView>,
    pub dkim: Seq<DkimAuthResultView>,
}

#[verifier::ext_equal]
pub ghost struct RecordView {
    pub row: RowView,
    pub identifiers: IdentifierView,
    pub auth_results: AuthResultsView,
}

#[verifier::ext_equal]
pub ghost struct FeedbackView {
    pub report_metadata: ReportMetadataView,
    pub policy_published: PolicyPublishedView,
    pub records: Seq<RecordView>,
}

impl DeepView for ReportMetadata {
    type V = ReportMetadataView;

    open spec fn deep_view(&self) -> ReportMetadataView {
        ReportMetadataView {
            org_name: self.org_name@,
            email: self.email@,
            extra_contact_info: self.extra_contact_info.deep_view(),
            report_id: self.report_id@,
            date_range: self.date_range,
            errors: self.errors.deep_view(),
        }
    }
}

impl DeepView for PolicyPublished {
    type V = PolicyPublishedView;

    open spec fn deep_view(&self) -> PolicyPublishedView {
        PolicyPublishedView {
            domain: self.domain@,
            dkim_alignment: self.dkim_alignment,
            spf_alignment: self.spf_alignment,
            domain_policy: self.domain_policy,
            subdomain_policy: self.subdomain_policy,
            percentage: self.percentage,
            failure_reporting: self.failure_reporting.deep_view(),
        }
    }
}

impl DeepView for PolicyOverrideReason {
    type V = PolicyOverrideReasonView;

    open spec fn deep_view(&self) -> PolicyOverrideReasonView {
        PolicyOverrideReasonView {
            override_type: self.override_type,
            comment: self.comment.deep_view(),
        }
    }
}

impl DeepView for PolicyEvaluated {
    type V = PolicyEvaluatedView;

    open spec fn deep_view(&self) -> PolicyEvaluatedView {
        PolicyEvaluatedView {
            disposition: self.disposition,
            dkim: self.dkim,
            spf: self.spf,
            reasons: self.reasons.deep_view(),
        }
    }
}

impl DeepView for Row {
    type V = RowView;

    open spec fn deep_view(&self) -> RowView {
        RowView {
            source_ip: self.source_ip,
            count: self.count,
            policy_evaluated: self.policy_evaluated.deep_view(),
        }
    }
}

impl DeepView for Identifier {
    type V = IdentifierView;

    open spec fn deep_view(&self) -> IdentifierView {
        IdentifierView {
            envelope_to: self.envelope_to.deep_view(),
            envelope_from: self.envelope_from.deep_view(),
            header_from: self.header_from@,
        }
    }
}

impl DeepView for SpfAuthResult {
    type V = SpfAuthResultView;

    open spec fn deep_view(&self) -> SpfAuthResultView {
        SpfAuthResultView { domain: self.domain@, result: self.result }
    }
}

impl DeepView for DkimAuthResult {
    type V = DkimAuthResultView;

    open spec fn deep_view(&self) -> DkimAuthResultView {
        DkimAuthResultView {
            domain: self.domain@,
            selector: self.selector@,
            result: self.result,
        }
    }
}

impl DeepView for AuthResults {
    type V = AuthResultsView;

    open spec fn deep_view(&self) -> AuthResultsView {
        AuthResultsView { spf: self.spf.deep_view(), dkim: self.dkim.deep_view() }
    }
}

impl DeepView for Record {
    type V = RecordView;

    open spec fn deep_view(&self) -> RecordView {
        RecordView {
            row: self.row.deep_view(),
            identifiers: self.identifiers.deep_view(),
            auth_results: self.auth_results.deep_view(),
        }
    }
}

impl DeepView for Feedback {
    type V = FeedbackView;

    open spec fn deep_view(&self) -> FeedbackView {
        FeedbackView {
            report_metadata: self.report_metadata.deep_view(),
            policy_published: self.policy_published.deep_view(),
            records: self.records.deep_view(),
        }
    }
}

} // verus!
