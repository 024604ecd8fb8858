//! Public + internal types for the agent assistance interface.
//!
//! The split between [`FactBundle`] and [`AssistResponse`] is deliberate: tools produce a
//! [`FactBundle`], and the HTTP layer wraps it in an [`AssistResponse`] envelope.
use crate::containers::Dup;
use crate::text::str_eq;
use vstd::prelude::*;

verus! {

broadcast use vstd::string::group_string_axioms;

// ── Disclosure levels ───────────────────────────────────────────────

/// Caller authorization tier.
///
/// Each tool declares the minimum level required for its facts to be returned.
#[derive(Debug, Clone, Copy, PartialEq, Eq, PartialOrd, Ord, Structural)]
pub enum DisclosureLevel {
    /// Anyone, including unauthenticated callers.
    Public,
    /// An authenticated DID, asking about its own state only.
    Account,
    /// Authenticated and currently a member of the channel in question.
    ChannelMember,
    /// Authenticated and an op (`@`) on the channel in question.
    ChannelOperator,
    /// Server operator.
    ServerOperator,
}

impl DeepView for DisclosureLevel {
    type V = DisclosureLevel;

    open spec fn deep_view(&self) -> DisclosureLevel {
        *self
    }
}

impl Dup for DisclosureLevel {
    fn dup(&self) -> (r: DisclosureLevel) {
        *self
    }
}

/// How high a level is.
pub open spec fn level_rank(l: DisclosureLevel) -> nat {
    match l {
        DisclosureLevel::Public => 0,
        DisclosureLevel::Account => 1,
        DisclosureLevel::ChannelMember => 2,
        DisclosureLevel::ChannelOperator => 3,
        DisclosureLevel::ServerOperator => 4,
    }
}

/// The name of a level.
pub open spec fn level_name(l: DisclosureLevel) -> Seq<char> {
    match l {
        DisclosureLevel::Public => "Public"@,
        DisclosureLevel::Account => "Account"@,
        DisclosureLevel::ChannelMember => "ChannelMember"@,
        DisclosureLevel::ChannelOperator => "ChannelOperator"@,
        DisclosureLevel::ServerOperator => "ServerOperator"@,
    }
}

impl DisclosureLevel {
    /// How high the level is.
    fn rank(self) -> (r: u8)
        ensures
            r == level_rank(self),
    {
        match self {
            DisclosureLevel::Public => 0,
            DisclosureLevel::Account => 1,
            DisclosureLevel::ChannelMember => 2,
            DisclosureLevel::ChannelOperator => 3,
            DisclosureLevel::ServerOperator => 4,
        }
    }

    /// True if the caller's level satisfies the requirement.
    pub fn satisfies(self, required: DisclosureLevel) -> (b: bool)
        ensures
            b == (level_rank(self) >= level_rank(required)),
    {
        self.rank() >= required.rank()
    }

    /// The name of the level.
    pub fn name(self) -> (r: &'static str)
        ensures
            r@ == level_name(self),
    {
        match self {
            DisclosureLevel::Public => "Public",
            DisclosureLevel::Account => "Account",
            DisclosureLevel::ChannelMember => "ChannelMember",
            DisclosureLevel::ChannelOperator => "ChannelOperator",
            DisclosureLevel::ServerOperator => "ServerOperator",
        }
    }
}

/// The levels are in one order: of two different levels one satisfies the other and not the other
/// way round.
pub proof fn law_levels_are_ordered(a: DisclosureLevel, b: DisclosureLevel)
    ensures
        level_rank(a) >= level_rank(b) || level_rank(b) >= level_rank(a),
        level_rank(a) >= level_rank(b) && level_rank(b) >= level_rank(a) ==> a == b,
{
}

// ── Caller context ──────────────────────────────────────────────────

/// The mathematical content of a [`Caller`].
pub struct CallerView {
    pub did: Option<Seq<char>>,
    pub session_id: Option<Seq<char>>,
    pub level: DisclosureLevel,
}

/// Identifies the caller for permission and scoping decisions.
#[derive(Debug)]
pub struct Caller {
    /// Authenticated DID, if the caller presented a valid bearer.
    pub did: Option<String>,
    /// IRC session id the bearer resolved to (for self-scoping).
    pub session_id: Option<String>,
    /// Caller's tier when no channel is involved.
    pub level: DisclosureLevel,
}

impl DeepView for Caller {
    type V = CallerView;

    open spec fn deep_view(&self) -> CallerView {
        CallerView {
            did: self.did.deep_view(),
            session_id: self.session_id.deep_view(),
            level: self.level.deep_view(),
        }
    }
}

impl Dup for Caller {
    fn dup(&self) -> (r: Caller) {
        Caller {
            did: self.did.dup(),
            session_id: self.session_id.dup(),
            level: self.level.dup(),
        }
    }
}

impl Caller {
    /// An anonymous, unauthenticated caller.
    pub fn anonymous() -> (c: Caller)
        ensures
            c.deep_view() == (CallerView {
                did: None,
                session_id: None,
                level: DisclosureLevel::Public,
            }),
    {
        Caller { did: None, session_id: None, level: DisclosureLevel::Public }
    }

    /// True if this caller is the named DID.
    pub fn is_self(&self, did: &str) -> (b: bool)
        ensures
            b == (self.deep_view().did == Some(did@)),
    {
        match &self.did {
            Some(d) => str_eq(d.as_str(), did),
            None => false,
        }
    }
}

// ── Fact bundles ────────────────────────────────────────────────────

/// Coarse confidence on a diagnosis.
#[derive(Debug, Clone, Copy, PartialEq, Eq, Structural)]
pub enum Confidence {
    Low,
    Medium,
    High,
}

impl DeepView for Confidence {
    type V = Confidence;

    open spec fn deep_view(&self) -> Confidence {
        *self
    }
}

impl Dup for Confidence {
    fn dup(&self) -> (r: Confidence) {
        *self
    }
}

/// The mathematical content of a [`SuggestedFix`].
pub struct SuggestedFixView {
    pub summary: Seq<char>,
    pub details: Option<Seq<char>>,
}

/// What the caller could do.
#[derive(Debug)]
pub struct SuggestedFix {
    pub summary: String,
    pub details: Option<String>,
}

impl DeepView for SuggestedFix {
    type V = SuggestedFixView;

    open spec fn deep_view(&self) -> SuggestedFixView {
        SuggestedFixView {
            summary: self.summary.deep_view(),
            details: self.details.deep_view(),
        }
    }
}

impl Dup for SuggestedFix {
    fn dup(&self) -> (r: SuggestedFix) {
        SuggestedFix {
            summary: self.summary.dup(),
            details: self.details.dup(),
        }
    }
}

/// The mathematical content of a [`Followup`].
pub struct FollowupView {
    pub tool: Seq<char>,
    pub reason: Seq<char>,
}

/// A tool that the caller could call next.
#[derive(Debug)]
pub struct Followup {
    pub tool: String,
    pub reason: String,
}

impl DeepView for Followup {
    type V = FollowupView;

    open spec fn deep_view(&self) -> FollowupView {
        FollowupView {
            tool: self.tool.deep_view(),
            reason: self.reason.deep_view(),
        }
    }
}

impl Dup for Followup {
    fn dup(&self) -> (r: Followup) {
        Followup {
            tool: self.tool.dup(),
            reason: self.reason.dup(),
        }
    }
}

/// The mathematical content of a [`FactBundle`].
pub struct FactBundleView {
    pub ok: bool,
    pub code: Seq<char>,
    pub summary: Seq<char>,
    pub confidence: Confidence,
    pub safe_facts: Seq<Seq<char>>,
    pub suggested_fixes: Seq<SuggestedFixView>,
    pub redactions: Seq<Seq<char>>,
    pub followups: Seq<FollowupView>,
    pub min_disclosure: DisclosureLevel,
}

/// A diagnosis with safe facts. Tools produce these; the api layer wraps them in
/// [`AssistResponse`].
#[derive(Debug)]
pub struct FactBundle {
    /// Whether the diagnosis indicates a healthy state.
    pub ok: bool,
    /// Stable machine-readable diagnosis code.
    pub code: String,
    /// Human-readable one-line summary.
    pub summary: String,
    pub confidence: Confidence,
    /// Facts derived from server state, already filtered for the bundle's `min_disclosure` level.
    pub safe_facts: Vec<String>,
    pub suggested_fixes: Vec<SuggestedFix>,
    /// Categories of data deliberately omitted.
    pub redactions: Vec<String>,
    /// Tools the caller could call next for more detail.
    pub followups: Vec<Followup>,
    /// Minimum caller tier required to return this bundle as-is.
    pub min_disclosure: DisclosureLevel,
}

impl DeepView for FactBundle {
    type V = FactBundleView;

    open spec fn deep_view(&self) -> FactBundleView {
        FactBundleView {
            ok: self.ok.deep_view(),
            code: self.code.deep_view(),
            summary: self.summary.deep_view(),
            confidence: self.confidence.deep_view(),
            safe_facts: self.safe_facts.deep_view(),
            suggested_fixes: self.suggested_fixes.deep_view(),
            redactions: self.redactions.deep_view(),
            followups: self.followups.deep_view(),
            min_disclosure: self.min_disclosure.deep_view(),
        }
    }
}

impl Dup for FactBundle {
    fn dup(&self) -> (r: FactBundle) {
        FactBundle {
            ok: self.ok.dup(),
            code: self.code.dup(),
            summary: self.summary.dup(),
            confidence: self.confidence.dup(),
            safe_facts: self.safe_facts.dup(),
            suggested_fixes: self.suggested_fixes.dup(),
            redactions: self.redactions.dup(),
            followups: self.followups.dup(),
            min_disclosure: self.min_disclosure.dup(),
        }
    }
}

// ── HTTP envelope ───────────────────────────────────────────────────

/// The mathematical content of a [`Diagnosis`].
pub struct DiagnosisView {
    pub code: Seq<char>,
    pub summary: Seq<char>,
    pub confidence: Confidence,
}

/// What was found.
#[derive(Debug)]
pub struct Diagnosis {
    pub code: String,
    pub summary: String,
    pub confidence: Confidence,
}

impl DeepView for Diagnosis {
    type V = DiagnosisView;

    open spec fn deep_view(&self) -> DiagnosisView {
        DiagnosisView {
            code: self.code.deep_view(),
            summary: self.summary.deep_view(),
            confidence: self.confidence.deep_view(),
        }
    }
}

impl Dup for Diagnosis {
    fn dup(&self) -> (r: Diagnosis) {
        Diagnosis {
            code: self.code.dup(),
            summary: self.summary.dup(),
            confidence: self.confidence.dup(),
        }
    }
}

/// The mathematical content of a [`RoutedClassification`].
pub struct RoutedClassificationView {
    pub provider: Seq<char>,
    pub tool: Option<Seq<char>>,
    pub confidence: Confidence,
    pub summary: Option<Seq<char>>,
}

/// How a free-form request was routed.
#[derive(Debug)]
pub struct RoutedClassification {
    pub provider: String,
    pub tool: Option<String>,
    pub confidence: Confidence,
    pub summary: Option<String>,
}

impl DeepView for RoutedClassification {
    type V = RoutedClassificationView;

    open spec fn deep_view(&self) -> RoutedClassificationView {
        RoutedClassificationView {
            provider: self.provider.deep_view(),
            tool: self.tool.deep_view(),
            confidence: self.confidence.deep_view(),
            summary: self.summary.deep_view(),
        }
    }
}

impl Dup for RoutedClassification {
    fn dup(&self) -> (r: RoutedClassification) {
        RoutedClassification {
            provider: self.provider.dup(),
            tool: self.tool.dup(),
            confidence: self.confidence.dup(),
            summary: self.summary.dup(),
        }
    }
}

/// The mathematical content of a [`AssistResponse`].
pub struct AssistResponseView {
    pub ok: bool,
    pub request_id: Seq<char>,
    pub diagnosis: DiagnosisView,
    pub safe_facts: Seq<Seq<char>>,
    pub suggested_fixes: Seq<SuggestedFixView>,
    pub redactions: Seq<Seq<char>>,
    pub followups: Seq<FollowupView>,
    pub classification: Option<RoutedClassificationView>,
}

/// Outer envelope returned by every tool endpoint. `classification` is there for free-form
/// requests only.
#[derive(Debug)]
pub struct AssistResponse {
    pub ok: bool,
    pub request_id: String,
    pub diagnosis: Diagnosis,
    pub safe_facts: Vec<String>,
    pub suggested_fixes: Vec<SuggestedFix>,
    pub redactions: Vec<String>,
    pub followups: Vec<Followup>,
    pub classification: Option<RoutedClassification>,
}

impl DeepView for AssistResponse {
    type V = AssistResponseView;

    open spec fn deep_view(&self) -> AssistResponseView {
        AssistResponseView {
            ok: self.ok.deep_view(),
            request_id: self.request_id.deep_view(),
            diagnosis: self.diagnosis.deep_view(),
            safe_facts: self.safe_facts.deep_view(),
            suggested_fixes: self.suggested_fixes.deep_view(),
            redactions: self.redactions.deep_view(),
            followups: self.followups.deep_view(),
            classification: self.classification.deep_view(),
        }
    }
}

impl Dup for AssistResponse {
    fn dup(&self) -> (r: AssistResponse) {
        AssistResponse {
            ok: self.ok.dup(),
            request_id: self.request_id.dup(),
            diagnosis: self.diagnosis.dup(),
            safe_facts: self.safe_facts.dup(),
            suggested_fixes: self.suggested_fixes.dup(),
            redactions: self.redactions.dup(),
            followups: self.followups.dup(),
            classification: self.classification.dup(),
        }
    }
}

/// The envelope of a bundle.
pub open spec fn enveloped(
    request_id: Seq<char>,
    b: FactBundleView,
    classification: Option<RoutedClassificationView>,
) -> AssistResponseView {
    AssistResponseView {
        ok: b.ok,
        request_id,
        diagnosis: DiagnosisView { code: b.code, summary: b.summary, confidence: b.confidence },
        safe_facts: b.safe_facts,
        suggested_fixes: b.suggested_fixes,
        redactions: b.redactions,
        followups: b.followups,
        classification,
    }
}

impl AssistResponse {
    /// Build the wire envelope from a [`FactBundle`] (no LLM classification metadata).
    pub fn from_bundle(request_id: String, b: FactBundle) -> (r: AssistResponse)
        ensures
            r.deep_view() == enveloped(request_id@, b.deep_view(), None),
    {
        AssistResponse {
            ok: b.ok,
            request_id,
            diagnosis: Diagnosis { code: b.code, summary: b.summary, confidence: b.confidence },
            safe_facts: b.safe_facts,
            suggested_fixes: b.suggested_fixes,
            redactions: b.redactions,
            followups: b.followups,
            classification: None,
        }
    }

    /// Build the wire envelope from a [`FactBundle`] *with* classification metadata.
    pub fn from_routed(
        request_id: String,
        b: FactBundle,
        classification: RoutedClassification,
    ) -> (r: AssistResponse)
        ensures
            r.deep_view() == enveloped(
                request_id@,
                b.deep_view(),
                Some(classification.deep_view()),
            ),
    {
        let mut resp = AssistResponse::from_bundle(request_id, b);
        resp.classification = Some(classification);
        resp
    }
}

// ── Tool inputs ─────────────────────────────────────────────────────

/// The mathematical content of a [`ClientSupports`].
pub struct ClientSupportsView {
    pub message_tags: bool,
    pub batch: bool,
    pub server_time: bool,
    pub sasl: bool,
    pub resume: bool,
    pub e2ee: bool,
    pub crdt_sync: bool,
    pub echo_message: bool,
    pub away_notify: bool,
}

/// What a client can do.
#[derive(Debug, Clone, Copy)]
pub struct ClientSupports {
    pub message_tags: bool,
    pub batch: bool,
    pub server_time: bool,
    pub sasl: bool,
    pub resume: bool,
    pub e2ee: bool,
    pub crdt_sync: bool,
    pub echo_message: bool,
    pub away_notify: bool,
}

impl Default for ClientSupports {
    /// A client that supports nothing.
    fn default() -> (r: ClientSupports)
        ensures
            r.deep_view() == (ClientSupportsView {
                message_tags: false,
                batch: false,
                server_time: false,
                sasl: false,
                resume: false,
                e2ee: false,
                crdt_sync: false,
                echo_message: false,
                away_notify: false,
            }),
    {
        ClientSupports {
            message_tags: false,
            batch: false,
            server_time: false,
            sasl: false,
            resume: false,
            e2ee: false,
            crdt_sync: false,
            echo_message: false,
            away_notify: false,
        }
    }
}

impl DeepView for ClientSupports {
    type V = ClientSupportsView;

    open spec fn deep_view(&self) -> ClientSupportsView {
        ClientSupportsView {
            message_tags: self.message_tags.deep_view(),
            batch: self.batch.deep_view(),
            server_time: self.server_time.deep_view(),
            sasl: self.sasl.deep_view(),
            resume: self.resume.deep_view(),
            e2ee: self.e2ee.deep_view(),
            crdt_sync: self.crdt_sync.deep_view(),
            echo_message: self.echo_message.deep_view(),
            away_notify: self.away_notify.deep_view(),
        }
    }
}

impl Dup for ClientSupports {
    fn dup(&self) -> (r: ClientSupports) {
        ClientSupports {
            message_tags: self.message_tags.dup(),
            batch: self.batch.dup(),
            server_time: self.server_time.dup(),
            sasl: self.sasl.dup(),
            resume: self.resume.dup(),
            e2ee: self.e2ee.dup(),
            crdt_sync: self.crdt_sync.dup(),
            echo_message: self.echo_message.dup(),
            away_notify: self.away_notify.dup(),
        }
    }
}

/// The mathematical content of a [`ValidateClientConfigInput`].
pub struct ValidateClientConfigInputView {
    pub client_name: Seq<char>,
    pub client_version: Seq<char>,
    pub server_url: Seq<char>,
    pub transport: Option<Seq<char>>,
    pub auth_method: Option<Seq<char>>,
    pub supports: ClientSupportsView,
    pub desired_features: Seq<Seq<char>>,
}

/// The configuration of a client.
#[derive(Debug)]
pub struct ValidateClientConfigInput {
    pub client_name: String,
    pub client_version: String,
    pub server_url: String,
    pub transport: Option<String>,
    pub auth_method: Option<String>,
    pub supports: ClientSupports,
    pub desired_features: Vec<String>,
}

impl DeepView for ValidateClientConfigInput {
    type V = ValidateClientConfigInputView;

    open spec fn deep_view(&self) -> ValidateClientConfigInputView {
        ValidateClientConfigInputView {
            client_name: self.client_name.deep_view(),
            client_version: self.client_version.deep_view(),
            server_url: self.server_url.deep_view(),
            transport: self.transport.deep_view(),
            auth_method: self.auth_method.deep_view(),
            supports: self.supports.deep_view(),
            desired_features: self.desired_features.deep_view(),
        }
    }
}

impl Dup for ValidateClientConfigInput {
    fn dup(&self) -> (r: ValidateClientConfigInput) {
        ValidateClientConfigInput {
            client_name: self.client_name.dup(),
            client_version: self.client_version.dup(),
            server_url: self.server_url.dup(),
            transport: self.transport.dup(),
            auth_method: self.auth_method.dup(),
            supports: self.supports.dup(),
            desired_features: self.desired_features.dup(),
        }
    }
}

/// The mathematical content of a [`DiagnoseMessageOrderingInput`].
pub struct DiagnoseMessageOrderingInputView {
    pub channel: Seq<char>,
    pub message_ids: Seq<Seq<char>>,
    pub symptom: Option<Seq<char>>,
}

/// Messages in the order in which a client shows them.
#[derive(Debug)]
pub struct DiagnoseMessageOrderingInput {
    pub channel: String,
    /// Caller's observed display order (oldest → newest).
    pub message_ids: Vec<String>,
    pub symptom: Option<String>,
}

impl DeepView for DiagnoseMessageOrderingInput {
    type V = DiagnoseMessageOrderingInputView;

    open spec fn deep_view(&self) -> DiagnoseMessageOrderingInputView {
        DiagnoseMessageOrderingInputView {
            channel: self.channel.deep_view(),
            message_ids: self.message_ids.deep_view(),
            symptom: self.symptom.deep_view(),
        }
    }
}

impl Dup for DiagnoseMessageOrderingInput {
    fn dup(&self) -> (r: DiagnoseMessageOrderingInput) {
        DiagnoseMessageOrderingInput {
            channel: self.channel.dup(),
            message_ids: self.message_ids.dup(),
            symptom: self.symptom.dup(),
        }
    }
}

/// The mathematical content of a [`DiagnoseSyncInput`].
pub struct DiagnoseSyncInputView {
    pub channel: Option<Seq<char>>,
    pub account: Seq<char>,
    pub symptom: Option<Seq<char>>,
}

/// An account whose sync state is asked for.
#[derive(Debug)]
pub struct DiagnoseSyncInput {
    pub channel: Option<String>,
    /// DID the caller wants diagnosed. A non-admin caller may only diagnose their own DID.
    pub account: String,
    pub symptom: Option<String>,
}

impl DeepView for DiagnoseSyncInput {
    type V = DiagnoseSyncInputView;

    open spec fn deep_view(&self) -> DiagnoseSyncInputView {
        DiagnoseSyncInputView {
            channel: self.channel.deep_view(),
            account: self.account.deep_view(),
            symptom: self.symptom.deep_view(),
        }
    }
}

impl Dup for DiagnoseSyncInput {
    fn dup(&self) -> (r: DiagnoseSyncInput) {
        DiagnoseSyncInput {
            channel: self.channel.dup(),
            account: self.account.dup(),
            symptom: self.symptom.dup(),
        }
    }
}

/// The mathematical content of a [`InspectMySessionInput`].
pub struct InspectMySessionInputView {
    pub account: Seq<char>,
}

/// "What does the server actually know about me right now?"
#[derive(Debug)]
pub struct InspectMySessionInput {
    /// DID to inspect. Self-only for non-admins.
    pub account: String,
}

impl DeepView for InspectMySessionInput {
    type V = InspectMySessionInputView;

    open spec fn deep_view(&self) -> InspectMySessionInputView {
        InspectMySessionInputView {
            account: self.account.deep_view(),
        }
    }
}

impl Dup for InspectMySessionInput {
    fn dup(&self) -> (r: InspectMySessionInput) {
        InspectMySessionInput {
            account: self.account.dup(),
        }
    }
}

/// The mathematical content of a [`DiagnoseJoinFailureInput`].
pub struct DiagnoseJoinFailureInputView {
    pub account: Seq<char>,
    pub channel: Seq<char>,
    pub observed_numeric: Option<Seq<char>>,
}

/// "I tried to JOIN and it failed — explain why."
#[derive(Debug)]
pub struct DiagnoseJoinFailureInput {
    /// DID that attempted the join. Self-only for non-admins.
    pub account: String,
    /// Channel name (with or without leading `#`).
    pub channel: String,
    /// The IRC numeric the client received.
    pub observed_numeric: Option<String>,
}

impl DeepView for DiagnoseJoinFailureInput {
    type V = DiagnoseJoinFailureInputView;

    open spec fn deep_view(&self) -> DiagnoseJoinFailureInputView {
        DiagnoseJoinFailureInputView {
            account: self.account.deep_view(),
            channel: self.channel.deep_view(),
            observed_numeric: self.observed_numeric.deep_view(),
        }
    }
}

impl Dup for DiagnoseJoinFailureInput {
    fn dup(&self) -> (r: DiagnoseJoinFailureInput) {
        DiagnoseJoinFailureInput {
            account: self.account.dup(),
            channel: self.channel.dup(),
            observed_numeric: self.observed_numeric.dup(),
        }
    }
}

/// The mathematical content of a [`DiagnoseDisconnectInput`].
pub struct DiagnoseDisconnectInputView {
    pub account: Seq<char>,
}

/// "I just dropped — what happened?"
#[derive(Debug)]
pub struct DiagnoseDisconnectInput {
    pub account: String,
}

impl DeepView for DiagnoseDisconnectInput {
    type V = DiagnoseDisconnectInputView;

    open spec fn deep_view(&self) -> DiagnoseDisconnectInputView {
        DiagnoseDisconnectInputView {
            account: self.account.deep_view(),
        }
    }
}

impl Dup for DiagnoseDisconnectInput {
    fn dup(&self) -> (r: DiagnoseDisconnectInput) {
        DiagnoseDisconnectInput {
            account: self.account.dup(),
        }
    }
}

/// The mathematical content of a [`ReplayMissedMessagesInput`].
pub struct ReplayMissedMessagesInputView {
    pub channel: Seq<char>,
    pub since_msgid: Seq<char>,
    pub limit: Option<usize>,
}

/// "Between this msgid and now, did I miss anything?"
#[derive(Debug)]
pub struct ReplayMissedMessagesInput {
    pub channel: String,
    /// Last msgid the bot is sure it processed.
    pub since_msgid: String,
    /// Optional cap on how far to look.
    pub limit: Option<usize>,
}

impl DeepView for ReplayMissedMessagesInput {
    type V = ReplayMissedMessagesInputView;

    open spec fn deep_view(&self) -> ReplayMissedMessagesInputView {
        ReplayMissedMessagesInputView {
            channel: self.channel.deep_view(),
            since_msgid: self.since_msgid.deep_view(),
            limit: self.limit.deep_view(),
        }
    }
}

impl Dup for ReplayMissedMessagesInput {
    fn dup(&self) -> (r: ReplayMissedMessagesInput) {
        ReplayMissedMessagesInput {
            channel: self.channel.dup(),
            since_msgid: self.since_msgid.dup(),
            limit: self.limit.dup(),
        }
    }
}

/// The mathematical content of a [`PredictMessageOutcomeInput`].
pub struct PredictMessageOutcomeInputView {
    pub account: Seq<char>,
    pub target: Seq<char>,
    pub draft_size_bytes: Option<usize>,
}

/// "Will this send succeed?"
#[derive(Debug)]
pub struct PredictMessageOutcomeInput {
    pub account: String,
    pub target: String,
    pub draft_size_bytes: Option<usize>,
}

impl DeepView for PredictMessageOutcomeInput {
    type V = PredictMessageOutcomeInputView;

    open spec fn deep_view(&self) -> PredictMessageOutcomeInputView {
        PredictMessageOutcomeInputView {
            account: self.account.deep_view(),
            target: self.target.deep_view(),
            draft_size_bytes: self.draft_size_bytes.deep_view(),
        }
    }
}

impl Dup for PredictMessageOutcomeInput {
    fn dup(&self) -> (r: PredictMessageOutcomeInput) {
        PredictMessageOutcomeInput {
            account: self.account.dup(),
            target: self.target.dup(),
            draft_size_bytes: self.draft_size_bytes.dup(),
        }
    }
}

/// The mathematical content of a [`ExplainMessageRoutingInput`].
pub struct ExplainMessageRoutingInputView {
    pub wire_line: Seq<char>,
    pub my_nick: Seq<char>,
}

/// "Explain this raw IRC line in routing terms."
#[derive(Debug)]
pub struct ExplainMessageRoutingInput {
    /// Raw IRC line (no trailing CRLF needed).
    pub wire_line: String,
    /// The recipient's own nick — needed to detect self-echo + mentions.
    pub my_nick: String,
}

impl DeepView for ExplainMessageRoutingInput {
    type V = ExplainMessageRoutingInputView;

    open spec fn deep_view(&self) -> ExplainMessageRoutingInputView {
        ExplainMessageRoutingInputView {
            wire_line: self.wire_line.deep_view(),
            my_nick: self.my_nick.deep_view(),
        }
    }
}

impl Dup for ExplainMessageRoutingInput {
    fn dup(&self) -> (r: ExplainMessageRoutingInput) {
        ExplainMessageRoutingInput {
            wire_line: self.wire_line.dup(),
            my_nick: self.my_nick.dup(),
        }
    }
}

// ── Discovery ───────────────────────────────────────────────────────

/// The mathematical content of a [`AgentDiscoveryAuth`].
pub struct AgentDiscoveryAuthView {
    pub required: bool,
    pub methods: Seq<Seq<char>>,
}

/// How callers authenticate.
#[derive(Debug)]
pub struct AgentDiscoveryAuth {
    pub required: bool,
    pub methods: Vec<&'static str>,
}

impl DeepView for AgentDiscoveryAuth {
    type V = AgentDiscoveryAuthView;

    open spec fn deep_view(&self) -> AgentDiscoveryAuthView {
        AgentDiscoveryAuthView {
            required: self.required.deep_view(),
            methods: self.methods.deep_view(),
        }
    }
}

/// The mathematical content of a [`AgentDiscovery`].
pub struct AgentDiscoveryView {
    pub service: Seq<char>,
    pub version: Seq<char>,
    pub description: Seq<char>,
    pub assistance_endpoint: Seq<char>,
    pub capabilities: Seq<Seq<char>>,
    pub auth: AgentDiscoveryAuthView,
}

/// What the interface offers.
#[derive(Debug)]
pub struct AgentDiscovery {
    pub service: &'static str,
    pub version: &'static str,
    pub description: &'static str,
    pub assistance_endpoint: &'static str,
    pub capabilities: Vec<&'static str>,
    pub auth: AgentDiscoveryAuth,
}

impl DeepView for AgentDiscovery {
    type V = AgentDiscoveryView;

    open spec fn deep_view(&self) -> AgentDiscoveryView {
        AgentDiscoveryView {
            service: self.service.deep_view(),
            version: self.version.deep_view(),
            description: self.description.deep_view(),
            assistance_endpoint: self.assistance_endpoint.deep_view(),
            capabilities: self.capabilities.deep_view(),
            auth: self.auth.deep_view(),
        }
    }
}

} // verus!
