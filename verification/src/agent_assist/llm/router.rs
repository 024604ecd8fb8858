//! Free-form message → deterministic tool dispatch.
//!
//! This is the safety boundary. The model proposes; the router validates and executes. A tool is
//! run only if its name is one of the advertised ones and its arguments could be decoded, and it
//! then makes the same permission checks as in a direct call. Where no advertised tool was picked,
//! the answer is `INTENT_UNCLEAR` and lists the tools; where the arguments could not be decoded, it
//! says so.
use super::mock;
use super::{
    ClassificationContext, ClassificationContextView, LlmError, LlmErrorView, ToolDescriptor,
    ToolDescriptorView, ToolIntent, ToolIntentView,
};
use crate::agent_assist::tools;
use crate::agent_assist::tools::{
    diagnose_message_ordering, diagnose_sync, one_fix, validate_client_config,
};
use crate::agent_assist::types::{
    Caller, CallerView, Confidence, DiagnoseMessageOrderingInput,
    DiagnoseMessageOrderingInputView, DiagnoseSyncInput, DiagnoseSyncInputView, DisclosureLevel,
    FactBundle, FactBundleView, Followup, FollowupView, SuggestedFix, SuggestedFixView,
    ValidateClientConfigInput, ValidateClientConfigInputView,
};
use crate::containers::Dup;
use crate::server::{ServerState, ServerStateView};
use crate::text::{str_eq, Line};
use vstd::prelude::*;

verus! {

broadcast use vstd::string::group_string_axioms;

/// The mathematical content of a [`Classification`].
pub struct ClassificationView {
    pub provider: Seq<char>,
    pub tool: Option<Seq<char>>,
    pub confidence: Confidence,
    pub summary: Option<Seq<char>>,
}

/// How a request was routed.
#[derive(Debug)]
pub struct Classification {
    pub provider: String,
    pub tool: Option<String>,
    pub confidence: Confidence,
    pub summary: Option<String>,
}

impl DeepView for Classification {
    type V = ClassificationView;

    open spec fn deep_view(&self) -> ClassificationView {
        ClassificationView {
            provider: self.provider.deep_view(),
            tool: self.tool.deep_view(),
            confidence: self.confidence.deep_view(),
            summary: self.summary.deep_view(),
        }
    }
}

impl Dup for Classification {
    fn dup(&self) -> (r: Classification) {
        Classification {
            provider: self.provider.dup(),
            tool: self.tool.dup(),
            confidence: self.confidence.dup(),
            summary: self.summary.dup(),
        }
    }
}

/// The mathematical content of a [`RoutedResponse`].
pub struct RoutedResponseView {
    pub bundle: FactBundleView,
    pub classification: ClassificationView,
}

/// Bundle produced by the router, alongside which tool ran and why.
#[derive(Debug)]
pub struct RoutedResponse {
    pub bundle: FactBundle,
    pub classification: Classification,
}

impl DeepView for RoutedResponse {
    type V = RoutedResponseView;

    open spec fn deep_view(&self) -> RoutedResponseView {
        RoutedResponseView {
            bundle: self.bundle.deep_view(),
            classification: self.classification.deep_view(),
        }
    }
}

/// The mathematical content of a [`DecodedArgs`].
pub enum DecodedArgsView {
    Config(ValidateClientConfigInputView),
    MessageOrder(DiagnoseMessageOrderingInputView),
    Sync(DiagnoseSyncInputView),
    Failed(Seq<char>),
}

/// Arguments that a model produced, decoded into a tool's typed input.
#[derive(Debug)]
pub enum DecodedArgs {
    Config(ValidateClientConfigInput),
    MessageOrder(DiagnoseMessageOrderingInput),
    Sync(DiagnoseSyncInput),
    /// They could not be decoded, for this reason.
    Failed(String),
}

impl DeepView for DecodedArgs {
    type V = DecodedArgsView;

    open spec fn deep_view(&self) -> DecodedArgsView {
        match self {
            DecodedArgs::Config(x) => DecodedArgsView::Config(x.deep_view()),
            DecodedArgs::MessageOrder(x) => DecodedArgsView::MessageOrder(x.deep_view()),
            DecodedArgs::Sync(x) => DecodedArgsView::Sync(x.deep_view()),
            DecodedArgs::Failed(x) => DecodedArgsView::Failed(x.deep_view()),
        }
    }
}

/// Router input — a message, who sent it, and the state.
pub struct SessionInput<'a> {
    pub message: &'a str,
    pub caller: &'a Caller,
    pub state: &'a ServerState,
}

// ── Tool catalogue ──────────────────────────────────────────────────

pub const CONFIG_TOOL: &'static str = "validate_client_config";

pub const CONFIG_ABOUT: &'static str = "Validate a client's IRCv3 capability matrix against current server expectations. Use when the user pastes a config/manifest or asks if their client setup is correct.";

pub const CONFIG_ARGS: &'static str = "{ client_name: string, supports: { message_tags: bool, batch: bool, server_time: bool, sasl: bool, resume: bool, e2ee: bool, echo_message: bool, away_notify: bool }, desired_features?: string[] }";

pub const ORDERING_TOOL: &'static str = "diagnose_message_ordering";

pub const ORDERING_ABOUT: &'static str = "Compare canonical server message order against the user's observed order in a channel. Use when the user reports messages displaying out of order, especially after reconnect or replay.";

pub const ORDERING_ARGS: &'static str = "{ channel: \"#name\", message_ids: [\"<msgid>\", ...], symptom?: string }";

pub const SYNC_TOOL: &'static str = "diagnose_sync";

pub const SYNC_ABOUT: &'static str = "Report what the server can see about an account's live session state and channel-join state. Use for sync questions that don't have specific msgids.";

pub const SYNC_ARGS: &'static str = "{ account: \"did:plc:...\", channel?: \"#name\", symptom?: string }";

/// The tools that can be called.
pub open spec fn catalogue() -> Seq<ToolDescriptorView> {
    seq![
        ToolDescriptorView {
            name: CONFIG_TOOL@,
            description: CONFIG_ABOUT@,
            args_hint: CONFIG_ARGS@,
        },
        ToolDescriptorView {
            name: ORDERING_TOOL@,
            description: ORDERING_ABOUT@,
            args_hint: ORDERING_ARGS@,
        },
        ToolDescriptorView {
            name: SYNC_TOOL@,
            description: SYNC_ABOUT@,
            args_hint: SYNC_ARGS@,
        },
    ]
}

/// Single source of truth: which tools are routable from the LLM surface.
pub fn descriptors() -> (r: Vec<ToolDescriptor>)
    ensures
        r.deep_view() == catalogue(),
{
    let r = vec![
        ToolDescriptor {
            name: CONFIG_TOOL.to_owned(),
            description: CONFIG_ABOUT.to_owned(),
            args_hint: CONFIG_ARGS.to_owned(),
        },
        ToolDescriptor {
            name: ORDERING_TOOL.to_owned(),
            description: ORDERING_ABOUT.to_owned(),
            args_hint: ORDERING_ARGS.to_owned(),
        },
        ToolDescriptor {
            name: SYNC_TOOL.to_owned(),
            description: SYNC_ABOUT.to_owned(),
            args_hint: SYNC_ARGS.to_owned(),
        },
    ];
    assert(r.deep_view() =~= catalogue());
    r
}

/// How a model is told the caller's level.
pub open spec fn tier_label(l: DisclosureLevel) -> Seq<char> {
    match l {
        DisclosureLevel::Public => "anonymous"@,
        DisclosureLevel::Account => "authenticated"@,
        DisclosureLevel::ChannelMember => "channel-member"@,
        DisclosureLevel::ChannelOperator => "channel-operator"@,
        DisclosureLevel::ServerOperator => "server-operator"@,
    }
}

/// How a model is told the caller's level.
pub fn caller_tier_label(caller: &Caller) -> (r: &'static str)
    ensures
        r@ == tier_label(caller.level),
{
    match caller.level {
        DisclosureLevel::Public => "anonymous",
        DisclosureLevel::Account => "authenticated",
        DisclosureLevel::ChannelMember => "channel-member",
        DisclosureLevel::ChannelOperator => "channel-operator",
        DisclosureLevel::ServerOperator => "server-operator",
    }
}

/// What a model is given besides the message.
pub fn context_for(caller: &Caller) -> (ctx: ClassificationContext)
    ensures
        ctx.deep_view() == (ClassificationContextView {
            available_tools: catalogue(),
            caller_tier: tier_label(caller.level),
        }),
{
    ClassificationContext { available_tools: descriptors(), caller_tier: caller_tier_label(caller) }
}

// ── Execute ─────────────────────────────────────────────────────────

/// Whether decoded arguments are those of a tool.
pub open spec fn fits(tool: Seq<char>, args: DecodedArgsView) -> bool {
    match args {
        DecodedArgsView::Config(_) => tool == CONFIG_TOOL@,
        DecodedArgsView::MessageOrder(_) => tool == ORDERING_TOOL@,
        DecodedArgsView::Sync(_) => tool == SYNC_TOOL@,
        DecodedArgsView::Failed(_) => true,
    }
}

/// What running a tool gives: its bundle, or the reason why it was not run.
pub enum RunOutcome {
    Ran(FactBundleView),
    Refused(Seq<char>),
}

/// What running a tool gives.
pub open spec fn run_spec(
    tool: Seq<char>,
    args: DecodedArgsView,
    c: CallerView,
    st: ServerStateView,
    rows: Seq<Option<(i64, u64)>>,
) -> RunOutcome {
    if !mock::offers(catalogue(), tool) {
        RunOutcome::Refused(unknown_tool(tool))
    } else {
        match args {
            DecodedArgsView::Config(i) => RunOutcome::Ran(tools::config_spec(i)),
            DecodedArgsView::MessageOrder(i) => RunOutcome::Ran(tools::ordering_spec(i, c, st, rows)),
            DecodedArgsView::Sync(i) => RunOutcome::Ran(tools::sync_spec(i, c, st)),
            DecodedArgsView::Failed(e) => RunOutcome::Refused(
                "invalid args for "@ + tool + ": "@ + e,
            ),
        }
    }
}

/// Whether a tool is one of those that can be called.
pub fn is_known_tool(tool: &str) -> (b: bool)
    ensures
        b == mock::offers(catalogue(), tool@),
{
    let b = str_eq(tool, CONFIG_TOOL) || str_eq(tool, ORDERING_TOOL) || str_eq(tool, SYNC_TOOL);
    proof {
        let c = catalogue();
        assert(c[0].name == CONFIG_TOOL@ && c[1].name == ORDERING_TOOL@ && c[2].name
            == SYNC_TOOL@);
    }
    b
}

/// Runs a tool on decoded arguments. `rows` holds what is stored of each message of a question
/// about message order. Returns `Err` (with a one-line reason) for unknown tool names or arguments
/// that could not be decoded.
pub fn run_tool(
    tool: &str,
    args: &DecodedArgs,
    caller: &Caller,
    state: &ServerState,
    rows: &Vec<Option<(i64, u64)>>,
) -> (r: Result<FactBundle, String>)
    requires
        fits(tool@, args.deep_view()),
    ensures
        match run_spec(tool@, args.deep_view(), caller.deep_view(), state.deep_view(), rows@) {
            RunOutcome::Ran(b) => r is Ok && r->Ok_0.deep_view() == b,
            RunOutcome::Refused(e) => r is Err && r->Err_0@ == e,
        },
{
    if !is_known_tool(tool) {
        return Err(Line::new("unknown tool name: `").add(tool).add("`").done());
    }
    match args {
        DecodedArgs::Config(i) => Ok(validate_client_config(i)),
        DecodedArgs::MessageOrder(i) => Ok(diagnose_message_ordering(i, caller, state, rows)),
        DecodedArgs::Sync(i) => Ok(diagnose_sync(i, caller, state)),
        DecodedArgs::Failed(e) => Err(
            Line::new("invalid args for ").add(tool).add(": ").add(e.as_str()).done(),
        ),
    }
}

/// Why a name that is not advertised runs no tool.
pub open spec fn unknown_tool(tool: Seq<char>) -> Seq<char> {
    "unknown tool name: `"@ + tool + "`"@
}

/// The answer to an intent: any name that is not advertised leaves it unclear.
pub open spec fn executed(
    intent: ToolIntentView,
    provider: Seq<char>,
    args: DecodedArgsView,
    c: CallerView,
    st: ServerStateView,
    rows: Seq<Option<(i64, u64)>>,
) -> RoutedResponseView {
    if !mock::offers(catalogue(), intent.tool) {
        unclear(provider, catalogue(), unknown_tool(intent.tool))
    } else {
        RoutedResponseView {
            bundle: match run_spec(intent.tool, args, c, st, rows) {
                RunOutcome::Ran(b) => b,
                RunOutcome::Refused(e) => bad_args(intent.tool, e),
            },
            classification: ClassificationView {
                provider,
                tool: Some(intent.tool),
                confidence: intent.confidence,
                summary: intent.summary,
            },
        }
    }
}

/// Runs the tool that a model has picked, on the arguments that could be decoded.
pub fn execute_intent(
    intent: &ToolIntent,
    provider_name: &str,
    args: &DecodedArgs,
    input: &SessionInput<'_>,
    rows: &Vec<Option<(i64, u64)>>,
) -> (r: RoutedResponse)
    requires
        fits(intent.deep_view().tool, args.deep_view()),
    ensures
        r.deep_view() == executed(
            intent.deep_view(),
            provider_name@,
            args.deep_view(),
            input.caller.deep_view(),
            input.state.deep_view(),
            rows@,
        ),
{
    if !is_known_tool(intent.tool.as_str()) {
        let reason = Line::new("unknown tool name: `").add(intent.tool.as_str()).add("`").done();
        return intent_unclear(provider_name, &context_for(input.caller), reason.as_str());
    }
    let classification = Classification {
        provider: provider_name.to_owned(),
        tool: Some(intent.tool.clone()),
        confidence: intent.confidence,
        summary: intent.summary.dup(),
    };
    let bundle = match run_tool(intent.tool.as_str(), args, input.caller, input.state, rows) {
        Ok(b) => b,
        Err(reason) => bad_args_bundle(intent.tool.as_str(), reason.as_str()),
    };
    RoutedResponse { bundle, classification }
}

/// Whatever a model says, a name that is not advertised runs no tool: the answer is that the intent
/// is unclear, lists the tools, and does not depend on the state, on the caller or on the arguments.
pub proof fn law_unknown_tool_never_runs(
    intent: ToolIntentView,
    provider: Seq<char>,
    args: DecodedArgsView,
    c: CallerView,
    st: ServerStateView,
    rows: Seq<Option<(i64, u64)>>,
    args2: DecodedArgsView,
    c2: CallerView,
    st2: ServerStateView,
    rows2: Seq<Option<(i64, u64)>>,
)
    requires
        !mock::offers(catalogue(), intent.tool),
    ensures
        executed(intent, provider, args, c, st, rows) == executed(
            intent,
            provider,
            args2,
            c2,
            st2,
            rows2,
        ),
        executed(intent, provider, args, c, st, rows).bundle.code == "INTENT_UNCLEAR"@,
        executed(intent, provider, args, c, st, rows).bundle.safe_facts == catalogue().map_values(
            |t: ToolDescriptorView| tool_fact(t),
        ),
        executed(intent, provider, args, c, st, rows).classification.tool is None,
        !executed(intent, provider, args, c, st, rows).bundle.ok,
{
}

// ── Fallback bundles ────────────────────────────────────────────────

/// What is told of a tool.
pub open spec fn tool_fact(t: ToolDescriptorView) -> Seq<char> {
    "Tool `"@ + t.name + "`: "@ + t.description
}

/// How a tool is called directly.
pub open spec fn tool_fix(t: ToolDescriptorView) -> SuggestedFixView {
    SuggestedFixView {
        summary: "POST /agent/tools/"@ + t.name + " with appropriate JSON."@,
        details: Some(t.args_hint),
    }
}

/// A bundle that lists the tools instead of running one.
pub open spec fn listing(
    code: Seq<char>,
    summary: Seq<char>,
    confidence: Confidence,
    ts: Seq<ToolDescriptorView>,
) -> FactBundleView {
    FactBundleView {
        ok: false,
        code,
        summary,
        confidence,
        safe_facts: ts.map_values(|t: ToolDescriptorView| tool_fact(t)),
        suggested_fixes: ts.map_values(|t: ToolDescriptorView| tool_fix(t)),
        redactions: Seq::empty(),
        followups: Seq::empty(),
        min_disclosure: DisclosureLevel::Public,
    }
}

/// The bundle for a call that cannot be made.
pub open spec fn bad_args(tool: Seq<char>, reason: Seq<char>) -> FactBundleView {
    FactBundleView {
        ok: false,
        code: "BAD_TOOL_ARGS"@,
        summary: "The classifier picked `"@ + tool
            + "` but the args it produced did not match the tool's input schema."@,
        confidence: Confidence::High,
        safe_facts: seq!["Decoder error: "@ + reason],
        suggested_fixes: tools::fix_when(
            true,
            "Call POST /agent/tools/"@ + tool + " directly with valid JSON."@,
            None,
        ),
        redactions: Seq::empty(),
        followups: Seq::empty(),
        min_disclosure: DisclosureLevel::Public,
    }
}

/// The answer where no tool could be picked.
pub open spec fn unclear(provider: Seq<char>, ts: Seq<ToolDescriptorView>, reason: Seq<char>) -> RoutedResponseView {
    RoutedResponseView {
        bundle: listing(
            "INTENT_UNCLEAR"@,
            "Could not classify the request into a known tool ("@ + reason
                + "). The available structured tools are listed below — try calling one directly."@,
            Confidence::Low,
            ts,
        ),
        classification: ClassificationView {
            provider,
            tool: None,
            confidence: Confidence::Low,
            summary: Some(reason),
        },
    }
}

pub const NOT_CONFIGURED: &'static str = "Free-form session routing is not enabled on this server. Call a structured tool directly using the listed POST endpoints.";

/// The answer where there is no provider.
pub open spec fn not_configured() -> RoutedResponseView {
    RoutedResponseView {
        bundle: listing("LLM_NOT_CONFIGURED"@, NOT_CONFIGURED@, Confidence::High, catalogue()),
        classification: ClassificationView {
            provider: "none"@,
            tool: None,
            confidence: Confidence::High,
            summary: Some("LLM provider not configured."@),
        },
    }
}

/// What is told of the tools.
fn list_facts(ts: &Vec<ToolDescriptor>) -> (r: Vec<String>)
    ensures
        r.deep_view() == ts.deep_view().map_values(|t: ToolDescriptorView| tool_fact(t)),
{
    let ghost all = ts.deep_view();
    let ghost f = |t: ToolDescriptorView| tool_fact(t);
    let mut out: Vec<String> = Vec::new();
    let mut i: usize = 0;
    assert(out.deep_view() =~= all.take(0).map_values(f));
    while i < ts.len()
        invariant
            i <= all.len(),
            all == ts.deep_view(),
            ts@.len() == all.len(),
            f == (|t: ToolDescriptorView| tool_fact(t)),
            out.deep_view() == all.take(i as int).map_values(f),
        decreases all.len() - i,
    {
        let ghost before = out.deep_view();
        assert(all[i as int] == ts@[i as int].deep_view());
        let e = Line::new("Tool `").add(ts[i].name.as_str()).add("`: ").add(
            ts[i].description.as_str(),
        ).done();
        out.push(e);
        assert(out.deep_view() =~= before.push(f(all[i as int])));
        i = i + 1;
        assert(out.deep_view() =~= all.take(i as int).map_values(f));
    }
    assert(all.take(i as int) =~= all);
    out
}

/// How the tools are called directly.
fn list_calls(ts: &Vec<ToolDescriptor>) -> (r: Vec<SuggestedFix>)
    ensures
        r.deep_view() == ts.deep_view().map_values(|t: ToolDescriptorView| tool_fix(t)),
{
    let ghost all = ts.deep_view();
    let ghost f = |t: ToolDescriptorView| tool_fix(t);
    let mut out: Vec<SuggestedFix> = Vec::new();
    let mut i: usize = 0;
    assert(out.deep_view() =~= all.take(0).map_values(f));
    while i < ts.len()
        invariant
            i <= all.len(),
            all == ts.deep_view(),
            ts@.len() == all.len(),
            f == (|t: ToolDescriptorView| tool_fix(t)),
            out.deep_view() == all.take(i as int).map_values(f),
        decreases all.len() - i,
    {
        let ghost before = out.deep_view();
        assert(all[i as int] == ts@[i as int].deep_view());
        let e = SuggestedFix {
            summary: Line::new("POST /agent/tools/").add(ts[i].name.as_str()).add(
                " with appropriate JSON.",
            ).done(),
            details: Some(ts[i].args_hint.clone()),
        };
        out.push(e);
        assert(e.deep_view() == f(all[i as int]));
        assert(out.deep_view() =~= before.push(f(all[i as int])));
        i = i + 1;
        assert(out.deep_view() =~= all.take(i as int).map_values(f));
    }
    assert(all.take(i as int) =~= all);
    out
}

/// A bundle that lists the tools instead of running one.
fn make_listing(
    code: &str,
    summary: &str,
    confidence: Confidence,
    ts: &Vec<ToolDescriptor>,
) -> (b: FactBundle)
    ensures
        b.deep_view() == listing(code@, summary@, confidence, ts.deep_view()),
{
    let redactions: Vec<String> = Vec::new();
    assert(redactions.deep_view() =~= Seq::<Seq<char>>::empty());
    let followups: Vec<Followup> = Vec::new();
    assert(followups.deep_view() =~= Seq::<FollowupView>::empty());
    FactBundle {
        ok: false,
        code: code.to_owned(),
        summary: summary.to_owned(),
        confidence,
        safe_facts: list_facts(ts),
        suggested_fixes: list_calls(ts),
        redactions,
        followups,
        min_disclosure: DisclosureLevel::Public,
    }
}

/// "I tried but couldn't classify confidently" — surface the available tools so the agent can call
/// one directly.
pub fn intent_unclear(
    provider_name: &str,
    ctx: &ClassificationContext,
    reason: &str,
) -> (r: RoutedResponse)
    ensures
        r.deep_view() == unclear(
            provider_name@,
            ctx.deep_view().available_tools,
            reason@,
        ),
{
    let summary = Line::new("Could not classify the request into a known tool (").add(reason).add(
        "). The available structured tools are listed below — try calling one directly.",
    ).done();
    RoutedResponse {
        bundle: make_listing(
            "INTENT_UNCLEAR",
            summary.as_str(),
            Confidence::Low,
            &ctx.available_tools,
        ),
        classification: Classification {
            provider: provider_name.to_owned(),
            tool: None,
            confidence: Confidence::Low,
            summary: Some(reason.to_owned()),
        },
    }
}

/// LLM is not configured. Same shape as `INTENT_UNCLEAR` so callers have a uniform fallback path.
pub fn not_configured_response() -> (r: RoutedResponse)
    ensures
        r.deep_view() == not_configured(),
{
    let ts = descriptors();
    RoutedResponse {
        bundle: make_listing("LLM_NOT_CONFIGURED", NOT_CONFIGURED, Confidence::High, &ts),
        classification: Classification {
            provider: "none".to_owned(),
            tool: None,
            confidence: Confidence::High,
            summary: Some("LLM provider not configured.".to_owned()),
        },
    }
}

/// The bundle for a call that cannot be made.
pub fn bad_args_bundle(tool: &str, reason: &str) -> (b: FactBundle)
    ensures
        b.deep_view() == bad_args(tool@, reason@),
{
    let summary = Line::new("The classifier picked `").add(tool).add(
        "` but the args it produced did not match the tool's input schema.",
    ).done();
    let facts = vec![Line::new("Decoder error: ").add(reason).done()];
    assert(facts.deep_view() =~= seq!["Decoder error: "@ + reason@]);
    let fix = Line::new("Call POST /agent/tools/").add(tool).add(
        " directly with valid JSON.",
    ).done();
    let redactions: Vec<String> = Vec::new();
    assert(redactions.deep_view() =~= Seq::<Seq<char>>::empty());
    let followups: Vec<Followup> = Vec::new();
    assert(followups.deep_view() =~= Seq::<FollowupView>::empty());
    FactBundle {
        ok: false,
        code: "BAD_TOOL_ARGS".to_owned(),
        summary,
        confidence: Confidence::High,
        safe_facts: facts,
        suggested_fixes: one_fix(fix.as_str()),
        redactions,
        followups,
        min_disclosure: DisclosureLevel::Public,
    }
}

/// The answer where a provider has picked no tool: it declined, or it failed.
pub open spec fn fallback_spec(
    provider: Seq<char>,
    ts: Seq<ToolDescriptorView>,
    error: Option<LlmErrorView>,
) -> RoutedResponseView {
    match error {
        None => unclear(provider, ts, "model could not classify"@),
        Some(LlmErrorView::NotConfigured) => not_configured(),
        Some(e) => unclear(provider, ts, "provider error: "@ + super::error_text(e)),
    }
}

/// Answers where a provider has picked no tool: it declined, or it failed with an error.
pub fn fall_back(
    provider_name: &str,
    ctx: &ClassificationContext,
    error: &Option<LlmError>,
) -> (r: RoutedResponse)
    ensures
        r.deep_view() == fallback_spec(
            provider_name@,
            ctx.deep_view().available_tools,
            error.deep_view(),
        ),
{
    match error {
        None => intent_unclear(provider_name, ctx, "model could not classify"),
        Some(LlmError::NotConfigured) => not_configured_response(),
        Some(e) => {
            let reason = Line::new("provider error: ").add(e.to_string().as_str()).done();
            intent_unclear(provider_name, ctx, reason.as_str())
        },
    }
}

/// A provider that fails never makes the request succeed: the answer lists the tools, and is not
/// ok.
pub proof fn law_failure_lists_the_tools(provider: Seq<char>, error: Option<LlmErrorView>)
    ensures
        !fallback_spec(provider, catalogue(), error).bundle.ok,
        fallback_spec(provider, catalogue(), error).bundle.safe_facts == catalogue().map_values(
            |t: ToolDescriptorView| tool_fact(t),
        ),
        fallback_spec(provider, catalogue(), error).classification.tool is None,
{
}

} // verus!
