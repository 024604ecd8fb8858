//! What stands between the tools and the wire.
//!
//! The final disclosure check, the envelope, and what the interface tells of itself.
use super::tools;
use super::tools::permission_denied;
use super::types;
use super::types::{
    AgentDiscovery, AgentDiscoveryAuth, AgentDiscoveryAuthView, AgentDiscoveryView,
    AssistResponse, Caller, CallerView, DisclosureLevel, FactBundle,
    FactBundleView,
};
use crate::text;
use crate::text::{byte_len, decimal, Line};
use vstd::prelude::*;

verus! {

broadcast use vstd::string::group_string_axioms;

// ── Envelope assembly + final disclosure check ──────────────────────

/// The bundle that a caller gets: one for server operators only is withheld from everyone else.
pub open spec fn disclosed(b: FactBundleView, c: CallerView) -> FactBundleView {
    if b.min_disclosure == DisclosureLevel::ServerOperator && c.level
        != DisclosureLevel::ServerOperator {
        tools::denied(
            "DISCLOSURE_FILTER_BLOCKED"@,
            "Tool returned admin-only facts to a non-admin caller; redacted."@,
            DisclosureLevel::ServerOperator,
        )
    } else {
        b
    }
}

/// Final guard between a tool's [`FactBundle`] and the wire response.
///
/// Tools perform their own per-channel permission checks at the start, so this is a *narrow*
/// defense-in-depth pass: it catches a bundle marked server-operator-only being returned to a
/// non-admin caller.
pub fn envelope(request_id: String, bundle: FactBundle, caller: &Caller) -> (r: AssistResponse)
    ensures
        r.deep_view() == types::enveloped(
            request_id@,
            disclosed(bundle.deep_view(), caller.deep_view()),
            None,
        ),
{
    if bundle.min_disclosure == DisclosureLevel::ServerOperator && caller.level
        != DisclosureLevel::ServerOperator {
        let denied = permission_denied(
            "DISCLOSURE_FILTER_BLOCKED",
            "Tool returned admin-only facts to a non-admin caller; redacted.",
            DisclosureLevel::ServerOperator,
        );
        return AssistResponse::from_bundle(request_id, denied);
    }
    AssistResponse::from_bundle(request_id, bundle)
}

/// What is for server operators only reaches nobody else: the answer to another caller is the same
/// whatever the bundle holds.
pub proof fn law_admin_only_stays_inside(a: FactBundleView, b: FactBundleView, c: CallerView)
    requires
        a.min_disclosure == DisclosureLevel::ServerOperator,
        b.min_disclosure == DisclosureLevel::ServerOperator,
        c.level != DisclosureLevel::ServerOperator,
    ensures
        disclosed(a, c) == disclosed(b, c),
        disclosed(a, c).safe_facts.len() == 0,
        !disclosed(a, c).ok,
{
}

/// The filter withholds nothing else, and nothing of its own: what passes it once passes it again.
pub proof fn law_filter_is_narrow(b: FactBundleView, c: CallerView)
    ensures
        b.min_disclosure != DisclosureLevel::ServerOperator || c.level
            == DisclosureLevel::ServerOperator ==> disclosed(b, c) == b,
        disclosed(disclosed(b, c), c) == disclosed(b, c),
{
}

/// How many bytes a free-form message may have.
pub const MAX_SESSION_BYTES: usize = 16_384;

/// Why a free-form message is not looked into, if it is not.
pub open spec fn session_refusal(message: Seq<char>) -> Option<FactBundleView> {
    if vstd::utf8::encode_utf8(message).len() > MAX_SESSION_BYTES {
        Some(
            tools::denied(
                "MESSAGE_TOO_LARGE"@,
                "Message exceeds the 16 KB limit for free-form classification."@,
                DisclosureLevel::Public,
            ),
        )
    } else {
        None
    }
}

/// Refuses a free-form message that is too large.
pub fn refuse_session(message: &str) -> (r: Option<FactBundle>)
    ensures
        r.deep_view() == session_refusal(message@),
{
    if byte_len(message) > MAX_SESSION_BYTES {
        Some(
            permission_denied(
                "MESSAGE_TOO_LARGE",
                "Message exceeds the 16 KB limit for free-form classification.",
                DisclosureLevel::Public,
            ),
        )
    } else {
        None
    }
}

// ── Discovery ───────────────────────────────────────────────────────

/// What the interface offers; free-form requests only where an LLM is configured.
pub open spec fn capabilities(llm_enabled: bool) -> Seq<Seq<char>> {
    seq![
        "validate_client_config"@,
        "diagnose_message_ordering"@,
        "diagnose_sync"@,
    ] + tools::when(llm_enabled, "free_form_session"@)
}

pub const DESCRIPTION: &'static str = "Agent-facing assistance interface for Freeq client validation and diagnostic queries. Returns conclusions, never raw state.";

/// What the interface tells of itself.
pub fn discovery(llm_enabled: bool, version: &'static str) -> (d: AgentDiscovery)
    ensures
        d.deep_view() == (AgentDiscoveryView {
            service: "Freeq"@,
            version: version@,
            description: DESCRIPTION@,
            assistance_endpoint: "/agent/tools"@,
            capabilities: capabilities(llm_enabled),
            auth: AgentDiscoveryAuthView { required: false, methods: seq!["bearer"@] },
        }),
{
    let mut caps: Vec<&'static str> = vec![
        "validate_client_config",
        "diagnose_message_ordering",
        "diagnose_sync",
    ];
    if llm_enabled {
        caps.push("free_form_session");
    }
    assert(caps.deep_view() =~= capabilities(llm_enabled));
    let methods: Vec<&'static str> = vec!["bearer"];
    assert(methods.deep_view() =~= seq!["bearer"@]);
    AgentDiscovery {
        service: "Freeq",
        version,
        description: DESCRIPTION,
        assistance_endpoint: "/agent/tools",
        capabilities: caps,
        auth: AgentDiscoveryAuth { required: false, methods },
    }
}

// ── Request IDs ─────────────────────────────────────────────────────

/// A hexadecimal digit.
pub open spec fn hex_digit(d: nat) -> char {
    if d < 10 {
        ('0' as u8 + d) as char
    } else {
        ('a' as u8 + (d - 10)) as char
    }
}

/// The low sixteen bits of a number, as four hexadecimal digits.
pub open spec fn hex4(n: nat) -> Seq<char> {
    seq![
        hex_digit((n / 4096) % 16),
        hex_digit((n / 256) % 16),
        hex_digit((n / 16) % 16),
        hex_digit(n % 16),
    ]
}

/// A hexadecimal digit.
fn write_hex(d: u32) -> (c: char)
    requires
        d < 16,
    ensures
        c == hex_digit(d as nat),
{
    if d < 10 {
        ('0' as u8 + d as u8) as char
    } else {
        ('a' as u8 + (d as u8 - 10)) as char
    }
}

/// The ID of a request that came at the given time.
pub open spec fn request_id_spec(secs: u64, nanos: u32) -> Seq<char> {
    "req_"@ + text::decimal_spec(secs as nat) + hex4(nanos as nat)
}

/// The ID of a request that came at the given time, in seconds and nanoseconds.
pub fn request_id(secs: u64, nanos: u32) -> (r: String)
    ensures
        r@ == request_id_spec(secs, nanos),
{
    let r = Line::new("req_").add(decimal(secs as u128).as_str()).add_char(
        write_hex((nanos / 4096) % 16),
    ).add_char(write_hex((nanos / 256) % 16)).add_char(write_hex((nanos / 16) % 16)).add_char(
        write_hex(nanos % 16),
    ).done();
    assert(r@ =~= request_id_spec(secs, nanos));
    r
}

} // verus!
