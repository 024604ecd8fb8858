//! Deterministic diagnostic tools.
//!
//! Each tool takes a typed input, a [`Caller`] and the state, and returns a [`FactBundle`]. The
//! tools change nothing. Message bodies are never part of a bundle.
use super::caller;
use super::caller::effective_level;
use super::types;
use super::types::{
    Caller, CallerView, ClientSupportsView, Confidence, DiagnoseMessageOrderingInput,
    DiagnoseMessageOrderingInputView, DiagnoseSyncInput, DiagnoseSyncInputView, DisclosureLevel,
    FactBundle, FactBundleView, Followup, FollowupView, SuggestedFix, SuggestedFixView,
    ValidateClientConfigInput, ValidateClientConfigInputView,
};
use crate::connection::messaging;
use crate::connection::messaging::is_channel;
use crate::containers;
use crate::containers::StrSet;
use crate::server::{ServerState, ServerStateView};
use crate::text;
use crate::text::{
    char_is_control, chars_of, decimal, join, str_eq, to_ascii_lower, to_lowercase,
    string_of, to_signed_decimal, Line,
};
use vstd::prelude::*;

verus! {

broadcast use vstd::string::group_string_axioms;

// ── Text of callers ─────────────────────────────────────────────────

/// A channel name without the mark that it may begin with.
pub open spec fn unmarked(name: Seq<char>) -> Seq<char> {
    if messaging::is_channel_name(name) {
        name.skip(1)
    } else {
        name
    }
}

/// The channel that a caller names, with or without `#`: the mark of a channel stays, what follows
/// it is in lower case.
pub open spec fn named_channel(name: Seq<char>) -> Seq<char> {
    if messaging::is_channel_name(name) {
        seq![name[0]] + text::lowercase(name.skip(1))
    } else {
        seq!['#'] + text::lowercase(name)
    }
}

/// The channel that a caller names.
pub fn normalize_channel(channel: &str) -> (r: String)
    ensures
        r@ == named_channel(channel@),
{
    let v = chars_of(channel);
    let mut out = String::new();
    if is_channel(channel) {
        out.push(v[0]);
        let rest = string_of(&v, 1, v.len());
        assert(rest@ =~= channel@.skip(1));
        out.push_str(to_lowercase(rest.as_str()).as_str());
    } else {
        out.push('#');
        out.push_str(to_lowercase(channel).as_str());
    }
    assert(out@ =~= named_channel(channel@));
    out
}

/// Whatever a caller writes names a channel with its mark, and a missing `#` is the same as a
/// written one. A name that has been brought into this form keeps it exactly where what follows the
/// mark, once in lower case, stays as it is when it is put in lower case again. For a name of ASCII
/// characters that is so, and it is the one under which the server keeps the channel.
pub proof fn law_named_channel(name: Seq<char>)
    ensures
        messaging::is_channel_name(named_channel(name)),
        !messaging::is_channel_name(name) ==> named_channel(name) == named_channel("#"@ + name),
        named_channel(named_channel(name)) == named_channel(name) <==> text::lowercase(
            text::lowercase(unmarked(name)),
        ) == text::lowercase(unmarked(name)),
        text::all_ascii(name) ==> named_channel(named_channel(name)) == named_channel(name),
        text::all_ascii(name) && messaging::is_channel_name(name) ==> named_channel(name)
            == crate::server::channel_key(name),
{
    reveal_strlit("#");
    assert(("#"@ + name).skip(1) =~= name);
    assert(("#"@ + name)[0] == '#');
    let rest = unmarked(name);
    assert(named_channel(name).skip(1) =~= text::lowercase(rest));
    assert(named_channel(named_channel(name)).skip(1) =~= text::lowercase(text::lowercase(rest)));
    assert(named_channel(named_channel(name))[0] == named_channel(name)[0]);
    if text::lowercase(text::lowercase(rest)) == text::lowercase(rest) {
        assert(named_channel(named_channel(name)) =~= named_channel(name));
    }
    if text::all_ascii(name) {
        let low = text::ascii_lower(rest);
        assert(text::all_ascii(rest));
        assert forall|i: int| 0 <= i < low.len() implies (#[trigger] low[i]) as u32 <= 127 by {
            assert(rest[i] as u32 <= 127);
        }
        assert(text::ascii_lower(low) =~= low);
        assert(named_channel(name).skip(1) =~= low);
        if messaging::is_channel_name(name) {
            assert(text::ascii_lower(name) =~= named_channel(name));
        }
    }
}

/// How many characters of an identifier are shown.
pub const MAX_LABEL: usize = 96;

/// How many characters of free text are shown.
pub const MAX_QUOTE: usize = 280;

/// A character of an identifier, as it is shown.
pub open spec fn label_char(c: char) -> char {
    if text::is_control(c) {
        '?'
    } else {
        c
    }
}

/// An identifier, as it is shown.
pub open spec fn label(s: Seq<char>) -> Seq<char> {
    text::head_spec(s, MAX_LABEL as nat).map_values(|c: char| label_char(c))
}

/// A character of free text, as it is relayed.
pub open spec fn clean_char(c: char) -> char {
    if text::is_control(c) && c != '\n' {
        ' '
    } else {
        c
    }
}

/// The start of some free text, as it is relayed.
pub open spec fn cleaned(s: Seq<char>, n: nat) -> Seq<char> {
    text::head_spec(s, n).map_values(|c: char| clean_char(c))
}

/// A character between quotation marks: a quotation mark would end the quotation, so that an
/// apostrophe stands for it.
pub open spec fn quote_char(c: char) -> char {
    if c == '"' {
        '\''
    } else {
        c
    }
}

/// Free text, as it is shown: between quotation marks, none of which comes from the text.
pub open spec fn quoted(s: Seq<char>) -> Seq<char> {
    "\""@ + cleaned(s, MAX_QUOTE as nat).map_values(|c: char| quote_char(c)) + "\""@
}

/// Strip control chars + cap length on caller-provided identifiers.
pub fn sanitize_label(input: &str) -> (r: String)
    ensures
        r@ == label(input@),
{
    let v = chars_of(input);
    let n: usize = if v.len() <= MAX_LABEL {
        v.len()
    } else {
        MAX_LABEL
    };
    let mut out = String::new();
    let mut i: usize = 0;
    assert(v@.take(n as int) =~= text::head_spec(input@, MAX_LABEL as nat));
    while i < n
        invariant
            i <= n <= v.len(),
            out@ == v@.take(i as int).map_values(|c: char| label_char(c)),
        decreases n - i,
    {
        if char_is_control(v[i]) {
            out.push('?');
        } else {
            out.push(v[i]);
        }
        i = i + 1;
        assert(out@ =~= v@.take(i as int).map_values(|c: char| label_char(c)));
    }
    out
}

/// The start of some free text without control characters other than newlines.
pub fn clean_text(s: &str, max: usize) -> (r: String)
    ensures
        r@ == cleaned(s@, max as nat),
{
    let v = chars_of(s);
    let n: usize = if v.len() <= max {
        v.len()
    } else {
        max
    };
    let mut out = String::new();
    let mut i: usize = 0;
    assert(v@.take(n as int) =~= text::head_spec(s@, max as nat));
    while i < n
        invariant
            i <= n <= v.len(),
            out@ == v@.take(i as int).map_values(|c: char| clean_char(c)),
        decreases n - i,
    {
        if char_is_control(v[i]) && v[i] != '\n' {
            out.push(' ');
        } else {
            out.push(v[i]);
        }
        i = i + 1;
        assert(out@ =~= v@.take(i as int).map_values(|c: char| clean_char(c)));
    }
    out
}

/// Quote arbitrary caller-supplied free text inside a fact line: whatever the text is, it cannot
/// escape the quoting.
pub fn quote_user_text(s: &str) -> (r: String)
    ensures
        r@ == quoted(s@),
{
    let v = chars_of(clean_text(s, MAX_QUOTE).as_str());
    let mut inner = String::new();
    let mut i: usize = 0;
    assert(inner@ =~= v@.take(0).map_values(|c: char| quote_char(c)));
    while i < v.len()
        invariant
            i <= v.len(),
            inner@ == v@.take(i as int).map_values(|c: char| quote_char(c)),
        decreases v.len() - i,
    {
        if v[i] == '"' {
            inner.push('\'');
        } else {
            inner.push(v[i]);
        }
        i = i + 1;
        assert(inner@ =~= v@.take(i as int).map_values(|c: char| quote_char(c)));
    }
    assert(v@.take(i as int) =~= v@);
    Line::new("\"").add(inner.as_str()).add("\"").done()
}

/// An identifier is shown with at most [`MAX_LABEL`] characters, none of them a control character.
pub proof fn law_label_is_safe(s: Seq<char>)
    ensures
        label(s).len() <= MAX_LABEL,
        forall|i: int| 0 <= i < label(s).len() ==> !text::is_control(#[trigger] label(s)[i]),
{
}

/// Free text is shown between quotation marks, with at most [`MAX_QUOTE`] characters, none of them
/// a control character but for newlines, and none of them a quotation mark: the text cannot end the
/// quotation early.
pub proof fn law_quote_is_safe(s: Seq<char>)
    ensures
        quoted(s).len() <= MAX_QUOTE + 2,
        quoted(s)[0] == '"',
        quoted(s).last() == '"',
        forall|i: int|
            0 <= i < quoted(s).len() ==> !text::is_control(#[trigger] quoted(s)[i]) || quoted(s)[i]
                == '\n',
        forall|i: int| 0 < i < quoted(s).len() - 1 ==> (#[trigger] quoted(s)[i]) != '"',
{
    reveal_strlit("\"");
    let inner = cleaned(s, MAX_QUOTE as nat).map_values(|c: char| quote_char(c));
    assert(quoted(s) =~= seq!['"'] + inner + seq!['"']);
    assert forall|i: int| 0 <= i < quoted(s).len() implies !text::is_control(
        #[trigger] quoted(s)[i],
    ) || quoted(s)[i] == '\n' by {
        if 0 < i < quoted(s).len() - 1 {
            assert(quoted(s)[i] == inner[i - 1]);
        }
    }
    assert forall|i: int| 0 < i < quoted(s).len() - 1 implies (#[trigger] quoted(s)[i]) != '"' by {
        assert(quoted(s)[i] == inner[i - 1]);
    }
}

// ── Building bundles ────────────────────────────────────────────────

/// A list of one text where a condition holds, else of none.
pub open spec fn when(b: bool, s: Seq<char>) -> Seq<Seq<char>> {
    if b {
        seq![s]
    } else {
        Seq::empty()
    }
}

/// A list of one fix where a condition holds, else of none.
pub open spec fn fix_when(b: bool, summary: Seq<char>, details: Option<Seq<char>>) -> Seq<
    SuggestedFixView,
> {
    if b {
        seq![SuggestedFixView { summary, details }]
    } else {
        Seq::empty()
    }
}

/// Appends a text.
pub fn add_text(v: &mut Vec<String>, s: String)
    ensures
        final(v).deep_view() == old(v).deep_view().push(s@),
{
    let ghost before = v.deep_view();
    v.push(s);
    assert(v.deep_view() =~= before.push(s@));
}

/// Appends a text where a condition holds.
fn add_when(v: &mut Vec<String>, b: bool, s: &str)
    ensures
        final(v).deep_view() == old(v).deep_view() + when(b, s@),
{
    let ghost before = v.deep_view();
    if b {
        v.push(s.to_owned());
    }
    assert(v.deep_view() =~= before + when(b, s@));
}

/// Appends a fix where a condition holds.
fn add_fix_when(v: &mut Vec<SuggestedFix>, b: bool, summary: &str, details: Option<&str>)
    ensures
        final(v).deep_view() == old(v).deep_view() + fix_when(b, summary@, details.deep_view()),
{
    let ghost before = v.deep_view();
    if b {
        let d = match details {
            Some(t) => Some(t.to_owned()),
            None => None,
        };
        let fix = SuggestedFix { summary: summary.to_owned(), details: d };
        assert(fix.deep_view() == (SuggestedFixView {
            summary: summary@,
            details: details.deep_view(),
        }));
        v.push(fix);
        assert(v.deep_view() =~= before.push(fix.deep_view()));
    }
    assert(v.deep_view() =~= before + fix_when(b, summary@, details.deep_view()));
}

/// A list of one text.
fn one_text(s: &str) -> (r: Vec<String>)
    ensures
        r.deep_view() == seq![s@],
{
    let r = vec![s.to_owned()];
    assert(r.deep_view() =~= seq![s@]);
    r
}

/// An empty list of texts.
fn no_text() -> (r: Vec<String>)
    ensures
        r.deep_view() == Seq::<Seq<char>>::empty(),
{
    let r: Vec<String> = Vec::new();
    assert(r.deep_view() =~= Seq::<Seq<char>>::empty());
    r
}

/// A list of one fix without details.
pub fn one_fix(s: &str) -> (r: Vec<SuggestedFix>)
    ensures
        r.deep_view() == fix_when(true, s@, None),
{
    let mut r: Vec<SuggestedFix> = Vec::new();
    assert(r.deep_view() =~= Seq::<SuggestedFixView>::empty());
    add_fix_when(&mut r, true, s, None);
    assert(r.deep_view() =~= fix_when(true, s@, None));
    r
}

/// An empty list of fixes.
fn no_fix() -> (r: Vec<SuggestedFix>)
    ensures
        r.deep_view() == Seq::<SuggestedFixView>::empty(),
{
    let r: Vec<SuggestedFix> = Vec::new();
    assert(r.deep_view() =~= Seq::<SuggestedFixView>::empty());
    r
}

/// An empty list of followups.
fn no_followup() -> (r: Vec<Followup>)
    ensures
        r.deep_view() == Seq::<FollowupView>::empty(),
{
    let r: Vec<Followup> = Vec::new();
    assert(r.deep_view() =~= Seq::<FollowupView>::empty());
    r
}

/// A list of one followup.
fn one_followup(tool: &str, reason: &str) -> (r: Vec<Followup>)
    ensures
        r.deep_view() == seq![FollowupView { tool: tool@, reason: reason@ }],
{
    let r = vec![Followup { tool: tool.to_owned(), reason: reason.to_owned() }];
    assert(r.deep_view() =~= seq![FollowupView { tool: tool@, reason: reason@ }]);
    r
}

/// The bundle that refuses a request: it holds no facts, and says which level is needed.
pub open spec fn denied(
    code: Seq<char>,
    summary: Seq<char>,
    required: DisclosureLevel,
) -> FactBundleView {
    FactBundleView {
        ok: false,
        code,
        summary,
        confidence: Confidence::High,
        safe_facts: Seq::empty(),
        suggested_fixes: fix_when(
            true,
            "Authenticate with a session at the "@ + types::level_name(required)
                + " disclosure level or higher."@,
            None,
        ),
        redactions: seq!["Request denied before any server state was inspected."@],
        followups: Seq::empty(),
        min_disclosure: DisclosureLevel::Public,
    }
}

/// A single place to construct permission-denied bundles so the wire shape is uniform.
pub fn permission_denied(code: &str, summary: &str, required: DisclosureLevel) -> (b: FactBundle)
    ensures
        b.deep_view() == denied(code@, summary@, required),
{
    let fix = Line::new("Authenticate with a session at the ").add(required.name()).add(
        " disclosure level or higher.",
    ).done();
    FactBundle {
        ok: false,
        code: code.to_owned(),
        summary: summary.to_owned(),
        confidence: Confidence::High,
        safe_facts: no_text(),
        suggested_fixes: one_fix(fix.as_str()),
        redactions: one_text("Request denied before any server state was inspected."),
        followups: no_followup(),
        min_disclosure: DisclosureLevel::Public,
    }
}

// ── Tool: validate_client_config ────────────────────────────────────

pub const WARN_TAGS: &'static str = "Client does not advertise `message-tags`. msgid, time, and reply tags will be missing on every PRIVMSG, breaking edits, deletes, replies, and reactions.";

pub const FIX_TAGS: &'static str = "Negotiate the `message-tags` IRCv3 capability before joining channels.";

pub const FIX_TAGS_DETAILS: &'static str = "Send `CAP LS 302`, then `CAP REQ :message-tags server-time batch` and wait for `CAP ACK` before sending USER/NICK or any JOIN.";

pub const WARN_TIME: &'static str = "Client does not advertise `server-time`. Timestamps on history and live messages will fall back to local receive time, which causes ordering surprises after reconnect.";

pub const FIX_TIME: &'static str = "Request `server-time` and render messages by the server `time` tag.";

pub const WARN_BATCH: &'static str = "Client does not advertise `batch`. CHATHISTORY replies will arrive as a flat interleaved stream and may be ordered incorrectly relative to live messages.";

pub const FIX_BATCH: &'static str = "Request `batch` to receive CHATHISTORY as a delimited group.";

pub const WARN_ECHO: &'static str = "Client does not advertise `echo-message`. Self-sent messages will not be echoed back, which makes optimistic local rendering racy with edits and deletes.";

pub const FIX_ECHO: &'static str = "Request `echo-message` and treat a self-sent message as pending until its echo arrives.";

pub const WARN_E2EE: &'static str = "Client claims E2EE support but not message-tags. E2EE relies on tag-based metadata (msgid, sig, encrypted) — this combination will not work.";

pub const FIX_E2EE: &'static str = "Negotiate `message-tags` before enabling E2EE, or turn E2EE off.";

pub const WARN_RESUME: &'static str = "Client wants multi_device but does not advertise resume support. After a reconnect, other devices will see a transient quit/join cycle and history may be replayed in a different order than canonical.";

pub const FIX_RESUME: &'static str = "Implement session resume so reconnects don't churn presence and replay.";

pub const FIX_RESUME_DETAILS: &'static str = "Persist the last server `msgid` you observed per channel and request `CHATHISTORY AFTER #ch msgid=<...>` on reconnect.";

/// Whether a feature is the use of several devices.
pub open spec fn is_multi_device(f: Seq<char>) -> bool {
    text::ascii_lower(f) == "multi_device"@ || text::ascii_lower(f) == "multi-device"@
}

/// Whether a client is to be used on several devices.
pub open spec fn wants_multi_device(features: Seq<Seq<char>>) -> bool {
    exists|i: int| 0 <= i < features.len() && is_multi_device(#[trigger] features[i])
}

/// What is wrong with a configuration.
pub open spec fn config_warnings(s: ClientSupportsView, multi: bool) -> Seq<Seq<char>> {
    when(!s.message_tags, WARN_TAGS@) + when(!s.server_time, WARN_TIME@) + when(
        !s.batch,
        WARN_BATCH@,
    ) + when(!s.echo_message, WARN_ECHO@) + when(s.e2ee && !s.message_tags, WARN_E2EE@) + when(
        multi && !s.resume,
        WARN_RESUME@,
    )
}

/// What could be done about it: every warning has its fix, at the same place.
pub open spec fn config_fixes(s: ClientSupportsView, multi: bool) -> Seq<SuggestedFixView> {
    fix_when(!s.message_tags, FIX_TAGS@, Some(FIX_TAGS_DETAILS@)) + fix_when(
        !s.server_time,
        FIX_TIME@,
        None,
    ) + fix_when(!s.batch, FIX_BATCH@, None) + fix_when(!s.echo_message, FIX_ECHO@, None) + fix_when(
        s.e2ee && !s.message_tags,
        FIX_E2EE@,
        None,
    ) + fix_when(
        multi && !s.resume,
        FIX_RESUME@,
        Some(FIX_RESUME_DETAILS@),
    )
}

/// Whether a fix is the one for a warning.
pub open spec fn mends(w: Seq<char>, f: SuggestedFixView) -> bool {
    ||| w == WARN_TAGS@ && f.summary == FIX_TAGS@
    ||| w == WARN_TIME@ && f.summary == FIX_TIME@
    ||| w == WARN_BATCH@ && f.summary == FIX_BATCH@
    ||| w == WARN_ECHO@ && f.summary == FIX_ECHO@
    ||| w == WARN_E2EE@ && f.summary == FIX_E2EE@
    ||| w == WARN_RESUME@ && f.summary == FIX_RESUME@
}

/// Whether two lists pair warnings with their fixes.
pub open spec fn all_mended(ws: Seq<Seq<char>>, fs: Seq<SuggestedFixView>) -> bool {
    ws.len() == fs.len() && forall|i: int|
        0 <= i < ws.len() ==> mends(#[trigger] ws[i], fs[i])
}

/// Lists that pair warnings with their fixes still do with one more of each.
proof fn lemma_all_mended(
    ws: Seq<Seq<char>>,
    fs: Seq<SuggestedFixView>,
    b: bool,
    w: Seq<char>,
    summary: Seq<char>,
    details: Option<Seq<char>>,
)
    requires
        all_mended(ws, fs),
        mends(w, SuggestedFixView { summary, details }),
    ensures
        all_mended(ws + when(b, w), fs + fix_when(b, summary, details)),
{
}

/// Whatever a client lacks, every warning about it comes with the concrete fix for it.
pub proof fn law_every_warning_has_a_fix(input: ValidateClientConfigInputView)
    ensures
        ({
            let multi = wants_multi_device(input.desired_features);
            &&& all_mended(config_warnings(input.supports, multi), config_spec(input).suggested_fixes)
            &&& config_spec(input).suggested_fixes.len() + 2 == config_spec(input).safe_facts.len()
        }),
{
    let multi = wants_multi_device(input.desired_features);
    let s = input.supports;
    let w0: Seq<Seq<char>> = Seq::empty();
    let f0: Seq<SuggestedFixView> = Seq::empty();
    let details = Some(FIX_TAGS_DETAILS@);
    let (w1, f1) = (when(!s.message_tags, WARN_TAGS@), fix_when(!s.message_tags, FIX_TAGS@, details));
    lemma_all_mended(w0, f0, !s.message_tags, WARN_TAGS@, FIX_TAGS@, details);
    assert(w0 + w1 =~= w1);
    assert(f0 + f1 =~= f1);
    let (w2, f2) = (
        w1 + when(!s.server_time, WARN_TIME@),
        f1 + fix_when(!s.server_time, FIX_TIME@, None),
    );
    lemma_all_mended(w1, f1, !s.server_time, WARN_TIME@, FIX_TIME@, None);
    let (w3, f3) = (w2 + when(!s.batch, WARN_BATCH@), f2 + fix_when(!s.batch, FIX_BATCH@, None));
    lemma_all_mended(w2, f2, !s.batch, WARN_BATCH@, FIX_BATCH@, None);
    let (w4, f4) = (
        w3 + when(!s.echo_message, WARN_ECHO@),
        f3 + fix_when(!s.echo_message, FIX_ECHO@, None),
    );
    lemma_all_mended(w3, f3, !s.echo_message, WARN_ECHO@, FIX_ECHO@, None);
    let no_tags = s.e2ee && !s.message_tags;
    lemma_all_mended(w4, f4, no_tags, WARN_E2EE@, FIX_E2EE@, None);
    lemma_all_mended(
        w4 + when(no_tags, WARN_E2EE@),
        f4 + fix_when(no_tags, FIX_E2EE@, None),
        multi && !s.resume,
        WARN_RESUME@,
        FIX_RESUME@,
        Some(FIX_RESUME_DETAILS@),
    );
}

/// A truth value as text.
pub open spec fn bool_text(b: bool) -> Seq<char> {
    if b {
        "true"@
    } else {
        "false"@
    }
}

/// The fact that lists what a client can do.
pub open spec fn bitmap_fact(s: ClientSupportsView) -> Seq<char> {
    "Capability bitmap observed: message-tags="@ + bool_text(s.message_tags) + ", server-time="@
        + bool_text(s.server_time) + ", batch="@ + bool_text(s.batch) + ", sasl="@ + bool_text(
        s.sasl,
    ) + ", resume="@ + bool_text(s.resume) + ", e2ee="@ + bool_text(s.e2ee) + ", echo-message="@
        + bool_text(s.echo_message) + ", away-notify="@ + bool_text(s.away_notify) + "."@
}

/// The diagnosis of a configuration.
pub open spec fn config_spec(input: ValidateClientConfigInputView) -> FactBundleView {
    let multi = wants_multi_device(input.desired_features);
    let warnings = config_warnings(input.supports, multi);
    let ok = warnings.len() == 0;
    FactBundleView {
        ok,
        code: if ok {
            "CONFIG_OK"@
        } else {
            "CONFIG_HAS_WARNINGS"@
        },
        summary: if ok {
            "Client configuration looks compatible with current server expectations."@
        } else {
            "Client configuration has "@ + text::decimal_spec(warnings.len())
                + " compatibility warning(s)."@
        },
        confidence: Confidence::High,
        safe_facts: seq![
            "Validated configuration for client `"@ + label(input.client_name) + "`."@,
            bitmap_fact(input.supports),
        ] + warnings,
        suggested_fixes: config_fixes(input.supports, multi),
        redactions: Seq::empty(),
        followups: Seq::empty(),
        min_disclosure: DisclosureLevel::Public,
    }
}

/// A truth value as text.
fn show_bool(b: bool) -> (r: &'static str)
    ensures
        r@ == bool_text(b),
{
    if b {
        "true"
    } else {
        "false"
    }
}

/// Whether a client is to be used on several devices.
fn find_multi_device(features: &Vec<String>) -> (b: bool)
    ensures
        b == wants_multi_device(features.deep_view()),
{
    let ghost all = features.deep_view();
    let mut found = false;
    let mut i: usize = 0;
    while i < features.len() && !found
        invariant
            i <= all.len(),
            all == features.deep_view(),
            features@.len() == all.len(),
            found ==> wants_multi_device(all),
            !found ==> forall|j: int| 0 <= j < i ==> !is_multi_device(#[trigger] all[j]),
        decreases all.len() - i,
    {
        let f = to_ascii_lower(features[i].as_str());
        assert(all[i as int] == features@[i as int]@);
        if str_eq(f.as_str(), "multi_device") || str_eq(f.as_str(), "multi-device") {
            assert(is_multi_device(all[i as int]));
            found = true;
        }
        i = i + 1;
    }
    found
}

/// What is wrong with a configuration.
fn list_warnings(s: &types::ClientSupports, multi: bool) -> (r: Vec<String>)
    ensures
        r.deep_view() == config_warnings(s.deep_view(), multi),
{
    let mut w = no_text();
    add_when(&mut w, !s.message_tags, WARN_TAGS);
    add_when(&mut w, !s.server_time, WARN_TIME);
    add_when(&mut w, !s.batch, WARN_BATCH);
    add_when(&mut w, !s.echo_message, WARN_ECHO);
    add_when(&mut w, s.e2ee && !s.message_tags, WARN_E2EE);
    add_when(&mut w, multi && !s.resume, WARN_RESUME);
    assert(w.deep_view() =~= config_warnings(s.deep_view(), multi));
    w
}

/// What could be done about a configuration.
fn list_fixes(s: &types::ClientSupports, multi: bool) -> (r: Vec<SuggestedFix>)
    ensures
        r.deep_view() == config_fixes(s.deep_view(), multi),
{
    let mut f = no_fix();
    let tags = Some(FIX_TAGS_DETAILS);
    assert(tags.deep_view() == Some(FIX_TAGS_DETAILS@));
    let resume = Some(FIX_RESUME_DETAILS);
    assert(resume.deep_view() == Some(FIX_RESUME_DETAILS@));
    let nothing: Option<&str> = None;
    assert(nothing.deep_view() == None::<Seq<char>>);
    add_fix_when(&mut f, !s.message_tags, FIX_TAGS, tags);
    add_fix_when(&mut f, !s.server_time, FIX_TIME, nothing);
    add_fix_when(&mut f, !s.batch, FIX_BATCH, nothing);
    add_fix_when(&mut f, !s.echo_message, FIX_ECHO, nothing);
    add_fix_when(&mut f, s.e2ee && !s.message_tags, FIX_E2EE, nothing);
    add_fix_when(&mut f, multi && !s.resume, FIX_RESUME, resume);
    assert(f.deep_view() =~= config_fixes(s.deep_view(), multi));
    f
}

/// Appends texts to others.
fn add_texts(v: &mut Vec<String>, more: &Vec<String>)
    ensures
        final(v).deep_view() == old(v).deep_view() + more.deep_view(),
{
    let ghost before = v.deep_view();
    let ghost all = more.deep_view();
    let mut i: usize = 0;
    assert(before + all.take(0) =~= before);
    while i < more.len()
        invariant
            i <= all.len(),
            all == more.deep_view(),
            more@.len() == all.len(),
            v.deep_view() == before + all.take(i as int),
        decreases all.len() - i,
    {
        let ghost prev = v.deep_view();
        v.push(more[i].clone());
        assert(v.deep_view() =~= prev.push(all[i as int]));
        i = i + 1;
        assert(v.deep_view() =~= before + all.take(i as int));
    }
    assert(all.take(i as int) =~= all);
}

/// Pure-function validator. No state read, no DB hit. Public.
pub fn validate_client_config(input: &ValidateClientConfigInput) -> (b: FactBundle)
    ensures
        b.deep_view() == config_spec(input.deep_view()),
{
    let multi = find_multi_device(&input.desired_features);
    let s = &input.supports;
    let warnings = list_warnings(s, multi);
    let fixes = list_fixes(s, multi);
    let first = Line::new("Validated configuration for client `").add(
        sanitize_label(input.client_name.as_str()).as_str(),
    ).add("`.").done();
    let second = Line::new("Capability bitmap observed: message-tags=").add(
        show_bool(s.message_tags),
    ).add(", server-time=").add(show_bool(s.server_time)).add(", batch=").add(
        show_bool(s.batch),
    ).add(", sasl=").add(show_bool(s.sasl)).add(", resume=").add(show_bool(s.resume)).add(
        ", e2ee=",
    ).add(show_bool(s.e2ee)).add(", echo-message=").add(show_bool(s.echo_message)).add(
        ", away-notify=",
    ).add(show_bool(s.away_notify)).add(".").done();
    let mut facts = no_text();
    add_text(&mut facts, first);
    add_text(&mut facts, second);
    add_texts(&mut facts, &warnings);
    assert(facts.deep_view() =~= config_spec(input.deep_view()).safe_facts);
    let ok = warnings.len() == 0;
    assert(warnings.deep_view().len() == warnings@.len());
    let code = if ok {
        "CONFIG_OK".to_owned()
    } else {
        "CONFIG_HAS_WARNINGS".to_owned()
    };
    let summary = if ok {
        "Client configuration looks compatible with current server expectations.".to_owned()
    } else {
        Line::new("Client configuration has ").add(decimal(warnings.len() as u128).as_str()).add(
            " compatibility warning(s).",
        ).done()
    };
    FactBundle {
        ok,
        code,
        summary,
        confidence: Confidence::High,
        safe_facts: facts,
        suggested_fixes: fixes,
        redactions: no_text(),
        followups: no_followup(),
        min_disclosure: DisclosureLevel::Public,
    }
}

// ── Tool: diagnose_message_ordering ─────────────────────────────────

/// How many messages are looked at in one request.
pub const MAX_MESSAGES: usize = 50;

pub const ORDER_OK: &'static str = "The observed display order matches the canonical server order. The reported symptom must have another cause.";

pub const ORDER_OK_FIX: &'static str = "Look for client-side reordering after this point (debounce, virtualized scroll, or merge step).";

pub const ORDER_BAD: &'static str = "Client display order does not match canonical server order. The most common cause is rendering by local receive time instead of `server-time` or server-assigned sequence.";

pub const ORDER_BAD_FIX: &'static str = "Sort committed channel messages by server `time` tag (or server_sequence when available).";

pub const ORDER_BAD_DETAILS: &'static str = "Treat local pending messages as a separate optimistic layer until their echo arrives with a real msgid + time.";

pub const ORDER_BAD_REPLAY: &'static str = "During CHATHISTORY replay, buffer the batch and apply order on batch end.";

pub const ORDER_FOLLOWUP: &'static str = "Inspect whether these messages were live-delivered or replayed during a resume.";

/// What is stored of a message: its ID, its place in the server's order, and its time.
pub type Stored = (String, i64, u64);

/// What was found for the message at a place.
pub open spec fn row_at(rows: Seq<Option<(i64, u64)>>, i: int) -> Option<(i64, u64)> {
    if 0 <= i < rows.len() {
        rows[i]
    } else {
        None
    }
}

/// The messages of a request that are stored, in the order of the request.
pub open spec fn stored(ids: Seq<Seq<char>>, rows: Seq<Option<(i64, u64)>>) -> Seq<
    (Seq<char>, i64, u64),
>
    decreases ids.len(),
{
    if ids.len() == 0 {
        Seq::empty()
    } else {
        let before = stored(ids.drop_last(), rows);
        let i = ids.len() - 1;
        match row_at(rows, i) {
            Some((seq, ts)) => before.push((ids.last(), seq, ts)),
            None => before,
        }
    }
}

/// A list in the server's order with one more message: behind those that are not later.
pub open spec fn placed(s: Seq<(Seq<char>, i64, u64)>, e: (Seq<char>, i64, u64)) -> Seq<
    (Seq<char>, i64, u64),
>
    decreases s.len(),
{
    if s.len() == 0 || s.last().1 <= e.1 {
        s.push(e)
    } else {
        placed(s.drop_last(), e).push(s.last())
    }
}

/// Messages in the server's order.
pub open spec fn canonical(s: Seq<(Seq<char>, i64, u64)>) -> Seq<(Seq<char>, i64, u64)>
    decreases s.len(),
{
    if s.len() == 0 {
        Seq::empty()
    } else {
        placed(canonical(s.drop_last()), s.last())
    }
}

/// The server's order is a rearrangement of the messages in which none comes before an earlier one.
pub proof fn law_canonical_is_sorted(s: Seq<(Seq<char>, i64, u64)>)
    ensures
        canonical(s).to_multiset() == s.to_multiset(),
        forall|i: int, j: int|
            0 <= i <= j < canonical(s).len() ==> (#[trigger] canonical(s)[i]).1 <= (
            #[trigger] canonical(s)[j]).1,
    decreases s.len(),
{
    if s.len() > 0 {
        law_canonical_is_sorted(s.drop_last());
        lemma_placed(canonical(s.drop_last()), s.last());
        vstd::seq_lib::to_multiset_build(s.drop_last(), s.last());
        assert(s.drop_last().push(s.last()) =~= s);
    } else {
        assert(s =~= Seq::<(Seq<char>, i64, u64)>::empty());
    }
}

proof fn lemma_placed(s: Seq<(Seq<char>, i64, u64)>, e: (Seq<char>, i64, u64))
    requires
        forall|i: int, j: int| 0 <= i <= j < s.len() ==> (#[trigger] s[i]).1 <= (#[trigger] s[j]).1,
    ensures
        placed(s, e).to_multiset() == s.to_multiset().insert(e),
        placed(s, e).len() == s.len() + 1,
        forall|i: int, j: int|
            0 <= i <= j < placed(s, e).len() ==> (#[trigger] placed(s, e)[i]).1 <= (
            #[trigger] placed(s, e)[j]).1,
        forall|i: int|
            0 <= i < placed(s, e).len() ==> (#[trigger] placed(s, e)[i]) == e || s.contains(
                placed(s, e)[i],
            ),
    decreases s.len(),
{
    if s.len() == 0 || s.last().1 <= e.1 {
        vstd::seq_lib::to_multiset_build(s, e);
        assert(forall|i: int| 0 <= i < s.len() ==> s.push(e)[i] == s[i] && s.contains(s[i]));
    } else {
        let t = s.drop_last();
        lemma_placed(t, e);
        let p = placed(t, e);
        vstd::seq_lib::to_multiset_build(p, s.last());
        vstd::seq_lib::to_multiset_build(t, s.last());
        assert(t.push(s.last()) =~= s);
        assert(t.to_multiset().insert(e).insert(s.last()) =~= t.to_multiset().insert(
            s.last(),
        ).insert(e));
        let r = p.push(s.last());
        assert forall|i: int| 0 <= i < r.len() implies (#[trigger] r[i]) == e || s.contains(
            r[i],
        ) by {
            if i < p.len() {
                assert(r[i] == p[i]);
                if p[i] != e {
                    let k = choose|k: int| 0 <= k < t.len() && t[k] == p[i];
                    assert(s[k] == p[i]);
                }
            } else {
                assert(s[s.len() - 1] == s.last());
            }
        }
        assert forall|i: int, j: int| 0 <= i <= j < r.len() implies (#[trigger] r[i]).1 <= (
        #[trigger] r[j]).1 by {
            if j == p.len() && i < p.len() {
                assert(r[i] == p[i]);
                if p[i] != e {
                    let k = choose|k: int| 0 <= k < t.len() && t[k] == p[i];
                    assert(s[k].1 <= s[s.len() - 1].1);
                }
            } else if j < p.len() {
                assert(r[i] == p[i] && r[j] == p[j]);
            }
        }
    }
}

/// The IDs of messages.
pub open spec fn ids_of(s: Seq<(Seq<char>, i64, u64)>) -> Seq<Seq<char>> {
    s.map_values(|e: (Seq<char>, i64, u64)| e.0)
}

/// The fact about a stored message.
pub open spec fn message_fact(e: (Seq<char>, i64, u64)) -> Seq<char> {
    "msgid `"@ + label(e.0) + "` — server_sequence="@ + text::signed_decimal(e.1)
        + ", server_time="@ + text::decimal_spec(e.2 as nat) + "."@
}

/// An ID as it stands in the list of the order.
pub open spec fn ticked(id: Seq<char>) -> Seq<char> {
    "`"@ + label(id) + "`"@
}

/// The fact about the order.
pub open spec fn order_fact(s: Seq<(Seq<char>, i64, u64)>) -> Seq<char> {
    "Canonical order (oldest → newest): ["@ + text::join_spec(
        s.map_values(|e: (Seq<char>, i64, u64)| ticked(e.0)),
        ", "@,
    ) + "]."@
}

/// What the caller says is wrong, as a fact.
pub open spec fn symptom_fact(symptom: Option<Seq<char>>) -> Seq<Seq<char>> {
    match symptom {
        Some(s) => seq!["Caller-reported symptom: "@ + quoted(s)],
        None => Seq::empty(),
    }
}

/// The facts about the order of some messages of which `missing` more are not stored.
pub open spec fn ordering_facts(
    channel: Seq<char>,
    found: Seq<(Seq<char>, i64, u64)>,
    missing: nat,
    symptom: Option<Seq<char>>,
) -> Seq<Seq<char>> {
    let order = canonical(found);
    seq!["Channel: `"@ + label(channel) + "`."@] + order.map_values(
        |e: (Seq<char>, i64, u64)| message_fact(e),
    ) + when(
        missing > 0,
        text::decimal_spec(missing) + " provided msgid(s) not found in `"@ + label(channel) + "`."@,
    ) + seq![order_fact(order)] + symptom_fact(symptom)
}

/// The bundle for a request that cannot be dealt with.
pub open spec fn invalid_input(summary: Seq<char>, fixes: Seq<SuggestedFixView>) -> FactBundleView {
    FactBundleView {
        ok: false,
        code: "INVALID_INPUT"@,
        summary,
        confidence: Confidence::High,
        safe_facts: Seq::empty(),
        suggested_fixes: fixes,
        redactions: Seq::empty(),
        followups: Seq::empty(),
        min_disclosure: DisclosureLevel::ChannelMember,
    }
}

/// Why a question about the order of messages is not looked into, if it is not.
pub open spec fn ordering_refusal(
    input: DiagnoseMessageOrderingInputView,
    c: CallerView,
    st: ServerStateView,
) -> Option<FactBundleView> {
    let level = caller::level_in(c, st, named_channel(input.channel));
    if types::level_rank(level) < types::level_rank(DisclosureLevel::ChannelMember) {
        Some(
            denied(
                "DIAGNOSE_MESSAGE_ORDERING_REQUIRES_MEMBERSHIP"@,
                "You must be a member of the channel to inspect its message ordering."@,
                DisclosureLevel::ChannelMember,
            ),
        )
    } else if input.message_ids.len() == 0 {
        Some(
            invalid_input(
                "Provide at least one msgid to diagnose ordering."@,
                fix_when(
                    true,
                    "Pass `message_ids` as a non-empty array of ULID msgids."@,
                    None,
                ),
            ),
        )
    } else if input.message_ids.len() > MAX_MESSAGES {
        Some(invalid_input("Diagnose at most 50 messages per request."@, Seq::empty()))
    } else {
        None
    }
}

/// The bundle where none of the messages is stored.
pub open spec fn not_found(channel: Seq<char>, n: nat) -> FactBundleView {
    FactBundleView {
        ok: false,
        code: "MESSAGES_NOT_FOUND"@,
        summary: "None of the "@ + text::decimal_spec(n) + " provided msgid(s) were found in `"@
            + label(channel) + "`."@,
        confidence: Confidence::High,
        safe_facts: seq![
            "Looked up "@ + text::decimal_spec(n) + " msgid(s); 0 matched persisted messages."@,
        ],
        suggested_fixes: fix_when(
            true,
            "Confirm the msgids and channel name match what the server emitted."@,
            None,
        ),
        redactions: seq!["Message bodies omitted."@],
        followups: Seq::empty(),
        min_disclosure: DisclosureLevel::ChannelMember,
    }
}

/// What could be done about the order.
pub open spec fn ordering_fixes(matches: bool) -> Seq<SuggestedFixView> {
    fix_when(matches, ORDER_OK_FIX@, None) + fix_when(
        !matches,
        ORDER_BAD_FIX@,
        Some(ORDER_BAD_DETAILS@),
    ) + fix_when(!matches, ORDER_BAD_REPLAY@, None)
}

/// The diagnosis of the order of some messages, given what is stored of each.
pub open spec fn ordering_report(
    input: DiagnoseMessageOrderingInputView,
    rows: Seq<Option<(i64, u64)>>,
) -> FactBundleView {
    let channel = named_channel(input.channel);
    let found = stored(input.message_ids, rows);
    if found.len() == 0 {
        not_found(channel, input.message_ids.len())
    } else {
        let matches = ids_of(found) == ids_of(canonical(found));
        FactBundleView {
            ok: matches,
            code: if matches {
                "ORDER_MATCHES_CANONICAL"@
            } else {
                "DISPLAY_ORDER_MISMATCH"@
            },
            summary: if matches {
                ORDER_OK@
            } else {
                ORDER_BAD@
            },
            confidence: Confidence::High,
            safe_facts: ordering_facts(
                channel,
                found,
                (input.message_ids.len() - found.len()) as nat,
                input.symptom,
            ),
            suggested_fixes: ordering_fixes(matches),
            redactions: seq!["Message bodies omitted."@, "Sender identities omitted."@],
            followups: seq![FollowupView { tool: "diagnose_sync"@, reason: ORDER_FOLLOWUP@ }],
            min_disclosure: DisclosureLevel::ChannelMember,
        }
    }
}

/// The diagnosis of the order of some messages.
pub open spec fn ordering_spec(
    input: DiagnoseMessageOrderingInputView,
    c: CallerView,
    st: ServerStateView,
    rows: Seq<Option<(i64, u64)>>,
) -> FactBundleView {
    match ordering_refusal(input, c, st) {
        Some(b) => b,
        None => ordering_report(input, rows),
    }
}

proof fn lemma_stored_len(ids: Seq<Seq<char>>, rows: Seq<Option<(i64, u64)>>)
    ensures
        stored(ids, rows).len() <= ids.len(),
    decreases ids.len(),
{
    if ids.len() > 0 {
        lemma_stored_len(ids.drop_last(), rows);
    }
}

proof fn lemma_canonical_len(s: Seq<(Seq<char>, i64, u64)>)
    ensures
        canonical(s).len() == s.len(),
    decreases s.len(),
{
    if s.len() > 0 {
        lemma_canonical_len(s.drop_last());
        lemma_placed_len(canonical(s.drop_last()), s.last());
    }
}

proof fn lemma_placed_len(s: Seq<(Seq<char>, i64, u64)>, e: (Seq<char>, i64, u64))
    ensures
        placed(s, e).len() == s.len() + 1,
    decreases s.len(),
{
    if s.len() > 0 && s.last().1 > e.1 {
        lemma_placed_len(s.drop_last(), e);
    }
}

/// The messages of a request that are stored.
fn list_stored(ids: &Vec<String>, rows: &Vec<Option<(i64, u64)>>) -> (r: Vec<Stored>)
    ensures
        r.deep_view() == stored(ids.deep_view(), rows@),
{
    let ghost all = ids.deep_view();
    let mut out: Vec<Stored> = Vec::new();
    let mut i: usize = 0;
    assert(out.deep_view() =~= stored(all.take(0), rows@));
    while i < ids.len()
        invariant
            i <= all.len(),
            all == ids.deep_view(),
            ids@.len() == all.len(),
            out.deep_view() == stored(all.take(i as int), rows@),
        decreases all.len() - i,
    {
        assert(all.take(i + 1).drop_last() =~= all.take(i as int));
        let ghost before = out.deep_view();
        if i < rows.len() {
            if let Some((seq, ts)) = rows[i] {
                let e = (ids[i].clone(), seq, ts);
                out.push(e);
                assert(out.deep_view() =~= before.push((e.0@, e.1, e.2)));
            }
        }
        i = i + 1;
    }
    assert(all.take(i as int) =~= all);
    out
}

/// Puts a message where it belongs.
fn place(v: &mut Vec<Stored>, e: Stored)
    ensures
        final(v).deep_view() == placed(old(v).deep_view(), (e.0@, e.1, e.2)),
{
    let ghost start = v.deep_view();
    let ghost x = (e.0@, e.1, e.2);
    let n: usize = v.len();
    let mut i: usize = n;
    assert(start.take(n as int) =~= start);
    assert(placed(start, x) =~= placed(start.take(n as int), x) + start.skip(n as int));
    while i > 0 && v[i - 1].1 > e.1
        invariant
            i <= n,
            n == v@.len(),
            start == v.deep_view(),
            x == (e.0@, e.1, e.2),
            placed(start, x) == placed(start.take(i as int), x) + start.skip(i as int),
        decreases i,
    {
        assert(start[i - 1] == v@[i - 1].deep_view());
        assert(start.take(i as int).drop_last() =~= start.take(i - 1));
        assert(placed(start, x) =~= placed(start.take(i - 1), x) + start.skip(i - 1));
        i = i - 1;
    }
    assert(i > 0 ==> start[i - 1] == v@[i - 1].deep_view());
    v.insert(i, e);
    assert(v.deep_view() =~= start.insert(i as int, x));
    assert(v.deep_view() =~= start.take(i as int).push(x) + start.skip(i as int));
}

/// Messages in the server's order.
fn sort_stored(s: &Vec<Stored>) -> (r: Vec<Stored>)
    ensures
        r.deep_view() == canonical(s.deep_view()),
{
    let ghost all = s.deep_view();
    let mut out: Vec<Stored> = Vec::new();
    let mut i: usize = 0;
    assert(out.deep_view() =~= canonical(all.take(0)));
    while i < s.len()
        invariant
            i <= all.len(),
            all == s.deep_view(),
            s@.len() == all.len(),
            out.deep_view() == canonical(all.take(i as int)),
        decreases all.len() - i,
    {
        assert(all.take(i + 1).drop_last() =~= all.take(i as int));
        let e = (s[i].0.clone(), s[i].1, s[i].2);
        assert(all[i as int] == (e.0@, e.1, e.2));
        place(&mut out, e);
        i = i + 1;
    }
    assert(all.take(i as int) =~= all);
    out
}

/// Whether two lists have the same IDs in the same order.
fn same_ids(a: &Vec<Stored>, b: &Vec<Stored>) -> (r: bool)
    ensures
        r == (ids_of(a.deep_view()) == ids_of(b.deep_view())),
{
    let ghost x = ids_of(a.deep_view());
    let ghost y = ids_of(b.deep_view());
    if a.len() != b.len() {
        assert(x.len() != y.len());
        return false;
    }
    let mut same = true;
    let mut i: usize = 0;
    while i < a.len() && same
        invariant
            i <= a.len(),
            a.len() == b.len(),
            x == ids_of(a.deep_view()),
            y == ids_of(b.deep_view()),
            same ==> forall|j: int| 0 <= j < i ==> x[j] == y[j],
            !same ==> x != y,
        decreases a.len() - i,
    {
        assert(x[i as int] == a@[i as int].0@);
        assert(y[i as int] == b@[i as int].0@);
        if !str_eq(a[i].0.as_str(), b[i].0.as_str()) {
            same = false;
        }
        i = i + 1;
    }
    assert(same ==> x =~= y);
    same
}

/// The fact about a stored message.
fn describe_message(e: &Stored) -> (r: String)
    ensures
        r@ == message_fact((e.0@, e.1, e.2)),
{
    Line::new("msgid `").add(sanitize_label(e.0.as_str()).as_str()).add(
        "` — server_sequence=",
    ).add(to_signed_decimal(e.1).as_str()).add(", server_time=").add(
        decimal(e.2 as u128).as_str(),
    ).add(".").done()
}

/// The fact about the order.
fn describe_order(s: &Vec<Stored>) -> (r: String)
    ensures
        r@ == order_fact(s.deep_view()),
{
    let ghost all = s.deep_view();
    let ghost f = |e: (Seq<char>, i64, u64)| ticked(e.0);
    let mut out = no_text();
    let mut i: usize = 0;
    assert(out.deep_view() =~= all.take(0).map_values(f));
    while i < s.len()
        invariant
            i <= all.len(),
            all == s.deep_view(),
            s@.len() == all.len(),
            f == (|e: (Seq<char>, i64, u64)| ticked(e.0)),
            out.deep_view() == all.take(i as int).map_values(f),
        decreases all.len() - i,
    {
        let t = Line::new("`").add(sanitize_label(s[i].0.as_str()).as_str()).add("`").done();
        assert(all[i as int] == s@[i as int].deep_view());
        assert(t@ == f(all[i as int]));
        add_text(&mut out, t);
        i = i + 1;
        assert(out.deep_view() =~= all.take(i as int).map_values(f));
    }
    assert(all.take(i as int) =~= all);
    Line::new("Canonical order (oldest → newest): [").add(join(&out, ", ").as_str()).add("].").done()
}

/// Appends the facts about stored messages.
fn add_message_facts(facts: &mut Vec<String>, s: &Vec<Stored>)
    ensures
        final(facts).deep_view() == old(facts).deep_view() + s.deep_view().map_values(
            |e: (Seq<char>, i64, u64)| message_fact(e),
        ),
{
    let ghost before = facts.deep_view();
    let ghost all = s.deep_view();
    let ghost f = |e: (Seq<char>, i64, u64)| message_fact(e);
    let mut i: usize = 0;
    assert(before + all.take(0).map_values(f) =~= before);
    while i < s.len()
        invariant
            i <= all.len(),
            all == s.deep_view(),
            s@.len() == all.len(),
            f == (|e: (Seq<char>, i64, u64)| message_fact(e)),
            facts.deep_view() == before + all.take(i as int).map_values(f),
        decreases all.len() - i,
    {
        let t = describe_message(&s[i]);
        assert(all[i as int] == s@[i as int].deep_view());
        assert(t@ == f(all[i as int]));
        add_text(facts, t);
        i = i + 1;
        assert(facts.deep_view() =~= before + all.take(i as int).map_values(f));
    }
    assert(all.take(i as int) =~= all);
}

/// Appends what the caller says is wrong.
fn add_symptom(facts: &mut Vec<String>, symptom: &Option<String>)
    ensures
        final(facts).deep_view() == old(facts).deep_view() + symptom_fact(symptom.deep_view()),
{
    let ghost before = facts.deep_view();
    if let Some(s) = symptom {
        let t = Line::new("Caller-reported symptom: ").add(
            quote_user_text(s.as_str()).as_str(),
        ).done();
        add_text(facts, t);
    }
    assert(facts.deep_view() =~= before + symptom_fact(symptom.deep_view()));
}

/// The facts about the order of some messages.
fn list_ordering_facts(
    channel: &str,
    order: &Vec<Stored>,
    missing: usize,
    symptom: &Option<String>,
    found: Ghost<Seq<(Seq<char>, i64, u64)>>,
) -> (r: Vec<String>)
    requires
        order.deep_view() == canonical(found@),
    ensures
        r.deep_view() == ordering_facts(
            channel@,
            found@,
            missing as nat,
            symptom.deep_view(),
        ),
{
    let shown = sanitize_label(channel);
    let mut facts = no_text();
    add_text(&mut facts, Line::new("Channel: `").add(shown.as_str()).add("`.").done());
    add_message_facts(&mut facts, order);
    let lost = Line::new(decimal(missing as u128).as_str()).add(
        " provided msgid(s) not found in `",
    ).add(shown.as_str()).add("`.").done();
    add_when(&mut facts, missing > 0, lost.as_str());
    add_text(&mut facts, describe_order(order));
    add_symptom(&mut facts, symptom);
    assert(facts.deep_view() =~= ordering_facts(
        channel@,
        found@,
        missing as nat,
        symptom.deep_view(),
    ));
    facts
}

/// Why a question about the order of messages is not looked into, if it is not.
pub fn refuse_ordering(
    input: &DiagnoseMessageOrderingInput,
    caller: &Caller,
    state: &ServerState,
) -> (r: Option<FactBundle>)
    ensures
        r.deep_view() == ordering_refusal(
            input.deep_view(),
            caller.deep_view(),
            state.deep_view(),
        ),
{
    let channel = normalize_channel(input.channel.as_str());
    let level = effective_level(caller, state, channel.as_str());
    if !level.satisfies(DisclosureLevel::ChannelMember) {
        return Some(
            permission_denied(
                "DIAGNOSE_MESSAGE_ORDERING_REQUIRES_MEMBERSHIP",
                "You must be a member of the channel to inspect its message ordering.",
                DisclosureLevel::ChannelMember,
            ),
        );
    }
    assert(input.message_ids.deep_view().len() == input.message_ids@.len());
    if input.message_ids.len() == 0 {
        return Some(
            make_invalid(
                "Provide at least one msgid to diagnose ordering.",
                one_fix("Pass `message_ids` as a non-empty array of ULID msgids."),
            ),
        );
    }
    if input.message_ids.len() > MAX_MESSAGES {
        return Some(make_invalid("Diagnose at most 50 messages per request.", no_fix()));
    }
    None
}

/// The bundle for a request that cannot be dealt with.
fn make_invalid(summary: &str, fixes: Vec<SuggestedFix>) -> (b: FactBundle)
    ensures
        b.deep_view() == invalid_input(summary@, fixes.deep_view()),
{
    FactBundle {
        ok: false,
        code: "INVALID_INPUT".to_owned(),
        summary: summary.to_owned(),
        confidence: Confidence::High,
        safe_facts: no_text(),
        suggested_fixes: fixes,
        redactions: no_text(),
        followups: no_followup(),
        min_disclosure: DisclosureLevel::ChannelMember,
    }
}

/// The bundle where none of the messages is stored.
fn make_not_found(channel: &str, n: usize) -> (b: FactBundle)
    ensures
        b.deep_view() == not_found(channel@, n as nat),
{
    let count = decimal(n as u128);
    let summary = Line::new("None of the ").add(count.as_str()).add(
        " provided msgid(s) were found in `",
    ).add(sanitize_label(channel).as_str()).add("`.").done();
    let fact = Line::new("Looked up ").add(count.as_str()).add(
        " msgid(s); 0 matched persisted messages.",
    ).done();
    FactBundle {
        ok: false,
        code: "MESSAGES_NOT_FOUND".to_owned(),
        summary,
        confidence: Confidence::High,
        safe_facts: one_text(fact.as_str()),
        suggested_fixes: one_fix(
            "Confirm the msgids and channel name match what the server emitted.",
        ),
        redactions: one_text("Message bodies omitted."),
        followups: no_followup(),
        min_disclosure: DisclosureLevel::ChannelMember,
    }
}

/// What could be done about the order.
fn list_ordering_fixes(matches: bool) -> (r: Vec<SuggestedFix>)
    ensures
        r.deep_view() == ordering_fixes(matches),
{
    let details = Some(ORDER_BAD_DETAILS);
    assert(details.deep_view() == Some(ORDER_BAD_DETAILS@));
    let nothing: Option<&str> = None;
    assert(nothing.deep_view() == None::<Seq<char>>);
    let mut f = no_fix();
    add_fix_when(&mut f, matches, ORDER_OK_FIX, nothing);
    add_fix_when(&mut f, !matches, ORDER_BAD_FIX, details);
    add_fix_when(&mut f, !matches, ORDER_BAD_REPLAY, nothing);
    assert(f.deep_view() =~= ordering_fixes(matches));
    f
}

/// Diagnoses the order of some messages, given what is stored of each.
pub fn report_ordering(
    input: &DiagnoseMessageOrderingInput,
    rows: &Vec<Option<(i64, u64)>>,
) -> (b: FactBundle)
    ensures
        b.deep_view() == ordering_report(input.deep_view(), rows@),
{
    let channel = normalize_channel(input.channel.as_str());
    let found = list_stored(&input.message_ids, rows);
    proof {
        lemma_stored_len(input.message_ids.deep_view(), rows@);
        assert(found.deep_view().len() == found@.len());
        assert(input.message_ids.deep_view().len() == input.message_ids@.len());
    }
    if found.len() == 0 {
        return make_not_found(channel.as_str(), input.message_ids.len());
    }
    let order = sort_stored(&found);
    let matches = same_ids(&found, &order);
    let missing: usize = input.message_ids.len() - found.len();
    let facts = list_ordering_facts(
        channel.as_str(),
        &order,
        missing,
        &input.symptom,
        Ghost(found.deep_view()),
    );
    let code = if matches {
        "ORDER_MATCHES_CANONICAL".to_owned()
    } else {
        "DISPLAY_ORDER_MISMATCH".to_owned()
    };
    let summary = if matches {
        ORDER_OK.to_owned()
    } else {
        ORDER_BAD.to_owned()
    };
    let mut redactions = one_text("Message bodies omitted.");
    add_text(&mut redactions, "Sender identities omitted.".to_owned());
    assert(redactions.deep_view() =~= seq![
        "Message bodies omitted."@,
        "Sender identities omitted."@,
    ]);
    FactBundle {
        ok: matches,
        code,
        summary,
        confidence: Confidence::High,
        safe_facts: facts,
        suggested_fixes: list_ordering_fixes(matches),
        redactions,
        followups: one_followup("diagnose_sync", ORDER_FOLLOWUP),
        min_disclosure: DisclosureLevel::ChannelMember,
    }
}

/// Compare the caller's observed display order against the canonical server order for the listed
/// msgids in a channel. `rows` holds for each of them its row number and its time, where it is
/// stored.
///
/// Disclosure: requires the caller to be a member of the channel, or a server operator. Message
/// bodies are never returned.
pub fn diagnose_message_ordering(
    input: &DiagnoseMessageOrderingInput,
    caller: &Caller,
    state: &ServerState,
    rows: &Vec<Option<(i64, u64)>>,
) -> (b: FactBundle)
    ensures
        b.deep_view() == ordering_spec(
            input.deep_view(),
            caller.deep_view(),
            state.deep_view(),
            rows@,
        ),
{
    match refuse_ordering(input, caller, state) {
        Some(b) => b,
        None => report_ordering(input, rows),
    }
}

// ── Tool: diagnose_sync ─────────────────────────────────────────────

pub const SYNC_OFFLINE: &'static str = "The account has no active server sessions right now. The symptom cannot be diagnosed against live state — try again while connected, or pass `diagnose_message_ordering` for historical messages.";

pub const SYNC_OFFLINE_FOLLOWUP: &'static str = "Works against persisted messages even when the account is offline.";

pub const SYNC_LIMITS: &'static str = "The server does not yet record per-session delivery cursors or resume markers, so it cannot say which specific messages were already delivered to a given session. If you need that, use `diagnose_message_ordering` against the msgids you have.";

pub const SYNC_REPORTED: &'static str = "Reported the account's live session and channel-join state. Per-session delivery state is not yet recorded by the server.";

pub const SYNC_FIX_RECONNECT: &'static str = "If reconnect ordering is the symptom, persist the last seen msgid per channel and request `CHATHISTORY AFTER` on reconnect.";

pub const SYNC_FIX_TIME: &'static str = "Render channel timelines by the server `time` tag, not by local receive time.";

pub const SYNC_FOLLOWUP: &'static str = "Compare canonical order against your client-observed order for specific msgids.";

/// The sessions of an account.
pub open spec fn sessions_of(st: ServerStateView, did: Seq<char>) -> Seq<Seq<char>> {
    match containers::map_get(st.did_sessions, did) {
        Some(s) => s,
        None => Seq::empty(),
    }
}

/// How many of some sessions are in a channel.
pub open spec fn joined_count(st: ServerStateView, channel: Seq<char>, sessions: Seq<Seq<char>>) -> nat
    decreases sessions.len(),
{
    if sessions.len() == 0 {
        0
    } else {
        joined_count(st, channel, sessions.drop_last()) + (if st.is_member(
            channel,
            sessions.last(),
        ) {
            1nat
        } else {
            0nat
        })
    }
}

/// The facts about the sessions of an account in a channel.
pub open spec fn channel_facts(
    st: ServerStateView,
    channel: Option<Seq<char>>,
    sessions: Seq<Seq<char>>,
) -> Seq<Seq<char>> {
    match channel {
        Some(name) => {
            let ch = named_channel(name);
            let n = joined_count(st, ch, sessions);
            seq![
                text::decimal_spec(n) + " of those "@ + text::decimal_spec(sessions.len())
                    + " session(s) are joined to `"@ + label(ch) + "`."@,
            ] + when(
                n == 0,
                "No live session is in `"@ + label(ch)
                    + "` — historical messages will only reach this account on next JOIN."@,
            )
        },
        None => Seq::empty(),
    }
}

/// The first fact about the sessions of an account.
pub open spec fn sessions_fact(account: Seq<char>, n: nat) -> Seq<char> {
    "Account `"@ + label(account) + "` has "@ + text::decimal_spec(n) + " active session(s)."@
}

/// The bundle for an account without sessions.
pub open spec fn offline(account: Seq<char>) -> FactBundleView {
    FactBundleView {
        ok: false,
        code: "ACCOUNT_NOT_CONNECTED"@,
        summary: SYNC_OFFLINE@,
        confidence: Confidence::High,
        safe_facts: seq![sessions_fact(account, 0)],
        suggested_fixes: Seq::empty(),
        redactions: seq!["Other accounts' session state omitted."@],
        followups: seq![
            FollowupView { tool: "diagnose_message_ordering"@, reason: SYNC_OFFLINE_FOLLOWUP@ },
        ],
        min_disclosure: DisclosureLevel::Account,
    }
}

/// The diagnosis of the sync state of an account.
pub open spec fn sync_spec(
    input: DiagnoseSyncInputView,
    c: CallerView,
    st: ServerStateView,
) -> FactBundleView {
    let sessions = sessions_of(st, input.account);
    if c.level != DisclosureLevel::ServerOperator && c.did != Some(input.account) {
        denied(
            "DIAGNOSE_SYNC_SELF_ONLY"@,
            "Only the account owner (or a server operator) may diagnose this account's sync state."@,
            DisclosureLevel::Account,
        )
    } else if sessions.len() == 0 {
        offline(input.account)
    } else {
        FactBundleView {
            ok: true,
            code: "SYNC_STATE_REPORTED"@,
            summary: SYNC_REPORTED@,
            confidence: Confidence::Medium,
            safe_facts: seq![sessions_fact(input.account, sessions.len())] + channel_facts(
                st,
                input.channel,
                sessions,
            ) + symptom_fact(input.symptom) + seq![SYNC_LIMITS@],
            suggested_fixes: fix_when(true, SYNC_FIX_RECONNECT@, None) + fix_when(
                true,
                SYNC_FIX_TIME@,
                None,
            ),
            redactions: seq![
                "Session ids and IPs omitted."@,
                "Other accounts' session state omitted."@,
            ],
            followups: seq![
                FollowupView { tool: "diagnose_message_ordering"@, reason: SYNC_FOLLOWUP@ },
            ],
            min_disclosure: DisclosureLevel::Account,
        }
    }
}

/// How many of some sessions are in a channel.
fn count_joined(state: &ServerState, channel: &str, sessions: &StrSet) -> (n: usize)
    ensures
        n == joined_count(state.deep_view(), channel@, sessions@),
        n <= sessions@.len(),
{
    let ghost st = state.deep_view();
    let ghost all = sessions@;
    let mut n: usize = 0;
    let mut i: usize = 0;
    while i < sessions.len()
        invariant
            i <= all.len(),
            all == sessions@,
            st == state.deep_view(),
            n <= i,
            n == joined_count(st, channel@, all.take(i as int)),
        decreases all.len() - i,
    {
        assert(all.take(i + 1).drop_last() =~= all.take(i as int));
        if state.is_member(channel, sessions.at(i).as_str()) {
            n = n + 1;
        }
        i = i + 1;
    }
    assert(all.take(i as int) =~= all);
    n
}

/// Appends the facts about the sessions of an account in a channel.
fn add_channel_facts(
    facts: &mut Vec<String>,
    state: &ServerState,
    channel: &Option<String>,
    sessions: &StrSet,
)
    ensures
        final(facts).deep_view() == old(facts).deep_view() + channel_facts(
            state.deep_view(),
            channel.deep_view(),
            sessions@,
        ),
{
    let ghost before = facts.deep_view();
    if let Some(name) = channel {
        let ch = normalize_channel(name.as_str());
        let shown = sanitize_label(ch.as_str());
        let n = count_joined(state, ch.as_str(), sessions);
        let first = Line::new(decimal(n as u128).as_str()).add(" of those ").add(
            decimal(sessions.len() as u128).as_str(),
        ).add(" session(s) are joined to `").add(shown.as_str()).add("`.").done();
        add_text(facts, first);
        let second = Line::new("No live session is in `").add(shown.as_str()).add(
            "` — historical messages will only reach this account on next JOIN.",
        ).done();
        add_when(facts, n == 0, second.as_str());
    }
    assert(facts.deep_view() =~= before + channel_facts(
        state.deep_view(),
        channel.deep_view(),
        sessions@,
    ));
}

/// The first fact about the sessions of an account.
fn describe_sessions(account: &str, n: usize) -> (r: String)
    ensures
        r@ == sessions_fact(account@, n as nat),
{
    Line::new("Account `").add(sanitize_label(account).as_str()).add("` has ").add(
        decimal(n as u128).as_str(),
    ).add(" active session(s).").done()
}

/// The bundle for an account without sessions.
fn make_offline(account: &str) -> (b: FactBundle)
    ensures
        b.deep_view() == offline(account@),
{
    FactBundle {
        ok: false,
        code: "ACCOUNT_NOT_CONNECTED".to_owned(),
        summary: SYNC_OFFLINE.to_owned(),
        confidence: Confidence::High,
        safe_facts: one_text(describe_sessions(account, 0).as_str()),
        suggested_fixes: no_fix(),
        redactions: one_text("Other accounts' session state omitted."),
        followups: one_followup("diagnose_message_ordering", SYNC_OFFLINE_FOLLOWUP),
        min_disclosure: DisclosureLevel::Account,
    }
}

/// Best-effort sync diagnosis given today's server state: how many sessions an account has, and
/// how many of them are in a channel.
pub fn diagnose_sync(
    input: &DiagnoseSyncInput,
    caller: &Caller,
    state: &ServerState,
) -> (b: FactBundle)
    ensures
        b.deep_view() == sync_spec(input.deep_view(), caller.deep_view(), state.deep_view()),
{
    if caller.level != DisclosureLevel::ServerOperator && !caller.is_self(input.account.as_str()) {
        return permission_denied(
            "DIAGNOSE_SYNC_SELF_ONLY",
            "Only the account owner (or a server operator) may diagnose this account's sync state.",
            DisclosureLevel::Account,
        );
    }
    let none = StrSet::new();
    let sessions = match state.did_sessions.get(input.account.as_str()) {
        Some(s) => s,
        None => &none,
    };
    if sessions.is_empty() {
        return make_offline(input.account.as_str());
    }
    let mut facts = no_text();
    add_text(&mut facts, describe_sessions(input.account.as_str(), sessions.len()));
    add_channel_facts(&mut facts, state, &input.channel, sessions);
    add_symptom(&mut facts, &input.symptom);
    add_text(&mut facts, SYNC_LIMITS.to_owned());
    assert(facts.deep_view() =~= seq![
        sessions_fact(input.deep_view().account, sessions@.len()),
    ] + channel_facts(state.deep_view(), input.deep_view().channel, sessions@) + symptom_fact(
        input.deep_view().symptom,
    ) + seq![SYNC_LIMITS@]);
    let nothing: Option<&str> = None;
    assert(nothing.deep_view() == None::<Seq<char>>);
    let mut fixes = no_fix();
    add_fix_when(&mut fixes, true, SYNC_FIX_RECONNECT, nothing);
    add_fix_when(&mut fixes, true, SYNC_FIX_TIME, nothing);
    assert(fixes.deep_view() =~= fix_when(true, SYNC_FIX_RECONNECT@, None) + fix_when(
        true,
        SYNC_FIX_TIME@,
        None,
    ));
    let mut redactions = one_text("Session ids and IPs omitted.");
    add_text(&mut redactions, "Other accounts' session state omitted.".to_owned());
    assert(redactions.deep_view() =~= seq![
        "Session ids and IPs omitted."@,
        "Other accounts' session state omitted."@,
    ]);
    FactBundle {
        ok: true,
        code: "SYNC_STATE_REPORTED".to_owned(),
        summary: SYNC_REPORTED.to_owned(),
        confidence: Confidence::Medium,
        safe_facts: facts,
        suggested_fixes: fixes,
        redactions,
        followups: one_followup("diagnose_message_ordering", SYNC_FOLLOWUP),
        min_disclosure: DisclosureLevel::Account,
    }
}

// ── What the tools keep to themselves ───────────────────────────────

/// Who is refused learns no fact: the tools that look at the state answer anyone below the level
/// that they ask for with a bundle without facts.
pub proof fn law_refusals_hold_no_facts(
    ordering: DiagnoseMessageOrderingInputView,
    sync: DiagnoseSyncInputView,
    c: CallerView,
    st: ServerStateView,
    rows: Seq<Option<(i64, u64)>>,
)
    ensures
        types::level_rank(caller::level_in(c, st, named_channel(ordering.channel)))
            < types::level_rank(DisclosureLevel::ChannelMember) ==> ordering_spec(
            ordering,
            c,
            st,
            rows,
        ).safe_facts.len() == 0,
        c.level != DisclosureLevel::ServerOperator && c.did != Some(sync.account) ==> sync_spec(
            sync,
            c,
            st,
        ).safe_facts.len() == 0,
{
}

/// A refusal looks the same whatever the state holds.
pub proof fn law_refusals_tell_nothing(
    sync: DiagnoseSyncInputView,
    c: CallerView,
    st: ServerStateView,
    other: ServerStateView,
)
    requires
        c.level != DisclosureLevel::ServerOperator,
        c.did != Some(sync.account),
    ensures
        sync_spec(sync, c, st) == sync_spec(sync, c, other),
{
}

} // verus!
