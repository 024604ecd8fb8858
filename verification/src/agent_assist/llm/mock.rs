//! Deterministic, network-free provider.
//!
//! Pattern matching on the user message picks a tool from the advertised list. Only the most obvious
//! patterns are handled; anything else is "intent unclear".
use super::openai;
use super::openai::first_balanced_object;
use super::{
    ClassificationContext, ToolDescriptor, ToolDescriptorView,
    ToolIntent, ToolIntentView,
};
use crate::agent_assist::types::Confidence;
use crate::json;
use crate::json::{json_from_text, to_json_string};
use crate::text;
use crate::text::{
    chars_of, contains_str, find_chars, head, join, str_eq, string_of, to_lowercase, words, Line,
};
use vstd::prelude::*;

verus! {

broadcast use vstd::string::group_string_axioms;

/// Hand-written matcher that turns a few common phrases into tool calls.
#[derive(Debug, Clone, Copy)]
pub struct MockProvider;

// ── Cheap heuristics ────────────────────────────────────────────────

/// Whether a character is an ASCII letter or digit.
pub open spec fn is_alnum(c: char) -> bool {
    'a' <= c <= 'z' || 'A' <= c <= 'Z' || '0' <= c <= '9'
}

/// Whether a character is an ASCII letter or digit.
fn char_is_alnum(c: char) -> (b: bool)
    ensures
        b == is_alnum(c),
{
    (c >= 'a' && c <= 'z') || (c >= 'A' && c <= 'Z') || (c >= '0' && c <= '9')
}

/// Whether a message asks for what no tool gives.
pub open spec fn is_unsafe(message: Seq<char>) -> bool {
    let lower = text::lowercase(message);
    text::contains_spec(lower, "ignore previous instructions"@) || text::contains_spec(
        lower,
        "ignore all previous"@,
    ) || text::contains_spec(lower, "dump all tokens"@) || text::contains_spec(lower, "raw token"@)
        || text::contains_spec(lower, "raw log"@) || text::contains_spec(
        lower,
        "dump the database"@,
    ) || text::contains_spec(lower, "print the system prompt"@) || text::contains_spec(
        lower,
        "reveal your prompt"@,
    )
}

/// Whether a message asks for what no tool gives.
pub fn looks_like_unsafe_request(message: &str) -> (b: bool)
    ensures
        b == is_unsafe(message@),
{
    let lower = to_lowercase(message);
    let l = lower.as_str();
    contains_str(l, "ignore previous instructions") || contains_str(l, "ignore all previous")
        || contains_str(l, "dump all tokens") || contains_str(l, "raw token") || contains_str(
        l,
        "raw log",
    ) || contains_str(l, "dump the database") || contains_str(l, "print the system prompt")
        || contains_str(l, "reveal your prompt")
}

/// The text with blanks for all characters that cannot stand in a message ID.
pub open spec fn id_pieces(s: Seq<char>) -> Seq<char> {
    s.map_values(
        |c: char|
            if is_alnum(c) || c == '_' {
                c
            } else {
                ' '
            },
    )
}

/// Whether a word is a message ID: 26 letters and digits, or `msg_` and digits.
pub open spec fn is_msgid(w: Seq<char>) -> bool {
    (w.len() == 26 && forall|i: int| 0 <= i < w.len() ==> is_alnum(#[trigger] w[i])) || (
    text::has_prefix(w, "msg_"@) && w.len() > 4 && forall|i: int|
        4 <= i < w.len() ==> '0' <= #[trigger] w[i] <= '9')
}

/// How many message IDs are taken from a message.
pub const MAX_IDS: usize = 8;

/// The message IDs in a text, at most [`MAX_IDS`].
pub open spec fn msgids(s: Seq<char>) -> Seq<Seq<char>> {
    let all = text::words_spec(id_pieces(s)).filter(|w: Seq<char>| is_msgid(w));
    if all.len() <= MAX_IDS {
        all
    } else {
        all.take(MAX_IDS as int)
    }
}

/// The text with blanks for all characters that cannot stand in a message ID.
fn cut_ids(s: &str) -> (r: String)
    ensures
        r@ == id_pieces(s@),
{
    let v = chars_of(s);
    let mut out = String::new();
    let mut i: usize = 0;
    assert(out@ =~= id_pieces(v@.take(0)));
    while i < v.len()
        invariant
            i <= v.len(),
            out@ == id_pieces(v@.take(i as int)),
        decreases v.len() - i,
    {
        let c = v[i];
        if char_is_alnum(c) || c == '_' {
            out.push(c);
        } else {
            out.push(' ');
        }
        i = i + 1;
        assert(out@ =~= id_pieces(v@.take(i as int)));
    }
    assert(v@.take(i as int) =~= s@);
    out
}

/// Whether a word is a message ID.
fn check_msgid(w: &str) -> (b: bool)
    ensures
        b == is_msgid(w@),
{
    let v = chars_of(w);
    let mut all_alnum = true;
    let mut tail_digits = true;
    let mut i: usize = 0;
    while i < v.len()
        invariant
            i <= v.len(),
            v@ == w@,
            all_alnum == (forall|j: int| 0 <= j < i ==> is_alnum(#[trigger] w@[j])),
            tail_digits == (forall|j: int| 4 <= j < i ==> '0' <= #[trigger] w@[j] <= '9'),
        decreases v.len() - i,
    {
        let c = v[i];
        assert(c == w@[i as int]);
        if !char_is_alnum(c) {
            all_alnum = false;
        }
        if i >= 4 && !(c >= '0' && c <= '9') {
            tail_digits = false;
        }
        i = i + 1;
    }
    if v.len() == 26 && all_alnum {
        return true;
    }
    text::starts_with_str(w, "msg_") && v.len() > 4 && tail_digits
}

/// Extract ULID-like substrings (26 alphanumeric chars) and msgid-style `msg_<digits>` strings.
/// Bounded to [`MAX_IDS`] results.
pub fn extract_msgid_candidates(s: &str) -> (r: Vec<String>)
    ensures
        r.deep_view() == msgids(s@),
{
    let cut = cut_ids(s);
    let list = words(cut.as_str());
    let ghost all = list.deep_view();
    let ghost p = |w: Seq<char>| is_msgid(w);
    let mut out: Vec<String> = Vec::new();
    let mut i: usize = 0;
    assert(out.deep_view() =~= all.take(0).filter(p)) by {
        reveal(Seq::filter);
    }
    while i < list.len()
        invariant
            i <= all.len(),
            all == list.deep_view(),
            list@.len() == all.len(),
            p == (|w: Seq<char>| is_msgid(w)),
            out.deep_view() == all.take(i as int).filter(p),
        decreases all.len() - i,
    {
        assert(all.take(i + 1).drop_last() =~= all.take(i as int));
        reveal(Seq::filter);
        let ghost before = out.deep_view();
        if check_msgid(list[i].as_str()) {
            out.push(list[i].clone());
            assert(out.deep_view() =~= before.push(all[i as int]));
        }
        i = i + 1;
    }
    assert(all.take(i as int) =~= all);
    let ghost every = out.deep_view();
    assert(every.len() == out@.len());
    if out.len() > MAX_IDS {
        out.truncate(MAX_IDS);
        assert(out.deep_view() =~= every.take(MAX_IDS as int));
    }
    out
}

/// No more than [`MAX_IDS`] message IDs are taken from a message, and each of them is one.
pub proof fn law_msgids_are_bounded(s: Seq<char>)
    ensures
        msgids(s).len() <= MAX_IDS,
        forall|i: int| 0 <= i < msgids(s).len() ==> is_msgid(#[trigger] msgids(s)[i]),
{
    broadcast use vstd::seq_lib::group_filter_ensures;

    let w = text::words_spec(id_pieces(s));
    let p = |x: Seq<char>| is_msgid(x);
    let all = w.filter(p);
    assert forall|i: int| 0 <= i < msgids(s).len() implies is_msgid(#[trigger] msgids(s)[i]) by {
        assert(msgids(s)[i] == all[i]);
        assert(p(all[i]));
    }
}

/// Whether a character can stand in the name of a channel.
pub open spec fn in_channel_name(c: char) -> bool {
    is_alnum(c) || c == '-' || c == '_'
}

/// How many characters at the start of a text can stand in the name of a channel.
pub open spec fn name_len(s: Seq<char>) -> nat
    decreases s.len(),
{
    if s.len() == 0 || !in_channel_name(s[0]) {
        0
    } else {
        1 + name_len(s.skip(1))
    }
}

/// The first channel in a text.
pub open spec fn channel_in(s: Seq<char>) -> Option<Seq<char>>
    decreases s.len(),
{
    if s.len() == 0 {
        None
    } else if (s[0] == '#' || s[0] == '&') && name_len(s.skip(1)) > 0 {
        Some(s.take((1 + name_len(s.skip(1))) as int))
    } else {
        channel_in(s.skip(1))
    }
}

/// How many characters from `from` on can stand in the name of a channel.
fn measure_name(v: &Vec<char>, from: usize) -> (n: usize)
    requires
        from <= v.len(),
    ensures
        n == name_len(v@.skip(from as int)),
        from + n <= v.len(),
{
    let ghost s = v@.skip(from as int);
    let mut i: usize = from;
    while i < v.len() && (char_is_alnum(v[i]) || v[i] == '-' || v[i] == '_')
        invariant
            from <= i <= v.len(),
            s == v@.skip(from as int),
            name_len(s) == (i - from) + name_len(v@.skip(i as int)),
        decreases v.len() - i,
    {
        assert(v@.skip(i as int).skip(1) =~= v@.skip(i + 1));
        i = i + 1;
    }
    assert(name_len(v@.skip(i as int)) == 0);
    i - from
}

/// The first channel in a text.
pub fn extract_channel(s: &str) -> (r: Option<String>)
    ensures
        r.deep_view() == channel_in(s@),
{
    let v = chars_of(s);
    let mut found: Option<String> = None;
    let mut i: usize = 0;
    assert(s@.skip(0) =~= s@);
    while i < v.len()
        invariant_except_break
            i <= v.len(),
            v@ == s@,
            found is None,
            channel_in(s@.skip(i as int)) == channel_in(s@),
        ensures
            found.deep_view() == channel_in(s@),
        decreases v.len() - i,
    {
        assert(s@.skip(i as int).skip(1) =~= s@.skip(i + 1));
        if v[i] == '#' || v[i] == '&' {
            let n = measure_name(&v, i + 1);
            if n > 0 {
                let name = string_of(&v, i, i + 1 + n);
                assert(name@ =~= s@.skip(i as int).take(1 + n));
                found = Some(name);
                break;
            }
        }
        i = i + 1;
    }
    found
}

/// How many characters at the start of a text can stand in a DID.
pub open spec fn did_len(s: Seq<char>) -> nat
    decreases s.len(),
{
    if s.len() == 0 || !(is_alnum(s[0]) || s[0] == ':' || s[0] == '_') {
        0
    } else {
        1 + did_len(s.skip(1))
    }
}

/// Where a text first stands in another.
pub open spec fn first_at(s: Seq<char>, p: Seq<char>, from: nat) -> Option<nat>
    decreases s.len() + 1 - from,
{
    if from > s.len() {
        None
    } else if text::stands_at(s, p, from as int) {
        Some(from)
    } else {
        first_at(s, p, from + 1)
    }
}

proof fn lemma_first_at(s: Seq<char>, p: Seq<char>, from: nat, at: nat)
    requires
        from <= at <= s.len(),
        text::stands_at(s, p, at as int),
        forall|j: int| from <= j < at ==> !text::stands_at(s, p, j),
    ensures
        first_at(s, p, from) == Some(at),
    decreases at - from,
{
    if from < at {
        lemma_first_at(s, p, from + 1, at);
    }
}

proof fn lemma_first_at_none(s: Seq<char>, p: Seq<char>, from: nat)
    requires
        forall|j: int| from <= j ==> !text::stands_at(s, p, j),
    ensures
        first_at(s, p, from) is None,
    decreases s.len() + 1 - from,
{
    if from <= s.len() {
        lemma_first_at_none(s, p, from + 1);
    }
}

/// The DID in a text: what begins with the first `did:`, if it is longer than `did:plc:`.
pub open spec fn did_in(s: Seq<char>) -> Option<Seq<char>> {
    match first_at(s, "did:"@, 0) {
        Some(i) => {
            let n = did_len(s.skip(i as int));
            if n > 8 {
                Some(s.skip(i as int).take(n as int))
            } else {
                None
            }
        },
        None => None,
    }
}

/// The DID in a text.
pub fn extract_did(s: &str) -> (r: Option<String>)
    ensures
        r.deep_view() == did_in(s@),
{
    let v = chars_of(s);
    let needle = chars_of("did:");
    let start = match find_chars(&v, 0, &needle) {
        Some(i) => {
            proof {
                lemma_first_at(s@, "did:"@, 0, i as nat);
            }
            i
        },
        None => {
            proof {
                lemma_first_at_none(s@, "did:"@, 0);
            }
            return None;
        },
    };
    let ghost t = s@.skip(start as int);
    let mut i: usize = start;
    while i < v.len() && (char_is_alnum(v[i]) || v[i] == ':' || v[i] == '_')
        invariant
            start <= i <= v.len(),
            v@ == s@,
            t == s@.skip(start as int),
            did_len(t) == (i - start) + did_len(s@.skip(i as int)),
        decreases v.len() - i,
    {
        assert(s@.skip(i as int).skip(1) =~= s@.skip(i + 1));
        i = i + 1;
    }
    assert(did_len(s@.skip(i as int)) == 0);
    if i - start > 8 {
        let r = string_of(&v, start, i);
        assert(r@ =~= t.take(i - start));
        Some(r)
    } else {
        None
    }
}

// ── Classification ──────────────────────────────────────────────────

/// Whether a tool is advertised.
pub open spec fn offers(ts: Seq<ToolDescriptorView>, name: Seq<char>) -> bool {
    exists|i: int| 0 <= i < ts.len() && (#[trigger] ts[i]).name == name
}

/// Whether a tool is advertised.
fn is_offered(ts: &Vec<ToolDescriptor>, name: &str) -> (b: bool)
    ensures
        b == offers(ts.deep_view(), name@),
{
    let ghost all = ts.deep_view();
    let mut found = false;
    let mut i: usize = 0;
    while i < ts.len() && !found
        invariant
            i <= all.len(),
            all == ts.deep_view(),
            ts@.len() == all.len(),
            found ==> offers(all, name@),
            !found ==> forall|j: int| 0 <= j < i ==> (#[trigger] all[j]).name != name@,
        decreases all.len() - i,
    {
        assert(all[i as int] == ts@[i as int].deep_view());
        if str_eq(ts[i].name.as_str(), name) {
            found = true;
        }
        i = i + 1;
    }
    found
}

/// How much of a message is handed on as the symptom.
pub const MAX_SYMPTOM: usize = 160;

/// The symptom that a message reports.
pub open spec fn symptom(message: Seq<char>) -> Seq<char> {
    text::head_spec(message, MAX_SYMPTOM as nat)
}

/// Texts as a JSON array.
pub open spec fn json_array(v: Seq<Seq<char>>) -> Seq<char> {
    "["@ + text::join_spec(v.map_values(|s: Seq<char>| json::json_string(s)), ","@) + "]"@
}

/// Texts as a JSON array.
fn write_array(v: &Vec<String>) -> (r: String)
    ensures
        r@ == json_array(v.deep_view()),
{
    let ghost all = v.deep_view();
    let ghost f = |s: Seq<char>| json::json_string(s);
    let mut out: Vec<String> = Vec::new();
    let mut i: usize = 0;
    assert(out.deep_view() =~= all.take(0).map_values(f));
    while i < v.len()
        invariant
            i <= all.len(),
            all == v.deep_view(),
            v@.len() == all.len(),
            f == (|s: Seq<char>| json::json_string(s)),
            out.deep_view() == all.take(i as int).map_values(f),
        decreases all.len() - i,
    {
        let ghost before = out.deep_view();
        let j = to_json_string(v[i].as_str());
        out.push(j);
        assert(out.deep_view() =~= before.push(f(all[i as int])));
        i = i + 1;
        assert(out.deep_view() =~= all.take(i as int).map_values(f));
    }
    assert(all.take(i as int) =~= all);
    Line::new("[").add(join(&out, ",").as_str()).add("]").done()
}

/// Whether a message is about the order of messages.
pub open spec fn about_order(lower: Seq<char>) -> bool {
    text::contains_spec(lower, "ordering"@) || text::contains_spec(lower, "order"@)
        || text::contains_spec(lower, "before"@) || text::contains_spec(lower, "out of order"@)
        || text::contains_spec(lower, "reversed"@)
}

/// The call for a message about the order of messages, if it names any.
pub open spec fn order_intent(message: Seq<char>) -> Option<ToolIntentView> {
    let ids = msgids(message);
    if ids.len() > 0 {
        Some(
            ToolIntentView {
                tool: "diagnose_message_ordering"@,
                args: "{\"channel\":"@ + json::json_string(
                    text::or_default(channel_in(message), "#freeq-dev"@),
                ) + ",\"message_ids\":"@ + json_array(ids) + ",\"symptom\":"@ + json::json_string(
                    symptom(message),
                ) + "}"@,
                confidence: Confidence::Medium,
                summary: Some(
                    "Compare canonical server order against the caller's observed order."@,
                ),
            },
        )
    } else {
        None
    }
}

/// Whether a message is about sync.
pub open spec fn about_sync(lower: Seq<char>) -> bool {
    text::contains_spec(lower, "reconnect"@) || text::contains_spec(lower, "sync"@)
        || text::contains_spec(lower, "replay"@) || text::contains_spec(lower, "missed messages"@)
}

/// The member of the arguments that names the channel, if there is one.
pub open spec fn channel_member(channel: Option<Seq<char>>) -> Seq<char> {
    match channel {
        Some(c) => ",\"channel\":"@ + json::json_string(c),
        None => ""@,
    }
}

/// The call for a message about sync, if it names an account.
pub open spec fn sync_intent(message: Seq<char>) -> Option<ToolIntentView> {
    match did_in(message) {
        Some(did) => Some(
            ToolIntentView {
                tool: "diagnose_sync"@,
                args: "{\"account\":"@ + json::json_string(did) + channel_member(
                    channel_in(message),
                ) + ",\"symptom\":"@ + json::json_string(symptom(message)) + "}"@,
                confidence: Confidence::Medium,
                summary: Some("Report active session/channel-join state for the account."@),
            },
        ),
        None => None,
    }
}

/// Whether a message is about a configuration.
pub open spec fn about_config(lower: Seq<char>) -> bool {
    text::contains_spec(lower, "config"@) || text::contains_spec(lower, "capabilities"@)
        || text::contains_spec(lower, "manifest"@) || text::contains_spec(lower, "client_name"@)
        || text::contains_spec(lower, "\"supports\""@)
}

/// The configuration that a message holds, or an empty one.
pub open spec fn config_args(message: Seq<char>) -> Seq<char> {
    let unspecified = "{\"client_name\":\"unspecified\",\"supports\":{}}"@;
    match openai::first_object(message) {
        Some(o) => text::or_default(json::json_of_text(o), unspecified),
        None => unspecified,
    }
}

/// The call for a message about a configuration.
pub open spec fn config_intent(message: Seq<char>) -> ToolIntentView {
    ToolIntentView {
        tool: "validate_client_config"@,
        args: config_args(message),
        confidence: Confidence::Low,
        summary: Some("Run the deterministic client-config validator."@),
    }
}

/// The call that a message asks for. Earlier rules win.
pub open spec fn classify_spec(message: Seq<char>, ts: Seq<ToolDescriptorView>) -> Option<
    ToolIntentView,
> {
    let lower = text::lowercase(message);
    if offers(ts, "diagnose_message_ordering"@) && about_order(lower) && order_intent(
        message,
    ) is Some {
        order_intent(message)
    } else if offers(ts, "diagnose_sync"@) && about_sync(lower) && sync_intent(message) is Some {
        sync_intent(message)
    } else if offers(ts, "validate_client_config"@) && about_config(lower) {
        Some(config_intent(message))
    } else {
        None
    }
}

/// The call for a message about the order of messages.
fn read_order(message: &str) -> (r: Option<ToolIntent>)
    ensures
        r.deep_view() == order_intent(message@),
{
    let ids = extract_msgid_candidates(message);
    assert(ids.deep_view().len() == ids@.len());
    if ids.len() == 0 {
        return None;
    }
    let channel = match extract_channel(message) {
        Some(c) => c,
        None => "#freeq-dev".to_owned(),
    };
    let args = Line::new("{\"channel\":").add(to_json_string(channel.as_str()).as_str()).add(
        ",\"message_ids\":",
    ).add(write_array(&ids).as_str()).add(",\"symptom\":").add(
        to_json_string(head(message, MAX_SYMPTOM).as_str()).as_str(),
    ).add("}").done();
    Some(
        ToolIntent {
            tool: "diagnose_message_ordering".to_owned(),
            args,
            confidence: Confidence::Medium,
            summary: Some(
                "Compare canonical server order against the caller's observed order.".to_owned(),
            ),
        },
    )
}

/// The call for a message about sync.
fn read_sync(message: &str) -> (r: Option<ToolIntent>)
    ensures
        r.deep_view() == sync_intent(message@),
{
    let did = match extract_did(message) {
        Some(d) => d,
        None => {
            return None;
        },
    };
    let channel = match extract_channel(message) {
        Some(c) => Line::new(",\"channel\":").add(to_json_string(c.as_str()).as_str()).done(),
        None => "".to_owned(),
    };
    let args = Line::new("{\"account\":").add(to_json_string(did.as_str()).as_str()).add(
        channel.as_str(),
    ).add(",\"symptom\":").add(
        to_json_string(head(message, MAX_SYMPTOM).as_str()).as_str(),
    ).add("}").done();
    Some(
        ToolIntent {
            tool: "diagnose_sync".to_owned(),
            args,
            confidence: Confidence::Medium,
            summary: Some("Report active session/channel-join state for the account.".to_owned()),
        },
    )
}

/// The call for a message about a configuration.
fn read_config(message: &str) -> (r: ToolIntent)
    ensures
        r.deep_view() == config_intent(message@),
{
    let found = match first_balanced_object(message) {
        Some(o) => json_from_text(o.as_str()),
        None => None,
    };
    let args = match found {
        Some(a) => a,
        None => "{\"client_name\":\"unspecified\",\"supports\":{}}".to_owned(),
    };
    ToolIntent {
        tool: "validate_client_config".to_owned(),
        args,
        confidence: Confidence::Low,
        summary: Some("Run the deterministic client-config validator.".to_owned()),
    }
}

/// The call that a message asks for.
pub fn classify(message: &str, ctx: &ClassificationContext) -> (r: Option<ToolIntent>)
    ensures
        r.deep_view() == classify_spec(message@, ctx.deep_view().available_tools),
{
    let lower = to_lowercase(message);
    let l = lower.as_str();
    let ts = &ctx.available_tools;
    if is_offered(ts, "diagnose_message_ordering") && (contains_str(l, "ordering") || contains_str(
        l,
        "order",
    ) || contains_str(l, "before") || contains_str(l, "out of order") || contains_str(
        l,
        "reversed",
    )) {
        let r = read_order(message);
        if r.is_some() {
            return r;
        }
    }
    if is_offered(ts, "diagnose_sync") && (contains_str(l, "reconnect") || contains_str(l, "sync")
        || contains_str(l, "replay") || contains_str(l, "missed messages")) {
        let r = read_sync(message);
        if r.is_some() {
            return r;
        }
    }
    if is_offered(ts, "validate_client_config") && (contains_str(l, "config") || contains_str(
        l,
        "capabilities",
    ) || contains_str(l, "manifest") || contains_str(l, "client_name") || contains_str(
        l,
        "\"supports\"",
    )) {
        return Some(read_config(message));
    }
    None
}

impl MockProvider {
    /// Short identifier.
    pub fn name(&self) -> (r: &'static str)
        ensures
            r@ == "mock"@,
    {
        "mock"
    }

    /// Parse a free-form agent message into a structured tool call; never one for a message that
    /// asks for what no tool gives.
    pub fn classify_intent(&self, message: &str, ctx: &ClassificationContext) -> (r: Option<
        ToolIntent,
    >)
        ensures
            r.deep_view() == (if is_unsafe(message@) {
                None
            } else {
                classify_spec(message@, ctx.deep_view().available_tools)
            }),
    {
        if looks_like_unsafe_request(message) {
            return None;
        }
        classify(message, ctx)
    }
}

/// Whatever a message says, the tool that is called for it is one of those advertised.
pub proof fn law_classifier_names_offered_tools(message: Seq<char>, ts: Seq<ToolDescriptorView>)
    ensures
        match classify_spec(message, ts) {
            Some(i) => offers(ts, i.tool),
            None => true,
        },
{
}

} // verus!
