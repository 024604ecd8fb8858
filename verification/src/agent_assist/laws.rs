//! What holds of the assistance interface: who learns what, and what is found.
use super::api;
use super::caller;
use super::llm::mock;
use super::llm::openai;
use super::llm::router;
use super::llm::router::DecodedArgsView;
use super::llm::{ToolDescriptorView, ToolIntentView};
use super::recorder;
use super::recorder::DiagnosticEventView;
use super::tools;
use super::types;
use super::types::{
    CallerView, DiagnoseMessageOrderingInputView, DiagnoseSyncInputView, DisclosureLevel, FactBundleView,
    RoutedClassificationView, ValidateClientConfigInputView,
};
use crate::connection::told;
use crate::containers;
use crate::server::ServerStateView;
use crate::text;
use vstd::prelude::*;

verus! {

broadcast use {vstd::string::group_string_axioms, told::lemma_add_contains};

// ── Who asks ────────────────────────────────────────────────────────

/// Who shows the ID of a session that is signed in is its user, and a server operator where the
/// configuration says so; who shows none, or one that is not signed in, is nobody.
pub proof fn law_callers_are_known_by_their_session(header: Option<Seq<char>>, st: ServerStateView, session: Seq<char>)
    ensures
        ({
            let shown = match header {
                Some(h) => text::strip_prefix_spec(h, "Bearer "@),
                None => None,
            };
            let c = caller::caller_of(header, st);
            let did = containers::map_get(st.session_dids, session);
            &&& shown is None ==> c.did is None && c.session_id is None && c.level == DisclosureLevel::Public
            &&& shown is Some && text::trim_spec(shown->0) == session ==> {
                &&& session.len() > 0 && did is Some ==> c.did == did && c.session_id == Some(session)
                &&& session.len() > 0 && did is Some && st.oper_dids.contains(did->0) ==> c.level == DisclosureLevel::ServerOperator
                &&& session.len() > 0 && did is Some && !st.oper_dids.contains(did->0) ==> c.level == DisclosureLevel::Account
                &&& session.len() == 0 || did is None ==> c.did is None && c.session_id is None && c.level == DisclosureLevel::Public
            }
        }),
{
}

/// In a channel a caller has the level of their session there: operator, member, or what they have
/// anywhere.
pub proof fn law_levels_go_by_the_channel(c: CallerView, st: ServerStateView, channel: Seq<char>)
    ensures
        ({
            let l = caller::level_in(c, st, channel);
            let ch = containers::map_get(st.channels, text::lowercase(channel));
            let op = c.session_id is Some && ch is Some && ch->0.ops.contains(c.session_id->0);
            let member = c.session_id is Some && ch is Some && ch->0.members.contains(c.session_id->0);
            &&& c.level == DisclosureLevel::ServerOperator ==> l == DisclosureLevel::ServerOperator
            &&& c.level != DisclosureLevel::ServerOperator && op ==> l == DisclosureLevel::ChannelOperator
            &&& c.level != DisclosureLevel::ServerOperator && !op && member ==> l == DisclosureLevel::ChannelMember
            &&& c.level != DisclosureLevel::ServerOperator && !op && !member ==> l == c.level
        }),
{
}

/// What is for server operators alone reaches nobody else; everything else reaches the caller as it
/// is.
pub proof fn law_only_operators_get_what_is_for_them(b: FactBundleView, c: CallerView)
    ensures
        b.min_disclosure == DisclosureLevel::ServerOperator && c.level != DisclosureLevel::ServerOperator ==> {
            &&& !api::disclosed(b, c).ok
            &&& api::disclosed(b, c).code == "DISCLOSURE_FILTER_BLOCKED"@
            &&& api::disclosed(b, c).safe_facts.len() == 0
            &&& api::disclosed(b, c).followups.len() == 0
        },
        b.min_disclosure != DisclosureLevel::ServerOperator || c.level == DisclosureLevel::ServerOperator ==> api::disclosed(b, c) == b,
{
}

/// A question of more than 16384 bytes is refused, and no other.
pub proof fn law_long_questions_are_refused(message: Seq<char>)
    ensures
        api::session_refusal(message) is Some <==> vstd::utf8::encode_utf8(message).len() > 16384,
        api::session_refusal(message) matches Some(b) ==> !b.ok && b.code == "MESSAGE_TOO_LARGE"@ && b.safe_facts.len() == 0,
{
}

/// An answer holds what was found, under the ID of the request.
pub proof fn law_answers_hold_what_was_found(id: Seq<char>, b: FactBundleView, k: Option<RoutedClassificationView>)
    ensures
        ({
            let r = types::enveloped(id, b, k);
            &&& r.ok == b.ok
            &&& r.request_id == id
            &&& r.diagnosis.code == b.code
            &&& r.diagnosis.summary == b.summary
            &&& r.diagnosis.confidence == b.confidence
            &&& r.safe_facts == b.safe_facts
            &&& r.suggested_fixes == b.suggested_fixes
            &&& r.redactions == b.redactions
            &&& r.followups == b.followups
            &&& r.classification == k
        }),
{
}

// ── What is shown ───────────────────────────────────────────────────

/// A label is the first 96 characters of a text, with a question mark for each control character.
pub proof fn law_labels_show_the_text(s: Seq<char>, i: int)
    ensures
        tools::label(s).len() == (if s.len() < 96 {
            s.len()
        } else {
            96
        }),
        0 <= i < tools::label(s).len() ==> tools::label(s)[i] == (if text::is_control(s[i]) {
            '?'
        } else {
            s[i]
        }),
{
}

/// A quotation holds the first 280 characters of a text between quotation marks; a control character
/// but for a line feed is a space in it, a quotation mark an apostrophe.
pub proof fn law_quotations_show_the_text(s: Seq<char>, i: int)
    ensures
        tools::quoted(s).len() == 2 + (if s.len() < 280 {
            s.len()
        } else {
            280
        }),
        0 <= i < tools::quoted(s).len() - 2 ==> tools::quoted(s)[i + 1] == (if text::is_control(s[i]) && s[i] != '\n' {
            ' '
        } else if s[i] == '"' {
            '\''
        } else {
            s[i]
        }),
{
    reveal_strlit("\"");
    let inner = tools::cleaned(s, 280).map_values(|c: char| tools::quote_char(c));
    assert(tools::quoted(s) =~= seq!['"'] + inner + seq!['"']);
}

// ── What a client supports ──────────────────────────────────────────

/// A client is fit exactly where it has message tags, server time, batches and echoes, and resumes if
/// it wants to be on several devices.
pub proof fn law_fit_clients_are_told_so(input: ValidateClientConfigInputView)
    ensures
        ({
            let b = tools::config_spec(input);
            let s = input.supports;
            let multi = exists|i: int|
                0 <= i < input.desired_features.len() && tools::is_multi_device(#[trigger] input.desired_features[i]);
            &&& b.ok <==> s.message_tags && s.server_time && s.batch && s.echo_message && (multi ==> s.resume)
            &&& b.ok ==> b.code == "CONFIG_OK"@ && b.suggested_fixes.len() == 0
            &&& !b.ok ==> b.code == "CONFIG_HAS_WARNINGS"@ && b.suggested_fixes.len() > 0
            &&& b.min_disclosure == DisclosureLevel::Public
            &&& b.suggested_fixes.len() == (if s.message_tags {
                0int
            } else {
                1
            }) + (if s.server_time {
                0int
            } else {
                1
            }) + (if s.batch {
                0int
            } else {
                1
            }) + (if s.echo_message {
                0int
            } else {
                1
            }) + (if s.e2ee && !s.message_tags {
                1int
            } else {
                0
            }) + (if multi && !s.resume {
                1int
            } else {
                0
            })
        }),
{
    tools::law_every_warning_has_a_fix(input);
}

/// Whatever a client lacks is named among the facts, and nothing that it has.
pub proof fn law_missing_capabilities_are_named(input: ValidateClientConfigInputView)
    ensures
        ({
            let b = tools::config_spec(input);
            let s = input.supports;
            &&& !s.message_tags ==> b.safe_facts.contains(tools::WARN_TAGS@)
            &&& !s.server_time ==> b.safe_facts.contains(tools::WARN_TIME@)
            &&& !s.batch ==> b.safe_facts.contains(tools::WARN_BATCH@)
            &&& !s.echo_message ==> b.safe_facts.contains(tools::WARN_ECHO@)
            &&& s.e2ee && !s.message_tags ==> b.safe_facts.contains(tools::WARN_E2EE@)
            &&& tools::wants_multi_device(input.desired_features) && !s.resume ==> b.safe_facts.contains(tools::WARN_RESUME@)
        }),
{
    let s = input.supports;
    assert(seq![tools::WARN_TAGS@][0] == tools::WARN_TAGS@);
    assert(seq![tools::WARN_TIME@][0] == tools::WARN_TIME@);
    assert(seq![tools::WARN_BATCH@][0] == tools::WARN_BATCH@);
    assert(seq![tools::WARN_ECHO@][0] == tools::WARN_ECHO@);
    assert(seq![tools::WARN_E2EE@][0] == tools::WARN_E2EE@);
    assert(seq![tools::WARN_RESUME@][0] == tools::WARN_RESUME@);
}

// ── The order of messages ───────────────────────────────────────────

/// The messages that were found are those of which the database has a row, in the order in which they
/// were named.
pub proof fn law_found_messages_have_rows(ids: Seq<Seq<char>>, id: Seq<char>, rows: Seq<Option<(i64, u64)>>)
    ensures
        ids.len() < rows.len() ==> tools::stored(ids.push(id), rows) == (match rows[ids.len() as int] {
            Some(row) => tools::stored(ids, rows).push((id, row.0, row.1)),
            None => tools::stored(ids, rows),
        }),
        ids.len() >= rows.len() ==> tools::stored(ids.push(id), rows) == tools::stored(ids, rows),
        tools::stored(Seq::empty(), rows).len() == 0,
{
    assert(ids.push(id).drop_last() =~= ids);
}

/// Whether messages are in the order in which the server took them in.
pub open spec fn in_order(found: Seq<(Seq<char>, i64, u64)>) -> bool {
    forall|i: int, j: int| 0 <= i < j < found.len() ==> (#[trigger] found[i]).1 <= (#[trigger] found[j]).1
}

proof fn lemma_sorted_stays(found: Seq<(Seq<char>, i64, u64)>)
    requires
        in_order(found),
    ensures
        tools::canonical(found) == found,
    decreases found.len(),
{
    if found.len() > 0 {
        let t = found.drop_last();
        assert forall|i: int, j: int| 0 <= i < j < t.len() implies (#[trigger] t[i]).1 <= (#[trigger] t[j]).1 by {
            assert(found[i] == t[i] && found[j] == t[j]);
        }
        lemma_sorted_stays(t);
        if t.len() > 0 {
            assert(found[t.len() - 1] == t.last());
            assert(found[found.len() - 1] == found.last());
        }
        assert(found =~= t.push(found.last()));
    }
}

/// Messages that are shown in the order in which the server took them in are said to be in order, and
/// messages with different IDs that are not are said not to be.
pub proof fn law_order_is_that_of_the_server(
    input: DiagnoseMessageOrderingInputView,
    rows: Seq<Option<(i64, u64)>>,
)
    requires
        tools::stored(input.message_ids, rows).len() > 0,
    ensures
        ({
            let found = tools::stored(input.message_ids, rows);
            let b = tools::ordering_report(input, rows);
            &&& in_order(found) ==> b.ok && b.code == "ORDER_MATCHES_CANONICAL"@
            &&& !in_order(found) && (forall|i: int, j: int|
                0 <= i < j < found.len() ==> (#[trigger] found[i]).0 != (#[trigger] found[j]).0) ==> !b.ok && b.code
                == "DISPLAY_ORDER_MISMATCH"@
            &&& b.min_disclosure == DisclosureLevel::ChannelMember
        }),
{
    let found = tools::stored(input.message_ids, rows);
    if in_order(found) {
        lemma_sorted_stays(found);
    } else if forall|i: int, j: int| 0 <= i < j < found.len() ==> (#[trigger] found[i]).0 != (#[trigger] found[j]).0 {
        let c = tools::canonical(found);
        tools::law_canonical_is_sorted(found);
        if tools::ids_of(found) == tools::ids_of(c) {
            assert(tools::ids_of(found).len() == found.len());
            assert(tools::ids_of(c).len() == c.len());
            assert forall|k: int| 0 <= k < found.len() implies #[trigger] c[k] == found[k] by {
                assert(tools::ids_of(c)[k] == c[k].0);
                assert(tools::ids_of(found)[k] == found[k].0);
                broadcast use vstd::seq_lib::group_to_multiset_ensures;

                assert(c.contains(c[k]));
                assert(c.to_multiset().count(c[k]) > 0);
                assert(found.contains(c[k]));
                let i = choose|i: int| 0 <= i < found.len() && found[i] == c[k];
                if i < k {
                    assert(found[i].0 != found[k].0);
                } else if k < i {
                    assert(found[k].0 != found[i].0);
                }
            }
            assert(c =~= found);
            assert(in_order(found));
        }
    }
}

/// The order is looked at for members of the channel, and for one to fifty messages.
pub proof fn law_order_is_for_members(input: DiagnoseMessageOrderingInputView, c: CallerView, st: ServerStateView)
    ensures
        ({
            let l = caller::level_in(c, st, tools::named_channel(input.channel));
            let inside = l == DisclosureLevel::ChannelMember || l == DisclosureLevel::ChannelOperator || l
                == DisclosureLevel::ServerOperator;
            let r = tools::ordering_refusal(input, c, st);
            &&& r is None <==> inside && 0 < input.message_ids.len() <= 50
            &&& !inside ==> r is Some && r->0.code == "DIAGNOSE_MESSAGE_ORDERING_REQUIRES_MEMBERSHIP"@
            &&& inside && r is Some ==> r->0.code == "INVALID_INPUT"@
            &&& r matches Some(b) ==> !b.ok && b.safe_facts.len() == 0
        }),
{
}

// ── Sessions of an account ──────────────────────────────────────────

/// Of the sessions of an account those that are in the channel are counted.
pub proof fn law_joined_sessions_are_counted(st: ServerStateView, channel: Seq<char>, sessions: Seq<Seq<char>>, s: Seq<char>)
    ensures
        tools::joined_count(st, channel, sessions.push(s)) == tools::joined_count(st, channel, sessions) + (if containers::map_get(
            st.channels,
            channel,
        ) matches Some(ch) && ch.members.contains(s) {
            1nat
        } else {
            0nat
        }),
        tools::joined_count(st, channel, Seq::empty()) == 0,
{
    assert(sessions.push(s).drop_last() =~= sessions);
}

/// The state of an account is for its owner and for server operators; they are told of its sessions,
/// or that it has none.
pub proof fn law_sync_is_for_the_owner(input: DiagnoseSyncInputView, c: CallerView, st: ServerStateView)
    ensures
        ({
            let b = tools::sync_spec(input, c, st);
            let may = c.level == DisclosureLevel::ServerOperator || c.did == Some(input.account);
            let n = match containers::map_get(st.did_sessions, input.account) {
                Some(s) => s.len(),
                None => 0,
            };
            &&& !may ==> !b.ok && b.code == "DIAGNOSE_SYNC_SELF_ONLY"@ && b.safe_facts.len() == 0
            &&& may && n == 0 ==> !b.ok && b.code == "ACCOUNT_NOT_CONNECTED"@
            &&& may && n > 0 ==> b.ok && b.code == "SYNC_STATE_REPORTED"@
            &&& may ==> b.safe_facts.len() > 0 && b.safe_facts[0] == "Account `"@ + tools::label(input.account) + "` has "@
                + text::decimal_spec(n) + " active session(s)."@
        }),
{
}

// ── Recording ───────────────────────────────────────────────────────

/// Of the events those that were asked for are picked, in their order.
pub proof fn law_events_are_picked_in_order(events: Seq<DiagnosticEventView>, e: DiagnosticEventView, flags: Seq<bool>)
    ensures
        recorder::picked(events.push(e), flags) == (if flags[events.len() as int] {
            recorder::picked(events, flags).push(e)
        } else {
            recorder::picked(events, flags)
        }),
        recorder::picked(Seq::empty(), flags).len() == 0,
{
    assert(events.push(e).drop_last() =~= events);
}

/// A new event comes last; where there is no room, the oldest goes, and nothing else.
pub proof fn law_events_are_kept_while_there_is_room(events: Seq<DiagnosticEventView>, cap: nat, e: DiagnosticEventView)
    requires
        0 < cap,
        events.len() <= cap,
    ensures
        ({
            let r = recorder::recorded(events, cap, e);
            &&& r.len() <= cap
            &&& r.last() == e
            &&& events.len() < cap ==> r == events.push(e)
            &&& events.len() == cap ==> r.len() == cap && forall|i: int| 0 <= i < cap - 1 ==> #[trigger] r[i] == events[i + 1]
        }),
{
}

// ── Questions in words ──────────────────────────────────────────────

/// Whether one of several phrases stands in a text.
pub open spec fn says_one(s: Seq<char>, phrases: Seq<Seq<char>>) -> bool {
    exists|i: int| 0 <= i < phrases.len() && #[trigger] text::contains_spec(s, phrases[i])
}

/// A question goes to the first of the tools that is on offer, that it speaks of, and for which it
/// holds what the tool needs; a question that speaks of none goes to none.
pub proof fn law_questions_go_to_the_tool_they_speak_of(message: Seq<char>, ts: Seq<ToolDescriptorView>)
    ensures
        ({
            let lower = text::lowercase(message);
            let r = mock::classify_spec(message, ts);
            let order = mock::offers(ts, "diagnose_message_ordering"@) && says_one(
                lower,
                seq!["ordering"@, "order"@, "before"@, "out of order"@, "reversed"@],
            ) && mock::msgids(message).len() > 0;
            let sync = mock::offers(ts, "diagnose_sync"@) && says_one(
                lower,
                seq!["reconnect"@, "sync"@, "replay"@, "missed messages"@],
            ) && mock::did_in(message) is Some;
            let config = mock::offers(ts, "validate_client_config"@) && says_one(
                lower,
                seq!["config"@, "capabilities"@, "manifest"@, "client_name"@, "\"supports\""@],
            );
            &&& order ==> r is Some && r->0.tool == "diagnose_message_ordering"@
            &&& !order && sync ==> r is Some && r->0.tool == "diagnose_sync"@
            &&& !order && !sync && config ==> r is Some && r->0.tool == "validate_client_config"@
            &&& r is None <==> !order && !sync && !config
        }),
{
    let lower = text::lowercase(message);
    let a = seq!["ordering"@, "order"@, "before"@, "out of order"@, "reversed"@];
    assert(mock::about_order(lower) == says_one(lower, a)) by {
        assert(a[0] == "ordering"@ && a[1] == "order"@ && a[2] == "before"@ && a[3] == "out of order"@ && a[4] == "reversed"@);
    }
    let b = seq!["reconnect"@, "sync"@, "replay"@, "missed messages"@];
    assert(mock::about_sync(lower) == says_one(lower, b)) by {
        assert(b[0] == "reconnect"@ && b[1] == "sync"@ && b[2] == "replay"@ && b[3] == "missed messages"@);
    }
    let d = seq!["config"@, "capabilities"@, "manifest"@, "client_name"@, "\"supports\""@];
    assert(mock::about_config(lower) == says_one(lower, d)) by {
        assert(d[0] == "config"@ && d[1] == "capabilities"@ && d[2] == "manifest"@ && d[3] == "client_name"@ && d[4] == "\"supports\""@);
    }
}

proof fn lemma_name_len(name: Seq<char>, rest: Seq<char>)
    requires
        forall|i: int| 0 <= i < name.len() ==> mock::in_channel_name(#[trigger] name[i]),
        rest.len() > 0 ==> !mock::in_channel_name(rest[0]),
    ensures
        mock::name_len(name + rest) == name.len(),
    decreases name.len(),
{
    if name.len() == 0 {
        assert(name + rest =~= rest);
    } else {
        assert((name + rest)[0] == name[0]);
        assert((name + rest).skip(1) =~= name.skip(1) + rest);
        lemma_name_len(name.skip(1), rest);
    }
}

/// The channel that a question names is the first word behind a mark, of letters, digits, hyphens and
/// underscores.
pub proof fn law_the_first_channel_is_meant(a: Seq<char>, mark: char, name: Seq<char>, rest: Seq<char>)
    requires
        forall|i: int| 0 <= i < a.len() ==> (#[trigger] a[i]) != '#' && a[i] != '&',
        mark == '#' || mark == '&',
        name.len() > 0,
        forall|i: int|
            0 <= i < name.len() ==> {
                let c = #[trigger] name[i];
                'a' <= c <= 'z' || 'A' <= c <= 'Z' || '0' <= c <= '9' || c == '-' || c == '_'
            },
        rest.len() > 0 ==> !mock::in_channel_name(rest[0]),
    ensures
        mock::channel_in(a + seq![mark] + name + rest) == Some(seq![mark] + name),
    decreases a.len(),
{
    let s = a + seq![mark] + name + rest;
    if a.len() == 0 {
        assert(s[0] == mark);
        assert(s.skip(1) =~= name + rest);
        assert forall|i: int| 0 <= i < name.len() implies mock::in_channel_name(#[trigger] name[i]) by {}
        lemma_name_len(name, rest);
        assert(s.take(1 + name.len() as int) =~= seq![mark] + name);
    } else {
        assert(s[0] == a[0]);
        assert(s.skip(1) =~= a.skip(1) + seq![mark] + name + rest);
        law_the_first_channel_is_meant(a.skip(1), mark, name, rest);
    }
}

/// Of the words of a question those that look like message IDs are taken, the first eight.
pub proof fn law_message_ids_are_taken_from_the_words(s: Seq<char>, w: Seq<char>)
    ensures
        ({
            let words = text::words_spec(mock::id_pieces(s));
            let ids = mock::msgids(s);
            &&& ids.len() <= 8
            &&& ids.contains(w) ==> words.contains(w) && mock::is_msgid(w)
            &&& ids.len() < 8 && words.contains(w) && mock::is_msgid(w) ==> ids.contains(w)
        }),
{
    let words = text::words_spec(mock::id_pieces(s));
    let p = |x: Seq<char>| mock::is_msgid(x);
    let all = words.filter(p);
    told::lemma_filter_contains(words, p, w);
    let ids = mock::msgids(s);
    if ids.contains(w) {
        let i = choose|i: int| 0 <= i < ids.len() && ids[i] == w;
        assert(all[i] == w);
        assert(all.contains(w));
    }
}

/// An answer of a model counts where it names a tool; the one that could be read as it stands goes
/// before the one that was recovered.
pub proof fn law_answers_name_a_tool(strict: Option<ToolIntentView>, recovered: Option<ToolIntentView>)
    ensures
        ({
            let first = match strict {
                Some(i) => Some(i),
                None => recovered,
            };
            let r = openai::intent_spec(strict, recovered);
            &&& r is Some ==> r == first && r->0.tool.len() > 0 && r->0.tool != "null"@
            &&& r is None <==> first is None || first->0.tool.len() == 0 || first->0.tool == "null"@
        }),
{
}

/// A provider is asked below its base address, whether that ends with slashes or not.
pub proof fn law_providers_are_asked_below_their_address(base: Seq<char>, n: nat)
    requires
        base.len() > 0 ==> base.last() != '/',
    ensures
        openai::chat_url_spec(base + Seq::new(n, |i: int| '/')) == base + "/chat/completions"@,
{
    crate::text_laws::law_signs_at_the_end_are_taken_off(base, '/', n);
}

/// A tool that was picked runs on what it was given, and says no more than when it is called by
/// itself; where its arguments cannot be read, nothing runs.
pub proof fn law_picked_tools_run(
    intent: ToolIntentView,
    provider: Seq<char>,
    c: CallerView,
    st: ServerStateView,
    rows: Seq<Option<(i64, u64)>>,
    config: ValidateClientConfigInputView,
    ordering: DiagnoseMessageOrderingInputView,
    sync: DiagnoseSyncInputView,
    reason: Seq<char>,
)
    requires
        mock::offers(router::catalogue(), intent.tool),
    ensures
        ({
            let a = router::executed(intent, provider, DecodedArgsView::Config(config), c, st, rows);
            let b = router::executed(intent, provider, DecodedArgsView::MessageOrder(ordering), c, st, rows);
            let d = router::executed(intent, provider, DecodedArgsView::Sync(sync), c, st, rows);
            let e = router::executed(intent, provider, DecodedArgsView::Failed(reason), c, st, rows);
            &&& a.bundle == tools::config_spec(config)
            &&& b.bundle == tools::ordering_spec(ordering, c, st, rows)
            &&& d.bundle == tools::sync_spec(sync, c, st)
            &&& !e.bundle.ok && e.bundle.code == "BAD_TOOL_ARGS"@
            &&& a.classification.tool == Some(intent.tool) && a.classification.provider == provider && a.classification.confidence
                == intent.confidence && a.classification.summary == intent.summary
            &&& e.classification.tool == Some(intent.tool)
        }),
{
}

/// Three tools are on offer, by their names.
pub proof fn law_three_tools_are_on_offer(tool: Seq<char>)
    ensures
        mock::offers(router::catalogue(), tool) <==> tool == "validate_client_config"@ || tool == "diagnose_message_ordering"@ || tool
            == "diagnose_sync"@,
{
    let c = router::catalogue();
    assert(c[0].name == "validate_client_config"@ && c[1].name == "diagnose_message_ordering"@ && c[2].name == "diagnose_sync"@);
}

} // verus!
