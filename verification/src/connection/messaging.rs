//! Message handling: PRIVMSG, NOTICE, TAGMSG, message edits and deletions.
//!
//! What the rest of the server decides — the time, new message IDs, the plugins' verdict, the
//! route of a private message, what the database holds — comes in as arguments.
use super::helpers;
use super::helpers::{p3, push_reply, push_s2s, push_send, push_store};
use super::{opt_str, opt_str_or, Connection, ConnectionView};
use crate::containers;
use crate::containers::{Dup, StrMap, StrSet};
use crate::crypto;
use crate::crypto::{array64, base64url_decode, base64url_encode, ed25519_sign, ed25519_verify};
use crate::db;
use crate::db::{
    canonical_dm_key, CoordinationEventRow, CoordinationEventRowView, MessageRow, MessageRowView,
};
use crate::irc;
use crate::irc::{Message, MessageView};
use crate::server::{ChannelStateView, Effect, EffectView, HistoryMessage, HistoryMessageView,
    PinnedMessage, PinnedMessageView, S2sEvent, S2sEventView, ServerState, ServerStateView, StoreOp,
    StoreOpView, MAX_HISTORY,
};
use crate::text;
use crate::text::{decimal, split_once, starts_with_char, str_eq, to_ascii_lower, to_lowercase, Line};
use crate::time;
use crate::time::format_time_tag;
use vstd::prelude::*;

verus! {

broadcast use vstd::string::group_string_axioms;

/// The mathematical content of a [`Route`].
pub enum RouteView {
    Local(Seq<char>),
    Relayed,
    Unreachable,
}

/// Where a private message goes, as the federation layer has found.
pub enum Route {
    /// To this local session.
    Local(String),
    /// To the peers; the receiving server delivers it.
    Relayed,
    /// Nowhere: there is no federation, and no such nick here.
    Unreachable,
}

impl DeepView for Route {
    type V = RouteView;

    open spec fn deep_view(&self) -> RouteView {
        match self {
            Route::Local(x) => RouteView::Local(x.deep_view()),
            Route::Relayed => RouteView::Relayed,
            Route::Unreachable => RouteView::Unreachable,
        }
    }
}

/// The mathematical content of a [`Verdict`].
pub struct VerdictView {
    pub suppress: bool,
    pub rewrite_text: Option<Seq<char>>,
}

/// What the plugins say of a message.
pub struct Verdict {
    /// It is not delivered.
    pub suppress: bool,
    /// Its text is replaced.
    pub rewrite_text: Option<String>,
}

impl DeepView for Verdict {
    type V = VerdictView;

    open spec fn deep_view(&self) -> VerdictView {
        VerdictView {
            suppress: self.suppress.deep_view(),
            rewrite_text: self.rewrite_text.deep_view(),
        }
    }
}

/// The mathematical content of a [`Lookup`].
pub struct LookupView {
    pub by_target: Option<MessageRowView>,
    pub by_dm: Option<MessageRowView>,
    pub anywhere: Option<MessageRowView>,
}

/// The stored messages with a given msgid: under the target, under the key of the conversation
/// with it, and anywhere.
pub struct Lookup {
    pub by_target: Option<MessageRow>,
    pub by_dm: Option<MessageRow>,
    pub anywhere: Option<MessageRow>,
}

impl DeepView for Lookup {
    type V = LookupView;

    open spec fn deep_view(&self) -> LookupView {
        LookupView {
            by_target: self.by_target.deep_view(),
            by_dm: self.by_dm.deep_view(),
            anywhere: self.anywhere.deep_view(),
        }
    }
}

// ── Signatures ──────────────────────────────────────────────────────

/// The text that the signature of a message covers.
pub open spec fn canonical_form(
    did: Seq<char>,
    target: Seq<char>,
    body: Seq<char>,
    ts: u64,
) -> Seq<char> {
    did + "\0"@ + target + "\0"@ + body + "\0"@ + text::decimal_spec(ts as nat)
}

/// Whether a client's signature of a text is valid under the key that the session registered.
pub open spec fn client_sig_valid(
    st: ServerStateView,
    session: Seq<char>,
    signed: Seq<char>,
    sig: Seq<char>,
) -> bool {
    match (containers::map_get(st.session_msg_keys, session), crypto::base64url_decoded(sig)) {
        (Some(key), Some(bytes)) => bytes.len() == 64 && crypto::ed25519_valid(
            key,
            vstd::utf8::encode_utf8(signed),
            bytes,
        ),
        _ => false,
    }
}

/// The signature of a message: the client's own where it is valid, else the server's on behalf of
/// an authenticated user; none for guests.
pub open spec fn signature(
    st: ServerStateView,
    c: ConnectionView,
    target: Seq<char>,
    body: Seq<char>,
    ts: u64,
    client_sig: Option<Seq<char>>,
) -> Option<Seq<char>> {
    match c.authenticated_did {
        None => None,
        Some(did) => {
            let signed = canonical_form(did, target, body, ts);
            Some(
                chosen_signature(
                    client_sig,
                    client_sig matches Some(sig) && client_sig_valid(st, c.id, signed, sig),
                    crypto::base64url_encoded(
                        crypto::ed25519_signature(
                            st.signing_key,
                            vstd::utf8::encode_utf8(signed),
                        ),
                    ),
                ),
            )
        },
    }
}

/// The client's signature where there is a valid one, else the server's.
pub open spec fn chosen_signature(
    client_sig: Option<Seq<char>>,
    valid: bool,
    server_sig: Seq<char>,
) -> Seq<char> {
    if client_sig is Some && valid {
        client_sig->0
    } else {
        server_sig
    }
}

/// The client's signature where there is a valid one, else the server's.
pub fn choose_signature(client_sig: Option<&str>, valid: bool, server_sig: String) -> (r: String)
    ensures
        r@ == chosen_signature(client_sig.deep_view(), valid, server_sig@),
{
    match client_sig {
        Some(sig) => if valid {
            sig.to_owned()
        } else {
            server_sig
        },
        None => server_sig,
    }
}

/// Whether a client's signature of a text is valid under the key that the session registered.
fn check_client_sig(state: &ServerState, session: &str, signed: &str, sig: &str) -> (b: bool)
    ensures
        b == client_sig_valid(state.deep_view(), session@, signed@, sig@),
{
    if let Some(key) = state.session_msg_keys.get(session) {
        assert(key.deep_view() =~= key@);
        if let Some(sig_bytes) = base64url_decode(sig) {
            assert(sig_bytes.deep_view() =~= sig_bytes@);
            if let Some(sig_array) = array64(&sig_bytes) {
                return ed25519_verify(key, signed.as_bytes(), &sig_array);
            }
        }
    }
    false
}

/// Verify a client-provided signature, or server-sign as fallback.
///
/// If the client included `+freeq.at/sig` AND has a registered session key,
/// verify it. If valid, return the client's signature (true non-repudiation).
/// If the client didn't sign but is DID-authenticated, server-sign as fallback.
/// Returns None for guests.
///
/// Canonical form: `{sender_did}\0{target}\0{text}\0{timestamp}`
pub fn resolve_signature(
    conn: &Connection,
    target: &str,
    body: &str,
    timestamp: u64,
    client_sig: Option<&str>,
    state: &ServerState,
) -> (r: Option<String>)
    ensures
        r.deep_view() == signature(
            state.deep_view(),
            conn.deep_view(),
            target@,
            body@,
            timestamp,
            client_sig.deep_view(),
        ),
{
    let did = match &conn.authenticated_did {
        Some(d) => d,
        None => {
            return None;
        },
    };
    let canonical = Line::new(did.as_str()).add("\0").add(target).add("\0").add(body).add("\0").add(
        decimal(timestamp as u128).as_str(),
    ).done();
    let valid = match client_sig {
        Some(sig) => check_client_sig(state, conn.id.as_str(), canonical.as_str(), sig),
        None => false,
    };
    assert(state.signing_key.deep_view() =~= state.signing_key@);
    let signed = ed25519_sign(&state.signing_key, canonical.as_str().as_bytes());
    Some(choose_signature(client_sig, valid, base64url_encode(&signed)))
}

// ── Delivery ────────────────────────────────────────────────────────

/// A message in the three forms that clients understand.
pub struct LinesView {
    pub plain: Seq<char>,
    pub tagged: Seq<char>,
    pub timed: Seq<char>,
}

/// A message in the three forms that clients understand.
pub struct Lines {
    /// Without tags.
    pub plain: String,
    /// With tags.
    pub tagged: String,
    /// With tags, the server time among them.
    pub timed: String,
}

impl DeepView for Lines {
    type V = LinesView;

    open spec fn deep_view(&self) -> LinesView {
        LinesView { plain: self.plain@, tagged: self.tagged@, timed: self.timed@ }
    }
}

/// A tagged message line.
pub open spec fn tagged_line(
    tags: Seq<(Seq<char>, Seq<char>)>,
    c: ConnectionView,
    command: Seq<char>,
    params: Seq<Seq<char>>,
) -> Seq<char> {
    irc::wire(MessageView { tags, prefix: Some(c.hostmask()), command, params })
}

/// The three forms of a message with a text.
pub open spec fn text_lines(
    tags: Seq<(Seq<char>, Seq<char>)>,
    c: ConnectionView,
    command: Seq<char>,
    target: Seq<char>,
    body: Seq<char>,
    ts: u64,
) -> LinesView {
    LinesView {
        plain: ":"@ + c.hostmask() + " "@ + command + " "@ + target + " :"@ + body + "\r\n"@,
        tagged: tagged_line(tags, c, command, seq![target, body]),
        timed: tagged_line(
            containers::map_put(tags, "time"@, time::time_tag(ts)),
            c,
            command,
            seq![target, body],
        ),
    }
}

/// The form of a message for one session.
pub open spec fn line_for(st: ServerStateView, session: Seq<char>, l: LinesView) -> Seq<char> {
    if !st.cap_message_tags.contains(session) {
        l.plain
    } else if st.cap_server_time.contains(session) {
        l.timed
    } else {
        l.tagged
    }
}

/// A message for one session.
pub open spec fn deliver_one(st: ServerStateView, session: Seq<char>, l: LinesView) -> EffectView {
    helpers::send_fx(session, line_for(st, session, l))
}

/// A message for each of the sessions, but for the sender's own unless it wants its messages
/// echoed.
pub open spec fn deliver_fx(
    st: ServerStateView,
    sessions: Seq<Seq<char>>,
    sender: Seq<char>,
    l: LinesView,
) -> Seq<EffectView>
    decreases sessions.len(),
{
    if sessions.len() == 0 {
        Seq::empty()
    } else {
        let rest = deliver_fx(st, sessions.drop_last(), sender, l);
        let s = sessions.last();
        if s == sender && !st.cap_echo_message.contains(s) {
            rest
        } else {
            rest.push(deliver_one(st, s, l))
        }
    }
}

/// A message for each of the sessions.
pub open spec fn deliver_all(
    st: ServerStateView,
    sessions: Seq<Seq<char>>,
    l: LinesView,
) -> Seq<EffectView> {
    sessions.map_values(|s: Seq<char>| deliver_one(st, s, l))
}

/// The sender's own copy, if it wants its messages echoed.
pub open spec fn echo_fx(
    st: ServerStateView,
    session: Seq<char>,
    l: LinesView,
) -> Seq<EffectView> {
    if st.cap_echo_message.contains(session) {
        seq![deliver_one(st, session, l)]
    } else {
        Seq::empty()
    }
}

/// All sessions of the user behind a session: those of its DID, or itself for a guest.
pub open spec fn user_sessions(
    st: ServerStateView,
    did: Option<Seq<char>>,
    session: Seq<char>,
) -> Seq<Seq<char>> {
    match did {
        Some(d) => match containers::map_get(st.did_sessions, d) {
            Some(s) => s,
            None => seq![session],
        },
        None => seq![session],
    }
}

/// The tags of a new message: a fresh message ID and the signature.
pub open spec fn signed_tags(
    tags: Seq<(Seq<char>, Seq<char>)>,
    msgid: Seq<char>,
    sig: Option<Seq<char>>,
) -> Seq<(Seq<char>, Seq<char>)> {
    let t = containers::map_put(tags, "msgid"@, msgid);
    match sig {
        Some(s) => containers::map_put(t, "+freeq.at/sig"@, s),
        None => t,
    }
}

/// Whether a target is a channel.
pub open spec fn is_channel_name(target: Seq<char>) -> bool {
    text::starts_with(target, '#') || text::starts_with(target, '&')
}

/// Whether a target is a channel.
pub fn is_channel(target: &str) -> (b: bool)
    ensures
        b == is_channel_name(target@),
{
    starts_with_char(target, '#') || starts_with_char(target, '&')
}

/// A tagged message line.
fn make_tagged(tags: StrMap<String>, conn: &Connection, command: &str, params: Vec<String>) -> (r:
    String)
    ensures
        r@ == tagged_line(tags@, conn.deep_view(), command@, params.deep_view()),
{
    let m = Message {
        tags,
        prefix: Some(conn.hostmask()),
        command: command.to_owned(),
        params,
    };
    m.to_wire()
}

/// A list of one string.
fn one(a: &str) -> (r: Vec<String>)
    ensures
        r.deep_view() == seq![a@],
{
    let mut v: Vec<String> = Vec::new();
    v.push(a.to_owned());
    assert(v.deep_view() =~= seq![a@]);
    v
}

/// A list of two strings.
fn two(a: &str, b: &str) -> (r: Vec<String>)
    ensures
        r.deep_view() == seq![a@, b@],
{
    let mut v: Vec<String> = Vec::new();
    v.push(a.to_owned());
    v.push(b.to_owned());
    assert(v.deep_view() =~= seq![a@, b@]);
    v
}

/// The three forms of a message with a text.
fn make_lines(
    tags: &StrMap<String>,
    conn: &Connection,
    command: &str,
    target: &str,
    body: &str,
    ts: u64,
) -> (r: Lines)
    ensures
        r.deep_view() == text_lines(tags@, conn.deep_view(), command@, target@, body@, ts),
{
    let plain = Line::new(":").add(conn.hostmask().as_str()).add(" ").add(command).add(" ").add(
        target,
    ).add(" :").add(body).add("\r\n").done();
    let tagged = make_tagged(tags.dup(), conn, command, two(target, body));
    let mut with_time = tags.dup();
    with_time.insert("time".to_owned(), format_time_tag(ts));
    let timed = make_tagged(with_time, conn, command, two(target, body));
    Lines { plain, tagged, timed }
}

/// Delivers a message to one session in the form its client understands.
fn push_line(fx: &mut Vec<Effect>, state: &ServerState, session: &str, l: &Lines)
    ensures
        final(fx).deep_view() == old(fx).deep_view().push(
            deliver_one(state.deep_view(), session@, l.deep_view()),
        ),
{
    let line = if !state.cap_message_tags.contains(session) {
        &l.plain
    } else if state.cap_server_time.contains(session) {
        &l.timed
    } else {
        &l.tagged
    };
    push_send(fx, session, line.clone());
}

/// Delivers a message to the sessions, but for the sender's own unless it wants an echo.
fn push_deliver(
    fx: &mut Vec<Effect>,
    state: &ServerState,
    sessions: &StrSet,
    sender: &str,
    l: &Lines,
)
    ensures
        final(fx).deep_view() == old(fx).deep_view() + deliver_fx(
            state.deep_view(),
            sessions@,
            sender@,
            l.deep_view(),
        ),
{
    let ghost before = fx.deep_view();
    let ghost st = state.deep_view();
    let ghost all = sessions@;
    let ghost lv = l.deep_view();
    let mut i: usize = 0;
    assert(before + deliver_fx(st, all.take(0), sender@, lv) =~= before);
    while i < sessions.len()
        invariant
            i <= all.len(),
            all == sessions@,
            st == state.deep_view(),
            lv == l.deep_view(),
            fx.deep_view() == before + deliver_fx(st, all.take(i as int), sender@, lv),
        decreases all.len() - i,
    {
        assert(all.take(i + 1).drop_last() =~= all.take(i as int));
        let s = sessions.at(i);
        if !str_eq(s.as_str(), sender) || state.cap_echo_message.contains(s.as_str()) {
            push_line(fx, state, s.as_str(), l);
        }
        i = i + 1;
        assert(fx.deep_view() =~= before + deliver_fx(st, all.take(i as int), sender@, lv));
    }
    assert(all.take(i as int) =~= all);
}

/// Delivers a message to all of the sessions.
fn push_deliver_all(fx: &mut Vec<Effect>, state: &ServerState, sessions: &StrSet, l: &Lines)
    ensures
        final(fx).deep_view() == old(fx).deep_view() + deliver_all(
            state.deep_view(),
            sessions@,
            l.deep_view(),
        ),
{
    let ghost before = fx.deep_view();
    let ghost st = state.deep_view();
    let ghost all = sessions@;
    let ghost lv = l.deep_view();
    let mut i: usize = 0;
    assert(before + deliver_all(st, all.take(0), lv) =~= before);
    while i < sessions.len()
        invariant
            i <= all.len(),
            all == sessions@,
            st == state.deep_view(),
            lv == l.deep_view(),
            fx.deep_view() == before + deliver_all(st, all.take(i as int), lv),
        decreases all.len() - i,
    {
        push_line(fx, state, sessions.at(i).as_str(), l);
        i = i + 1;
        assert(fx.deep_view() =~= before + deliver_all(st, all.take(i as int), lv));
    }
    assert(all.take(i as int) =~= all);
}

/// Delivers the sender's own copy, if it wants one.
fn push_echo(fx: &mut Vec<Effect>, state: &ServerState, session: &str, l: &Lines)
    ensures
        final(fx).deep_view() == old(fx).deep_view() + echo_fx(
            state.deep_view(),
            session@,
            l.deep_view(),
        ),
{
    let ghost before = fx.deep_view();
    if state.cap_echo_message.contains(session) {
        push_line(fx, state, session, l);
    }
    assert(fx.deep_view() =~= before + echo_fx(state.deep_view(), session@, l.deep_view()));
}

/// All sessions of the user behind a session.
fn sessions_of_user(state: &ServerState, did: Option<&str>, session: &str) -> (r: StrSet)
    ensures
        r@ == user_sessions(state.deep_view(), did.deep_view(), session@),
{
    if let Some(d) = did {
        if let Some(s) = state.did_sessions.get(d) {
            return s.dup();
        }
    }
    let mut one = StrSet::new();
    one.insert(session.to_owned());
    assert(one@ =~= seq![session@]);
    one
}

/// The tags of a new message.
fn make_signed_tags(tags: &StrMap<String>, msgid: &str, sig: &Option<String>) -> (r: StrMap<String>)
    ensures
        r@ == signed_tags(tags@, msgid@, sig.deep_view()),
{
    let mut t = tags.dup();
    t.insert("msgid".to_owned(), msgid.to_owned());
    if let Some(s) = sig {
        t.insert("+freeq.at/sig".to_owned(), s.clone());
    }
    t
}

/// The value of a tag.
fn tag<'a>(tags: &'a StrMap<String>, key: &str) -> (r: Option<&'a str>)
    ensures
        r.deep_view() == containers::map_get(tags@, key@),
{
    match tags.get(key) {
        Some(s) => Some(s.as_str()),
        None => None,
    }
}

// ── PRIVMSG and NOTICE ──────────────────────────────────────────────

/// How many messages a session may send within [`FLOOD_WINDOW_MS`].
pub const FLOOD_MAX: usize = 5;

/// The window of the flood protection, in milliseconds.
pub const FLOOD_WINDOW_MS: u64 = 2000;

/// Whether a time lies within the window; a time that is still to come does.
pub open spec fn in_window(t: u64, now_ms: u64) -> bool {
    now_ms < t + FLOOD_WINDOW_MS
}

/// The times that lie within the window.
pub open spec fn recent(times: Seq<u64>, now_ms: u64) -> Seq<u64> {
    times.filter(|t: u64| in_window(t, now_ms))
}

/// The latest sending times of a session.
pub open spec fn sent_times(st: ServerStateView, session: Seq<char>) -> Seq<u64> {
    match containers::map_get(st.msg_timestamps, session) {
        Some(t) => t,
        None => Seq::empty(),
    }
}

/// Whether a session sends too fast.
pub open spec fn floods(st: ServerStateView, session: Seq<char>, now_ms: u64) -> bool {
    recent(sent_times(st, session), now_ms).len() >= FLOOD_MAX
}

/// The state with the session's sending times brought up to date; a message that is let through
/// is counted.
pub open spec fn counted(
    st: ServerStateView,
    session: Seq<char>,
    now_ms: u64,
) -> ServerStateView {
    let times = recent(sent_times(st, session), now_ms);
    ServerStateView {
        msg_timestamps: containers::map_put(
            st.msg_timestamps,
            session,
            if floods(st, session, now_ms) {
                times
            } else {
                times.push(now_ms)
            },
        ),
        ..st
    }
}

/// Text for an unencrypted message to a channel with +E.
pub const NEEDS_ENCRYPTION: &'static str =
    "Cannot send to channel (+E) — messages must be encrypted";

/// Why a message to a channel is refused, if it is: +n keeps outsiders out, +m everyone without
/// status, and +E messages that are not encrypted.
pub open spec fn channel_refusal(
    st: ServerStateView,
    c: ConnectionView,
    target: Seq<char>,
    encrypted: bool,
) -> Option<Seq<char>> {
    match st.channel(target) {
        None => None,
        Some(ch) => if ch.no_ext_msg && !ch.members.contains(c.id) {
            Some("Cannot send to channel (+n)"@)
        } else if ch.moderated && !ch.ops.contains(c.id) && !ch.halfops.contains(c.id)
            && !ch.voiced.contains(c.id) {
            Some("Cannot send to channel (+m)"@)
        } else if ch.encrypted_only && !encrypted {
            Some(NEEDS_ENCRYPTION@)
        } else {
            None
        },
    }
}

/// A refusal is told unless the message is a NOTICE, which never brings an error reply.
pub open spec fn refusal_fx(
    st: ServerStateView,
    c: ConnectionView,
    target: Seq<char>,
    reason: Seq<char>,
    is_notice: bool,
) -> Seq<EffectView> {
    if is_notice {
        Seq::empty()
    } else {
        seq![
            helpers::reply_fx(
                c.id,
                st.server_name,
                irc::ERR_CANNOTSENDTOCHAN@,
                seq![c.nick_or_star(), target, reason],
            ),
        ]
    }
}

/// The newest messages of a history, as many as are kept.
pub open spec fn capped(h: Seq<HistoryMessageView>) -> Seq<HistoryMessageView> {
    if h.len() > MAX_HISTORY {
        h.skip(h.len() - MAX_HISTORY)
    } else {
        h
    }
}

/// The state with a message in the history of its channel.
pub open spec fn remembered(
    st: ServerStateView,
    target: Seq<char>,
    h: HistoryMessageView,
) -> ServerStateView {
    match st.channel(target) {
        Some(ch) => st.with_channel(
            target,
            ChannelStateView { history: capped(ch.history.push(h)), ..ch },
        ),
        None => st,
    }
}

/// What is stored of a channel message.
pub open spec fn stored_fx(
    st: ServerStateView,
    c: ConnectionView,
    target: Seq<char>,
    body: Seq<char>,
    tags: Seq<(Seq<char>, Seq<char>)>,
    now: u64,
    msgid: Seq<char>,
) -> Seq<EffectView> {
    seq![
        EffectView::Store(
            StoreOpView::InsertMessage {
                channel: target,
                sender: c.hostmask(),
                text: body,
                timestamp: now,
                tags,
                msgid: Some(msgid),
                sender_did: c.authenticated_did,
            },
        ),
    ] + (if st.max_messages_per_channel > 0 {
        seq![
            EffectView::Store(
                StoreOpView::PruneMessages { channel: target, keep: st.max_messages_per_channel },
            ),
        ]
    } else {
        Seq::empty()
    })
}

/// A channel message that nothing refuses: it is signed, remembered, stored, delivered to the
/// members, and passed on to the peers. A NOTICE is only signed and delivered.
pub open spec fn channel_message(
    st: ServerStateView,
    c: ConnectionView,
    command: Seq<char>,
    target: Seq<char>,
    body: Seq<char>,
    tags: Seq<(Seq<char>, Seq<char>)>,
    now: u64,
    msgid: Seq<char>,
) -> (ServerStateView, Seq<EffectView>) {
    let sig = signature(st, c, target, body, now, containers::map_get(tags, "+freeq.at/sig"@));
    let full = signed_tags(tags, msgid, sig);
    let lines = text_lines(full, c, command, target, body, now);
    if command == "PRIVMSG"@ {
        let st2 = remembered(
            st,
            target,
            HistoryMessageView {
                from: c.hostmask(),
                text: body,
                timestamp: now,
                tags: full,
                msgid: Some(msgid),
            },
        );
        (
            st2,
            stored_fx(st, c, target, body, tags, now, msgid) + deliver_fx(
                st2,
                st2.members(target),
                c.id,
                lines,
            ) + seq![
                EffectView::S2s(
                    S2sEventView::Privmsg {
                        from: c.nick_or_star(),
                        target,
                        text: body,
                        msgid: Some(msgid),
                        sig: containers::map_get(full, "+freeq.at/sig"@),
                    },
                ),
            ],
        )
    } else {
        (st, deliver_fx(st, st.members(target), c.id, lines))
    }
}

/// A reply that tells what went wrong: there is none to a NOTICE.
pub open spec fn unless_notice(is_notice: bool, fx: Seq<EffectView>) -> Seq<EffectView> {
    if is_notice {
        Seq::empty()
    } else {
        fx
    }
}

/// A private message on its route. Of the sender's sessions the sending one gets an echo if it
/// wants one, the others a copy.
pub open spec fn private_fx(
    st: ServerStateView,
    c: ConnectionView,
    target: Seq<char>,
    lines: LinesView,
    route: RouteView,
    is_notice: bool,
) -> Seq<EffectView> {
    match route {
        RouteView::Local(session) => (match containers::map_get(st.session_away, session) {
            Some(away) => seq![
                helpers::reply_fx(
                    c.id,
                    st.server_name,
                    irc::RPL_AWAY@,
                    seq![c.nick_or_star(), target, away],
                ),
            ],
            None => Seq::empty(),
        }) + deliver_all(st, user_sessions(st, st.did_of(session), session), lines)
            + deliver_fx(st, user_sessions(st, c.authenticated_did, c.id), c.id, lines),
        RouteView::Relayed => echo_fx(st, c.id, lines),
        RouteView::Unreachable => unless_notice(
            is_notice,
            seq![
                helpers::reply_fx(
                    c.id,
                    st.server_name,
                    irc::ERR_NOSUCHNICK@,
                    seq![c.nick_or_star(), target, "No such nick/channel"@],
                ),
            ],
        ),
    }
}

/// The key of the conversation with a nick: there is one if both sides have a DID.
pub open spec fn conversation_key(
    st: ServerStateView,
    c: ConnectionView,
    target: Seq<char>,
) -> Option<Seq<char>> {
    match (c.authenticated_did, containers::map_get(st.nick_owners, text::lowercase(target))) {
        (Some(mine), Some(theirs)) => Some(db::dm_key(mine, theirs)),
        _ => None,
    }
}

/// A private message: it is signed, delivered on its route, and kept if both sides have a DID.
pub open spec fn private_message(
    st: ServerStateView,
    c: ConnectionView,
    command: Seq<char>,
    target: Seq<char>,
    body: Seq<char>,
    tags: Seq<(Seq<char>, Seq<char>)>,
    now: u64,
    msgid: Seq<char>,
    route: RouteView,
) -> Seq<EffectView> {
    let sig = signature(st, c, target, body, now, containers::map_get(tags, "+freeq.at/sig"@));
    let full = signed_tags(tags, msgid, sig);
    let is_notice = command == "NOTICE"@;
    private_fx(st, c, target, text_lines(full, c, command, target, body, now), route, is_notice) + (
    match conversation_key(st, c, target) {
        Some(key) => seq![
            EffectView::Store(
                StoreOpView::InsertMessage {
                    channel: key,
                    sender: c.hostmask(),
                    text: body,
                    timestamp: now,
                    tags: full,
                    msgid: Some(msgid),
                    sender_did: c.authenticated_did,
                },
            ),
        ],
        None => Seq::empty(),
    })
}

/// What PRIVMSG and NOTICE do, edits apart.
pub open spec fn message_spec(
    st: ServerStateView,
    c: ConnectionView,
    command: Seq<char>,
    target: Seq<char>,
    body: Seq<char>,
    tags: Seq<(Seq<char>, Seq<char>)>,
    now: u64,
    now_ms: u64,
    msgid: Seq<char>,
    verdict: VerdictView,
    route: RouteView,
) -> (ServerStateView, Seq<EffectView>) {
    let st1 = counted(st, c.id, now_ms);
    let is_notice = command == "NOTICE"@;
    if floods(st, c.id, now_ms) {
        (st1, refusal_fx(st1, c, target, "Flood protection: sending too fast"@, is_notice))
    } else if is_channel_name(target) {
        match channel_refusal(st1, c, target, containers::map_has(tags, "+encrypted"@)) {
            Some(reason) => (st1, refusal_fx(st1, c, target, reason, is_notice)),
            None => if verdict.suppress {
                (st1, Seq::empty())
            } else {
                channel_message(
                    st1,
                    c,
                    command,
                    target,
                    text::or_default(verdict.rewrite_text, body),
                    tags,
                    now,
                    msgid,
                )
            },
        }
    } else {
        (st1, private_message(st1, c, command, target, body, tags, now, msgid, route))
    }
}

/// The times that lie within the window.
fn keep_recent(times: &Vec<u64>, now_ms: u64) -> (r: Vec<u64>)
    ensures
        r@ == recent(times@, now_ms),
{
    let mut out: Vec<u64> = Vec::new();
    let mut i: usize = 0;
    assert(out@ =~= recent(times@.take(0), now_ms)) by {
        reveal(Seq::filter);
    }
    while i < times.len()
        invariant
            i <= times@.len(),
            out@ == recent(times@.take(i as int), now_ms),
        decreases times@.len() - i,
    {
        assert(times@.take(i + 1).drop_last() =~= times@.take(i as int));
        reveal(Seq::filter);
        let t: u64 = times[i];
        if t > now_ms || now_ms - t < FLOOD_WINDOW_MS {
            out.push(t);
        }
        i = i + 1;
    }
    assert(times@.take(i as int) =~= times@);
    out
}

/// Counts a message against the flood protection; tells whether the session sends too fast.
fn count_message(state: &mut ServerState, session: &str, now_ms: u64) -> (too_fast: bool)
    ensures
        final(state).deep_view() == counted(old(state).deep_view(), session@, now_ms),
        too_fast == floods(old(state).deep_view(), session@, now_ms),
{
    let ghost st = state.deep_view();
    let mut times = match state.msg_timestamps.get(session) {
        Some(t) => {
            assert(t.deep_view() =~= t@);
            keep_recent(t, now_ms)
        },
        None => {
            let none: Vec<u64> = Vec::new();
            keep_recent(&none, now_ms)
        },
    };
    assert(times@ == recent(sent_times(st, session@), now_ms));
    let too_fast = times.len() >= FLOOD_MAX;
    if !too_fast {
        times.push(now_ms);
    }
    assert(times.deep_view() =~= times@);
    state.msg_timestamps.insert(session.to_owned(), times);
    too_fast
}

/// Tells a refusal, unless the message is a NOTICE.
fn push_refusal(
    fx: &mut Vec<Effect>,
    state: &ServerState,
    conn: &Connection,
    target: &str,
    reason: &str,
    is_notice: bool,
)
    ensures
        final(fx).deep_view() == old(fx).deep_view() + refusal_fx(
            state.deep_view(),
            conn.deep_view(),
            target@,
            reason@,
            is_notice,
        ),
{
    let ghost before = fx.deep_view();
    if !is_notice {
        push_reply(
            fx,
            conn.id.as_str(),
            state.server_name.as_str(),
            irc::ERR_CANNOTSENDTOCHAN,
            p3(conn.nick_or_star(), target, reason),
        );
    }
    assert(fx.deep_view() =~= before + refusal_fx(
        state.deep_view(),
        conn.deep_view(),
        target@,
        reason@,
        is_notice,
    ));
}

/// Why a message to a channel is refused, if it is.
fn check_channel(state: &ServerState, conn: &Connection, target: &str, encrypted: bool) -> (r:
    Option<&'static str>)
    ensures
        r.deep_view() == channel_refusal(state.deep_view(), conn.deep_view(), target@, encrypted),
{
    let me = conn.id.as_str();
    match state.channels.get(target) {
        None => None,
        Some(ch) => if ch.no_ext_msg && !ch.members.contains(me) {
            Some("Cannot send to channel (+n)")
        } else if ch.moderated && !ch.ops.contains(me) && !ch.halfops.contains(me)
            && !ch.voiced.contains(me) {
            Some("Cannot send to channel (+m)")
        } else if ch.encrypted_only && !encrypted {
            Some(NEEDS_ENCRYPTION)
        } else {
            None
        },
    }
}

/// Appends a message to a history, dropping the oldest ones over the limit.
fn append_history(history: &mut Vec<HistoryMessage>, h: HistoryMessage)
    ensures
        final(history).deep_view() == capped(old(history).deep_view().push(h.deep_view())),
{
    let ghost before = history.deep_view();
    history.push(h);
    let ghost all = history.deep_view();
    assert(all =~= before.push(h.deep_view()));
    assert(all.skip(0) =~= all);
    let ghost mut dropped: int = 0;
    while history.len() > MAX_HISTORY
        invariant
            0 <= dropped <= all.len(),
            history.deep_view() == all.skip(dropped),
            dropped > 0 ==> all.len() - dropped >= MAX_HISTORY,
        decreases history@.len(),
    {
        let ghost cur = history.deep_view();
        let oldest = history.remove(0);
        assert(history.deep_view() =~= cur.skip(1));
        assert(cur.skip(1) =~= all.skip(dropped + 1));
        proof {
            dropped = dropped + 1;
        }
    }
    assert(history@.len() == all.len() - dropped);
}

/// Remembers a message in the history of its channel.
fn remember(state: &mut ServerState, target: &str, h: HistoryMessage)
    ensures
        final(state).deep_view() == remembered(old(state).deep_view(), target@, h.deep_view()),
{
    if let Some(ch) = state.channels.get_mut(target) {
        append_history(&mut ch.history, h);
    }
}

/// Sends a channel message that nothing refuses.
fn send_to_channel(
    conn: &Connection,
    command: &str,
    target: &str,
    body: &str,
    tags: &StrMap<String>,
    now: u64,
    msgid: &str,
    state: &mut ServerState,
    fx: &mut Vec<Effect>,
)
    ensures
        final(state).deep_view() == channel_message(
            old(state).deep_view(),
            conn.deep_view(),
            command@,
            target@,
            body@,
            tags@,
            now,
            msgid@,
        ).0,
        final(fx).deep_view() == old(fx).deep_view() + channel_message(
            old(state).deep_view(),
            conn.deep_view(),
            command@,
            target@,
            body@,
            tags@,
            now,
            msgid@,
        ).1,
{
    broadcast use helpers::lemma_push_after, helpers::lemma_add_after;

    let ghost before = fx.deep_view();
    let sig = resolve_signature(conn, target, body, now, tag(tags, "+freeq.at/sig"), state);
    let full = make_signed_tags(tags, msgid, &sig);
    let lines = make_lines(&full, conn, command, target, body, now);
    if str_eq(command, "PRIVMSG") {
        push_store(
            fx,
            StoreOp::InsertMessage {
                channel: target.to_owned(),
                sender: conn.hostmask(),
                text: body.to_owned(),
                timestamp: now,
                tags: tags.dup(),
                msgid: Some(msgid.to_owned()),
                sender_did: conn.authenticated_did.dup(),
            },
        );
        if state.max_messages_per_channel > 0 {
            push_store(
                fx,
                StoreOp::PruneMessages {
                    channel: target.to_owned(),
                    keep: state.max_messages_per_channel,
                },
            );
        }
        assert(fx.deep_view() =~= before + stored_fx(
            old(state).deep_view(),
            conn.deep_view(),
            target@,
            body@,
            tags@,
            now,
            msgid@,
        ));
        let shared_sig = match full.get("+freeq.at/sig") {
            Some(s) => Some(s.clone()),
            None => None,
        };
        remember(
            state,
            target,
            HistoryMessage {
                from: conn.hostmask(),
                text: body.to_owned(),
                timestamp: now,
                tags: full,
                msgid: Some(msgid.to_owned()),
            },
        );
        push_deliver(fx, state, &state.members(target), conn.id.as_str(), &lines);
        push_s2s(
            fx,
            S2sEvent::Privmsg {
                from: conn.nick_or_star().to_owned(),
                target: target.to_owned(),
                text: body.to_owned(),
                msgid: Some(msgid.to_owned()),
                sig: shared_sig,
            },
        );
    } else {
        push_deliver(fx, state, &state.members(target), conn.id.as_str(), &lines);
    }
}

/// Delivers a private message on its route.
fn push_private(
    fx: &mut Vec<Effect>,
    state: &ServerState,
    conn: &Connection,
    target: &str,
    lines: &Lines,
    route: &Route,
    is_notice: bool,
)
    ensures
        final(fx).deep_view() == old(fx).deep_view() + private_fx(
            state.deep_view(),
            conn.deep_view(),
            target@,
            lines.deep_view(),
            route.deep_view(),
            is_notice,
        ),
{
    broadcast use helpers::lemma_push_after, helpers::lemma_add_after;

    let ghost before = fx.deep_view();
    match route {
        Route::Local(session) => {
            if let Some(away) = state.session_away.get(session.as_str()) {
                push_reply(
                    fx,
                    conn.id.as_str(),
                    state.server_name.as_str(),
                    irc::RPL_AWAY,
                    p3(conn.nick_or_star(), target, away.as_str()),
                );
            }
            let ghost away_fx = match containers::map_get(
                state.deep_view().session_away,
                session@,
            ) {
                Some(away) => seq![
                    helpers::reply_fx(
                        conn.deep_view().id,
                        state.deep_view().server_name,
                        irc::RPL_AWAY@,
                        seq![conn.deep_view().nick_or_star(), target@, away],
                    ),
                ],
                None => Seq::empty(),
            };
            assert(fx.deep_view() =~= before + away_fx);
            let target_did = match state.did_of(session.as_str()) {
                Some(d) => Some(d.as_str()),
                None => None,
            };
            let theirs = sessions_of_user(state, target_did, session.as_str());
            push_deliver_all(fx, state, &theirs, lines);
            let mine = sessions_of_user(
                state,
                opt_str(&conn.authenticated_did),
                conn.id.as_str(),
            );
            push_deliver(fx, state, &mine, conn.id.as_str(), lines);
        },
        Route::Relayed => {
            push_echo(fx, state, conn.id.as_str(), lines);
        },
        Route::Unreachable => {
            if is_notice {
                assert(fx.deep_view() + Seq::<EffectView>::empty() =~= fx.deep_view());
            } else {
                push_reply(
                    fx,
                    conn.id.as_str(),
                    state.server_name.as_str(),
                    irc::ERR_NOSUCHNICK,
                    p3(conn.nick_or_star(), target, "No such nick/channel"),
                );
            }
        },
    }
}

/// The key of the conversation with a nick.
pub fn find_conversation(state: &ServerState, conn: &Connection, target: &str) -> (r: Option<
    String,
>)
    ensures
        r.deep_view() == conversation_key(state.deep_view(), conn.deep_view(), target@),
{
    match &conn.authenticated_did {
        None => None,
        Some(mine) => match state.nick_owners.get(to_lowercase(target).as_str()) {
            None => None,
            Some(theirs) => Some(canonical_dm_key(mine.as_str(), theirs.as_str())),
        },
    }
}

/// Sends a private message.
fn send_private(
    conn: &Connection,
    command: &str,
    target: &str,
    body: &str,
    tags: &StrMap<String>,
    now: u64,
    msgid: &str,
    route: &Route,
    state: &ServerState,
    fx: &mut Vec<Effect>,
)
    ensures
        final(fx).deep_view() == old(fx).deep_view() + private_message(
            state.deep_view(),
            conn.deep_view(),
            command@,
            target@,
            body@,
            tags@,
            now,
            msgid@,
            route.deep_view(),
        ),
{
    broadcast use helpers::lemma_push_after, helpers::lemma_add_after;

    let sig = resolve_signature(conn, target, body, now, tag(tags, "+freeq.at/sig"), state);
    let full = make_signed_tags(tags, msgid, &sig);
    let lines = make_lines(&full, conn, command, target, body, now);
    push_private(fx, state, conn, target, &lines, route, str_eq(command, "NOTICE"));
    if let Some(key) = find_conversation(state, conn, target) {
        push_store(
            fx,
            StoreOp::InsertMessage {
                channel: key,
                sender: conn.hostmask(),
                text: body.to_owned(),
                timestamp: now,
                tags: full,
                msgid: Some(msgid.to_owned()),
                sender_did: conn.authenticated_did.dup(),
            },
        );
    } else {
        assert(fx.deep_view() + Seq::<EffectView>::empty() =~= fx.deep_view());
    }
}

/// Handle PRIVMSG and NOTICE without an edit tag.
pub fn handle_message(
    conn: &Connection,
    command: &str,
    target: &str,
    body: &str,
    tags: &StrMap<String>,
    now: u64,
    now_ms: u64,
    msgid: &str,
    verdict: &Verdict,
    route: &Route,
    state: &mut ServerState,
    fx: &mut Vec<Effect>,
)
    ensures
        final(state).deep_view() == message_spec(
            old(state).deep_view(),
            conn.deep_view(),
            command@,
            target@,
            body@,
            tags@,
            now,
            now_ms,
            msgid@,
            verdict.deep_view(),
            route.deep_view(),
        ).0,
        final(fx).deep_view() == old(fx).deep_view() + message_spec(
            old(state).deep_view(),
            conn.deep_view(),
            command@,
            target@,
            body@,
            tags@,
            now,
            now_ms,
            msgid@,
            verdict.deep_view(),
            route.deep_view(),
        ).1,
{
    let is_notice = str_eq(command, "NOTICE");
    if count_message(state, conn.id.as_str(), now_ms) {
        push_refusal(
            fx,
            state,
            conn,
            target,
            "Flood protection: sending too fast",
            is_notice,
        );
        return;
    }
    if is_channel(target) {
        match check_channel(state, conn, target, tags.contains_key("+encrypted")) {
            Some(reason) => {
                push_refusal(fx, state, conn, target, reason, is_notice);
            },
            None => {
                if verdict.suppress {
                    assert(fx.deep_view() + Seq::<EffectView>::empty() =~= fx.deep_view());
                    return;
                }
                let sent = opt_str_or(&verdict.rewrite_text, body);
                send_to_channel(conn, command, target, sent, tags, now, msgid, state, fx);
            },
        }
    } else {
        send_private(conn, command, target, body, tags, now, msgid, route, state, fx);
    }
}

// ── Message editing ─────────────────────────────────────────────────

/// The nick in a `nick!user@host` sender.
pub open spec fn sender_nick(sender: Seq<char>) -> Seq<char> {
    match text::split_once_spec(sender, '!') {
        Some((n, _)) => n,
        None => sender,
    }
}

/// Whether the user wrote the message: by DID where the message has one, so that nobody can take
/// over a nick and its messages; by nick for a guest's message.
pub open spec fn is_author(row: MessageRowView, c: ConnectionView) -> bool {
    match row.sender_did {
        Some(did) => c.authenticated_did == Some(did),
        None => text::ascii_lower(sender_nick(row.sender)) == text::ascii_lower(c.nick_or_star()),
    }
}

/// The message that an edit is about: the one stored under the target; for a private message else
/// the one of the conversation, else any.
pub open spec fn edited_message(
    st: ServerStateView,
    c: ConnectionView,
    target: Seq<char>,
    found: LookupView,
) -> Option<MessageRowView> {
    if found.by_target is Some || is_channel_name(target) {
        found.by_target
    } else if conversation_key(st, c, target) is Some && found.by_dm is Some {
        found.by_dm
    } else {
        found.anywhere
    }
}

/// Position of the first message with the given ID.
pub open spec fn history_find(h: Seq<HistoryMessageView>, msgid: Seq<char>) -> Option<int>
    decreases h.len(),
{
    if h.len() == 0 {
        None
    } else {
        match history_find(h.drop_last(), msgid) {
            Some(i) => Some(i),
            None => if h.last().msgid == Some(msgid) {
                Some(h.len() - 1)
            } else {
                None
            },
        }
    }
}

/// The history with the text of a message replaced; its ID stays, so that it can be edited again.
pub open spec fn history_edited(
    h: Seq<HistoryMessageView>,
    msgid: Seq<char>,
    body: Seq<char>,
) -> Seq<HistoryMessageView> {
    match history_find(h, msgid) {
        Some(i) => h.update(i, HistoryMessageView { text: body, ..h[i] }),
        None => h,
    }
}

/// The state with a message of a channel's history edited.
pub open spec fn with_edit(
    st: ServerStateView,
    target: Seq<char>,
    msgid: Seq<char>,
    body: Seq<char>,
) -> ServerStateView {
    match st.channel(target) {
        Some(ch) if is_channel_name(target) => st.with_channel(
            target,
            ChannelStateView { history: history_edited(ch.history, msgid, body), ..ch },
        ),
        _ => st,
    }
}

/// Under which name the messages to a target are kept: a channel's under its name, those of a
/// conversation under its key.
pub open spec fn kept_under(st: ServerStateView, c: ConnectionView, target: Seq<char>) -> Seq<char> {
    if is_channel_name(target) {
        target
    } else {
        text::or_default(conversation_key(st, c, target), target)
    }
}

/// An edit of a private message on its route.
pub open spec fn private_edit_fx(
    st: ServerStateView,
    c: ConnectionView,
    target: Seq<char>,
    lines: LinesView,
    route: RouteView,
    is_notice: bool,
) -> Seq<EffectView> {
    match route {
        RouteView::Local(session) => deliver_all(
            st,
            user_sessions(st, st.did_of(session), session),
            lines,
        ) + echo_fx(st, c.id, lines),
        RouteView::Relayed => echo_fx(st, c.id, lines),
        RouteView::Unreachable => unless_notice(
            is_notice,
            seq![
                helpers::reply_fx(
                    c.id,
                    st.server_name,
                    irc::ERR_NOSUCHNICK@,
                    seq![c.nick_or_star(), target, "No such nick"@],
                ),
            ],
        ),
    }
}

/// An edit that is allowed: it is signed, stored next to the original, and delivered.
pub open spec fn edit_made(
    st: ServerStateView,
    c: ConnectionView,
    target: Seq<char>,
    body: Seq<char>,
    original: Seq<char>,
    tags: Seq<(Seq<char>, Seq<char>)>,
    now: u64,
    msgid: Seq<char>,
    route: RouteView,
    is_notice: bool,
) -> (ServerStateView, Seq<EffectView>) {
    let sig = signature(st, c, target, body, now, containers::map_get(tags, "+freeq.at/sig"@));
    let full = signed_tags(tags, msgid, sig);
    let lines = text_lines(full, c, "PRIVMSG"@, target, body, now);
    let st2 = with_edit(st, target, original, body);
    let stored = seq![
        EffectView::Store(
            StoreOpView::InsertEdit {
                channel: kept_under(st, c, target),
                sender: c.hostmask(),
                text: body,
                timestamp: now,
                tags: containers::map_del(tags, "msgid"@),
                msgid,
                replaces: original,
                sender_did: c.authenticated_did,
            },
        ),
    ];
    if is_channel_name(target) {
        (
            st2,
            stored + deliver_fx(st2, st2.members(target), c.id, lines) + seq![
                EffectView::S2s(
                    S2sEventView::Privmsg {
                        from: c.nick_or_star(),
                        target,
                        text: body,
                        msgid: Some(msgid),
                        sig: containers::map_get(full, "+freeq.at/sig"@),
                    },
                ),
            ],
        )
    } else {
        (st2, stored + private_edit_fx(st2, c, target, lines, route, is_notice))
    }
}

/// The reply to an edit that is refused: there is none to a NOTICE.
pub open spec fn edit_refusal(
    st: ServerStateView,
    c: ConnectionView,
    code: Seq<char>,
    reason: Seq<char>,
    is_notice: bool,
) -> Seq<EffectView> {
    unless_notice(
        is_notice,
        seq![helpers::reply_fx(c.id, st.server_name, "FAIL"@, seq!["EDIT"@, code, reason])],
    )
}

/// What a message with the `+draft/edit` tag does: only the author of a message that is there and
/// not deleted may edit it.
pub open spec fn edit_spec(
    st: ServerStateView,
    c: ConnectionView,
    target: Seq<char>,
    body: Seq<char>,
    original: Seq<char>,
    tags: Seq<(Seq<char>, Seq<char>)>,
    now: u64,
    msgid: Seq<char>,
    found: LookupView,
    route: RouteView,
    is_notice: bool,
) -> (ServerStateView, Seq<EffectView>) {
    match edited_message(st, c, target, found) {
        None => (
            st,
            edit_refusal(st, c, "MESSAGE_NOT_FOUND"@, "Original message not found"@, is_notice),
        ),
        Some(row) => if !is_author(row, c) {
            (
                st,
                edit_refusal(st, c, "AUTHOR_MISMATCH"@, "You can only edit your own messages"@, is_notice),
            )
        } else if row.deleted_at is Some {
            (st, Seq::empty())
        } else {
            edit_made(st, c, target, body, original, tags, now, msgid, route, is_notice)
        },
    }
}

/// Whether the user wrote the message.
pub fn check_author(row: &MessageRow, conn: &Connection) -> (b: bool)
    ensures
        b == is_author(row.deep_view(), conn.deep_view()),
{
    match &row.sender_did {
        Some(did) => super::channel::opt_is(&conn.authenticated_did, did.as_str()),
        None => {
            let nick = match split_once(row.sender.as_str(), '!') {
                Some((n, _)) => n,
                None => row.sender.clone(),
            };
            str_eq(
                to_ascii_lower(nick.as_str()).as_str(),
                to_ascii_lower(conn.nick_or_star()).as_str(),
            )
        },
    }
}

/// What `history_find` gives on a prefix stays.
proof fn lemma_history_find_prefix(h: Seq<HistoryMessageView>, msgid: Seq<char>, n: int)
    requires
        0 <= n <= h.len(),
        history_find(h.take(n), msgid) is Some,
    ensures
        history_find(h, msgid) == history_find(h.take(n), msgid),
    decreases h.len() - n,
{
    if n < h.len() {
        assert(h.take(n + 1).drop_last() =~= h.take(n));
        lemma_history_find_prefix(h, msgid, n + 1);
    } else {
        assert(h.take(n) =~= h);
    }
}

/// Replaces the text of a message in a history.
fn edit_history(history: &mut Vec<HistoryMessage>, msgid: &str, body: &str)
    ensures
        final(history).deep_view() == history_edited(old(history).deep_view(), msgid@, body@),
{
    let ghost all = history.deep_view();
    let n: usize = history.len();
    let mut i: usize = 0;
    assert(all.take(0) =~= Seq::<HistoryMessageView>::empty());
    while i < n
        invariant
            i <= n,
            n == all.len(),
            all == history.deep_view(),
            n == history@.len(),
            history_find(all.take(i as int), msgid@) is None,
            all == old(history).deep_view(),
        decreases n - i,
    {
        assert(all.take(i + 1).drop_last() =~= all.take(i as int));
        assert(all[i as int] == history@[i as int].deep_view());
        if super::channel::opt_is(&history[i].msgid, msgid) {
            proof {
                lemma_history_find_prefix(all, msgid@, i + 1);
            }
            let h = &mut history[i];
            h.text = body.to_owned();
            assert(history.deep_view() =~= all.update(
                i as int,
                HistoryMessageView { text: body@, ..all[i as int] },
            ));
            return;
        }
        i = i + 1;
    }
    assert(all.take(i as int) =~= all);
}

/// Under which name the messages to a target are kept.
pub fn find_storage(state: &ServerState, conn: &Connection, target: &str) -> (r: String)
    ensures
        r@ == kept_under(state.deep_view(), conn.deep_view(), target@),
{
    if is_channel(target) {
        target.to_owned()
    } else {
        match find_conversation(state, conn, target) {
            Some(key) => key,
            None => target.to_owned(),
        }
    }
}

/// Makes an edit that is allowed.
fn make_edit(
    conn: &Connection,
    target: &str,
    body: &str,
    original: &str,
    tags: &StrMap<String>,
    now: u64,
    msgid: &str,
    route: &Route,
    is_notice: bool,
    state: &mut ServerState,
    fx: &mut Vec<Effect>,
)
    ensures
        final(state).deep_view() == edit_made(
            old(state).deep_view(),
            conn.deep_view(),
            target@,
            body@,
            original@,
            tags@,
            now,
            msgid@,
            route.deep_view(),
            is_notice,
        ).0,
        final(fx).deep_view() == old(fx).deep_view() + edit_made(
            old(state).deep_view(),
            conn.deep_view(),
            target@,
            body@,
            original@,
            tags@,
            now,
            msgid@,
            route.deep_view(),
            is_notice,
        ).1,
{
    broadcast use helpers::lemma_push_after, helpers::lemma_add_after;

    let ghost before = fx.deep_view();
    assert(before + Seq::<EffectView>::empty() =~= before);
    let sig = resolve_signature(conn, target, body, now, tag(tags, "+freeq.at/sig"), state);
    let full = make_signed_tags(tags, msgid, &sig);
    let lines = make_lines(&full, conn, "PRIVMSG", target, body, now);
    let in_channel = is_channel(target);
    let mut store_tags = tags.dup();
    store_tags.remove("msgid");
    let store_channel = find_storage(state, conn, target);
    push_store(
        fx,
        StoreOp::InsertEdit {
            channel: store_channel,
            sender: conn.hostmask(),
            text: body.to_owned(),
            timestamp: now,
            tags: store_tags,
            msgid: msgid.to_owned(),
            replaces: original.to_owned(),
            sender_did: conn.authenticated_did.dup(),
        },
    );
    if in_channel {
        if let Some(ch) = state.channels.get_mut(target) {
            edit_history(&mut ch.history, original, body);
        }
        push_deliver(fx, state, &state.members(target), conn.id.as_str(), &lines);
        let shared_sig = match full.get("+freeq.at/sig") {
            Some(s) => Some(s.clone()),
            None => None,
        };
        push_s2s(
            fx,
            S2sEvent::Privmsg {
                from: conn.nick_or_star().to_owned(),
                target: target.to_owned(),
                text: body.to_owned(),
                msgid: Some(msgid.to_owned()),
                sig: shared_sig,
            },
        );
    } else {
        push_private_edit(fx, state, conn, target, &lines, route, is_notice);
    }
}

/// Delivers an edit of a private message on its route.
fn push_private_edit(
    fx: &mut Vec<Effect>,
    state: &ServerState,
    conn: &Connection,
    target: &str,
    lines: &Lines,
    route: &Route,
    is_notice: bool,
)
    ensures
        final(fx).deep_view() == old(fx).deep_view() + private_edit_fx(
            state.deep_view(),
            conn.deep_view(),
            target@,
            lines.deep_view(),
            route.deep_view(),
            is_notice,
        ),
{
    broadcast use helpers::lemma_push_after, helpers::lemma_add_after;

    match route {
        Route::Local(session) => {
            let target_did = match state.did_of(session.as_str()) {
                Some(d) => Some(d.as_str()),
                None => None,
            };
            let theirs = sessions_of_user(state, target_did, session.as_str());
            push_deliver_all(fx, state, &theirs, lines);
            push_echo(fx, state, conn.id.as_str(), lines);
        },
        Route::Relayed => {
            push_echo(fx, state, conn.id.as_str(), lines);
        },
        Route::Unreachable => {
            if is_notice {
                assert(fx.deep_view() + Seq::<EffectView>::empty() =~= fx.deep_view());
            } else {
                push_reply(
                    fx,
                    conn.id.as_str(),
                    state.server_name.as_str(),
                    irc::ERR_NOSUCHNICK,
                    p3(conn.nick_or_star(), target, "No such nick"),
                );
            }
        },
    }
}

/// The message that an edit is about.
fn find_edited<'a>(conn: &Connection, target: &str, found: &'a Lookup, state: &ServerState) -> (r:
    &'a Option<MessageRow>)
    ensures
        r.deep_view() == edited_message(
            state.deep_view(),
            conn.deep_view(),
            target@,
            found.deep_view(),
        ),
{
    if found.by_target.is_some() || is_channel(target) {
        &found.by_target
    } else if find_conversation(state, conn, target).is_some() && found.by_dm.is_some() {
        &found.by_dm
    } else {
        &found.anywhere
    }
}

/// Tells that an edit is refused, unless it came as a NOTICE.
fn push_edit_refusal(
    fx: &mut Vec<Effect>,
    state: &ServerState,
    conn: &Connection,
    code: &str,
    reason: &str,
    is_notice: bool,
)
    ensures
        final(fx).deep_view() == old(fx).deep_view() + edit_refusal(
            state.deep_view(),
            conn.deep_view(),
            code@,
            reason@,
            is_notice,
        ),
{
    if is_notice {
        assert(fx.deep_view() + Seq::<EffectView>::empty() =~= fx.deep_view());
    } else {
        push_reply(fx, conn.id.as_str(), state.server_name.as_str(), "FAIL", p3("EDIT", code, reason));
    }
}

/// Handle a message with +draft/edit=<msgid> tag.
/// Verifies authorship, stores the edit, and broadcasts to channel or DM recipient.
pub fn handle_edit(
    conn: &Connection,
    target: &str,
    new_text: &str,
    original_msgid: &str,
    tags: &StrMap<String>,
    now: u64,
    msgid: &str,
    found: &Lookup,
    route: &Route,
    is_notice: bool,
    state: &mut ServerState,
    fx: &mut Vec<Effect>,
)
    ensures
        final(state).deep_view() == edit_spec(
            old(state).deep_view(),
            conn.deep_view(),
            target@,
            new_text@,
            original_msgid@,
            tags@,
            now,
            msgid@,
            found.deep_view(),
            route.deep_view(),
            is_notice,
        ).0,
        final(fx).deep_view() == old(fx).deep_view() + edit_spec(
            old(state).deep_view(),
            conn.deep_view(),
            target@,
            new_text@,
            original_msgid@,
            tags@,
            now,
            msgid@,
            found.deep_view(),
            route.deep_view(),
            is_notice,
        ).1,
{
    match find_edited(conn, target, found, state) {
        None => {
            push_edit_refusal(fx, state, conn, "MESSAGE_NOT_FOUND", "Original message not found", is_notice);
        },
        Some(row) => {
            if !check_author(row, conn) {
                push_edit_refusal(
                    fx,
                    state,
                    conn,
                    "AUTHOR_MISMATCH",
                    "You can only edit your own messages",
                    is_notice,
                );
            } else if row.deleted_at.is_some() {
                assert(fx.deep_view() + Seq::<EffectView>::empty() =~= fx.deep_view());
            } else {
                make_edit(
                    conn,
                    target,
                    new_text,
                    original_msgid,
                    tags,
                    now,
                    msgid,
                    route,
                    is_notice,
                    state,
                    fx,
                );
            }
        },
    }
}

/// What PRIVMSG and NOTICE do.
pub open spec fn privmsg_spec(
    st: ServerStateView,
    c: ConnectionView,
    command: Seq<char>,
    target: Seq<char>,
    body: Seq<char>,
    tags: Seq<(Seq<char>, Seq<char>)>,
    now: u64,
    now_ms: u64,
    msgid: Seq<char>,
    verdict: VerdictView,
    found: LookupView,
    route: RouteView,
) -> (ServerStateView, Seq<EffectView>) {
    match containers::map_get(tags, "+draft/edit"@) {
        Some(original) => edit_spec(
            st,
            c,
            target,
            body,
            original,
            tags,
            now,
            msgid,
            found,
            route,
            command == "NOTICE"@,
        ),
        None => message_spec(
            st,
            c,
            command,
            target,
            body,
            tags,
            now,
            now_ms,
            msgid,
            verdict,
            route,
        ),
    }
}

/// Handle PRIVMSG and NOTICE.
pub fn handle_privmsg(
    conn: &Connection,
    command: &str,
    target: &str,
    body: &str,
    tags: &StrMap<String>,
    now: u64,
    now_ms: u64,
    msgid: &str,
    verdict: &Verdict,
    found: &Lookup,
    route: &Route,
    state: &mut ServerState,
    fx: &mut Vec<Effect>,
)
    ensures
        final(state).deep_view() == privmsg_spec(
            old(state).deep_view(),
            conn.deep_view(),
            command@,
            target@,
            body@,
            tags@,
            now,
            now_ms,
            msgid@,
            verdict.deep_view(),
            found.deep_view(),
            route.deep_view(),
        ).0,
        final(fx).deep_view() == old(fx).deep_view() + privmsg_spec(
            old(state).deep_view(),
            conn.deep_view(),
            command@,
            target@,
            body@,
            tags@,
            now,
            now_ms,
            msgid@,
            verdict.deep_view(),
            found.deep_view(),
            route.deep_view(),
        ).1,
{
    match tags.get("+draft/edit") {
        Some(original) => {
            handle_edit(
                conn,
                target,
                body,
                original.as_str(),
                tags,
                now,
                msgid,
                found,
                route,
                str_eq(command, "NOTICE"),
                state,
                fx,
            );
        },
        None => {
            handle_message(
                conn,
                command,
                target,
                body,
                tags,
                now,
                now_ms,
                msgid,
                verdict,
                route,
                state,
                fx,
            );
        },
    }
}

// ── Message deletion ────────────────────────────────────────────────

/// The tags that tell of a deletion.
pub open spec fn delete_tags(msgid: Seq<char>) -> Seq<(Seq<char>, Seq<char>)> {
    seq![("+draft/delete"@, msgid)]
}

/// A channel without a message.
pub open spec fn without_message(ch: ChannelStateView, msgid: Seq<char>) -> ChannelStateView {
    ChannelStateView {
        history: ch.history.filter(|h: HistoryMessageView| h.msgid != Some(msgid)),
        pins: ch.pins.filter(|p: PinnedMessageView| p.msgid != msgid),
        ..ch
    }
}

/// The line for each session that understands tags, but for the sender's own.
pub open spec fn tell_tagged(
    st: ServerStateView,
    sessions: Seq<Seq<char>>,
    skipped: Option<Seq<char>>,
    line: Seq<char>,
) -> Seq<EffectView>
    decreases sessions.len(),
{
    if sessions.len() == 0 {
        Seq::empty()
    } else {
        let rest = tell_tagged(st, sessions.drop_last(), skipped, line);
        let s = sessions.last();
        if skipped != Some(s) && st.cap_message_tags.contains(s) {
            rest.push(helpers::send_fx(s, line))
        } else {
            rest
        }
    }
}

/// What a TAGMSG with the `+draft/delete` tag does: only the author of a message that is there and
/// not yet deleted, or an operator of its channel, may delete it.
pub open spec fn delete_spec(
    st: ServerStateView,
    c: ConnectionView,
    target: Seq<char>,
    msgid: Seq<char>,
    found: Option<MessageRowView>,
) -> (ServerStateView, Seq<EffectView>) {
    let stored = seq![EffectView::Store(StoreOpView::SoftDelete { channel: kept_under(st, c, target), msgid })];
    let line = tagged_line(delete_tags(msgid), c, "TAGMSG"@, seq![target]);
    match found {
        None => helpers::refuse(
            st,
            c,
            "FAIL"@,
            seq!["DELETE"@, "MESSAGE_NOT_FOUND"@, "Original message not found"@],
        ),
        Some(row) => if !is_author(row, c) && !(is_channel_name(target) && st.is_op(target, c.id)) {
            helpers::refuse(
                st,
                c,
                "FAIL"@,
                seq!["DELETE"@, "AUTHOR_MISMATCH"@, "You can only delete your own messages"@],
            )
        } else if row.deleted_at is Some {
            (st, Seq::empty())
        } else if is_channel_name(target) {
            let st2 = match st.channel(target) {
                Some(ch) => st.with_channel(target, without_message(ch, msgid)),
                None => st,
            };
            (st2, stored + tell_tagged(st2, st2.members(target), Some(c.id), line))
        } else {
            (
                st,
                stored + (match st.session_of(target) {
                    Some(session) => tell_tagged(
                        st,
                        user_sessions(st, st.did_of(session), session),
                        None,
                        line,
                    ),
                    None => Seq::empty(),
                }),
            )
        },
    }
}

/// Drops a message from a history.
fn drop_from_history(history: &mut Vec<HistoryMessage>, msgid: &str)
    ensures
        final(history).deep_view() == old(history).deep_view().filter(
            |h: HistoryMessageView| h.msgid != Some(msgid@),
        ),
{
    let ghost before = history.deep_view();
    let ghost p = |h: HistoryMessageView| h.msgid != Some(msgid@);
    let mut kept: Vec<HistoryMessage> = Vec::new();
    let mut i: usize = 0;
    assert(kept.deep_view() =~= before.take(0).filter(p)) by {
        reveal(Seq::filter);
    }
    while i < history.len()
        invariant
            i <= history@.len(),
            before == history.deep_view(),
            p == (|h: HistoryMessageView| h.msgid != Some(msgid@)),
            kept.deep_view() == before.take(i as int).filter(p),
        decreases history@.len() - i,
    {
        let ghost prev = kept.deep_view();
        assert(before.take(i + 1).drop_last() =~= before.take(i as int));
        assert(before[i as int] == history@[i as int].deep_view());
        reveal(Seq::filter);
        if !super::channel::opt_is(&history[i].msgid, msgid) {
            kept.push(history[i].dup());
            assert(kept.deep_view() =~= prev.push(before[i as int]));
        }
        i = i + 1;
    }
    assert(before.take(i as int) =~= before);
    *history = kept;
}

/// Drops a message from the pins.
pub fn drop_from_pins(pins: &mut Vec<PinnedMessage>, msgid: &str)
    ensures
        final(pins).deep_view() == old(pins).deep_view().filter(
            |p: PinnedMessageView| p.msgid != msgid@,
        ),
{
    let ghost before = pins.deep_view();
    let ghost f = |p: PinnedMessageView| p.msgid != msgid@;
    let mut kept: Vec<PinnedMessage> = Vec::new();
    let mut i: usize = 0;
    assert(kept.deep_view() =~= before.take(0).filter(f)) by {
        reveal(Seq::filter);
    }
    while i < pins.len()
        invariant
            i <= pins@.len(),
            before == pins.deep_view(),
            f == (|p: PinnedMessageView| p.msgid != msgid@),
            kept.deep_view() == before.take(i as int).filter(f),
        decreases pins@.len() - i,
    {
        let ghost prev = kept.deep_view();
        assert(before.take(i + 1).drop_last() =~= before.take(i as int));
        assert(before[i as int] == pins@[i as int].deep_view());
        reveal(Seq::filter);
        if !str_eq(pins[i].msgid.as_str(), msgid) {
            kept.push(pins[i].dup());
            assert(kept.deep_view() =~= prev.push(before[i as int]));
        }
        i = i + 1;
    }
    assert(before.take(i as int) =~= before);
    *pins = kept;
}

/// Sends a line to each session that understands tags, but for one.
fn push_tell_tagged(
    fx: &mut Vec<Effect>,
    state: &ServerState,
    sessions: &StrSet,
    skipped: Option<&str>,
    line: &str,
)
    ensures
        final(fx).deep_view() == old(fx).deep_view() + tell_tagged(
            state.deep_view(),
            sessions@,
            skipped.deep_view(),
            line@,
        ),
{
    let ghost before = fx.deep_view();
    let ghost st = state.deep_view();
    let ghost all = sessions@;
    let ghost sk = skipped.deep_view();
    let mut i: usize = 0;
    assert(before + tell_tagged(st, all.take(0), sk, line@) =~= before);
    while i < sessions.len()
        invariant
            i <= all.len(),
            all == sessions@,
            st == state.deep_view(),
            sk == skipped.deep_view(),
            fx.deep_view() == before + tell_tagged(st, all.take(i as int), sk, line@),
        decreases all.len() - i,
    {
        assert(all.take(i + 1).drop_last() =~= all.take(i as int));
        let s = sessions.at(i);
        let skip = match skipped {
            Some(x) => str_eq(x, s.as_str()),
            None => false,
        };
        if !skip && state.cap_message_tags.contains(s.as_str()) {
            push_send(fx, s.as_str(), line.to_owned());
        }
        i = i + 1;
        assert(fx.deep_view() =~= before + tell_tagged(st, all.take(i as int), sk, line@));
    }
    assert(all.take(i as int) =~= all);
}

/// Handle a TAGMSG with +draft/delete=<msgid> tag.
/// Verifies authorship, soft-deletes the message, broadcasts to channel or DM recipient.
pub fn handle_delete(
    conn: &Connection,
    target: &str,
    original_msgid: &str,
    found: &Option<MessageRow>,
    state: &mut ServerState,
    fx: &mut Vec<Effect>,
)
    ensures
        final(state).deep_view() == delete_spec(
            old(state).deep_view(),
            conn.deep_view(),
            target@,
            original_msgid@,
            found.deep_view(),
        ).0,
        final(fx).deep_view() == old(fx).deep_view() + delete_spec(
            old(state).deep_view(),
            conn.deep_view(),
            target@,
            original_msgid@,
            found.deep_view(),
        ).1,
{
    broadcast use helpers::lemma_push_after, helpers::lemma_add_after;

    assert(fx.deep_view() + Seq::<EffectView>::empty() =~= fx.deep_view());
    let in_channel = is_channel(target);
    let row = match found {
        Some(row) => row,
        None => {
            push_reply(
                fx,
                conn.id.as_str(),
                state.server_name.as_str(),
                "FAIL",
                p3("DELETE", "MESSAGE_NOT_FOUND", "Original message not found"),
            );
            return;
        },
    };
    if !check_author(row, conn) && !(in_channel && state.is_op(target, conn.id.as_str())) {
        push_reply(
            fx,
            conn.id.as_str(),
            state.server_name.as_str(),
            "FAIL",
            p3("DELETE", "AUTHOR_MISMATCH", "You can only delete your own messages"),
        );
        return;
    }
    if row.deleted_at.is_some() {
        return;
    }
    push_store(
        fx,
        StoreOp::SoftDelete {
            channel: find_storage(state, conn, target),
            msgid: original_msgid.to_owned(),
        },
    );
    if in_channel {
        if let Some(ch) = state.channels.get_mut(target) {
            drop_from_history(&mut ch.history, original_msgid);
            drop_from_pins(&mut ch.pins, original_msgid);
        }
    }
    let mut del_tags: StrMap<String> = StrMap::new();
    del_tags.insert("+draft/delete".to_owned(), original_msgid.to_owned());
    assert(del_tags@ =~= delete_tags(original_msgid@));
    let line = make_tagged(del_tags, conn, "TAGMSG", one(target));
    if in_channel {
        let me = Some(conn.id.as_str());
        assert(me.deep_view() == Some(conn.deep_view().id));
        push_tell_tagged(fx, state, &state.members(target), me, line.as_str());
    } else {
        if let Some(session) = state.session_of(target) {
            let target_did = match state.did_of(session.as_str()) {
                Some(d) => Some(d.as_str()),
                None => None,
            };
            let theirs = sessions_of_user(state, target_did, session.as_str());
            push_tell_tagged(fx, state, &theirs, None, line.as_str());
        } else {
            assert(fx.deep_view() + Seq::<EffectView>::empty() =~= fx.deep_view());
        }
    }
}

// ── TAGMSG ──────────────────────────────────────────────────────────

/// A TAGMSG in the forms that clients understand; clients without tags get a text for a reaction
/// and nothing else.
pub struct TagLinesView {
    pub tagged: Seq<char>,
    pub timed: Seq<char>,
    pub fallback: Option<Seq<char>>,
}

/// The forms of a TAGMSG.
pub open spec fn tag_lines(
    tags: Seq<(Seq<char>, Seq<char>)>,
    c: ConnectionView,
    target: Seq<char>,
    now: u64,
) -> TagLinesView {
    TagLinesView {
        tagged: tagged_line(tags, c, "TAGMSG"@, seq![target]),
        timed: tagged_line(
            containers::map_put(tags, "time"@, time::time_tag(now)),
            c,
            "TAGMSG"@,
            seq![target],
        ),
        fallback: match containers::map_get(tags, "+react"@) {
            Some(emoji) => Some(
                ":"@ + c.hostmask() + " PRIVMSG "@ + target + " :\u{1}ACTION reacted with "@ + emoji
                    + "\u{1}\r\n"@,
            ),
            None => None,
        },
    }
}

/// A TAGMSG for one session.
pub open spec fn deliver_tag(
    st: ServerStateView,
    session: Seq<char>,
    l: TagLinesView,
) -> Seq<EffectView> {
    if st.cap_message_tags.contains(session) {
        seq![
            helpers::send_fx(
                session,
                if st.cap_server_time.contains(session) {
                    l.timed
                } else {
                    l.tagged
                },
            ),
        ]
    } else {
        match l.fallback {
            Some(line) => seq![helpers::send_fx(session, line)],
            None => Seq::empty(),
        }
    }
}

/// A TAGMSG for each of the sessions, but for the sender's own unless it wants an echo.
pub open spec fn deliver_tags(
    st: ServerStateView,
    sessions: Seq<Seq<char>>,
    sender: Seq<char>,
    l: TagLinesView,
) -> Seq<EffectView>
    decreases sessions.len(),
{
    if sessions.len() == 0 {
        Seq::empty()
    } else {
        let rest = deliver_tags(st, sessions.drop_last(), sender, l);
        let s = sessions.last();
        if s == sender && !st.cap_echo_message.contains(s) {
            rest
        } else {
            rest + deliver_tag(st, s, l)
        }
    }
}

/// The coordination event that the tags of an authenticated user describe, if they do.
pub open spec fn coordination_event(
    c: ConnectionView,
    target: Seq<char>,
    tags: Seq<(Seq<char>, Seq<char>)>,
    now: i64,
    fresh_id: Seq<char>,
) -> Option<CoordinationEventRowView> {
    match (containers::map_get(tags, "+freeq.at/event"@), c.authenticated_did) {
        (Some(event_type), Some(did)) => Some(
            CoordinationEventRowView {
                event_id: text::or_default(containers::map_get(tags, "msgid"@), fresh_id),
                event_type,
                actor_did: did,
                channel: target,
                ref_id: match containers::map_get(tags, "+freeq.at/ref"@) {
                    Some(r) => Some(r),
                    None => containers::map_get(tags, "+freeq.at/task-id"@),
                },
                payload_json: match containers::map_get(tags, "+freeq.at/payload"@) {
                    Some(p) => text::or_default(crypto::percent_decoded(p), p),
                    None => "{}"@,
                },
                signature: containers::map_get(tags, "+freeq.at/sig"@),
                timestamp: now,
            },
        ),
        _ => None,
    }
}

/// What TAGMSG does.
pub open spec fn tagmsg_spec(
    st: ServerStateView,
    c: ConnectionView,
    target: Seq<char>,
    tags: Seq<(Seq<char>, Seq<char>)>,
    now: u64,
    event_time: i64,
    fresh_id: Seq<char>,
    found: Option<MessageRowView>,
    route: RouteView,
) -> (ServerStateView, Seq<EffectView>) {
    if tags.len() == 0 {
        (st, Seq::empty())
    } else {
        match containers::map_get(tags, "+draft/delete"@) {
            Some(msgid) => delete_spec(st, c, target, msgid, found),
            None => (
                st,
                (match coordination_event(c, target, tags, event_time, fresh_id) {
                    Some(row) => seq![EffectView::Store(StoreOpView::CoordinationEvent(row))],
                    None => Seq::empty(),
                }) + tag_delivery(st, c, target, tag_lines(tags, c, target, now), route),
            ),
        }
    }
}

/// The delivery of a TAGMSG: in a channel under the rules of +n and +m; to a local user; a remote
/// one gets nothing, and nobody is told.
pub open spec fn tag_delivery(
    st: ServerStateView,
    c: ConnectionView,
    target: Seq<char>,
    l: TagLinesView,
    route: RouteView,
) -> Seq<EffectView> {
    if is_channel_name(target) {
        match channel_refusal(st, c, target, true) {
            Some(reason) => refusal_fx(st, c, target, reason, false),
            None => deliver_tags(st, st.members(target), c.id, l),
        }
    } else {
        match route {
            RouteView::Local(session) => deliver_tag(st, session, l),
            _ => Seq::empty(),
        }
    }
}

/// A TAGMSG in the forms that clients understand.
struct TagLines {
    tagged: String,
    timed: String,
    fallback: Option<String>,
}

impl DeepView for TagLines {
    type V = TagLinesView;

    closed spec fn deep_view(&self) -> TagLinesView {
        TagLinesView {
            tagged: self.tagged@,
            timed: self.timed@,
            fallback: self.fallback.deep_view(),
        }
    }
}

/// The forms of a TAGMSG.
fn make_tag_lines(tags: &StrMap<String>, conn: &Connection, target: &str, now: u64) -> (r: TagLines)
    ensures
        r.deep_view() == tag_lines(tags@, conn.deep_view(), target@, now),
{
    let tagged = make_tagged(tags.dup(), conn, "TAGMSG", one(target));
    let mut with_time = tags.dup();
    with_time.insert("time".to_owned(), format_time_tag(now));
    let timed = make_tagged(with_time, conn, "TAGMSG", one(target));
    let fallback = match tags.get("+react") {
        Some(emoji) => Some(
            Line::new(":").add(conn.hostmask().as_str()).add(" PRIVMSG ").add(target).add(
                " :\u{1}ACTION reacted with ",
            ).add(emoji.as_str()).add("\u{1}\r\n").done(),
        ),
        None => None,
    };
    TagLines { tagged, timed, fallback }
}

/// Delivers a TAGMSG to one session.
fn push_tag(fx: &mut Vec<Effect>, state: &ServerState, session: &str, l: &TagLines)
    ensures
        final(fx).deep_view() == old(fx).deep_view() + deliver_tag(
            state.deep_view(),
            session@,
            l.deep_view(),
        ),
{
    let ghost before = fx.deep_view();
    if state.cap_message_tags.contains(session) {
        let line = if state.cap_server_time.contains(session) {
            &l.timed
        } else {
            &l.tagged
        };
        push_send(fx, session, line.clone());
    } else if let Some(line) = &l.fallback {
        push_send(fx, session, line.clone());
    }
    assert(fx.deep_view() =~= before + deliver_tag(state.deep_view(), session@, l.deep_view()));
}

/// Delivers a TAGMSG to the sessions, but for the sender's own unless it wants an echo.
fn push_tags(
    fx: &mut Vec<Effect>,
    state: &ServerState,
    sessions: &StrSet,
    sender: &str,
    l: &TagLines,
)
    ensures
        final(fx).deep_view() == old(fx).deep_view() + deliver_tags(
            state.deep_view(),
            sessions@,
            sender@,
            l.deep_view(),
        ),
{
    let ghost before = fx.deep_view();
    let ghost st = state.deep_view();
    let ghost all = sessions@;
    let ghost lv = l.deep_view();
    let mut i: usize = 0;
    assert(before + deliver_tags(st, all.take(0), sender@, lv) =~= before);
    while i < sessions.len()
        invariant
            i <= all.len(),
            all == sessions@,
            st == state.deep_view(),
            lv == l.deep_view(),
            fx.deep_view() == before + deliver_tags(st, all.take(i as int), sender@, lv),
        decreases all.len() - i,
    {
        assert(all.take(i + 1).drop_last() =~= all.take(i as int));
        let s = sessions.at(i);
        if !str_eq(s.as_str(), sender) || state.cap_echo_message.contains(s.as_str()) {
            push_tag(fx, state, s.as_str(), l);
        }
        i = i + 1;
        assert(fx.deep_view() =~= before + deliver_tags(st, all.take(i as int), sender@, lv));
    }
    assert(all.take(i as int) =~= all);
}

/// The coordination event that the tags describe, if they do.
fn find_coordination_event(
    conn: &Connection,
    target: &str,
    tags: &StrMap<String>,
    now: i64,
    fresh_id: &str,
) -> (r: Option<CoordinationEventRow>)
    ensures
        r.deep_view() == coordination_event(conn.deep_view(), target@, tags@, now, fresh_id@),
{
    let event_type = match tags.get("+freeq.at/event") {
        Some(t) => t.clone(),
        None => {
            return None;
        },
    };
    let did = match &conn.authenticated_did {
        Some(d) => d.clone(),
        None => {
            return None;
        },
    };
    let event_id = match tags.get("msgid") {
        Some(id) => id.clone(),
        None => fresh_id.to_owned(),
    };
    let ref_id = match tags.get("+freeq.at/ref") {
        Some(r) => Some(r.clone()),
        None => match tags.get("+freeq.at/task-id") {
            Some(r) => Some(r.clone()),
            None => None,
        },
    };
    let payload_json = match tags.get("+freeq.at/payload") {
        Some(p) => match crypto::percent_decode(p.as_str()) {
            Some(d) => d,
            None => p.clone(),
        },
        None => "{}".to_owned(),
    };
    let signature = match tags.get("+freeq.at/sig") {
        Some(s) => Some(s.clone()),
        None => None,
    };
    Some(
        CoordinationEventRow {
            event_id,
            event_type,
            actor_did: did,
            channel: target.to_owned(),
            ref_id,
            payload_json,
            signature,
            timestamp: now,
        },
    )
}

/// Delivers a TAGMSG.
fn push_tag_delivery(
    fx: &mut Vec<Effect>,
    state: &ServerState,
    conn: &Connection,
    target: &str,
    l: &TagLines,
    route: &Route,
)
    ensures
        final(fx).deep_view() == old(fx).deep_view() + tag_delivery(
            state.deep_view(),
            conn.deep_view(),
            target@,
            l.deep_view(),
            route.deep_view(),
        ),
{
    assert(fx.deep_view() + Seq::<EffectView>::empty() =~= fx.deep_view());
    if is_channel(target) {
        match check_channel(state, conn, target, true) {
            Some(reason) => {
                push_refusal(fx, state, conn, target, reason, false);
            },
            None => {
                push_tags(fx, state, &state.members(target), conn.id.as_str(), l);
            },
        }
    } else if let Route::Local(session) = route {
        push_tag(fx, state, session.as_str(), l);
    }
}

/// Handle TAGMSG command.
pub fn handle_tagmsg(
    conn: &Connection,
    target: &str,
    tags: &StrMap<String>,
    now: u64,
    event_time: i64,
    fresh_id: &str,
    found: &Option<MessageRow>,
    route: &Route,
    state: &mut ServerState,
    fx: &mut Vec<Effect>,
)
    ensures
        final(state).deep_view() == tagmsg_spec(
            old(state).deep_view(),
            conn.deep_view(),
            target@,
            tags@,
            now,
            event_time,
            fresh_id@,
            found.deep_view(),
            route.deep_view(),
        ).0,
        final(fx).deep_view() == old(fx).deep_view() + tagmsg_spec(
            old(state).deep_view(),
            conn.deep_view(),
            target@,
            tags@,
            now,
            event_time,
            fresh_id@,
            found.deep_view(),
            route.deep_view(),
        ).1,
{
    broadcast use helpers::lemma_push_after, helpers::lemma_add_after;

    assert(fx.deep_view() + Seq::<EffectView>::empty() =~= fx.deep_view());
    if tags.is_empty() {
        return;
    }
    if let Some(original_msgid) = tags.get("+draft/delete") {
        handle_delete(conn, target, original_msgid.as_str(), found, state, fx);
        return;
    }
    if let Some(row) = find_coordination_event(conn, target, tags, event_time, fresh_id) {
        push_store(fx, StoreOp::CoordinationEvent(row));
    }
    let lines = make_tag_lines(tags, conn, target, now);
    push_tag_delivery(fx, state, conn, target, &lines, route);
}

// ── Whom to ask ─────────────────────────────────────────────────────

/// Who has a say in what becomes of a message.
#[derive(Debug, Clone, Copy, PartialEq, Eq, Structural)]
pub enum Consulted {
    /// Nobody: it is refused, or the channel alone decides.
    Nobody,
    /// The plugins, which may suppress or rewrite a channel message.
    Plugins,
    /// The router, which finds the way to a nick and relays the message to the peers.
    Router,
}

/// Who is to be asked before a PRIVMSG or NOTICE is handled. A message that is refused is neither
/// shown to the plugins nor relayed.
pub open spec fn consulted(
    st: ServerStateView,
    c: ConnectionView,
    target: Seq<char>,
    tags: Seq<(Seq<char>, Seq<char>)>,
    now_ms: u64,
    found: LookupView,
) -> Consulted {
    if containers::map_has(tags, "+draft/edit"@) {
        match edited_message(st, c, target, found) {
            Some(row) if is_author(row, c) && row.deleted_at is None && !is_channel_name(
                target,
            ) => Consulted::Router,
            _ => Consulted::Nobody,
        }
    } else if floods(st, c.id, now_ms) {
        Consulted::Nobody
    } else if !is_channel_name(target) {
        Consulted::Router
    } else if channel_refusal(st, c, target, containers::map_has(tags, "+encrypted"@)) is None {
        Consulted::Plugins
    } else {
        Consulted::Nobody
    }
}

/// Whether a session sends too fast.
fn is_flooding(state: &ServerState, session: &str, now_ms: u64) -> (b: bool)
    ensures
        b == floods(state.deep_view(), session@, now_ms),
{
    match state.msg_timestamps.get(session) {
        Some(t) => {
            assert(t.deep_view() =~= t@);
            keep_recent(t, now_ms).len() >= FLOOD_MAX
        },
        None => {
            let none: Vec<u64> = Vec::new();
            keep_recent(&none, now_ms).len() >= FLOOD_MAX
        },
    }
}

/// Who is to be asked before a PRIVMSG or NOTICE is handled.
pub fn whom_to_ask(
    conn: &Connection,
    target: &str,
    tags: &StrMap<String>,
    now_ms: u64,
    found: &Lookup,
    state: &ServerState,
) -> (r: Consulted)
    ensures
        r == consulted(
            state.deep_view(),
            conn.deep_view(),
            target@,
            tags@,
            now_ms,
            found.deep_view(),
        ),
{
    if tags.contains_key("+draft/edit") {
        match find_edited(conn, target, found, state) {
            Some(row) => if check_author(row, conn) && row.deleted_at.is_none() && !is_channel(
                target,
            ) {
                Consulted::Router
            } else {
                Consulted::Nobody
            },
            None => Consulted::Nobody,
        }
    } else if is_flooding(state, conn.id.as_str(), now_ms) {
        Consulted::Nobody
    } else if !is_channel(target) {
        Consulted::Router
    } else if check_channel(state, conn, target, tags.contains_key("+encrypted")).is_none() {
        Consulted::Plugins
    } else {
        Consulted::Nobody
    }
}

/// What becomes of a message depends on those alone who are to be asked: what the plugins say
/// matters only where they are, and so does the route.
pub proof fn law_only_the_consulted_matter(
    st: ServerStateView,
    c: ConnectionView,
    command: Seq<char>,
    target: Seq<char>,
    body: Seq<char>,
    tags: Seq<(Seq<char>, Seq<char>)>,
    now: u64,
    now_ms: u64,
    msgid: Seq<char>,
    found: LookupView,
    verdict: VerdictView,
    other_verdict: VerdictView,
    route: RouteView,
    other_route: RouteView,
)
    ensures
        !(consulted(st, c, target, tags, now_ms, found) is Plugins) ==> privmsg_spec(
            st,
            c,
            command,
            target,
            body,
            tags,
            now,
            now_ms,
            msgid,
            verdict,
            found,
            route,
        ) == privmsg_spec(
            st,
            c,
            command,
            target,
            body,
            tags,
            now,
            now_ms,
            msgid,
            other_verdict,
            found,
            route,
        ),
        !(consulted(st, c, target, tags, now_ms, found) is Router) ==> privmsg_spec(
            st,
            c,
            command,
            target,
            body,
            tags,
            now,
            now_ms,
            msgid,
            verdict,
            found,
            route,
        ) == privmsg_spec(
            st,
            c,
            command,
            target,
            body,
            tags,
            now,
            now_ms,
            msgid,
            verdict,
            found,
            other_route,
        ),
{
    assert(channel_refusal(
        counted(st, c.id, now_ms),
        c,
        target,
        containers::map_has(tags, "+encrypted"@),
    ) == channel_refusal(st, c, target, containers::map_has(tags, "+encrypted"@)));
}

/// The text with which a TAGMSG to a nick is relayed: that of a reaction, else none; nothing where
/// the router is not to be asked.
pub open spec fn tag_relay(
    c: ConnectionView,
    target: Seq<char>,
    tags: Seq<(Seq<char>, Seq<char>)>,
) -> Option<Seq<char>> {
    if tags.len() == 0 || containers::map_has(tags, "+draft/delete"@) || is_channel_name(target) {
        None
    } else {
        Some(text::or_default(tag_lines(tags, c, target, 0).fallback, ""@))
    }
}

/// The text with which a TAGMSG to a nick is relayed, if it is.
pub fn find_tag_relay(conn: &Connection, target: &str, tags: &StrMap<String>) -> (r: Option<String>)
    ensures
        r.deep_view() == tag_relay(conn.deep_view(), target@, tags@),
{
    if tags.len() == 0 || tags.contains_key("+draft/delete") || is_channel(target) {
        None
    } else {
        match make_tag_lines(tags, conn, target, 0).fallback {
            Some(line) => Some(line),
            None => Some("".to_owned()),
        }
    }
}

/// What becomes of a TAGMSG does not depend on a route where none is asked for.
pub proof fn law_tagmsg_without_relay(
    st: ServerStateView,
    c: ConnectionView,
    target: Seq<char>,
    tags: Seq<(Seq<char>, Seq<char>)>,
    now: u64,
    event_time: i64,
    fresh_id: Seq<char>,
    found: Option<MessageRowView>,
    route: RouteView,
    other_route: RouteView,
)
    requires
        tag_relay(c, target, tags) is None,
    ensures
        tagmsg_spec(st, c, target, tags, now, event_time, fresh_id, found, route) == tagmsg_spec(
            st,
            c,
            target,
            tags,
            now,
            event_time,
            fresh_id,
            found,
            other_route,
        ),
{
}

} // verus!
