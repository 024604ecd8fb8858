//! CAP capability negotiation and SASL authentication.
use super::channel::list_contains;
use super::helpers;
use super::helpers::{p2, p3, p4, push_crdt, push_effect, push_reply, push_send, push_store};
use super::registration;
use super::registration::{attach_same_did, complete_registration, random_guest};
use super::{opt_str_or, Connection, ConnectionView};
use crate::containers;
use crate::irc;
use crate::irc::Message;
use crate::server::{
    CrdtOp, CrdtOpView, Effect, EffectView, PluginEvent, PluginEventView, ServerState,
    ServerStateView, StoreOp, StoreOpView,
};
use crate::text;
use crate::text::{
    ascii_uppercase, join, str_eq, strip_prefix, to_ascii_lower, to_lowercase,
    words, Line,
};
use vstd::prelude::*;

verus! {

broadcast use vstd::string::group_string_axioms;

/// The mathematical content of a [`SaslOutcome`].
pub enum SaslOutcomeView {
    BadResponse,
    NoChallenge,
    Verified(Seq<char>),
    Rejected(Seq<char>),
}

/// What became of a SASL response.
#[derive(Debug)]
pub enum SaslOutcome {
    /// The response cannot be read.
    BadResponse,
    /// No challenge was open.
    NoChallenge,
    /// The response is right, for this DID.
    Verified(String),
    /// The response is wrong, for this reason.
    Rejected(String),
}

impl DeepView for SaslOutcome {
    type V = SaslOutcomeView;

    open spec fn deep_view(&self) -> SaslOutcomeView {
        match self {
            SaslOutcome::BadResponse => SaslOutcomeView::BadResponse,
            SaslOutcome::NoChallenge => SaslOutcomeView::NoChallenge,
            SaslOutcome::Verified(x) => SaslOutcomeView::Verified(x.deep_view()),
            SaslOutcome::Rejected(x) => SaslOutcomeView::Rejected(x.deep_view()),
        }
    }
}

// ── CAP ─────────────────────────────────────────────────────────────

/// The capabilities that every client is offered.
pub const CAPS: &'static str = "sasl message-tags multi-prefix echo-message server-time batch draft/chathistory account-notify extended-join away-notify";

/// The capabilities on offer, with the server's iroh endpoint where it has one.
pub open spec fn offered_caps(st: ServerStateView) -> Seq<char> {
    match st.iroh_id {
        Some(id) => CAPS@ + " iroh="@ + id,
        None => CAPS@,
    }
}

/// Whether a capability can be had.
pub open spec fn is_cap(name: Seq<char>) -> bool {
    name == "sasl"@ || name == "message-tags"@ || name == "multi-prefix"@ || name
        == "echo-message"@ || name == "server-time"@ || name == "batch"@ || name
        == "draft/chathistory"@ || name == "account-notify"@ || name == "extended-join"@ || name
        == "away-notify"@
}

/// The connection that has been granted a capability.
pub open spec fn cap_in_conn(c: ConnectionView, name: Seq<char>) -> ConnectionView {
    if is_cap(name) {
        ConnectionView { caps: containers::set_insert(c.caps, name), ..c }
    } else {
        c
    }
}

/// A set of sessions, with one more where the names agree.
pub open spec fn insert_if(
    set: Seq<Seq<char>>,
    session: Seq<char>,
    name: Seq<char>,
    wanted: Seq<char>,
) -> Seq<Seq<char>> {
    if name == wanted {
        containers::set_insert(set, session)
    } else {
        set
    }
}

/// The state in which a session has been granted a capability.
pub open spec fn cap_in_state(
    st: ServerStateView,
    session: Seq<char>,
    name: Seq<char>,
) -> ServerStateView {
    ServerStateView {
        cap_message_tags: insert_if(st.cap_message_tags, session, name, "message-tags"@),
        cap_multi_prefix: insert_if(st.cap_multi_prefix, session, name, "multi-prefix"@),
        cap_echo_message: insert_if(st.cap_echo_message, session, name, "echo-message"@),
        cap_server_time: insert_if(st.cap_server_time, session, name, "server-time"@),
        cap_batch: insert_if(st.cap_batch, session, name, "batch"@),
        cap_account_notify: insert_if(st.cap_account_notify, session, name, "account-notify"@),
        cap_extended_join: insert_if(st.cap_extended_join, session, name, "extended-join"@),
        cap_away_notify: insert_if(st.cap_away_notify, session, name, "away-notify"@),
        ..st
    }
}

/// State and connection once all capabilities of a list have been granted, as far as they can be.
pub open spec fn caps_granted(
    st: ServerStateView,
    c: ConnectionView,
    names: Seq<Seq<char>>,
) -> (ServerStateView, ConnectionView)
    decreases names.len(),
{
    if names.len() == 0 {
        (st, c)
    } else {
        let before = caps_granted(st, c, names.drop_last());
        let name = text::ascii_lower(names.last());
        (cap_in_state(before.0, c.id, name), cap_in_conn(before.1, name))
    }
}

/// The capabilities of a list that can be had, by their own names.
pub open spec fn known_caps(names: Seq<Seq<char>>) -> Seq<Seq<char>>
    decreases names.len(),
{
    if names.len() == 0 {
        Seq::empty()
    } else {
        let before = known_caps(names.drop_last());
        if is_cap(text::ascii_lower(names.last())) {
            before.push(text::ascii_lower(names.last()))
        } else {
            before
        }
    }
}

/// Whether a request for capabilities is granted: it names some, and all of them can be had.
pub open spec fn can_have_all(asked: Seq<char>) -> bool {
    let names = text::words_spec(asked);
    known_caps(names).len() == names.len() && names.len() > 0
}

/// State and connection after a request for capabilities: all of them are granted, or none is.
pub open spec fn request_spec(st: ServerStateView, c: ConnectionView, asked: Seq<char>) -> (ServerStateView, ConnectionView) {
    if can_have_all(asked) {
        caps_granted(st, c, text::words_spec(asked))
    } else {
        (st, c)
    }
}

/// The answer to a request for capabilities.
pub open spec fn request_answer(c: ConnectionView, asked: Seq<char>) -> Seq<Seq<char>> {
    if can_have_all(asked) {
        seq![c.nick_or_star(), "ACK"@, text::join_spec(known_caps(text::words_spec(asked)), " "@)]
    } else {
        seq![c.nick_or_star(), "NAK"@, asked]
    }
}

/// What a CAP command does.
pub open spec fn cap_spec(
    st: ServerStateView,
    c: ConnectionView,
    params: Seq<Seq<char>>,
    guest: u32,
    now: u64,
) -> (ServerStateView, ConnectionView, Seq<EffectView>) {
    let sub = if params.len() > 0 {
        text::ascii_upper(params[0])
    } else {
        Seq::empty()
    };
    if params.len() == 0 {
        (st, c, Seq::empty())
    } else if sub == "LS"@ {
        (
            st,
            ConnectionView { cap_negotiating: true, ..c },
            seq![
                helpers::reply_fx(
                    c.id,
                    st.server_name,
                    "CAP"@,
                    seq![c.nick_or_star(), "LS"@, offered_caps(st)],
                ),
            ],
        )
    } else if sub == "REQ"@ {
        if params.len() > 1 {
            let r = request_spec(st, c, params[1]);
            (
                r.0,
                r.1,
                seq![
                    helpers::reply_fx(
                        c.id,
                        st.server_name,
                        "CAP"@,
                        request_answer(c, params[1]),
                    ),
                ],
            )
        } else {
            (st, c, Seq::empty())
        }
    } else if sub == "END"@ {
        registration::registration_spec(
            st,
            ConnectionView { cap_negotiating: false, ..c },
            guest,
            now,
        )
    } else {
        (st, c, Seq::empty())
    }
}

/// Notes the capability of a session.
fn grant_cap(state: &mut ServerState, session: &str, name: &str)
    ensures
        final(state).deep_view() == cap_in_state(old(state).deep_view(), session@, name@),
{
    if str_eq(name, "message-tags") {
        state.cap_message_tags.insert(session.to_owned());
    }
    if str_eq(name, "multi-prefix") {
        state.cap_multi_prefix.insert(session.to_owned());
    }
    if str_eq(name, "echo-message") {
        state.cap_echo_message.insert(session.to_owned());
    }
    if str_eq(name, "server-time") {
        state.cap_server_time.insert(session.to_owned());
    }
    if str_eq(name, "batch") {
        state.cap_batch.insert(session.to_owned());
    }
    if str_eq(name, "account-notify") {
        state.cap_account_notify.insert(session.to_owned());
    }
    if str_eq(name, "extended-join") {
        state.cap_extended_join.insert(session.to_owned());
    }
    if str_eq(name, "away-notify") {
        state.cap_away_notify.insert(session.to_owned());
    }
}

/// Whether a capability can be had.
fn can_grant(name: &str) -> (b: bool)
    ensures
        b == is_cap(name@),
{
    str_eq(name, "sasl") || str_eq(name, "message-tags") || str_eq(name, "multi-prefix") || str_eq(
        name,
        "echo-message",
    ) || str_eq(name, "server-time") || str_eq(name, "batch") || str_eq(name, "draft/chathistory")
        || str_eq(name, "account-notify") || str_eq(name, "extended-join") || str_eq(
        name,
        "away-notify",
    )
}

/// A capability keeps the session's name.
proof fn lemma_caps_keep_id(st: ServerStateView, c: ConnectionView, names: Seq<Seq<char>>)
    ensures
        caps_granted(st, c, names).1.id == c.id,
        caps_granted(st, c, names).1.nick == c.nick,
        caps_granted(st, c, names).0.server_name == st.server_name,
        known_caps(names).len() <= names.len(),
    decreases names.len(),
{
    if names.len() > 0 {
        lemma_caps_keep_id(st, c, names.drop_last());
    }
}

/// The capabilities of a list that can be had, by their own names.
fn known_names(names: &Vec<String>) -> (known: Vec<String>)
    ensures
        known.deep_view() == known_caps(names.deep_view()),
{
    let ghost all = names.deep_view();
    let mut known: Vec<String> = Vec::new();
    let mut i: usize = 0;
    assert(known.deep_view() =~= known_caps(all.take(0)));
    while i < names.len()
        invariant
            i <= all.len(),
            all == names.deep_view(),
            names@.len() == all.len(),
            known.deep_view() == known_caps(all.take(i as int)),
        decreases all.len() - i,
    {
        assert(all.take(i + 1).drop_last() =~= all.take(i as int));
        let name = to_ascii_lower(names[i].as_str());
        let ghost before = known.deep_view();
        if can_grant(name.as_str()) {
            known.push(name);
            assert(known.deep_view() =~= before.push(name@));
        }
        i = i + 1;
    }
    assert(all.take(i as int) =~= all);
    known
}

/// Grants the capabilities of a list, as far as they can be had.
fn grant_caps(conn: &mut Connection, names: &Vec<String>, state: &mut ServerState)
    ensures
        ({
            let r = caps_granted(old(state).deep_view(), old(conn).deep_view(), names.deep_view());
            &&& final(state).deep_view() == r.0
            &&& final(conn).deep_view() == r.1
        }),
{
    let ghost st = state.deep_view();
    let ghost c = conn.deep_view();
    let ghost all = names.deep_view();
    let mut i: usize = 0;
    while i < names.len()
        invariant
            i <= all.len(),
            all == names.deep_view(),
            names@.len() == all.len(),
            state.deep_view() == caps_granted(st, c, all.take(i as int)).0,
            conn.deep_view() == caps_granted(st, c, all.take(i as int)).1,
            conn.deep_view().id == c.id,
        decreases all.len() - i,
    {
        assert(all.take(i + 1).drop_last() =~= all.take(i as int));
        let name = to_ascii_lower(names[i].as_str());
        grant_cap(state, conn.id.as_str(), name.as_str());
        if can_grant(name.as_str()) {
            conn.caps.insert(name);
        }
        i = i + 1;
    }
    assert(all.take(i as int) =~= all);
}

/// Handles a request for capabilities.
fn request_caps(
    conn: &mut Connection,
    asked: &str,
    state: &mut ServerState,
    fx: &mut Vec<Effect>,
)
    ensures
        ({
            let r = request_spec(old(state).deep_view(), old(conn).deep_view(), asked@);
            &&& final(state).deep_view() == r.0
            &&& final(conn).deep_view() == r.1
            &&& final(fx).deep_view() == old(fx).deep_view() + seq![
                helpers::reply_fx(
                    old(conn).deep_view().id,
                    old(state).deep_view().server_name,
                    "CAP"@,
                    request_answer(old(conn).deep_view(), asked@),
                ),
            ]
        }),
{
    let names = words(asked);
    proof {
        lemma_caps_keep_id(state.deep_view(), conn.deep_view(), names.deep_view());
    }
    let known = known_names(&names);
    if known.len() == names.len() && names.len() > 0 {
        let given = join(&known, " ");
        let params = p3(conn.nick_or_star(), "ACK", given.as_str());
        push_reply(fx, conn.id.as_str(), state.server_name.as_str(), "CAP", params);
        grant_caps(conn, &names, state);
    } else {
        let params = p3(conn.nick_or_star(), "NAK", asked);
        push_reply(fx, conn.id.as_str(), state.server_name.as_str(), "CAP", params);
    }
}

/// Capabilities granted before stay granted, and a list of names that can be had is granted whole.
proof fn lemma_caps_are_had(st: ServerStateView, c: ConnectionView, names: Seq<Seq<char>>)
    ensures
        forall|name: Seq<char>| c.caps.contains(name) ==> caps_granted(st, c, names).1.caps.contains(name),
        known_caps(names).len() == names.len() ==> forall|i: int|
            0 <= i < names.len() ==> is_cap(#[trigger] text::ascii_lower(names[i])) && caps_granted(
                st,
                c,
                names,
            ).1.caps.contains(text::ascii_lower(names[i])),
    decreases names.len(),
{
    if names.len() > 0 {
        let head = names.drop_last();
        lemma_caps_are_had(st, c, head);
        lemma_caps_keep_id(st, c, head);
        let before = caps_granted(st, c, head).1;
        let after = caps_granted(st, c, names).1;
        let last = text::ascii_lower(names.last());
        assert forall|name: Seq<char>| before.caps.contains(name) implies after.caps.contains(name) by {
            containers::lemma_set_insert_contains(before.caps, last, name);
        }
        if known_caps(names).len() == names.len() {
            containers::lemma_set_insert_contains(before.caps, last, last);
            assert forall|i: int| 0 <= i < names.len() implies is_cap(#[trigger] text::ascii_lower(names[i]))
                && after.caps.contains(text::ascii_lower(names[i])) by {
                if i < head.len() {
                    assert(head[i] == names[i]);
                }
            }
        }
    }
}

/// A request for capabilities is all or nothing: where the answer is ACK, every capability that it
/// names is granted; where it is NAK, neither the connection nor the server changes.
pub proof fn law_capabilities_come_together(st: ServerStateView, c: ConnectionView, asked: Seq<char>)
    ensures
        request_answer(c, asked)[1] == "ACK"@ <==> can_have_all(asked),
        request_answer(c, asked)[1] == "NAK"@ <==> !can_have_all(asked),
        can_have_all(asked) ==> forall|i: int|
            0 <= i < text::words_spec(asked).len() ==> request_spec(st, c, asked).1.caps.contains(
                #[trigger] text::ascii_lower(text::words_spec(asked)[i]),
            ),
        !can_have_all(asked) ==> request_spec(st, c, asked) == (st, c),
{
    reveal_strlit("ACK");
    reveal_strlit("NAK");
    assert("ACK"@[0] != "NAK"@[0]);
    lemma_caps_are_had(st, c, text::words_spec(asked));
}

/// Offers the capabilities.
fn offer_caps(conn: &mut Connection, state: &ServerState, fx: &mut Vec<Effect>)
    ensures
        final(conn).deep_view() == (ConnectionView {
            cap_negotiating: true,
            ..old(conn).deep_view()
        }),
        final(fx).deep_view() == old(fx).deep_view() + seq![
            helpers::reply_fx(
                old(conn).deep_view().id,
                state.deep_view().server_name,
                "CAP"@,
                seq![
                    old(conn).deep_view().nick_or_star(),
                    "LS"@,
                    offered_caps(state.deep_view()),
                ],
            ),
        ],
{
    let caps = match &state.iroh_id {
        Some(id) => Line::new(CAPS).add(" iroh=").add(id.as_str()).done(),
        None => CAPS.to_owned(),
    };
    push_reply(
        fx,
        conn.id.as_str(),
        state.server_name.as_str(),
        "CAP",
        p3(conn.nick_or_star(), "LS", caps.as_str()),
    );
    conn.cap_negotiating = true;
}

/// Handles a CAP command. `guest` is the number for a guest name, should registration be completed
/// and the user need one.
pub fn cap_command(
    conn: &mut Connection,
    params: &Vec<String>,
    guest: u32,
    now: u64,
    state: &mut ServerState,
    fx: &mut Vec<Effect>,
)
    ensures
        ({
            let r = cap_spec(
                old(state).deep_view(),
                old(conn).deep_view(),
                params.deep_view(),
                guest,
                now,
            );
            &&& final(state).deep_view() == r.0
            &&& final(conn).deep_view() == r.1
            &&& final(fx).deep_view() == old(fx).deep_view() + r.2
        }),
{
    assert(fx.deep_view() + Seq::<EffectView>::empty() =~= fx.deep_view());
    if params.len() == 0 {
        return;
    }
    let sub = ascii_uppercase(params[0].as_str());
    if str_eq(sub.as_str(), "LS") {
        offer_caps(conn, state, fx);
    } else if str_eq(sub.as_str(), "REQ") {
        if params.len() > 1 {
            request_caps(conn, params[1].as_str(), state, fx);
        }
    } else if str_eq(sub.as_str(), "END") {
        conn.cap_negotiating = false;
        complete_registration(conn, guest, now, state, fx);
    }
}

/// Handles a CAP command.
pub fn handle_cap(
    conn: &mut Connection,
    msg: &Message,
    now: u64,
    state: &mut ServerState,
    fx: &mut Vec<Effect>,
)
    ensures
        exists|guest: u32|
            guest < 100000 && {
                let r = #[trigger] cap_spec(
                    old(state).deep_view(),
                    old(conn).deep_view(),
                    msg.deep_view().params,
                    guest,
                    now,
                );
                &&& final(state).deep_view() == r.0
                &&& final(conn).deep_view() == r.1
                &&& final(fx).deep_view() == old(fx).deep_view() + r.2
            },
{
    let guest: u32 = random_guest();
    assert(msg.deep_view().params == msg.params.deep_view());
    cap_command(conn, &msg.params, guest, now, state, fx);
}

// ── SASL ────────────────────────────────────────────────────────────

/// The SASL mechanism.
pub const MECHANISM: &'static str = "ATPROTO-CHALLENGE";

/// How many failed attempts a connection has.
pub const MAX_SASL_FAILURES: u8 = 3;

/// How often an attempt may be asked for a fresh DPoP nonce.
pub const MAX_DPOP_RETRIES: u8 = 3;

/// The method of a response that holds a web token.
pub const WEB_TOKEN: &'static str = "web-token";

/// For how long a web token is good, in seconds.
pub const WEB_TOKEN_SECS: u64 = 300;

/// What an AUTHENTICATE command asks for next.
#[derive(Debug, Clone, Copy, PartialEq, Eq, Structural)]
pub enum AuthAction {
    /// Nothing; the command has been dealt with.
    Nothing,
    /// A new challenge, to be sent with [`push_challenge`].
    Challenge,
    /// A new challenge for another try, to be sent with [`push_retry`].
    Retry,
    /// The parameter is a response, to be checked with [`check_response`].
    Check,
}

/// The reply to a failed authentication.
pub open spec fn sasl_fail_fx(st: ServerStateView, c: ConnectionView, reason: Seq<char>) -> Seq<
    EffectView,
> {
    seq![
        helpers::reply_fx(c.id, st.server_name, irc::ERR_SASLFAIL@, seq![c.nick_or_star(), reason]),
    ]
}

/// What an AUTHENTICATE command does.
pub open spec fn authenticate_spec(
    st: ServerStateView,
    c: ConnectionView,
    param: Seq<char>,
) -> (ConnectionView, Seq<EffectView>, AuthAction) {
    if c.sasl_failures >= MAX_SASL_FAILURES {
        (c, Seq::empty(), AuthAction::Nothing)
    } else if param == "*"@ {
        (
            ConnectionView { sasl_in_progress: false, ..c },
            sasl_fail_fx(st, c, "SASL authentication aborted"@),
            AuthAction::Nothing,
        )
    } else if text::ascii_lower(param) == text::ascii_lower(MECHANISM@) {
        (
            ConnectionView { sasl_in_progress: true, dpop_retries: 0, ..c },
            Seq::empty(),
            AuthAction::Challenge,
        )
    } else if c.sasl_in_progress {
        (c, Seq::empty(), AuthAction::Check)
    } else {
        (c, sasl_fail_fx(st, c, "Unsupported SASL mechanism"@), AuthAction::Nothing)
    }
}

/// Replies that authentication failed.
fn push_sasl_fail(fx: &mut Vec<Effect>, state: &ServerState, conn: &Connection, reason: &str)
    ensures
        final(fx).deep_view() == old(fx).deep_view() + sasl_fail_fx(
            state.deep_view(),
            conn.deep_view(),
            reason@,
        ),
{
    let ghost before = fx.deep_view();
    push_reply(
        fx,
        conn.id.as_str(),
        state.server_name.as_str(),
        irc::ERR_SASLFAIL,
        p2(conn.nick_or_star(), reason),
    );
    assert(fx.deep_view() =~= before + sasl_fail_fx(state.deep_view(), conn.deep_view(), reason@));
}

/// Handles an AUTHENTICATE command with the given parameter.
pub fn handle_authenticate(
    conn: &mut Connection,
    param: &str,
    state: &ServerState,
    fx: &mut Vec<Effect>,
) -> (action: AuthAction)
    ensures
        ({
            let r = authenticate_spec(state.deep_view(), old(conn).deep_view(), param@);
            &&& final(conn).deep_view() == r.0
            &&& final(fx).deep_view() == old(fx).deep_view() + r.1
            &&& action == r.2
        }),
{
    assert(fx.deep_view() + Seq::<EffectView>::empty() =~= fx.deep_view());
    if conn.sasl_failures >= MAX_SASL_FAILURES {
        return AuthAction::Nothing;
    }
    if str_eq(param, "*") {
        push_sasl_fail(fx, state, conn, "SASL authentication aborted");
        conn.sasl_in_progress = false;
        return AuthAction::Nothing;
    }
    if str_eq(to_ascii_lower(param).as_str(), to_ascii_lower(MECHANISM).as_str()) {
        conn.sasl_in_progress = true;
        conn.dpop_retries = 0;
        return AuthAction::Challenge;
    }
    if conn.sasl_in_progress {
        return AuthAction::Check;
    }
    push_sasl_fail(fx, state, conn, "Unsupported SASL mechanism");
    AuthAction::Nothing
}

/// Sends a challenge.
pub fn push_challenge(fx: &mut Vec<Effect>, conn: &Connection, encoded: &str)
    ensures
        final(fx).deep_view() == old(fx).deep_view().push(
            helpers::send_fx(
                conn.deep_view().id,
                irc::wire(irc::plain_msg("AUTHENTICATE"@, seq![encoded@])),
            ),
        ),
{
    let m = Message::new("AUTHENTICATE", helpers::p1(encoded));
    push_send(fx, conn.id.as_str(), m.to_wire());
}

/// Sends a challenge for another try.
pub fn push_retry(fx: &mut Vec<Effect>, conn: &Connection, encoded: &str)
    ensures
        final(fx).deep_view() == old(fx).deep_view().push(
            helpers::send_fx(conn.deep_view().id, "AUTHENTICATE "@ + encoded@ + "\r\n"@),
        ),
{
    let line = Line::new("AUTHENTICATE ").add(encoded).add("\r\n").done();
    push_send(fx, conn.id.as_str(), line);
}

/// What can be said of a response before its proof is looked at: `response` is the method that a
/// readable response names, and `token` the DID and the age in seconds of the web token that it
/// holds.
pub open spec fn response_spec(
    response: Option<Option<Seq<char>>>,
    token: Option<(Seq<char>, u64)>,
    challenged: bool,
) -> Option<SaslOutcomeView> {
    match response {
        None => Some(SaslOutcomeView::BadResponse),
        Some(method) => if !challenged {
            Some(SaslOutcomeView::NoChallenge)
        } else if method == Some(WEB_TOKEN@) {
            match token {
                Some((did, age)) => if age < WEB_TOKEN_SECS {
                    Some(SaslOutcomeView::Verified(did))
                } else {
                    Some(SaslOutcomeView::Rejected("Web auth token expired"@))
                },
                None => Some(SaslOutcomeView::Rejected("Invalid web auth token"@)),
            }
        } else {
            None
        },
    }
}

/// Checks a response as far as this needs no proof; `None` where its proof decides.
pub fn check_response(
    response: &Option<Option<String>>,
    token: &Option<(String, u64)>,
    challenged: bool,
) -> (r: Option<SaslOutcome>)
    ensures
        r.deep_view() == response_spec(response.deep_view(), token.deep_view(), challenged),
{
    match response {
        None => Some(SaslOutcome::BadResponse),
        Some(method) => {
            if !challenged {
                return Some(SaslOutcome::NoChallenge);
            }
            let web = match method {
                Some(m) => str_eq(m.as_str(), WEB_TOKEN),
                None => false,
            };
            if !web {
                return None;
            }
            match token {
                Some((did, age)) => if *age < WEB_TOKEN_SECS {
                    Some(SaslOutcome::Verified(did.clone()))
                } else {
                    Some(SaslOutcome::Rejected("Web auth token expired".to_owned()))
                },
                None => Some(SaslOutcome::Rejected("Invalid web auth token".to_owned())),
            }
        },
    }
}

/// The prefix of a rejection that asks for a fresh DPoP nonce.
pub const DPOP_NONCE: &'static str = "DPOP_NONCE:";

/// What a failed attempt does: it is counted, and the last one closes the connection.
pub open spec fn failure_spec(st: ServerStateView, c: ConnectionView, reason: Seq<char>) -> (
    ServerStateView,
    ConnectionView,
    Seq<EffectView>,
) {
    let failures = (c.sasl_failures + 1) as u8;
    let c2 = ConnectionView { sasl_in_progress: false, sasl_failures: failures, ..c };
    if failures >= MAX_SASL_FAILURES {
        (
            ServerStateView {
                connections: containers::set_remove(st.connections, c.id),
                ..st
            },
            c2,
            sasl_fail_fx(st, c, reason) + seq![
                helpers::send_fx(c.id, "ERROR :Too many SASL failures\r\n"@),
                EffectView::Close { session: c.id },
            ],
        )
    } else {
        (st, c2, sasl_fail_fx(st, c, reason))
    }
}

/// Counts a failed attempt.
fn count_failure(
    conn: &mut Connection,
    reason: &str,
    state: &mut ServerState,
    fx: &mut Vec<Effect>,
)
    requires
        old(conn).sasl_failures < u8::MAX,
    ensures
        ({
            let r = failure_spec(old(state).deep_view(), old(conn).deep_view(), reason@);
            &&& final(state).deep_view() == r.0
            &&& final(conn).deep_view() == r.1
            &&& final(fx).deep_view() == old(fx).deep_view() + r.2
        }),
{
    let ghost before = fx.deep_view();
    let ghost st = state.deep_view();
    let ghost c = conn.deep_view();
    push_sasl_fail(fx, state, conn, reason);
    let failures: u8 = conn.sasl_failures + 1;
    conn.sasl_in_progress = false;
    conn.sasl_failures = failures;
    if failures >= MAX_SASL_FAILURES {
        push_send(fx, conn.id.as_str(), "ERROR :Too many SASL failures\r\n".to_owned());
        push_effect(fx, Effect::Close { session: conn.id.clone() });
        state.connections.remove(conn.id.as_str());
        assert(fx.deep_view() =~= before + (sasl_fail_fx(st, c, reason@) + seq![
            helpers::send_fx(c.id, "ERROR :Too many SASL failures\r\n"@),
            EffectView::Close { session: c.id },
        ]));
    }
}

/// The nick becomes the DID's own.
pub open spec fn nick_bound(st: ServerStateView, c: ConnectionView, did: Seq<char>) -> (
    ServerStateView,
    Seq<EffectView>,
) {
    match c.nick {
        Some(nick) => {
            let lower = text::lowercase(nick);
            (
                ServerStateView {
                    did_nicks: containers::map_put(st.did_nicks, did, lower),
                    nick_owners: containers::map_put(st.nick_owners, lower, did),
                    ..st
                },
                seq![
                    EffectView::Crdt(CrdtOpView::SetNickOwner { nick: lower, did }),
                    EffectView::Store(StoreOpView::SaveIdentity { did, nick: lower }),
                ],
            )
        },
        None => (st, Seq::empty()),
    }
}

/// Binds the nick to the DID.
fn bind_nick(conn: &Connection, did: &str, state: &mut ServerState, fx: &mut Vec<Effect>)
    ensures
        ({
            let r = nick_bound(old(state).deep_view(), conn.deep_view(), did@);
            &&& final(state).deep_view() == r.0
            &&& final(fx).deep_view() == old(fx).deep_view() + r.1
        }),
{
    let ghost before = fx.deep_view();
    match &conn.nick {
        Some(nick) => {
            let lower = to_lowercase(nick.as_str());
            state.did_nicks.insert(did.to_owned(), lower.clone());
            state.nick_owners.insert(lower.clone(), did.to_owned());
            push_crdt(fx, CrdtOp::SetNickOwner { nick: lower.clone(), did: did.to_owned() });
            push_store(fx, StoreOp::SaveIdentity { did: did.to_owned(), nick: lower.clone() });
            assert(fx.deep_view() =~= before + seq![
                EffectView::Crdt(CrdtOpView::SetNickOwner { nick: lower@, did: did@ }),
                EffectView::Store(StoreOpView::SaveIdentity { did: did@, nick: lower@ }),
            ]);
        },
        None => {
            assert(fx.deep_view() + Seq::<EffectView>::empty() =~= fx.deep_view());
        },
    }
}

/// A DID from the configuration is a server operator.
pub open spec fn oper_spec(st: ServerStateView, c: ConnectionView, did: Seq<char>) -> (
    ServerStateView,
    ConnectionView,
    Seq<EffectView>,
) {
    if st.oper_dids.contains(did) {
        (
            ServerStateView { server_opers: containers::set_insert(st.server_opers, c.id), ..st },
            ConnectionView { is_oper: true, ..c },
            seq![helpers::reply_fx(c.id, st.server_name, "MODE"@, seq![c.nick_or_star(), "+o"@])],
        )
    } else {
        (st, c, Seq::empty())
    }
}

/// Makes a DID from the configuration a server operator.
fn grant_oper(conn: &mut Connection, did: &str, state: &mut ServerState, fx: &mut Vec<Effect>)
    ensures
        ({
            let r = oper_spec(old(state).deep_view(), old(conn).deep_view(), did@);
            &&& final(state).deep_view() == r.0
            &&& final(conn).deep_view() == r.1
            &&& final(fx).deep_view() == old(fx).deep_view() + r.2
        }),
{
    assert(fx.deep_view() + Seq::<EffectView>::empty() =~= fx.deep_view());
    if !list_contains(&state.oper_dids, did) {
        return;
    }
    push_reply(
        fx,
        conn.id.as_str(),
        state.server_name.as_str(),
        "MODE",
        p2(conn.nick_or_star(), "+o"),
    );
    state.server_opers.insert(conn.id.clone());
    conn.is_oper = true;
}

/// What a user is told who has authenticated.
pub open spec fn logged_in_fx(st: ServerStateView, c: ConnectionView, did: Seq<char>) -> Seq<
    EffectView,
> {
    let nick = c.nick_or_star();
    seq![
        helpers::reply_fx(
            c.id,
            st.server_name,
            irc::RPL_LOGGEDIN@,
            seq![nick, c.hostmask(), did, "You are now logged in as "@ + did],
        ),
        helpers::reply_fx(
            c.id,
            st.server_name,
            irc::RPL_SASLSUCCESS@,
            seq![nick, "SASL authentication successful"@],
        ),
        EffectView::AccountNotify { session: c.id, nick, did },
    ]
}

/// Tells a user that it has authenticated.
fn push_logged_in(fx: &mut Vec<Effect>, state: &ServerState, conn: &Connection, did: &str)
    ensures
        final(fx).deep_view() == old(fx).deep_view() + logged_in_fx(
            state.deep_view(),
            conn.deep_view(),
            did@,
        ),
{
    let ghost before = fx.deep_view();
    let nick = conn.nick_or_star();
    let host = conn.hostmask();
    let note = Line::new("You are now logged in as ").add(did).done();
    push_reply(
        fx,
        conn.id.as_str(),
        state.server_name.as_str(),
        irc::RPL_LOGGEDIN,
        p4(nick, host.as_str(), did, note.as_str()),
    );
    push_reply(
        fx,
        conn.id.as_str(),
        state.server_name.as_str(),
        irc::RPL_SASLSUCCESS,
        p2(nick, "SASL authentication successful"),
    );
    push_effect(
        fx,
        Effect::AccountNotify {
            session: conn.id.clone(),
            nick: nick.to_owned(),
            did: did.to_owned(),
        },
    );
    assert(fx.deep_view() =~= before + logged_in_fx(state.deep_view(), conn.deep_view(), did@));
}

/// What a right response does: the connection belongs to the DID from now on, shares the channels
/// of its other sessions, and holds its nick.
pub open spec fn success_spec(st: ServerStateView, c: ConnectionView, did: Seq<char>) -> (
    ServerStateView,
    ConnectionView,
    Seq<EffectView>,
) {
    let att = registration::attach_spec(
        ServerStateView { session_dids: containers::map_put(st.session_dids, c.id, did), ..st },
        ConnectionView { authenticated_did: Some(did), sasl_in_progress: false, ..c },
    );
    let bound = nick_bound(att.0, att.1, did);
    let oper = oper_spec(bound.0, att.1, did);
    (
        oper.0,
        oper.1,
        att.2 + bound.1 + seq![
            EffectView::ResolveHandle {
                did,
                session: att.1.id,
                nick: text::or_default(att.1.nick, ""@),
            },
        ] + oper.2 + logged_in_fx(oper.0, oper.1, did),
    )
}

/// Takes over the DID of a right response.
fn log_in(conn: &mut Connection, did: &str, state: &mut ServerState, fx: &mut Vec<Effect>)
    ensures
        ({
            let r = success_spec(old(state).deep_view(), old(conn).deep_view(), did@);
            &&& final(state).deep_view() == r.0
            &&& final(conn).deep_view() == r.1
            &&& final(fx).deep_view() == old(fx).deep_view() + r.2
        }),
{
    broadcast use helpers::lemma_push_after, helpers::lemma_add_after;

    conn.authenticated_did = Some(did.to_owned());
    conn.sasl_in_progress = false;
    state.session_dids.insert(conn.id.clone(), did.to_owned());
    attach_same_did(conn, state, fx);
    bind_nick(conn, did, state, fx);
    push_effect(
        fx,
        Effect::ResolveHandle {
            did: did.to_owned(),
            session: conn.id.clone(),
            nick: opt_str_or(&conn.nick, "").to_owned(),
        },
    );
    grant_oper(conn, did, state, fx);
    push_logged_in(fx, state, conn, did);
}

/// What a wrong response does.
pub open spec fn rejection_spec(st: ServerStateView, c: ConnectionView, reason: Seq<char>) -> (
    ServerStateView,
    ConnectionView,
    Seq<EffectView>,
    AuthAction,
) {
    match text::strip_prefix_spec(reason, DPOP_NONCE@) {
        Some(nonce) => {
            let retries = (c.dpop_retries + 1) as u8;
            let c2 = ConnectionView { dpop_retries: retries, ..c };
            if retries > MAX_DPOP_RETRIES {
                let f = failure_spec(
                    st,
                    c2,
                    "SASL authentication failed (DPoP nonce retry limit exceeded)"@,
                );
                (f.0, f.1, f.2, AuthAction::Nothing)
            } else {
                (
                    st,
                    c2,
                    seq![
                        helpers::send_fx(
                            c.id,
                            ":"@ + st.server_name + " NOTICE "@ + c.nick_or_star()
                                + " :DPOP_NONCE "@ + nonce + "\r\n"@,
                        ),
                    ],
                    AuthAction::Retry,
                )
            }
        },
        None => {
            let f = failure_spec(st, c, "SASL authentication failed"@);
            (f.0, f.1, f.2, AuthAction::Nothing)
        },
    }
}

/// Deals with a wrong response.
fn reject(
    conn: &mut Connection,
    reason: &str,
    state: &mut ServerState,
    fx: &mut Vec<Effect>,
) -> (action: AuthAction)
    requires
        old(conn).sasl_failures < u8::MAX,
        old(conn).dpop_retries < u8::MAX,
    ensures
        ({
            let r = rejection_spec(old(state).deep_view(), old(conn).deep_view(), reason@);
            &&& final(state).deep_view() == r.0
            &&& final(conn).deep_view() == r.1
            &&& final(fx).deep_view() == old(fx).deep_view() + r.2
            &&& action == r.3
        }),
{
    match strip_prefix(reason, DPOP_NONCE) {
        Some(nonce) => {
            let retries: u8 = conn.dpop_retries + 1;
            conn.dpop_retries = retries;
            if retries > MAX_DPOP_RETRIES {
                count_failure(
                    conn,
                    "SASL authentication failed (DPoP nonce retry limit exceeded)",
                    state,
                    fx,
                );
                AuthAction::Nothing
            } else {
                let line = Line::new(":").add(state.server_name.as_str()).add(" NOTICE ").add(
                    conn.nick_or_star(),
                ).add(" :DPOP_NONCE ").add(nonce.as_str()).add("\r\n").done();
                push_send(fx, conn.id.as_str(), line);
                AuthAction::Retry
            }
        },
        None => {
            count_failure(conn, "SASL authentication failed", state, fx);
            AuthAction::Nothing
        },
    }
}

/// What the outcome of a response does.
pub open spec fn outcome_spec(st: ServerStateView, c: ConnectionView, o: SaslOutcomeView) -> (
    ServerStateView,
    ConnectionView,
    Seq<EffectView>,
    AuthAction,
) {
    match o {
        SaslOutcomeView::BadResponse => (
            st,
            ConnectionView { sasl_in_progress: false, ..c },
            sasl_fail_fx(st, c, "SASL authentication failed (bad response)"@),
            AuthAction::Nothing,
        ),
        SaslOutcomeView::NoChallenge => (
            st,
            ConnectionView { sasl_in_progress: false, ..c },
            sasl_fail_fx(st, c, "SASL authentication failed (no challenge)"@),
            AuthAction::Nothing,
        ),
        SaslOutcomeView::Verified(did) => {
            let r = success_spec(st, c, did);
            (r.0, r.1, r.2, AuthAction::Nothing)
        },
        SaslOutcomeView::Rejected(reason) => rejection_spec(st, c, reason),
    }
}

/// Goes on once it is known what became of a response.
pub fn conclude_authenticate(
    conn: &mut Connection,
    outcome: &SaslOutcome,
    state: &mut ServerState,
    fx: &mut Vec<Effect>,
) -> (action: AuthAction)
    requires
        old(conn).sasl_failures < MAX_SASL_FAILURES,
        old(conn).dpop_retries < u8::MAX,
    ensures
        ({
            let r = outcome_spec(
                old(state).deep_view(),
                old(conn).deep_view(),
                outcome.deep_view(),
            );
            &&& final(state).deep_view() == r.0
            &&& final(conn).deep_view() == r.1
            &&& final(fx).deep_view() == old(fx).deep_view() + r.2
            &&& action == r.3
        }),
{
    match outcome {
        SaslOutcome::BadResponse => {
            push_sasl_fail(fx, state, conn, "SASL authentication failed (bad response)");
            conn.sasl_in_progress = false;
            AuthAction::Nothing
        },
        SaslOutcome::NoChallenge => {
            push_sasl_fail(fx, state, conn, "SASL authentication failed (no challenge)");
            conn.sasl_in_progress = false;
            AuthAction::Nothing
        },
        SaslOutcome::Verified(did) => {
            log_in(conn, did.as_str(), state, fx);
            AuthAction::Nothing
        },
        SaslOutcome::Rejected(reason) => reject(conn, reason.as_str(), state, fx),
    }
}

// ── Handles ─────────────────────────────────────────────────────────

/// The first handle among the other names of a DID.
pub open spec fn first_handle(names: Seq<Seq<char>>) -> Option<Seq<char>>
    decreases names.len(),
{
    if names.len() == 0 {
        None
    } else {
        match text::strip_prefix_spec(names[0], "at://"@) {
            Some(h) => Some(h),
            None => first_handle(names.skip(1)),
        }
    }
}

/// The first handle among the other names of a DID.
pub fn find_handle(names: &Vec<String>) -> (r: Option<String>)
    ensures
        r.deep_view() == first_handle(names.deep_view()),
{
    let ghost all = names.deep_view();
    let mut found: Option<String> = None;
    let mut i: usize = 0;
    assert(all.skip(0) =~= all);
    while i < names.len()
        invariant_except_break
            i <= all.len(),
            all == names.deep_view(),
            names@.len() == all.len(),
            found is None,
            first_handle(all.skip(i as int)) == first_handle(all),
        ensures
            found.deep_view() == first_handle(all),
        decreases all.len() - i,
    {
        assert(all.skip(i as int).skip(1) =~= all.skip(i + 1));
        let h = strip_prefix(names[i].as_str(), "at://");
        if h.is_some() {
            found = h;
            break;
        }
        i = i + 1;
    }
    found
}

/// What is known of a session once the document of its DID has been looked up.
pub open spec fn handle_spec(
    st: ServerStateView,
    did: Seq<char>,
    session: Seq<char>,
    nick: Seq<char>,
    names: Seq<Seq<char>>,
) -> (ServerStateView, Seq<EffectView>) {
    let handle = first_handle(names);
    (
        match handle {
            Some(h) => ServerStateView {
                session_handles: containers::map_put(st.session_handles, session, h),
                ..st
            },
            None => st,
        },
        seq![
            EffectView::Plugin(
                PluginEventView::Auth { nick, did, handle, session_id: session },
            ),
        ],
    )
}

/// Notes the handle of a session. `names` are the other names of its DID; none where its document
/// cannot be had.
pub fn handle_resolved(
    did: &str,
    session: &str,
    nick: &str,
    names: &Vec<String>,
    state: &mut ServerState,
    fx: &mut Vec<Effect>,
)
    ensures
        ({
            let r = handle_spec(
                old(state).deep_view(),
                did@,
                session@,
                nick@,
                names.deep_view(),
            );
            &&& final(state).deep_view() == r.0
            &&& final(fx).deep_view() == old(fx).deep_view() + r.1
        }),
{
    let handle = find_handle(names);
    if let Some(h) = &handle {
        state.session_handles.insert(session.to_owned(), h.clone());
    }
    helpers::push_plugin(
        fx,
        PluginEvent::Auth {
            nick: nick.to_owned(),
            did: did.to_owned(),
            handle,
            session_id: session.to_owned(),
        },
    );
}

/// The state once a plugin has given a session another DID or another handle.
pub open spec fn override_spec(
    st: ServerStateView,
    session: Seq<char>,
    did: Option<Seq<char>>,
    handle: Option<Seq<char>>,
) -> ServerStateView {
    ServerStateView {
        session_dids: match did {
            Some(d) => containers::map_put(st.session_dids, session, d),
            None => st.session_dids,
        },
        session_handles: match handle {
            Some(h) => containers::map_put(st.session_handles, session, h),
            None => st.session_handles,
        },
        ..st
    }
}

/// Takes over the DID and the handle that a plugin gives a session.
pub fn override_identity(
    state: &mut ServerState,
    session: &str,
    did: &Option<String>,
    handle: &Option<String>,
)
    ensures
        final(state).deep_view() == override_spec(
            old(state).deep_view(),
            session@,
            did.deep_view(),
            handle.deep_view(),
        ),
{
    if let Some(d) = did {
        state.session_dids.insert(session.to_owned(), d.clone());
    }
    if let Some(h) = handle {
        state.session_handles.insert(session.to_owned(), h.clone());
    }
}

} // verus!
