//! The smaller commands: pins, signing keys, questions about the server and its users, operators.
use super::cloaked_host_for_did;
use super::helpers;
use super::helpers::{p1, p2, p3, p4, push_multicast, push_reply, push_send};
use super::{Connection, ConnectionView};
use crate::containers;
use crate::containers::StrMap;
use crate::crypto;
use crate::crypto::{array32, base64url_decode, is_ed25519_key};
use crate::irc;
use crate::server;
use crate::server::{ChannelState, ChannelStateView, Effect, EffectView, PinnedMessage,
    PinnedMessageView, ServerState, ServerStateView, MAX_PINS,
};
use crate::text;
use crate::text::{decimal, join, str_eq, Line};
use crate::time;
use crate::time::format_clock;
use vstd::prelude::*;

verus! {

broadcast use vstd::string::group_string_axioms;

// ── Pins ────────────────────────────────────────────────────────────

/// Whether a message is pinned.
pub open spec fn has_pin(pins: Seq<PinnedMessageView>, msgid: Seq<char>) -> bool {
    exists|i: int| 0 <= i < pins.len() && (#[trigger] pins[i]).msgid == msgid
}

/// The pins with one more in front; the oldest go where there are too many.
pub open spec fn with_pin(pins: Seq<PinnedMessageView>, pin: PinnedMessageView) -> Seq<
    PinnedMessageView,
> {
    let all = seq![pin] + pins;
    if all.len() > MAX_PINS {
        all.take(MAX_PINS as int)
    } else {
        all
    }
}

/// The pins without those of a message.
pub open spec fn without_pin(pins: Seq<PinnedMessageView>, msgid: Seq<char>) -> Seq<
    PinnedMessageView,
> {
    pins.filter(|p: PinnedMessageView| p.msgid != msgid)
}

/// What a channel is told of a pin.
pub open spec fn pin_line(nick: Seq<char>, channel: Seq<char>, what: Seq<char>) -> Seq<char> {
    ":"@ + nick + "!~u@host NOTICE "@ + channel + " :\x01ACTION "@ + what + " a message\x01\r\n"@
}

/// A notice of the server for the user.
pub open spec fn notice_fx(st: ServerStateView, c: ConnectionView, note: Seq<char>) -> Seq<
    EffectView,
> {
    seq![helpers::reply_fx(c.id, st.server_name, "NOTICE"@, seq![c.nick_or_star(), note])]
}

/// What a PIN (`pin`) or an UNPIN command for a channel does.
pub open spec fn pin_spec(
    st: ServerStateView,
    c: ConnectionView,
    channel: Seq<char>,
    msgid: Seq<char>,
    pin: bool,
    now: u64,
) -> (ServerStateView, Seq<EffectView>) {
    if !st.is_op(channel, c.id) && !st.server_opers.contains(c.id) {
        helpers::refuse(
            st,
            c,
            irc::ERR_CHANOPRIVSNEEDED@,
            seq![c.nick_or_star(), channel, "You're not channel operator"@],
        )
    } else {
        match st.channel(channel) {
            None => (st, Seq::empty()),
            Some(ch) => if pin {
                if has_pin(ch.pins, msgid) {
                    (
                        st,
                        notice_fx(
                            st,
                            c,
                            "Message "@ + msgid + " is already pinned in "@ + channel,
                        ),
                    )
                } else {
                    (
                        pinned(st, channel, ch, msgid, c.nick_or_star(), now),
                        helpers::multicast_fx(
                            ch.members,
                            pin_line(c.nick_or_star(), channel, "pinned"@),
                        ),
                    )
                }
            } else if has_pin(ch.pins, msgid) {
                (
                    unpinned(st, channel, ch, msgid),
                    helpers::multicast_fx(
                        ch.members,
                        pin_line(c.nick_or_star(), channel, "unpinned"@),
                    ),
                )
            } else {
                (
                    st,
                    notice_fx(st, c, "Message "@ + msgid + " is not pinned in "@ + channel),
                )
            },
        }
    }
}

/// The state in which a message is pinned.
pub open spec fn pinned(
    st: ServerStateView,
    channel: Seq<char>,
    ch: ChannelStateView,
    msgid: Seq<char>,
    pinned_by: Seq<char>,
    pinned_at: u64,
) -> ServerStateView {
    st.with_channel(
        channel,
        ChannelStateView {
            pins: with_pin(ch.pins, PinnedMessageView { msgid, pinned_by, pinned_at }),
            ..ch
        },
    )
}

/// The state in which a message is not pinned.
pub open spec fn unpinned(
    st: ServerStateView,
    channel: Seq<char>,
    ch: ChannelStateView,
    msgid: Seq<char>,
) -> ServerStateView {
    st.with_channel(channel, ChannelStateView { pins: without_pin(ch.pins, msgid), ..ch })
}

/// Whether a message is pinned.
fn find_pin(pins: &Vec<PinnedMessage>, msgid: &str) -> (b: bool)
    ensures
        b == has_pin(pins.deep_view(), msgid@),
{
    let ghost all = pins.deep_view();
    let mut found = false;
    let mut i: usize = 0;
    while i < pins.len() && !found
        invariant
            i <= all.len(),
            all == pins.deep_view(),
            pins@.len() == all.len(),
            found ==> has_pin(all, msgid@),
            !found ==> forall|j: int| 0 <= j < i ==> (#[trigger] all[j]).msgid != msgid@,
        decreases all.len() - i,
    {
        assert(all[i as int] == pins@[i as int].deep_view());
        if str_eq(pins[i].msgid.as_str(), msgid) {
            found = true;
        }
        i = i + 1;
    }
    found
}

/// Pins a message.
fn add_pin(pins: &mut Vec<PinnedMessage>, pin: PinnedMessage)
    ensures
        final(pins).deep_view() == with_pin(old(pins).deep_view(), pin.deep_view()),
{
    let ghost before = pins.deep_view();
    pins.insert(0, pin);
    assert(pins.deep_view() =~= seq![pin.deep_view()] + before);
    let ghost all = pins.deep_view();
    if pins.len() > MAX_PINS {
        pins.truncate(MAX_PINS);
        assert(pins.deep_view() =~= all.take(MAX_PINS as int));
    }
}

/// Takes a message out of the pins.
fn remove_pin(pins: &mut Vec<PinnedMessage>, msgid: &str)
    ensures
        final(pins).deep_view() == without_pin(old(pins).deep_view(), msgid@),
{
    let ghost all = pins.deep_view();
    let ghost keep = |p: PinnedMessageView| p.msgid != msgid@;
    let ghost mut seen: int = 0;
    let mut i: usize = 0;
    assert(all.take(0).filter(keep) =~= Seq::<PinnedMessageView>::empty()) by {
        reveal(Seq::filter);
    }
    assert(pins.deep_view() =~= all.take(0).filter(keep) + all.skip(0));
    while i < pins.len()
        invariant
            0 <= seen <= all.len(),
            keep == (|p: PinnedMessageView| p.msgid != msgid@),
            i == all.take(seen).filter(keep).len(),
            pins.deep_view() == all.take(seen).filter(keep) + all.skip(seen),
        decreases all.len() - seen,
    {
        let ghost done = all.take(seen).filter(keep);
        let ghost cur = pins.deep_view();
        assert(cur.len() == pins@.len());
        assert(seen < all.len());
        assert(cur[i as int] == all[seen]);
        assert(cur[i as int] == pins@[i as int].deep_view());
        assert(all.take(seen + 1).drop_last() =~= all.take(seen));
        reveal(Seq::filter);
        if str_eq(pins[i].msgid.as_str(), msgid) {
            let gone = pins.remove(i);
            assert(pins.deep_view() =~= cur.remove(i as int));
            assert(pins.deep_view() =~= done + all.skip(seen + 1));
        } else {
            i = i + 1;
            assert(cur =~= done.push(all[seen]) + all.skip(seen + 1));
        }
        proof {
            seen = seen + 1;
        }
    }
    assert(all.take(seen) =~= all);
    assert(pins.deep_view() =~= all.filter(keep));
}

/// Sends the user a notice of the server.
pub fn push_notice(fx: &mut Vec<Effect>, state: &ServerState, conn: &Connection, note: &str)
    ensures
        final(fx).deep_view() == old(fx).deep_view() + notice_fx(
            state.deep_view(),
            conn.deep_view(),
            note@,
        ),
{
    let ghost before = fx.deep_view();
    push_reply(
        fx,
        conn.id.as_str(),
        state.server_name.as_str(),
        "NOTICE",
        p2(conn.nick_or_star(), note),
    );
    assert(fx.deep_view() =~= before + notice_fx(state.deep_view(), conn.deep_view(), note@));
}

/// Tells a channel of a pin.
fn push_pin_line(fx: &mut Vec<Effect>, state: &ServerState, conn: &Connection, channel: &str, what: &str)
    ensures
        final(fx).deep_view() == old(fx).deep_view() + helpers::multicast_fx(
            state.deep_view().members(channel@),
            pin_line(conn.deep_view().nick_or_star(), channel@, what@),
        ),
{
    let line = Line::new(":").add(conn.nick_or_star()).add("!~u@host NOTICE ").add(channel).add(
        " :\x01ACTION ",
    ).add(what).add(" a message\x01\r\n").done();
    let to = state.members(channel);
    push_multicast(fx, &to, line.as_str());
}

/// Handles a PIN (`pin`) or an UNPIN command for a channel.
pub fn handle_pin(
    conn: &Connection,
    channel: &str,
    msgid: &str,
    pin: bool,
    now: u64,
    state: &mut ServerState,
    fx: &mut Vec<Effect>,
)
    ensures
        ({
            let r = pin_spec(
                old(state).deep_view(),
                conn.deep_view(),
                channel@,
                msgid@,
                pin,
                now,
            );
            &&& final(state).deep_view() == r.0
            &&& final(fx).deep_view() == old(fx).deep_view() + r.1
        }),
{
    assert(fx.deep_view() + Seq::<EffectView>::empty() =~= fx.deep_view());
    if !state.is_op(channel, conn.id.as_str()) && !state.server_opers.contains(conn.id.as_str()) {
        push_reply(
            fx,
            conn.id.as_str(),
            state.server_name.as_str(),
            irc::ERR_CHANOPRIVSNEEDED,
            p3(conn.nick_or_star(), channel, "You're not channel operator"),
        );
        return;
    }
    let is_pinned = match state.channels.get(channel) {
        Some(ch) => find_pin(&ch.pins, msgid),
        None => {
            return;
        },
    };
    if pin && is_pinned {
        let note = Line::new("Message ").add(msgid).add(" is already pinned in ").add(
            channel,
        ).done();
        push_notice(fx, state, conn, note.as_str());
    } else if pin {
        push_pin_line(fx, state, conn, channel, "pinned");
        let entry = PinnedMessage {
            msgid: msgid.to_owned(),
            pinned_by: conn.nick_or_star().to_owned(),
            pinned_at: now,
        };
        if let Some(ch) = state.channels.get_mut(channel) {
            add_pin(&mut ch.pins, entry);
        }
    } else if is_pinned {
        push_pin_line(fx, state, conn, channel, "unpinned");
        if let Some(ch) = state.channels.get_mut(channel) {
            remove_pin(&mut ch.pins, msgid);
        }
    } else {
        let note = Line::new("Message ").add(msgid).add(" is not pinned in ").add(channel).done();
        push_notice(fx, state, conn, note.as_str());
    }
}

/// The notice that lists a pin.
pub open spec fn pin_note(channel: Seq<char>, p: PinnedMessageView) -> Seq<char> {
    "PIN "@ + channel + " "@ + p.msgid + " "@ + p.pinned_by + " "@ + text::decimal_spec(
        p.pinned_at as nat,
    )
}

/// What a PINS command for a channel is answered.
pub open spec fn pins_fx(st: ServerStateView, c: ConnectionView, channel: Seq<char>) -> Seq<
    EffectView,
> {
    match st.channel(channel) {
        None => Seq::empty(),
        Some(ch) => if ch.pins.len() == 0 {
            notice_fx(st, c, "No pinned messages in "@ + channel)
        } else {
            ch.pins.map_values(|p: PinnedMessageView| pin_fx(st, c, channel, p))
        },
    }
}

/// The notice for one pin.
pub open spec fn pin_fx(
    st: ServerStateView,
    c: ConnectionView,
    channel: Seq<char>,
    p: PinnedMessageView,
) -> EffectView {
    helpers::reply_fx(
        c.id,
        st.server_name,
        "NOTICE"@,
        seq![c.nick_or_star(), pin_note(channel, p)],
    )
}

/// Handles a PINS command for a channel.
pub fn handle_pins(conn: &Connection, channel: &str, state: &ServerState, fx: &mut Vec<Effect>)
    ensures
        final(fx).deep_view() == old(fx).deep_view() + pins_fx(
            state.deep_view(),
            conn.deep_view(),
            channel@,
        ),
{
    let ghost before = fx.deep_view();
    let ghost st = state.deep_view();
    let ghost c = conn.deep_view();
    assert(before + Seq::<EffectView>::empty() =~= before);
    if let Some(ch) = state.channels.get(channel) {
        let ghost all = ch.pins.deep_view();
        assert(all.len() == ch.pins@.len());
        if ch.pins.len() == 0 {
            let note = Line::new("No pinned messages in ").add(channel).done();
            push_notice(fx, state, conn, note.as_str());
        } else {
            let ghost f = |p: PinnedMessageView| pin_fx(st, c, channel@, p);
            let mut i: usize = 0;
            assert(before + all.take(0).map_values(f) =~= before);
            while i < ch.pins.len()
                invariant
                    i <= all.len(),
                    all == ch.pins.deep_view(),
                    all.len() == ch.pins@.len(),
                    st == state.deep_view(),
                    c == conn.deep_view(),
                    f == (|p: PinnedMessageView| pin_fx(st, c, channel@, p)),
                    fx.deep_view() == before + all.take(i as int).map_values(f),
                decreases all.len() - i,
            {
                let p = &ch.pins[i];
                let ghost prev = fx.deep_view();
                assert(all[i as int] == p.deep_view());
                let note = Line::new("PIN ").add(channel).add(" ").add(p.msgid.as_str()).add(
                    " ",
                ).add(p.pinned_by.as_str()).add(" ").add(
                    decimal(p.pinned_at as u128).as_str(),
                ).done();
                push_reply(
                    fx,
                    conn.id.as_str(),
                    state.server_name.as_str(),
                    "NOTICE",
                    p2(conn.nick_or_star(), note.as_str()),
                );
                assert(fx.deep_view() == prev.push(f(all[i as int])));
                i = i + 1;
                assert(fx.deep_view() =~= before + all.take(i as int).map_values(f));
            }
            assert(all.take(i as int) =~= all);
        }
    }
}

// ── Signing keys ────────────────────────────────────────────────────

/// A FAIL reply to a MSGSIG command.
pub open spec fn msgsig_fail(
    st: ServerStateView,
    c: ConnectionView,
    code: Seq<char>,
    reason: Seq<char>,
) -> (ServerStateView, Seq<EffectView>) {
    (
        st,
        seq![
            helpers::reply_fx(c.id, st.server_name, "FAIL"@, seq!["MSGSIG"@, code, reason]),
        ],
    )
}

/// What a MSGSIG command does that hands over a key as base64url text; `decoded` is the bytes of
/// that text, and `valid` tells whether they are a key.
pub open spec fn msgsig_key_spec(
    st: ServerStateView,
    c: ConnectionView,
    did: Seq<char>,
    key: Seq<char>,
    decoded: Option<Seq<u8>>,
    valid: bool,
) -> (ServerStateView, Seq<EffectView>) {
    match decoded {
        Some(bytes) => if bytes.len() != 32 {
            msgsig_fail(
                st,
                c,
                "INVALID_KEY"@,
                "Expected 32-byte base64url-encoded ed25519 public key"@,
            )
        } else if valid {
            (
                ServerStateView {
                    session_msg_keys: containers::map_put(st.session_msg_keys, c.id, bytes),
                    did_msg_keys: containers::map_put(st.did_msg_keys, did, key),
                    ..st
                },
                seq![helpers::reply_fx(c.id, st.server_name, "MSGSIG"@, seq!["OK"@])],
            )
        } else {
            msgsig_fail(st, c, "INVALID_KEY"@, "Invalid ed25519 public key"@)
        },
        None => msgsig_fail(
            st,
            c,
            "INVALID_KEY"@,
            "Expected 32-byte base64url-encoded ed25519 public key"@,
        ),
    }
}

/// What a MSGSIG command does.
pub open spec fn msgsig_spec(st: ServerStateView, c: ConnectionView, key: Option<Seq<char>>) -> (
    ServerStateView,
    Seq<EffectView>,
) {
    match c.authenticated_did {
        None => msgsig_fail(
            st,
            c,
            "NOT_AUTHENTICATED"@,
            "Must be DID-authenticated to register a signing key"@,
        ),
        Some(did) => match key {
            Some(k) => {
                let decoded = crypto::base64url_decoded(k);
                msgsig_key_spec(
                    st,
                    c,
                    did,
                    k,
                    decoded,
                    crypto::ed25519_is_key(decoded->0),
                )
            },
            None => (st, Seq::empty()),
        },
    }
}

/// Refuses a MSGSIG command.
fn push_msgsig_fail(
    fx: &mut Vec<Effect>,
    state: &ServerState,
    conn: &Connection,
    code: &str,
    reason: &str,
)
    ensures
        final(fx).deep_view() == old(fx).deep_view() + msgsig_fail(
            state.deep_view(),
            conn.deep_view(),
            code@,
            reason@,
        ).1,
{
    push_reply(
        fx,
        conn.id.as_str(),
        state.server_name.as_str(),
        "FAIL",
        p3("MSGSIG", code, reason),
    );
}

/// Registers a key for signing messages, once it has been decoded and checked.
pub fn register_key(
    conn: &Connection,
    did: &str,
    key: &str,
    decoded: &Option<Vec<u8>>,
    valid: bool,
    state: &mut ServerState,
    fx: &mut Vec<Effect>,
)
    ensures
        ({
            let r = msgsig_key_spec(
                old(state).deep_view(),
                conn.deep_view(),
                did@,
                key@,
                decoded.deep_view(),
                valid,
            );
            &&& final(state).deep_view() == r.0
            &&& final(fx).deep_view() == old(fx).deep_view() + r.1
        }),
{
    let bytes = match decoded {
        Some(b) => {
            assert(b.deep_view() =~= b@);
            array32(b)
        },
        None => None,
    };
    match bytes {
        Some(a) => {
            assert(a.deep_view() =~= a@);
            if valid {
                push_reply(
                    fx,
                    conn.id.as_str(),
                    state.server_name.as_str(),
                    "MSGSIG",
                    p1("OK"),
                );
                state.session_msg_keys.insert(conn.id.clone(), a);
                state.did_msg_keys.insert(did.to_owned(), key.to_owned());
            } else {
                push_msgsig_fail(fx, state, conn, "INVALID_KEY", "Invalid ed25519 public key");
            }
        },
        None => {
            push_msgsig_fail(
                fx,
                state,
                conn,
                "INVALID_KEY",
                "Expected 32-byte base64url-encoded ed25519 public key",
            );
        },
    }
}

/// Handles a MSGSIG command.
pub fn handle_msgsig(
    conn: &Connection,
    key: Option<&str>,
    state: &mut ServerState,
    fx: &mut Vec<Effect>,
)
    ensures
        ({
            let r = msgsig_spec(old(state).deep_view(), conn.deep_view(), key.deep_view());
            &&& final(state).deep_view() == r.0
            &&& final(fx).deep_view() == old(fx).deep_view() + r.1
        }),
{
    assert(fx.deep_view() + Seq::<EffectView>::empty() =~= fx.deep_view());
    match &conn.authenticated_did {
        None => {
            push_msgsig_fail(
                fx,
                state,
                conn,
                "NOT_AUTHENTICATED",
                "Must be DID-authenticated to register a signing key",
            );
        },
        Some(did) => {
            if let Some(k) = key {
                let decoded = base64url_decode(k);
                let valid = match &decoded {
                    Some(b) => {
                        assert(b.deep_view() =~= b@);
                        match array32(b) {
                            Some(a) => is_ed25519_key(&a),
                            None => false,
                        }
                    },
                    None => false,
                };
                register_key(conn, did.as_str(), k, &decoded, valid, state, fx);
            }
        },
    }
}

// ── Questions ───────────────────────────────────────────────────────

/// One reply of the server for the user.
pub open spec fn one_reply(
    st: ServerStateView,
    c: ConnectionView,
    command: Seq<char>,
    params: Seq<Seq<char>>,
) -> Seq<EffectView> {
    seq![helpers::reply_fx(c.id, st.server_name, command, params)]
}

/// Handles a PING command.
pub fn handle_ping(conn: &Connection, token: &str, state: &ServerState, fx: &mut Vec<Effect>)
    ensures
        final(fx).deep_view() == old(fx).deep_view() + one_reply(
            state.deep_view(),
            conn.deep_view(),
            "PONG"@,
            seq![state.deep_view().server_name, token@],
        ),
{
    push_reply(
        fx,
        conn.id.as_str(),
        state.server_name.as_str(),
        "PONG",
        p2(state.server_name.as_str(), token),
    );
}

/// Handles a MODE command for a user.
pub fn handle_user_mode(conn: &Connection, state: &ServerState, fx: &mut Vec<Effect>)
    ensures
        final(fx).deep_view() == old(fx).deep_view() + one_reply(
            state.deep_view(),
            conn.deep_view(),
            "221"@,
            seq![conn.deep_view().nick_or_star(), "+"@],
        ),
{
    push_reply(
        fx,
        conn.id.as_str(),
        state.server_name.as_str(),
        "221",
        p2(conn.nick_or_star(), "+"),
    );
}

/// Handles a VERSION command.
pub fn handle_version(conn: &Connection, state: &ServerState, fx: &mut Vec<Effect>)
    ensures
        final(fx).deep_view() == old(fx).deep_view() + one_reply(
            state.deep_view(),
            conn.deep_view(),
            irc::RPL_VERSION@,
            seq![
                conn.deep_view().nick_or_star(),
                "freeq-0.1.0"@,
                state.deep_view().server_name,
                "AT Protocol SASL, IRCv3, iroh QUIC, S2S federation"@,
            ],
        ),
{
    push_reply(
        fx,
        conn.id.as_str(),
        state.server_name.as_str(),
        irc::RPL_VERSION,
        p4(
            conn.nick_or_star(),
            "freeq-0.1.0",
            state.server_name.as_str(),
            "AT Protocol SASL, IRCv3, iroh QUIC, S2S federation",
        ),
    );
}

/// Handles a TIME command at the Unix time `now`.
pub fn handle_time(conn: &Connection, now: u64, state: &ServerState, fx: &mut Vec<Effect>)
    ensures
        final(fx).deep_view() == old(fx).deep_view() + one_reply(
            state.deep_view(),
            conn.deep_view(),
            irc::RPL_TIME@,
            seq![
                conn.deep_view().nick_or_star(),
                state.deep_view().server_name,
                time::clock_text(now),
            ],
        ),
{
    let clock = format_clock(now);
    push_reply(
        fx,
        conn.id.as_str(),
        state.server_name.as_str(),
        irc::RPL_TIME,
        p3(conn.nick_or_star(), state.server_name.as_str(), clock.as_str()),
    );
}

/// The replies to an ADMIN command.
pub open spec fn admin_fx(st: ServerStateView, c: ConnectionView) -> Seq<EffectView> {
    let nick = c.nick_or_star();
    seq![
        helpers::reply_fx(
            c.id,
            st.server_name,
            irc::RPL_ADMINME@,
            seq![nick, st.server_name, "Administrative info"@],
        ),
        helpers::reply_fx(
            c.id,
            st.server_name,
            irc::RPL_ADMINLOC1@,
            seq![nick, "freeq IRC server"@],
        ),
        helpers::reply_fx(
            c.id,
            st.server_name,
            irc::RPL_ADMINLOC2@,
            seq![nick, "AT Protocol authenticated IRC"@],
        ),
        helpers::reply_fx(
            c.id,
            st.server_name,
            irc::RPL_ADMINEMAIL@,
            seq![nick, "https://freeq.at"@],
        ),
    ]
}

/// Handles an ADMIN command.
pub fn handle_admin(conn: &Connection, state: &ServerState, fx: &mut Vec<Effect>)
    ensures
        final(fx).deep_view() == old(fx).deep_view() + admin_fx(
            state.deep_view(),
            conn.deep_view(),
        ),
{
    let ghost before = fx.deep_view();
    let nick = conn.nick_or_star();
    let server = state.server_name.as_str();
    let session = conn.id.as_str();
    push_reply(fx, session, server, irc::RPL_ADMINME, p3(nick, server, "Administrative info"));
    push_reply(fx, session, server, irc::RPL_ADMINLOC1, p2(nick, "freeq IRC server"));
    push_reply(
        fx,
        session,
        server,
        irc::RPL_ADMINLOC2,
        p2(nick, "AT Protocol authenticated IRC"),
    );
    push_reply(fx, session, server, irc::RPL_ADMINEMAIL, p2(nick, "https://freeq.at"));
    assert(fx.deep_view() =~= before + admin_fx(state.deep_view(), conn.deep_view()));
}

/// One line of the reply to an INFO command.
pub open spec fn info_line(st: ServerStateView, c: ConnectionView, line: Seq<char>) -> EffectView {
    helpers::reply_fx(c.id, st.server_name, irc::RPL_INFO@, seq![c.nick_or_star(), line])
}

/// The replies to an INFO command.
pub open spec fn info_fx(st: ServerStateView, c: ConnectionView) -> Seq<EffectView> {
    seq![
        info_line(st, c, "freeq - IRC with AT Protocol identity"@),
        info_line(st, c, ""@),
        info_line(st, c, "https://freeq.at"@),
        info_line(st, c, "https://github.com/chad/freeq"@),
        info_line(st, c, ""@),
        info_line(st, c, "SASL ATPROTO-CHALLENGE authentication"@),
        info_line(st, c, "IRCv3 capabilities, E2EE channels, iroh QUIC transport"@),
        info_line(st, c, "Server-to-server federation with CRDT convergence"@),
        helpers::reply_fx(
            c.id,
            st.server_name,
            irc::RPL_ENDOFINFO@,
            seq![c.nick_or_star(), "End of /INFO list"@],
        ),
    ]
}

/// Sends one line of the reply to an INFO command.
fn push_info(fx: &mut Vec<Effect>, state: &ServerState, conn: &Connection, line: &str)
    ensures
        final(fx).deep_view() == old(fx).deep_view().push(
            info_line(state.deep_view(), conn.deep_view(), line@),
        ),
{
    push_reply(
        fx,
        conn.id.as_str(),
        state.server_name.as_str(),
        irc::RPL_INFO,
        p2(conn.nick_or_star(), line),
    );
}

/// Handles an INFO command.
pub fn handle_info(conn: &Connection, state: &ServerState, fx: &mut Vec<Effect>)
    ensures
        final(fx).deep_view() == old(fx).deep_view() + info_fx(
            state.deep_view(),
            conn.deep_view(),
        ),
{
    let ghost before = fx.deep_view();
    push_info(fx, state, conn, "freeq - IRC with AT Protocol identity");
    push_info(fx, state, conn, "");
    push_info(fx, state, conn, "https://freeq.at");
    push_info(fx, state, conn, "https://github.com/chad/freeq");
    push_info(fx, state, conn, "");
    push_info(fx, state, conn, "SASL ATPROTO-CHALLENGE authentication");
    push_info(fx, state, conn, "IRCv3 capabilities, E2EE channels, iroh QUIC transport");
    push_info(fx, state, conn, "Server-to-server federation with CRDT convergence");
    push_reply(
        fx,
        conn.id.as_str(),
        state.server_name.as_str(),
        irc::RPL_ENDOFINFO,
        p2(conn.nick_or_star(), "End of /INFO list"),
    );
    assert(fx.deep_view() =~= before + info_fx(state.deep_view(), conn.deep_view()));
}

/// Whether a session is an operator of some channel.
pub open spec fn ops_somewhere(
    chs: Seq<(Seq<char>, ChannelStateView)>,
    session: Seq<char>,
) -> bool {
    exists|i: int| 0 <= i < chs.len() && (#[trigger] chs[i]).1.ops.contains(session)
}

/// Whether a session is an operator of some channel.
fn is_op_somewhere(channels: &StrMap<ChannelState>, session: &str) -> (b: bool)
    ensures
        b == ops_somewhere(channels@, session@),
{
    let ghost chs = channels@;
    let mut found = false;
    let mut i: usize = 0;
    while i < channels.len() && !found
        invariant
            i <= chs.len(),
            chs == channels@,
            found ==> ops_somewhere(chs, session@),
            !found ==> forall|j: int|
                0 <= j < i ==> !(#[trigger] chs[j]).1.ops.contains(session@),
        decreases chs.len() - i,
    {
        if channels.value_at(i).ops.contains(session) {
            assert(chs[i as int].1.ops.contains(session@));
            found = true;
        }
        i = i + 1;
    }
    found
}

/// What a USERHOST command is told of one nick.
pub open spec fn userhost_entry(st: ServerStateView, nick: Seq<char>) -> Option<Seq<char>> {
    match st.session_of(nick) {
        Some(session) => Some(
            nick + (if ops_somewhere(st.channels, session) {
                "*"@
            } else {
                ""@
            }) + "=+"@ + nick + "@"@ + super::cloak(st.did_of(session)),
        ),
        None => None,
    }
}

/// What a USERHOST command is told of a list of nicks.
pub open spec fn userhost_entries(st: ServerStateView, nicks: Seq<Seq<char>>) -> Seq<Seq<char>>
    decreases nicks.len(),
{
    if nicks.len() == 0 {
        Seq::empty()
    } else {
        let before = userhost_entries(st, nicks.drop_last());
        match userhost_entry(st, nicks.last()) {
            Some(e) => before.push(e),
            None => before,
        }
    }
}

/// How many nicks a USERHOST command may name.
pub const MAX_USERHOST: usize = 5;

/// The first nicks of a list, as far as a USERHOST command looks at them.
pub open spec fn userhost_asked(nicks: Seq<Seq<char>>) -> Seq<Seq<char>> {
    if nicks.len() <= MAX_USERHOST {
        nicks
    } else {
        nicks.take(MAX_USERHOST as int)
    }
}

/// What a USERHOST command is told of one nick.
fn describe_userhost(state: &ServerState, nick: &str) -> (r: Option<String>)
    ensures
        r.deep_view() == userhost_entry(state.deep_view(), nick@),
{
    match state.session_of(nick) {
        Some(session) => {
            let mark = if is_op_somewhere(&state.channels, session.as_str()) {
                "*"
            } else {
                ""
            };
            let did = match state.did_of(session.as_str()) {
                Some(d) => Some(d.as_str()),
                None => None,
            };
            assert(did.deep_view() == state.deep_view().did_of(session@));
            let host = cloaked_host_for_did(did);
            Some(Line::new(nick).add(mark).add("=+").add(nick).add("@").add(host.as_str()).done())
        },
        None => None,
    }
}

/// Handles a USERHOST command.
pub fn handle_userhost(
    conn: &Connection,
    nicks: &Vec<String>,
    state: &ServerState,
    fx: &mut Vec<Effect>,
)
    ensures
        final(fx).deep_view() == old(fx).deep_view() + one_reply(
            state.deep_view(),
            conn.deep_view(),
            irc::RPL_USERHOST@,
            seq![
                conn.deep_view().nick_or_star(),
                text::join_spec(
                    userhost_entries(state.deep_view(), userhost_asked(nicks.deep_view())),
                    " "@,
                ),
            ],
        ),
{
    let ghost st = state.deep_view();
    let ghost all = nicks.deep_view();
    let n: usize = if nicks.len() <= MAX_USERHOST {
        nicks.len()
    } else {
        MAX_USERHOST
    };
    let mut out: Vec<String> = Vec::new();
    let mut i: usize = 0;
    assert(out.deep_view() =~= userhost_entries(st, all.take(0)));
    while i < n
        invariant
            i <= n <= all.len(),
            all == nicks.deep_view(),
            nicks@.len() == all.len(),
            st == state.deep_view(),
            out.deep_view() == userhost_entries(st, all.take(i as int)),
        decreases n - i,
    {
        assert(all.take(i + 1).drop_last() =~= all.take(i as int));
        let ghost before = out.deep_view();
        if let Some(e) = describe_userhost(state, nicks[i].as_str()) {
            out.push(e);
            assert(out.deep_view() =~= before.push(e@));
        }
        i = i + 1;
    }
    assert(all.take(n as int) =~= userhost_asked(all));
    let list = join(&out, " ");
    push_reply(
        fx,
        conn.id.as_str(),
        state.server_name.as_str(),
        irc::RPL_USERHOST,
        p2(conn.nick_or_star(), list.as_str()),
    );
}

/// The nicks of a list that are in use.
pub open spec fn online(st: ServerStateView, nicks: Seq<Seq<char>>) -> Seq<Seq<char>> {
    nicks.filter(|n: Seq<char>| st.session_of(n) is Some)
}

/// Handles an ISON command.
pub fn handle_ison(
    conn: &Connection,
    nicks: &Vec<String>,
    state: &ServerState,
    fx: &mut Vec<Effect>,
)
    ensures
        final(fx).deep_view() == old(fx).deep_view() + one_reply(
            state.deep_view(),
            conn.deep_view(),
            irc::RPL_ISON@,
            seq![
                conn.deep_view().nick_or_star(),
                text::join_spec(online(state.deep_view(), nicks.deep_view()), " "@),
            ],
        ),
{
    let ghost st = state.deep_view();
    let ghost all = nicks.deep_view();
    let ghost p = |n: Seq<char>| st.session_of(n) is Some;
    let mut out: Vec<String> = Vec::new();
    let mut i: usize = 0;
    assert(out.deep_view() =~= all.take(0).filter(p)) by {
        reveal(Seq::filter);
    }
    while i < nicks.len()
        invariant
            i <= all.len(),
            all == nicks.deep_view(),
            nicks@.len() == all.len(),
            st == state.deep_view(),
            p == (|n: Seq<char>| st.session_of(n) is Some),
            out.deep_view() == all.take(i as int).filter(p),
        decreases all.len() - i,
    {
        assert(all.take(i + 1).drop_last() =~= all.take(i as int));
        reveal(Seq::filter);
        let ghost before = out.deep_view();
        if state.session_of(nicks[i].as_str()).is_some() {
            out.push(nicks[i].clone());
            assert(out.deep_view() =~= before.push(all[i as int]));
        }
        i = i + 1;
    }
    assert(all.take(i as int) =~= all);
    let list = join(&out, " ");
    push_reply(
        fx,
        conn.id.as_str(),
        state.server_name.as_str(),
        irc::RPL_ISON,
        p2(conn.nick_or_star(), list.as_str()),
    );
}

/// Replies that parameters are missing.
pub fn push_need_more(fx: &mut Vec<Effect>, state: &ServerState, conn: &Connection, command: &str)
    ensures
        final(fx).deep_view() == old(fx).deep_view() + one_reply(
            state.deep_view(),
            conn.deep_view(),
            irc::ERR_NEEDMOREPARAMS@,
            seq![conn.deep_view().nick_or_star(), command@, "Not enough parameters"@],
        ),
{
    push_reply(
        fx,
        conn.id.as_str(),
        state.server_name.as_str(),
        irc::ERR_NEEDMOREPARAMS,
        p3(conn.nick_or_star(), command, "Not enough parameters"),
    );
}

/// Replies that a command is unknown.
pub fn push_unknown(fx: &mut Vec<Effect>, state: &ServerState, conn: &Connection, command: &str)
    ensures
        final(fx).deep_view() == old(fx).deep_view() + one_reply(
            state.deep_view(),
            conn.deep_view(),
            irc::ERR_UNKNOWNCOMMAND@,
            seq![conn.deep_view().nick_or_star(), command@, "Unknown command"@],
        ),
{
    push_reply(
        fx,
        conn.id.as_str(),
        state.server_name.as_str(),
        irc::ERR_UNKNOWNCOMMAND,
        p3(conn.nick_or_star(), command, "Unknown command"),
    );
}

/// Replies that the user has not registered.
pub fn push_not_registered(fx: &mut Vec<Effect>, state: &ServerState, conn: &Connection)
    ensures
        final(fx).deep_view() == old(fx).deep_view() + one_reply(
            state.deep_view(),
            conn.deep_view(),
            irc::ERR_NOTREGISTERED@,
            seq![conn.deep_view().nick_or_star(), "You have not registered"@],
        ),
{
    push_reply(
        fx,
        conn.id.as_str(),
        state.server_name.as_str(),
        irc::ERR_NOTREGISTERED,
        p2(conn.nick_or_star(), "You have not registered"),
    );
}

// ── Operators ───────────────────────────────────────────────────────

/// What an OPER command with a password does.
pub open spec fn oper_command_spec(
    st: ServerStateView,
    c: ConnectionView,
    password: Seq<char>,
) -> (ServerStateView, ConnectionView, Seq<EffectView>) {
    if st.oper_password == Some(password) {
        (
            ServerStateView { server_opers: containers::set_insert(st.server_opers, c.id), ..st },
            ConnectionView { is_oper: true, ..c },
            one_reply(st, c, "381"@, seq![c.nick_or_star(), "You are now an IRC operator"@]),
        )
    } else {
        (st, c, one_reply(st, c, "464"@, seq![c.nick_or_star(), "Password incorrect"@]))
    }
}

/// Handles an OPER command with a password.
pub fn handle_oper(
    conn: &mut Connection,
    password: &str,
    state: &mut ServerState,
    fx: &mut Vec<Effect>,
)
    ensures
        ({
            let r = oper_command_spec(old(state).deep_view(), old(conn).deep_view(), password@);
            &&& final(state).deep_view() == r.0
            &&& final(conn).deep_view() == r.1
            &&& final(fx).deep_view() == old(fx).deep_view() + r.2
        }),
{
    let granted = match &state.oper_password {
        Some(p) => str_eq(password, p.as_str()),
        None => false,
    };
    if granted {
        push_reply(
            fx,
            conn.id.as_str(),
            state.server_name.as_str(),
            "381",
            p2(conn.nick_or_star(), "You are now an IRC operator"),
        );
        state.server_opers.insert(conn.id.clone());
        conn.is_oper = true;
    } else {
        push_reply(
            fx,
            conn.id.as_str(),
            state.server_name.as_str(),
            "464",
            p2(conn.nick_or_star(), "Password incorrect"),
        );
    }
}

/// What became of a wish to cut off a peer server.
#[derive(Debug, Clone, Copy, PartialEq, Eq, Structural)]
pub enum PeerRevocation {
    /// There is no federation.
    Inactive,
    /// The peer is not connected.
    NotFound,
    /// The peer was disconnected.
    Revoked,
}

/// What a REVOKEPEER command is refused with, or the peer that it may cut off.
pub open spec fn revoke_spec(st: ServerStateView, c: ConnectionView, peer: Option<Seq<char>>) -> (
    Seq<EffectView>,
    Option<Seq<char>>,
) {
    if !c.is_oper {
        (
            one_reply(
                st,
                c,
                "481"@,
                seq![c.nick_or_star(), "Permission Denied - You're not an IRC operator"@],
            ),
            None,
        )
    } else {
        match peer {
            None => (
                one_reply(
                    st,
                    c,
                    irc::ERR_NEEDMOREPARAMS@,
                    seq![c.nick_or_star(), "REVOKEPEER"@, "Not enough parameters"@],
                ),
                None,
            ),
            Some(p) => (Seq::empty(), Some(p)),
        }
    }
}

/// Handles a REVOKEPEER command: hands back the peer to cut off, if there is one.
pub fn handle_revoke_peer(
    conn: &Connection,
    peer: Option<&str>,
    state: &ServerState,
    fx: &mut Vec<Effect>,
) -> (r: Option<String>)
    ensures
        ({
            let s = revoke_spec(state.deep_view(), conn.deep_view(), peer.deep_view());
            &&& final(fx).deep_view() == old(fx).deep_view() + s.0
            &&& r.deep_view() == s.1
        }),
{
    assert(fx.deep_view() + Seq::<EffectView>::empty() =~= fx.deep_view());
    if !conn.is_oper {
        push_reply(
            fx,
            conn.id.as_str(),
            state.server_name.as_str(),
            "481",
            p2(conn.nick_or_star(), "Permission Denied - You're not an IRC operator"),
        );
        return None;
    }
    match peer {
        None => {
            push_need_more(fx, state, conn, "REVOKEPEER");
            None
        },
        Some(p) => Some(p.to_owned()),
    }
}

/// How the operator is told what became of the peer.
pub open spec fn revocation_line(
    server: Seq<char>,
    nick: Seq<char>,
    peer: Seq<char>,
    outcome: PeerRevocation,
) -> Seq<char> {
    let start = ":"@ + server + " NOTICE "@ + nick;
    match outcome {
        PeerRevocation::Inactive => start + " :S2S not active\r\n"@,
        PeerRevocation::NotFound => start + " :S2S peer "@ + peer
            + " not found in active connections\r\n"@,
        PeerRevocation::Revoked => start + " :S2S peer "@ + peer
            + " revoked and disconnected\r\n"@,
    }
}

/// Tells the operator what became of the peer.
pub fn push_revocation(
    fx: &mut Vec<Effect>,
    state: &ServerState,
    conn: &Connection,
    peer: &str,
    outcome: PeerRevocation,
)
    ensures
        final(fx).deep_view() == old(fx).deep_view().push(
            helpers::send_fx(
                conn.deep_view().id,
                revocation_line(
                    state.deep_view().server_name,
                    conn.deep_view().nick_or_star(),
                    peer@,
                    outcome,
                ),
            ),
        ),
{
    let start = Line::new(":").add(state.server_name.as_str()).add(" NOTICE ").add(
        conn.nick_or_star(),
    );
    let line = match outcome {
        PeerRevocation::Inactive => start.add(" :S2S not active\r\n").done(),
        PeerRevocation::NotFound => start.add(" :S2S peer ").add(peer).add(
            " not found in active connections\r\n",
        ).done(),
        PeerRevocation::Revoked => start.add(" :S2S peer ").add(peer).add(
            " revoked and disconnected\r\n",
        ).done(),
    };
    push_send(fx, conn.id.as_str(), line);
}

} // verus!
