//! What holds of pins, signing keys, server operators, queries on users, and agents.
use super::agent;
use super::channel_laws;
use super::commands;
use super::nick;
use super::session_laws;
use super::told;
use super::user_laws;
use super::{ActorClass, AgentPresenceView, ConnectionView, PresenceState};
use crate::containers;
use crate::crypto;
use crate::json;
use crate::server::{ChannelStateView, EffectView, PinnedMessageView, ServerStateView};
use crate::text;
use vstd::prelude::*;

verus! {

broadcast use {
    vstd::string::group_string_axioms,
    told::group_told,
    containers::lemma_map_put_get,
    containers::lemma_map_del_get,
    containers::lemma_set_insert_contains,
    containers::lemma_set_remove_contains,
};

/// A notice of the server to who sent a command.
pub open spec fn notice(st: ServerStateView, c: ConnectionView, note: Seq<char>) -> EffectView {
    session_laws::reply(c.id, st.server_name, "NOTICE"@, seq![c.nick_or_star(), note])
}

// ── Pins ────────────────────────────────────────────────────────────

/// PIN puts a message first among the pins and keeps the others, the newest fifty in all; every
/// member is told, and nobody else.
pub proof fn law_pin_is_kept_and_told(
    st: ServerStateView,
    c: ConnectionView,
    channel: Seq<char>,
    msgid: Seq<char>,
    now: u64,
    a: ChannelStateView,
    to: Seq<char>,
    line: Seq<char>,
)
    requires
        containers::map_get(st.channels, channel) == Some(a),
        a.ops.contains(c.id) || st.server_opers.contains(c.id),
        forall|i: int| 0 <= i < a.pins.len() ==> (#[trigger] a.pins[i]).msgid != msgid,
    ensures
        ({
            let (after, fx) = commands::pin_spec(st, c, channel, msgid, true, now);
            let b = containers::map_get(after.channels, channel)->0;
            &&& channel_laws::only_channel_changed(st, after, channel)
            &&& containers::map_get(after.channels, channel) is Some
            &&& b == (ChannelStateView { pins: b.pins, ..a })
            &&& b.pins.len() == (if a.pins.len() < 50 {
                a.pins.len() + 1
            } else {
                50
            })
            &&& b.pins[0] == (PinnedMessageView { msgid, pinned_by: c.nick_or_star(), pinned_at: now })
            &&& forall|i: int| 0 < i < b.pins.len() ==> #[trigger] b.pins[i] == a.pins[i - 1]
            &&& fx.contains(EffectView::Send { to, line }) <==> a.members.contains(to) && line == ":"@ + c.nick_or_star()
                + "!~u@host NOTICE "@ + channel + " :\x01ACTION "@ + "pinned"@ + " a message\x01\r\n"@
        }),
{
}

/// UNPIN takes one message out of the pins and leaves the others; every member is told, and nobody
/// else.
pub proof fn law_unpin_takes_out_one_pin(
    st: ServerStateView,
    c: ConnectionView,
    channel: Seq<char>,
    msgid: Seq<char>,
    now: u64,
    a: ChannelStateView,
    k: int,
    p: PinnedMessageView,
    to: Seq<char>,
    line: Seq<char>,
)
    requires
        containers::map_get(st.channels, channel) == Some(a),
        a.ops.contains(c.id) || st.server_opers.contains(c.id),
        0 <= k < a.pins.len(),
        a.pins[k].msgid == msgid,
    ensures
        ({
            let (after, fx) = commands::pin_spec(st, c, channel, msgid, false, now);
            let b = containers::map_get(after.channels, channel)->0;
            &&& channel_laws::only_channel_changed(st, after, channel)
            &&& containers::map_get(after.channels, channel) is Some
            &&& b == (ChannelStateView { pins: b.pins, ..a })
            &&& b.pins.contains(p) <==> a.pins.contains(p) && p.msgid != msgid
            &&& fx.contains(EffectView::Send { to, line }) <==> a.members.contains(to) && line == ":"@ + c.nick_or_star()
                + "!~u@host NOTICE "@ + channel + " :\x01ACTION "@ + "unpinned"@ + " a message\x01\r\n"@
        }),
{
    assert(commands::has_pin(a.pins, msgid));
    told::lemma_filter_contains(a.pins, |q: PinnedMessageView| q.msgid != msgid, p);
}

/// Pins are for operators; a message is pinned once, and what is not pinned cannot be unpinned. Each
/// is told so, and nothing changes.
pub proof fn law_pins_are_refused(
    st: ServerStateView,
    c: ConnectionView,
    channel: Seq<char>,
    msgid: Seq<char>,
    pin: bool,
    now: u64,
    a: ChannelStateView,
)
    requires
        containers::map_get(st.channels, channel) == Some(a),
    ensures
        ({
            let (after, fx) = commands::pin_spec(st, c, channel, msgid, pin, now);
            let may = a.ops.contains(c.id) || st.server_opers.contains(c.id);
            let there = exists|i: int| 0 <= i < a.pins.len() && (#[trigger] a.pins[i]).msgid == msgid;
            &&& !may ==> after == st && fx == seq![
                session_laws::reply(
                    c.id,
                    st.server_name,
                    "482"@,
                    seq![c.nick_or_star(), channel, "You're not channel operator"@],
                ),
            ]
            &&& may && pin && there ==> after == st && fx == seq![
                notice(st, c, "Message "@ + msgid + " is already pinned in "@ + channel),
            ]
            &&& may && !pin && !there ==> after == st && fx == seq![
                notice(st, c, "Message "@ + msgid + " is not pinned in "@ + channel),
            ]
        }),
{
}

/// PINS lists every pin of the channel, in its order, to who asked.
pub proof fn law_pins_are_listed(
    st: ServerStateView,
    c: ConnectionView,
    channel: Seq<char>,
    a: ChannelStateView,
    i: int,
)
    requires
        containers::map_get(st.channels, channel) == Some(a),
        0 <= i < a.pins.len(),
    ensures
        commands::pins_fx(st, c, channel).len() == a.pins.len(),
        commands::pins_fx(st, c, channel)[i] == notice(
            st,
            c,
            "PIN "@ + channel + " "@ + a.pins[i].msgid + " "@ + a.pins[i].pinned_by + " "@ + text::decimal_spec(
                a.pins[i].pinned_at as nat,
            ),
        ),
{
}

// ── Signing keys ────────────────────────────────────────────────────

/// A signing key is taken exactly from a user who is signed in, and where it is one: 32 bytes that
/// are a public key. It is then the key of the session and, as it was sent, of the user.
pub proof fn law_signing_keys_are_checked(st: ServerStateView, c: ConnectionView, key: Seq<char>)
    ensures
        ({
            let (after, fx) = commands::msgsig_spec(st, c, Some(key));
            let bytes = crypto::base64url_decoded(key);
            let good = bytes is Some && bytes->0.len() == 32 && crypto::ed25519_is_key(bytes->0);
            &&& c.authenticated_did is Some && good ==> {
                &&& after == (ServerStateView {
                    session_msg_keys: after.session_msg_keys,
                    did_msg_keys: after.did_msg_keys,
                    ..st
                })
                &&& containers::map_get(after.session_msg_keys, c.id) == Some(bytes->0)
                &&& containers::map_get(after.did_msg_keys, c.authenticated_did->0) == Some(key)
                &&& forall|s: Seq<char>| s != c.id ==> #[trigger] containers::map_get(after.session_msg_keys, s)
                    == containers::map_get(st.session_msg_keys, s)
                &&& forall|d: Seq<char>| Some(d) != c.authenticated_did ==> #[trigger] containers::map_get(after.did_msg_keys, d)
                    == containers::map_get(st.did_msg_keys, d)
                &&& fx == seq![session_laws::reply(c.id, st.server_name, "MSGSIG"@, seq!["OK"@])]
            }
            &&& !(c.authenticated_did is Some && good) ==> after == st
            &&& c.authenticated_did is None ==> fx == seq![
                session_laws::reply(
                    c.id,
                    st.server_name,
                    "FAIL"@,
                    seq!["MSGSIG"@, "NOT_AUTHENTICATED"@, "Must be DID-authenticated to register a signing key"@],
                ),
            ]
            &&& c.authenticated_did is Some && !(bytes is Some && bytes->0.len() == 32) ==> fx == seq![
                session_laws::reply(
                    c.id,
                    st.server_name,
                    "FAIL"@,
                    seq!["MSGSIG"@, "INVALID_KEY"@, "Expected 32-byte base64url-encoded ed25519 public key"@],
                ),
            ]
            &&& c.authenticated_did is Some && bytes is Some && bytes->0.len() == 32 && !good ==> fx == seq![
                session_laws::reply(
                    c.id,
                    st.server_name,
                    "FAIL"@,
                    seq!["MSGSIG"@, "INVALID_KEY"@, "Invalid ed25519 public key"@],
                ),
            ]
        }),
{
}

// ── Server operators ────────────────────────────────────────────────

/// OPER with the password makes an operator, of this session alone; anything else, or a server
/// without a password, makes none.
pub proof fn law_oper_needs_the_password(st: ServerStateView, c: ConnectionView, password: Seq<char>, other: Seq<char>)
    ensures
        ({
            let (after, conn, fx) = commands::oper_command_spec(st, c, password);
            let right = st.oper_password == Some(password);
            &&& right ==> conn == (ConnectionView { is_oper: true, ..c }) && after.server_opers.contains(c.id) && fx == seq![
                session_laws::reply(c.id, st.server_name, "381"@, seq![c.nick_or_star(), "You are now an IRC operator"@]),
            ]
            &&& !right ==> conn == c && after == st && fx == seq![
                session_laws::reply(c.id, st.server_name, "464"@, seq![c.nick_or_star(), "Password incorrect"@]),
            ]
            &&& other != c.id ==> after.server_opers.contains(other) == st.server_opers.contains(other)
            &&& after == (ServerStateView { server_opers: after.server_opers, ..st })
        }),
{
}

/// A peer is cut off exactly where an operator names it.
pub proof fn law_peers_are_revoked_by_operators(st: ServerStateView, c: ConnectionView, peer: Option<Seq<char>>)
    ensures
        ({
            let (fx, revoked) = commands::revoke_spec(st, c, peer);
            &&& c.is_oper ==> revoked == peer
            &&& !c.is_oper ==> revoked is None
            &&& revoked is Some ==> fx.len() == 0
            &&& !c.is_oper ==> fx == seq![
                session_laws::reply(
                    c.id,
                    st.server_name,
                    "481"@,
                    seq![c.nick_or_star(), "Permission Denied - You're not an IRC operator"@],
                ),
            ]
            &&& c.is_oper && peer is None ==> fx == seq![
                session_laws::reply(
                    c.id,
                    st.server_name,
                    "461"@,
                    seq![c.nick_or_star(), "REVOKEPEER"@, "Not enough parameters"@],
                ),
            ]
        }),
{
}

// ── Queries on users ────────────────────────────────────────────────

/// ISON names exactly those of the nicks that somebody has, in the order in which they were asked
/// for.
pub proof fn law_ison_names_those_who_are_here(st: ServerStateView, nicks: Seq<Seq<char>>, n: Seq<char>)
    ensures
        commands::online(st, nicks).contains(n) <==> nicks.contains(n) && containers::map_get(
            st.nick_session,
            text::lowercase(n),
        ) is Some,
        commands::online(st, nicks.push(n)) == (if containers::map_get(st.nick_session, text::lowercase(n)) is Some {
            commands::online(st, nicks).push(n)
        } else {
            commands::online(st, nicks)
        }),
{
    told::lemma_filter_contains(nicks, |m: Seq<char>| st.session_of(m) is Some, n);
    reveal(Seq::filter);
    assert(nicks.push(n).drop_last() =~= nicks);
}

/// USERHOST answers for the first five nicks: with the host of whoever has the nick, marked where
/// they are operator somewhere; a nick that nobody has is left out.
pub proof fn law_userhost_answers_for_five(st: ServerStateView, nicks: Seq<Seq<char>>, n: Seq<char>)
    ensures
        commands::userhost_asked(nicks).len() == (if nicks.len() < 5 {
            nicks.len()
        } else {
            5
        }),
        forall|i: int| 0 <= i < commands::userhost_asked(nicks).len() ==> #[trigger] commands::userhost_asked(nicks)[i] == nicks[i],
        commands::userhost_entries(st, nicks.push(n)) == (match containers::map_get(st.nick_session, text::lowercase(n)) {
            Some(s) => commands::userhost_entries(st, nicks).push(
                n + (if exists|i: int| 0 <= i < st.channels.len() && (#[trigger] st.channels[i]).1.ops.contains(s) {
                    "*"@
                } else {
                    ""@
                }) + "=+"@ + n + "@"@ + super::cloak(containers::map_get(st.session_dids, s)),
            ),
            None => commands::userhost_entries(st, nicks),
        }),
{
    assert(nicks.push(n).drop_last() =~= nicks);
}

/// A client that names itself is known by that name, whatever the case; any other is known by its
/// first word, twenty characters at most.
pub proof fn law_clients_are_known(realname: Seq<char>)
    ensures
        ({
            let r = text::lowercase(realname);
            let web = text::contains_spec(r, "freeq web"@);
            let ios = text::contains_spec(r, "freeq ios"@);
            let android = text::contains_spec(r, "freeq android"@);
            let ours = web || ios || android || r == "freeq"@;
            &&& web ==> nick::client_spec(realname) == "freeq-web"@
            &&& !web && ios ==> nick::client_spec(realname) == "freeq-ios"@
            &&& !web && !ios && android ==> nick::client_spec(realname) == "freeq-android"@
            &&& !web && !ios && !android && r == "freeq"@ ==> nick::client_spec(realname) == "freeq-sdk"@
            &&& !ours && text::contains_spec(r, "irssi"@) ==> nick::client_spec(realname) == "irssi"@
            &&& nick::known_client(r) is None ==> nick::client_spec(realname) == text::head_spec(
                if text::words_spec(realname).len() > 0 {
                    text::words_spec(realname)[0]
                } else {
                    "unknown"@
                },
                20,
            )
        }),
{
}

// ── Agents ──────────────────────────────────────────────────────────

proof fn lemma_agent_told(
    chs: Seq<(Seq<char>, ChannelStateView)>,
    session: Seq<char>,
    class: Seq<char>,
    hostmask: Seq<char>,
    to: Seq<char>,
    i: int,
)
    requires
        0 <= i < chs.len(),
        chs[i].1.members.contains(session),
        chs[i].1.members.contains(to),
        to != session,
    ensures
        agent::agent_told(chs, session, class, hostmask).contains(
            EffectView::Send {
                to,
                line: "@+freeq.at/actor-class="@ + class + " :"@ + hostmask + " NOTICE "@ + chs[i].0 + " :registered as "@ + class
                    + "\r\n"@,
            },
        ),
    decreases chs.len(),
{
    let t = chs.drop_last();
    if i < t.len() {
        assert(t[i] == chs[i]);
        lemma_agent_told(t, session, class, hostmask, to, i);
    }
}

proof fn lemma_agent_told_only(
    chs: Seq<(Seq<char>, ChannelStateView)>,
    session: Seq<char>,
    class: Seq<char>,
    hostmask: Seq<char>,
    e: EffectView,
)
    requires
        agent::agent_told(chs, session, class, hostmask).contains(e),
    ensures
        e is Send,
        e->to != session,
        exists|i: int| 0 <= i < chs.len() && (#[trigger] chs[i]).1.members.contains(session) && chs[i].1.members.contains(e->to),
    decreases chs.len(),
{
    if chs.len() > 0 {
        let t = chs.drop_last();
        if agent::agent_told(t, session, class, hostmask).contains(e) {
            lemma_agent_told_only(t, session, class, hostmask, e);
            let i = choose|i: int|
                0 <= i < t.len() && (#[trigger] t[i]).1.members.contains(session) && t[i].1.members.contains(e->to);
            assert(chs[i] == t[i]);
        } else {
            assert(chs[chs.len() - 1] == chs.last());
        }
    }
}

/// AGENT REGISTER notes what kind of user a session is, by any of the three names, and tells those
/// in its channels if it speaks in tags; any other name is refused.
pub proof fn law_agents_are_registered(
    st: ServerStateView,
    c: ConnectionView,
    name: Seq<char>,
    class: ActorClass,
    i: int,
    to: Seq<char>,
    line: Seq<char>,
)
    requires
        name == (match class {
            ActorClass::Human => "human"@,
            ActorClass::Agent => "agent"@,
            ActorClass::ExternalAgent => "external_agent"@,
        }),
        0 <= i < st.channels.len(),
    ensures
        ({
            let (after, conn, fx) = agent::register_spec(st, c, Some("class="@ + name));
            &&& conn == (ConnectionView { actor_class: class, ..c })
            &&& after == (ServerStateView { session_actor_class: after.session_actor_class, ..st })
            &&& containers::map_get(after.session_actor_class, c.id) == Some(class)
            &&& fx.len() > 0 && fx[0] == notice(st, c, "Agent registered as "@ + name)
            &&& c.caps.contains("message-tags"@) && to != c.id && st.channels[i].1.members.contains(c.id)
                && st.channels[i].1.members.contains(to) ==> fx.contains(
                EffectView::Send {
                    to,
                    line: "@+freeq.at/actor-class="@ + name + " :"@ + c.hostmask() + " NOTICE "@ + st.channels[i].0
                        + " :registered as "@ + name + "\r\n"@,
                },
            )
            &&& fx.contains(EffectView::Send { to, line }) ==> to == c.id || (user_laws::share_a_channel(st, c.id, to)
                && c.caps.contains("message-tags"@))
        }),
{
    let arg = "class="@ + name;
    assert(arg.subrange(0, "class="@.len() as int) =~= "class="@);
    assert(arg.subrange("class="@.len() as int, arg.len() as int) =~= name);
    reveal_strlit("human");
    reveal_strlit("agent");
    reveal_strlit("external_agent");
    assert("human"@.len() == 5 && "agent"@.len() == 5 && "external_agent"@.len() == 14);
    assert("human"@[0] == 'h' && "agent"@[0] == 'a');
    let rest = agent::agent_told(st.channels, c.id, name, c.hostmask());
    if to != c.id && st.channels[i].1.members.contains(c.id) && st.channels[i].1.members.contains(to) {
        lemma_agent_told(st.channels, c.id, name, c.hostmask(), to, i);
    }
    if rest.contains(EffectView::Send { to, line }) {
        lemma_agent_told_only(st.channels, c.id, name, c.hostmask(), EffectView::Send { to, line });
    }
}

/// Without a name a session registers as an agent; under a name that is none it does not register at
/// all.
pub proof fn law_unknown_agents_are_refused(st: ServerStateView, c: ConnectionView, arg: Option<Seq<char>>)
    ensures
        ({
            let (after, conn, fx) = agent::register_spec(st, c, arg);
            let name = match arg {
                Some(a) => match text::strip_prefix_spec(a, "class="@) {
                    Some(n) => n,
                    None => "agent"@,
                },
                None => "agent"@,
            };
            &&& name != "human"@ && name != "agent"@ && name != "external_agent"@ ==> after == st && conn == c && told::one_reply(
                fx,
                c.id,
            )
            &&& name == "agent"@ ==> conn.actor_class == ActorClass::Agent && containers::map_get(after.session_actor_class, c.id)
                == Some(ActorClass::Agent)
        }),
{
    reveal_strlit("human");
    reveal_strlit("agent");
    assert("human"@[0] == 'h' && "agent"@[0] == 'a');
}

/// A provenance document is kept under the DID of who declares it; a guest declares none, and what is
/// no document is refused.
pub proof fn law_provenance_is_kept(st: ServerStateView, c: ConnectionView, document: Option<Seq<char>>, other: Seq<char>)
    ensures
        ({
            let (after, fx) = agent::provenance_spec(st, c, document);
            let taken = document is Some && c.authenticated_did is Some;
            &&& taken ==> containers::map_get(after.provenance_declarations, c.authenticated_did->0) == document
            &&& !taken ==> after == st
            &&& Some(other) != c.authenticated_did ==> containers::map_get(after.provenance_declarations, other)
                == containers::map_get(st.provenance_declarations, other)
            &&& after == (ServerStateView { provenance_declarations: after.provenance_declarations, ..st })
            &&& fx.len() == 1
            &&& taken ==> fx[0] == notice(st, c, "Provenance declaration stored"@)
            &&& document is Some && c.authenticated_did is None ==> fx[0] == notice(
                st,
                c,
                "Must be authenticated to submit provenance"@,
            )
            &&& document is None ==> fx[0] == notice(
                st,
                c,
                "Invalid provenance format (expected base64url-encoded JSON or raw JSON)"@,
            )
        }),
{
}

proof fn lemma_listeners(st: ServerStateView, members: Seq<Seq<char>>, session: Seq<char>, to: Seq<char>)
    ensures
        agent::away_listeners(st, members, session).contains(to) <==> members.contains(to) && to != session
            && st.cap_away_notify.contains(to),
    decreases members.len(),
{
    reveal(Seq::filter);
    if members.len() > 0 {
        lemma_listeners(st, members.drop_last(), session, to);
        assert(members =~= members.drop_last().push(members.last()));
    }
}

proof fn lemma_away_told(
    st: ServerStateView,
    chs: Seq<(Seq<char>, ChannelStateView)>,
    session: Seq<char>,
    line: Seq<char>,
    e: EffectView,
)
    ensures
        agent::away_told(st, chs, session, line).contains(e) <==> (e matches EffectView::Send { to, line: l } && l == line && to != session
            && st.cap_away_notify.contains(to) && exists|i: int|
            0 <= i < chs.len() && (#[trigger] chs[i]).1.members.contains(session) && chs[i].1.members.contains(to)),
    decreases chs.len(),
{
    if chs.len() > 0 {
        let t = chs.drop_last();
        lemma_away_told(st, t, session, line, e);
        if let EffectView::Send { to, line: l } = e {
            let members = chs.last().1.members;
            lemma_listeners(st, members, session, to);
            if exists|i: int| 0 <= i < chs.len() && (#[trigger] chs[i]).1.members.contains(session) && chs[i].1.members.contains(to) {
                let i = choose|i: int|
                    0 <= i < chs.len() && (#[trigger] chs[i]).1.members.contains(session) && chs[i].1.members.contains(to);
                if i < t.len() {
                    assert(t[i] == chs[i]);
                }
            }
            if exists|i: int| 0 <= i < t.len() && (#[trigger] t[i]).1.members.contains(session) && t[i].1.members.contains(to) {
                let i = choose|i: int|
                    0 <= i < t.len() && (#[trigger] t[i]).1.members.contains(session) && t[i].1.members.contains(to);
                assert(chs[i] == t[i]);
            }
            assert(chs[chs.len() - 1] == chs.last());
        }
    }
}

/// PRESENCE is noted as it was declared; who is online, active or idle is not away, in every other
/// state they are, with what they say of themselves. Those who want to know, and are in a channel
/// with the session, are told.
pub proof fn law_presence_is_noted_and_told(
    st: ServerStateView,
    c: ConnectionView,
    p: AgentPresenceView,
    to: Seq<char>,
    line: Seq<char>,
    other: Seq<char>,
)
    requires
        to != c.id,
    ensures
        ({
            let (after, fx) = agent::presence_spec(st, c, p);
            let here = p.state == PresenceState::Online || p.state == PresenceState::Active || p.state == PresenceState::Idle;
            &&& after == (ServerStateView { agent_presence: after.agent_presence, session_away: after.session_away, ..st })
            &&& containers::map_get(after.agent_presence, c.id) == Some(p)
            &&& here <==> containers::map_get(after.session_away, c.id) is None
            &&& !here && p.status is Some ==> containers::map_get(after.session_away, c.id) == p.status
            &&& other != c.id ==> containers::map_get(after.session_away, other) == containers::map_get(st.session_away, other)
                && containers::map_get(after.agent_presence, other) == containers::map_get(st.agent_presence, other)
            &&& fx.contains(EffectView::Send { to, line }) <==> st.cap_away_notify.contains(to) && user_laws::share_a_channel(
                st,
                c.id,
                to,
            ) && line == ":"@ + c.hostmask() + " AWAY :"@ + agent::presence_json(p) + "\r\n"@
        }),
{
    let noted = agent::presence_noted(st, c.id, p);
    let said = ":"@ + c.hostmask() + " AWAY :"@ + agent::presence_json(p) + "\r\n"@;
    lemma_away_told(noted, noted.channels, c.id, said, EffectView::Send { to, line });
}

/// Whether a setting comes last of its name in a list.
pub open spec fn is_last(s: Seq<(Seq<char>, Seq<char>)>, key: Seq<char>, i: int) -> bool {
    0 <= i < s.len() && s[i].0 == key && forall|j: int| i < j < s.len() ==> (#[trigger] s[j]).0 != key
}

/// Of settings with one name the last counts.
pub proof fn law_the_last_setting_counts(s: Seq<(Seq<char>, Seq<char>)>, key: Seq<char>, i: int)
    ensures
        is_last(s, key, i) ==> agent::last_setting(s, key) == Some(s[i].1),
        (forall|j: int| 0 <= j < s.len() ==> (#[trigger] s[j]).0 != key) ==> agent::last_setting(s, key) is None,
    decreases s.len(),
{
    if s.len() > 0 {
        let t = s.drop_last();
        law_the_last_setting_counts(t, key, i);
        if is_last(s, key, i) && i < s.len() - 1 {
            assert(s[s.len() - 1].0 != key);
            assert(t[i] == s[i]);
            assert forall|j: int| i < j < t.len() implies (#[trigger] t[j]).0 != key by {
                assert(s[j] == t[j]);
            }
        }
        if forall|j: int| 0 <= j < s.len() ==> (#[trigger] s[j]).0 != key {
            assert(s[s.len() - 1].0 != key);
            assert forall|j: int| 0 <= j < t.len() implies (#[trigger] t[j]).0 != key by {
                assert(s[j] == t[j]);
            }
        }
    }
}

/// A declared presence is what its settings say: the state, online where none is given, and what the
/// agent says of itself and of its task.
pub proof fn law_presence_is_as_declared(raw: Seq<char>, now: i64)
    ensures
        ({
            let s = agent::settings(text::split_spec(raw, ';'));
            let p = agent::declared_presence(raw, now);
            &&& p.updated_at == now
            &&& p.status == agent::last_setting(s, "status"@)
            &&& p.task == agent::last_setting(s, "task"@)
            &&& agent::last_setting(s, "state"@) is None ==> p.state == PresenceState::Online
            &&& agent::last_setting(s, "state"@) matches Some(n) ==> (agent::presence_of(n) matches Some(st) ==> p.state == st)
        }),
{
}

/// A heartbeat notes when it came and how long it is good for: the last number given, a minute where
/// there is none; and the agent is in the last state it gave, active where it gave none.
pub proof fn law_heartbeats_are_noted(st: ServerStateView, session: Seq<char>, raw: Seq<char>, now: i64, i: int, n: nat)
    requires
        n <= u64::MAX,
    ensures
        ({
            let after = agent::heartbeat_spec(st, session, raw, now);
            let s = agent::settings(text::split_spec(raw, ';'));
            &&& after == (ServerStateView { agent_heartbeats: after.agent_heartbeats, agent_presence: after.agent_presence, ..st })
            &&& containers::map_get(after.agent_heartbeats, session) matches Some(h) && {
                &&& h.at == now
                &&& is_last(s, "ttl"@, i) && text::number_spec(s[i].1, u64::MAX as nat) == Some(n) ==> h.ttl == n
                &&& (forall|j: int| 0 <= j < s.len() ==> (#[trigger] s[j]).0 != "ttl"@) ==> h.ttl == 60
            }
            &&& containers::map_get(after.agent_presence, session) matches Some(p) && {
                &&& p.updated_at == now
                &&& is_last(s, "state"@, i) && agent::presence_of(s[i].1) is Some ==> Some(p.state) == agent::presence_of(s[i].1)
                &&& (forall|j: int| 0 <= j < s.len() ==> (#[trigger] s[j]).0 != "state"@) ==> p.state == PresenceState::Active
            }
        }),
{
    lemma_last(agent::settings(text::split_spec(raw, ';')), i);
}

proof fn lemma_last(s: Seq<(Seq<char>, Seq<char>)>, i: int)
    ensures
        is_last(s, "ttl"@, i) && text::number_spec(s[i].1, u64::MAX as nat) is Some ==> agent::last_ttl(s) == text::number_spec(
            s[i].1,
            u64::MAX as nat,
        )->0 as u64,
        (forall|j: int| 0 <= j < s.len() ==> (#[trigger] s[j]).0 != "ttl"@) ==> agent::last_ttl(s) == 60,
        is_last(s, "state"@, i) && agent::presence_of(s[i].1) is Some ==> agent::last_state(s) == agent::presence_of(s[i].1)->0,
        (forall|j: int| 0 <= j < s.len() ==> (#[trigger] s[j]).0 != "state"@) ==> agent::last_state(s) == PresenceState::Active,
    decreases s.len(),
{
    if s.len() > 0 {
        let t = s.drop_last();
        lemma_last(t, i);
        assert forall|key: Seq<char>| #[trigger] is_last(s, key, i) && i < s.len() - 1 implies is_last(t, key, i) && s.last().0
            != key by {
            assert(s[s.len() - 1].0 != key);
            assert(t[i] == s[i]);
            assert forall|j: int| i < j < t.len() implies (#[trigger] t[j]).0 != key by {
                assert(s[j] == t[j]);
            }
        }
        assert forall|j: int| 0 <= j < t.len() implies #[trigger] t[j] == s[j] by {}
        assert(s[s.len() - 1] == s.last());
        assert(is_last(s, "ttl"@, i) || !is_last(s, "ttl"@, i));
        assert(is_last(s, "state"@, i) || !is_last(s, "state"@, i));
    }
}

/// Settings are read one by one, name and value without the spaces around them; what has no sign of
/// equality is none.
pub proof fn law_settings_are_read_in_order(parts: Seq<Seq<char>>, part: Seq<char>)
    ensures
        agent::settings(parts.push(part)) == (match text::split_once_spec(part, '=') {
            Some(kv) => agent::settings(parts).push((text::trim_spec(kv.0), text::trim_spec(kv.1))),
            None => agent::settings(parts),
        }),
{
    assert(parts.push(part).drop_last() =~= parts);
}

/// AGENT knows REGISTER, in whichever case, and nothing else: anything else is answered and changes
/// nothing.
pub proof fn law_agents_only_register(st: ServerStateView, c: ConnectionView, sub: Seq<char>, arg: Option<Seq<char>>)
    ensures
        text::uppercase(sub) == "REGISTER"@ ==> agent::agent_spec(st, c, sub, arg) == agent::register_spec(st, c, arg),
        text::uppercase(sub) != "REGISTER"@ ==> {
            let (after, conn, fx) = agent::agent_spec(st, c, sub, arg);
            after == st && conn == c && fx == seq![
                notice(st, c, "Unknown AGENT subcommand: "@ + text::uppercase(sub) + ". Use: AGENT REGISTER"@),
            ]
        },
{
}

/// A declaration is read from its encoded form where that holds a document, else as it stands.
pub proof fn law_declarations_may_be_encoded(encoded: Seq<char>)
    ensures
        ({
            let bytes = crypto::base64url_decoded(encoded);
            let inner = json::json_of_bytes(bytes->0);
            &&& bytes is Some && inner is Some ==> agent::declared(encoded) == inner
            &&& bytes is None || inner is None ==> agent::declared(encoded) == json::json_of_text(encoded)
        }),
{
}

/// The state in which an agent says it is is read by its name, and by no other.
pub proof fn law_states_are_read_by_name(p: PresenceState, s: Seq<char>)
    ensures
        agent::presence_of(s) == Some(p) ==> s == agent::presence_name(p),
        s == "online"@ ==> agent::presence_of(s) == Some(PresenceState::Online),
        agent::presence_name(PresenceState::Idle) == "idle"@ && agent::presence_name(PresenceState::Active) == "active"@,
        agent::presence_name(PresenceState::Paused) == "paused"@ && agent::presence_name(PresenceState::Revoked) == "revoked"@,
        agent::presence_name(PresenceState::Offline) == "offline"@ && agent::presence_name(PresenceState::Executing) == "executing"@,
{
}

} // verus!
