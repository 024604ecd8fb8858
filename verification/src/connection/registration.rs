//! IRC registration: joining the sessions of one user, and completing NICK and USER.
use super::channel;
use super::channel::{has_did_ops, list_contains, opt_is, push_names};
use super::helpers;
use super::helpers::{p2, p3, p4, p5, push_reply, push_send};
use super::{cloaked_host_for_did, Connection, ConnectionView};
use crate::containers;
use crate::containers::{Dup, StrMap, StrSet};
use crate::irc;
use crate::irc::Message;
use crate::server::{
    ChannelState, ChannelStateView, Effect, EffectView, GhostChannel, GhostChannelView,
    GhostSession, GhostSessionView, ServerState, ServerStateView,
};
use crate::text;
use crate::text::{decimal, ends_with_char, str_eq, to_lowercase, trim_end_char, Line};
use crate::time;
use crate::time::format_boot_time;
use vstd::prelude::*;

verus! {

broadcast use vstd::string::group_string_axioms;

// ── Coming back within the grace period ─────────────────────────────

/// A channel in which a returning user takes the place of the session it lost: status it had is
/// given back, and operator status also by DID.
pub open spec fn reclaimed(
    ch: ChannelStateView,
    g: GhostChannelView,
    lost: Seq<char>,
    session: Seq<char>,
    did: Seq<char>,
) -> ChannelStateView {
    let ch0 = channel::without_session(ch, lost);
    ChannelStateView {
        members: containers::set_insert(ch0.members, session),
        ops: if g.was_op || channel::did_has_ops(ch0, did) {
            containers::set_insert(ch0.ops, session)
        } else {
            ch0.ops
        },
        voiced: if g.was_voiced {
            containers::set_insert(ch0.voiced, session)
        } else {
            ch0.voiced
        },
        halfops: if g.was_halfop {
            containers::set_insert(ch0.halfops, session)
        } else {
            ch0.halfops
        },
        ..ch0
    }
}

/// The channels after a returning user has taken its place in each of those it was in.
pub open spec fn reclaim_all(
    chs: Seq<(Seq<char>, ChannelStateView)>,
    held: Seq<GhostChannelView>,
    lost: Seq<char>,
    session: Seq<char>,
    did: Seq<char>,
) -> Seq<(Seq<char>, ChannelStateView)>
    decreases held.len(),
{
    if held.len() == 0 {
        chs
    } else {
        let prev = reclaim_all(chs, held.drop_last(), lost, session, did);
        let g = held.last();
        let key = text::lowercase(g.name);
        match containers::map_get(prev, key) {
            Some(ch) => containers::map_put(prev, key, reclaimed(ch, g, lost, session, did)),
            None => prev,
        }
    }
}

/// Whether an optional nick is the given one; case does not matter.
pub open spec fn same_nick(nick: Option<Seq<char>>, other: Seq<char>) -> bool {
    match nick {
        Some(n) => text::lowercase(n) == text::lowercase(other),
        None => false,
    }
}

/// The state in which the session has taken over a nick; the one it had before is free.
pub open spec fn nick_adopted(
    st: ServerStateView,
    c: ConnectionView,
    nick: Seq<char>,
) -> ServerStateView {
    if !same_nick(c.nick, nick) && c.nick is Some {
        st.nick_freed(c.nick->0).nick_set(nick, c.id)
    } else {
        st.nick_set(nick, c.id)
    }
}

/// The state in which the grace period of a user has ended.
pub open spec fn without_ghost(st: ServerStateView, did: Seq<char>) -> ServerStateView {
    ServerStateView { ghost_sessions: containers::map_del(st.ghost_sessions, did), ..st }
}

/// The state in which a returning user has its channels back, and nothing leads to the session it
/// lost.
pub open spec fn channels_reclaimed(
    st: ServerStateView,
    did: Seq<char>,
    session: Seq<char>,
    g: GhostSessionView,
) -> ServerStateView {
    (ServerStateView {
        channels: reclaim_all(st.channels, g.channels, g.session_id, session, did),
        ..st
    }).session_unnamed(g.session_id)
}

/// The names of the channels of a lost session.
pub open spec fn ghost_names(held: Seq<GhostChannelView>) -> Seq<Seq<char>> {
    held.map_values(|x: GhostChannelView| x.name)
}

/// The connection of a returning user: it has the nick, and is to be shown the channels.
pub open spec fn taken_back(c: ConnectionView, g: GhostSessionView) -> ConnectionView {
    ConnectionView {
        nick: if same_nick(c.nick, g.nick) {
            c.nick
        } else {
            Some(g.nick)
        },
        ghost_channels: Some(ghost_names(g.channels)),
        ..c
    }
}

/// What a user does who comes back within the grace period: it gets its nick and its channels
/// back, and nobody sees it leave or enter.
pub open spec fn return_spec(
    st: ServerStateView,
    c: ConnectionView,
    did: Seq<char>,
    g: GhostSessionView,
) -> (ServerStateView, ConnectionView) {
    (
        channels_reclaimed(nick_adopted(without_ghost(st, did), c, g.nick), did, c.id, g),
        taken_back(c, g),
    )
}

// ── The first session of a user ─────────────────────────────────────

/// The state in which a nick that nobody has leads to the session.
pub open spec fn nick_claimed(
    st: ServerStateView,
    nick: Seq<char>,
    session: Seq<char>,
) -> ServerStateView {
    if st.session_of(nick) is Some {
        st
    } else {
        st.nick_set(nick, session)
    }
}

/// The nick without the `_` appended to it, if there are some and that nick is free.
pub open spec fn shorter_nick(st: ServerStateView, nick: Seq<char>) -> Option<Seq<char>> {
    let wanted = text::trim_end_char_spec(nick, '_');
    if nick.len() > 0 && nick.last() == '_' && st.session_of(wanted) is None {
        Some(wanted)
    } else {
        None
    }
}

/// What the first session of a user does: its nick leads to it, unless someone has the nick; and
/// a nick with `_` appended gives way to the one without, if that is free.
pub open spec fn first_session_spec(st: ServerStateView, c: ConnectionView) -> (
    ServerStateView,
    ConnectionView,
) {
    match c.nick {
        None => (st, c),
        Some(nick) => {
            let st1 = nick_claimed(st, nick, c.id);
            match shorter_nick(st1, nick) {
                Some(wanted) => (
                    st1.nick_freed(nick).nick_set(wanted, c.id),
                    ConnectionView { nick: Some(wanted), ..c },
                ),
                None => (st1, c),
            }
        },
    }
}

// ── A further session of a user ─────────────────────────────────────

/// The sessions of a DID other than the given one.
pub open spec fn other_sessions(
    dids: Seq<(Seq<char>, Seq<char>)>,
    did: Seq<char>,
    session: Seq<char>,
) -> Seq<Seq<char>>
    decreases dids.len(),
{
    if dids.len() == 0 {
        Seq::empty()
    } else {
        let rest = other_sessions(dids.drop_last(), did, session);
        if dids.last().1 == did && dids.last().0 != session {
            rest.push(dids.last().0)
        } else {
            rest
        }
    }
}

/// The nick that the user goes by: that of the first named session with its DID, the new one
/// apart.
pub open spec fn canonical_nick(
    named: Seq<(Seq<char>, Seq<char>)>,
    dids: Seq<(Seq<char>, Seq<char>)>,
    did: Seq<char>,
    session: Seq<char>,
) -> Option<Seq<char>>
    decreases named.len(),
{
    if named.len() == 0 {
        None
    } else {
        match canonical_nick(named.drop_last(), dids, did, session) {
            Some(n) => Some(n),
            None => if named.last().0 != session && containers::map_get(dids, named.last().0) == Some(did) {
                Some(named.last().1)
            } else {
                None
            },
        }
    }
}

/// Whether one of the sessions is in the set.
pub open spec fn any_in(sessions: Seq<Seq<char>>, set: Seq<Seq<char>>) -> bool {
    exists|i: int| 0 <= i < sessions.len() && set.contains(#[trigger] sessions[i])
}

/// A channel that one of the user's sessions is in, once the new session has joined it there:
/// status is shared between the sessions.
pub open spec fn shared(
    ch: ChannelStateView,
    others: Seq<Seq<char>>,
    session: Seq<char>,
    did: Seq<char>,
) -> ChannelStateView {
    ChannelStateView {
        members: containers::set_insert(ch.members, session),
        ops: if any_in(others, ch.ops) || channel::did_has_ops(ch, did) {
            containers::set_insert(ch.ops, session)
        } else {
            ch.ops
        },
        voiced: if any_in(others, ch.voiced) {
            containers::set_insert(ch.voiced, session)
        } else {
            ch.voiced
        },
        ..ch
    }
}

/// The channels once the new session is in all those that the user's other sessions are in.
pub open spec fn share_all(
    chs: Seq<(Seq<char>, ChannelStateView)>,
    others: Seq<Seq<char>>,
    session: Seq<char>,
    did: Seq<char>,
) -> Seq<(Seq<char>, ChannelStateView)> {
    chs.map_values(
        |e: (Seq<char>, ChannelStateView)|
            if any_in(others, e.1.members) {
                (e.0, shared(e.1, others, session, did))
            } else {
                e
            },
    )
}

/// The names of the channels that one of the sessions is in.
pub open spec fn shared_names(
    chs: Seq<(Seq<char>, ChannelStateView)>,
    others: Seq<Seq<char>>,
) -> Seq<Seq<char>>
    decreases chs.len(),
{
    if chs.len() == 0 {
        Seq::empty()
    } else {
        let rest = shared_names(chs.drop_last(), others);
        if any_in(others, chs.last().1.members) {
            rest.push(chs.last().0)
        } else {
            rest
        }
    }
}

/// What a new session is shown of a channel that it finds itself in: a JOIN, the topic, the names.
pub open spec fn shown_channel(
    st: ServerStateView,
    session: Seq<char>,
    nick: Seq<char>,
    did: Seq<char>,
    name: Seq<char>,
) -> Seq<EffectView> {
    let joined = helpers::send_fx(
        session,
        ":"@ + nick + "!~u@"@ + super::cloak(Some(did)) + " JOIN "@ + name + "\r\n"@,
    );
    match st.channel(name) {
        None => seq![joined],
        Some(ch) => seq![joined] + (match ch.topic {
            Some(t) => seq![
                helpers::reply_fx(
                    session,
                    st.server_name,
                    irc::RPL_TOPIC@,
                    seq![nick, name, t.text],
                ),
            ],
            None => Seq::empty(),
        }) + seq![
            helpers::send_fx(
                session,
                irc::wire(
                    irc::server_msg(
                        st.server_name,
                        irc::RPL_NAMREPLY@,
                        seq![
                            nick,
                            "="@,
                            name,
                            text::join_spec(
                                channel::local_names(st, ch, ch.members, false).0,
                                " "@,
                            ),
                        ],
                    ),
                ) + irc::wire(
                    irc::server_msg(
                        st.server_name,
                        irc::RPL_ENDOFNAMES@,
                        seq![nick, name, "End of /NAMES list"@],
                    ),
                ),
            ),
        ],
    }
}

/// What a new session is shown of all the channels that it finds itself in.
pub open spec fn shown_channels(
    st: ServerStateView,
    session: Seq<char>,
    nick: Seq<char>,
    did: Seq<char>,
    names: Seq<Seq<char>>,
) -> Seq<EffectView>
    decreases names.len(),
{
    if names.len() == 0 {
        Seq::empty()
    } else {
        shown_channels(st, session, nick, did, names.drop_last()) + shown_channel(
            st,
            session,
            nick,
            did,
            names.last(),
        )
    }
}

/// What a further session of a user does: it takes the user's nick and joins its channels without
/// a word to the others, and is shown where it is.
pub open spec fn further_session_spec(
    st: ServerStateView,
    c: ConnectionView,
    did: Seq<char>,
    others: Seq<Seq<char>>,
) -> (ServerStateView, ConnectionView, Seq<EffectView>) {
    let canon = canonical_nick(st.session_nick, st.session_dids, did, c.id);
    let (st1, c1) = match canon {
        Some(n) => if same_nick(c.nick, n) {
            (st.nick_set(n, c.id), c)
        } else {
            (
                st.session_unnamed(c.id).nick_set(n, c.id),
                ConnectionView { nick: Some(n), ..c },
            )
        },
        None => (st, c),
    };
    let names = shared_names(st1.channels, others);
    let st2 = ServerStateView { channels: share_all(st1.channels, others, c.id, did), ..st1 };
    (st2, c1, shown_channels(st2, c.id, c1.nick_or_star(), did, names))
}

/// The state with the session counted among those of its user.
pub open spec fn with_user_session(
    st: ServerStateView,
    did: Seq<char>,
    session: Seq<char>,
) -> ServerStateView {
    ServerStateView {
        did_sessions: containers::map_put(
            st.did_sessions,
            did,
            containers::set_insert(
                match containers::map_get(st.did_sessions, did) {
                    Some(s) => s,
                    None => Seq::empty(),
                },
                session,
            ),
        ),
        ..st
    }
}

/// What a session does once its user is known: the new state, the new connection, the effects.
#[verifier::opaque]
pub open spec fn attach_spec(st: ServerStateView, c: ConnectionView) -> (
    ServerStateView,
    ConnectionView,
    Seq<EffectView>,
) {
    match c.authenticated_did {
        None => (st, c, Seq::empty()),
        Some(did) => {
            let st1 = with_user_session(st, did, c.id);
            match containers::map_get(st1.ghost_sessions, did) {
                Some(g) => {
                    let (s, k) = return_spec(st1, c, did, g);
                    (s, k, Seq::empty())
                },
                None => {
                    let others = other_sessions(st1.session_dids, did, c.id);
                    if others.len() == 0 {
                        let (s, k) = first_session_spec(st1, c);
                        (s, k, Seq::empty())
                    } else {
                        further_session_spec(st1, c, did, others)
                    }
                },
            }
        },
    }
}

// ── Carrying it out ─────────────────────────────────────────────────

/// Puts a returning user in the place of the session it lost.
fn reclaim_channel(
    ch: &mut ChannelState,
    g: &GhostChannel,
    lost: &str,
    session: &str,
    did: &str,
)
    ensures
        final(ch).deep_view() == reclaimed(
            old(ch).deep_view(),
            g.deep_view(),
            lost@,
            session@,
            did@,
        ),
{
    ch.members.remove(lost);
    ch.ops.remove(lost);
    ch.voiced.remove(lost);
    ch.halfops.remove(lost);
    let should_op = g.was_op || has_did_ops(ch, did);
    ch.members.insert(session.to_owned());
    if should_op {
        ch.ops.insert(session.to_owned());
    }
    if g.was_voiced {
        ch.voiced.insert(session.to_owned());
    }
    if g.was_halfop {
        ch.halfops.insert(session.to_owned());
    }
}

/// Puts a returning user back into its channels.
fn reclaim_channels(
    chs: &mut StrMap<ChannelState>,
    held: &Vec<GhostChannel>,
    lost: &str,
    session: &str,
    did: &str,
)
    ensures
        final(chs)@ == reclaim_all(old(chs)@, held.deep_view(), lost@, session@, did@),
{
    let ghost before = chs@;
    let ghost all = held.deep_view();
    let mut i: usize = 0;
    assert(all.take(0) =~= Seq::<GhostChannelView>::empty());
    while i < held.len()
        invariant
            i <= all.len(),
            all == held.deep_view(),
            held@.len() == all.len(),
            chs@ == reclaim_all(before, all.take(i as int), lost@, session@, did@),
        decreases all.len() - i,
    {
        assert(all.take(i + 1).drop_last() =~= all.take(i as int));
        assert(all[i as int] == held@[i as int].deep_view());
        let key = to_lowercase(held[i].name.as_str());
        if let Some(ch) = chs.get_mut(key.as_str()) {
            reclaim_channel(ch, &held[i], lost, session, did);
        }
        i = i + 1;
    }
    assert(all.take(i as int) =~= all);
}

/// Whether an optional nick is the given one; case does not matter.
fn is_same_nick(nick: &Option<String>, other: &str) -> (b: bool)
    ensures
        b == same_nick(nick.deep_view(), other@),
{
    match nick {
        Some(n) => str_eq(to_lowercase(n.as_str()).as_str(), to_lowercase(other).as_str()),
        None => false,
    }
}

/// The names of the channels of a lost session.
fn held_names(held: &Vec<GhostChannel>) -> (r: Vec<String>)
    ensures
        r.deep_view() == ghost_names(held.deep_view()),
{
    let ghost all = held.deep_view();
    let ghost f = |x: GhostChannelView| x.name;
    let mut out: Vec<String> = Vec::new();
    let mut i: usize = 0;
    assert(out.deep_view() =~= all.take(0).map_values(f));
    while i < held.len()
        invariant
            i <= all.len(),
            all == held.deep_view(),
            held@.len() == all.len(),
            f == (|x: GhostChannelView| x.name),
            out.deep_view() == all.take(i as int).map_values(f),
        decreases all.len() - i,
    {
        let ghost prev = out.deep_view();
        assert(all[i as int] == held@[i as int].deep_view());
        out.push(held[i].name.clone());
        assert(out.deep_view() =~= prev.push(f(all[i as int])));
        i = i + 1;
        assert(out.deep_view() =~= all.take(i as int).map_values(f));
    }
    assert(all.take(i as int) =~= all);
    out
}

/// Lets a session take over a nick.
fn adopt_nick(state: &mut ServerState, conn: &Connection, nick: &str)
    ensures
        final(state).deep_view() == nick_adopted(old(state).deep_view(), conn.deep_view(), nick@),
{
    if !is_same_nick(&conn.nick, nick) {
        if let Some(old_nick) = &conn.nick {
            state.free_nick(old_nick.as_str());
        }
    }
    state.set_nick(nick, conn.id.as_str());
}

/// Ends the grace period of a user.
fn end_ghost(state: &mut ServerState, did: &str)
    ensures
        final(state).deep_view() == without_ghost(old(state).deep_view(), did@),
{
    state.ghost_sessions.remove(did);
}

/// Gives a returning user its channels back.
fn reclaim(state: &mut ServerState, did: &str, session: &str, g: &GhostSession)
    ensures
        final(state).deep_view() == channels_reclaimed(
            old(state).deep_view(),
            did@,
            session@,
            g.deep_view(),
        ),
{
    reclaim_channels(&mut state.channels, &g.channels, g.session_id.as_str(), session, did);
    state.unname_session(g.session_id.as_str());
}

/// Gives a returning user's connection the nick, and notes the channels.
fn take_back(conn: &mut Connection, g: &GhostSession)
    ensures
        final(conn).deep_view() == taken_back(old(conn).deep_view(), g.deep_view()),
{
    let names = Some(held_names(&g.channels));
    assert(names.deep_view() == Some(ghost_names(g.deep_view().channels)));
    let nick = if is_same_nick(&conn.nick, g.nick.as_str()) {
        conn.nick.dup()
    } else {
        Some(g.nick.clone())
    };
    conn.nick = nick;
    conn.ghost_channels = names;
}

/// Brings back a user within the grace period.
fn return_user(conn: &mut Connection, did: &str, g: &GhostSession, state: &mut ServerState)
    ensures
        ({
            let r = return_spec(
                old(state).deep_view(),
                old(conn).deep_view(),
                did@,
                g.deep_view(),
            );
            &&& final(state).deep_view() == r.0
            &&& final(conn).deep_view() == r.1
        }),
{
    end_ghost(state, did);
    adopt_nick(state, conn, g.nick.as_str());
    reclaim(state, did, conn.id.as_str(), g);
    take_back(conn, g);
}

/// Frees a nick and gives a session another.
fn rename_session(state: &mut ServerState, from: &str, to: &str, session: &str)
    ensures
        final(state).deep_view() == old(state).deep_view().nick_freed(from@).nick_set(to@, session@),
{
    state.free_nick(from);
    state.set_nick(to, session);
}

/// Gives a nick that nobody has to a session.
fn claim_nick(state: &mut ServerState, nick: &str, session: &str)
    ensures
        final(state).deep_view() == nick_claimed(old(state).deep_view(), nick@, session@),
{
    if state.session_of(nick).is_none() {
        state.set_nick(nick, session);
    }
}

/// The nick without the `_` appended to it, if there are some and that nick is free.
fn find_shorter_nick(state: &ServerState, nick: &str) -> (r: Option<String>)
    ensures
        r.deep_view() == shorter_nick(state.deep_view(), nick@),
{
    if ends_with_char(nick, '_') {
        let wanted = trim_end_char(nick, '_');
        if state.session_of(wanted.as_str()).is_none() {
            return Some(wanted);
        }
    }
    None
}

/// Settles the nick of the first session of a user.
fn attach_first(conn: &mut Connection, state: &mut ServerState)
    ensures
        ({
            let r = first_session_spec(old(state).deep_view(), old(conn).deep_view());
            &&& final(state).deep_view() == r.0
            &&& final(conn).deep_view() == r.1
        }),
{
    let nick = match &conn.nick {
        Some(n) => n.clone(),
        None => {
            return;
        },
    };
    claim_nick(state, nick.as_str(), conn.id.as_str());
    if let Some(wanted) = find_shorter_nick(state, nick.as_str()) {
        rename_session(state, nick.as_str(), wanted.as_str(), conn.id.as_str());
        conn.nick = Some(wanted);
    }
}

/// The sessions of a DID other than the given one.
fn find_other_sessions(dids: &StrMap<String>, did: &str, session: &str) -> (r: Vec<String>)
    ensures
        r.deep_view() == other_sessions(dids@, did@, session@),
{
    let ghost all = dids@;
    let mut out: Vec<String> = Vec::new();
    let mut i: usize = 0;
    assert(out.deep_view() =~= other_sessions(all.take(0), did@, session@));
    while i < dids.len()
        invariant
            i <= all.len(),
            all == dids@,
            out.deep_view() == other_sessions(all.take(i as int), did@, session@),
        decreases all.len() - i,
    {
        assert(all.take(i + 1).drop_last() =~= all.take(i as int));
        let ghost prev = out.deep_view();
        let sid = dids.key_at(i);
        if str_eq(dids.value_at(i).as_str(), did) && !str_eq(sid.as_str(), session) {
            out.push(sid.clone());
            assert(out.deep_view() =~= prev.push(sid@));
        }
        i = i + 1;
    }
    assert(all.take(i as int) =~= all);
    out
}

/// What `canonical_nick` gives on a prefix stays.
proof fn lemma_canonical_prefix(
    named: Seq<(Seq<char>, Seq<char>)>,
    dids: Seq<(Seq<char>, Seq<char>)>,
    did: Seq<char>,
    session: Seq<char>,
    n: int,
)
    requires
        0 <= n <= named.len(),
        canonical_nick(named.take(n), dids, did, session) is Some,
    ensures
        canonical_nick(named, dids, did, session) == canonical_nick(named.take(n), dids, did, session),
    decreases named.len() - n,
{
    if n < named.len() {
        assert(named.take(n + 1).drop_last() =~= named.take(n));
        lemma_canonical_prefix(named, dids, did, session, n + 1);
    } else {
        assert(named.take(n) =~= named);
    }
}

/// The nick that the user goes by.
fn find_canonical_nick(state: &ServerState, did: &str, session: &str) -> (r: Option<String>)
    ensures
        r.deep_view() == canonical_nick(
            state.deep_view().session_nick,
            state.deep_view().session_dids,
            did@,
            session@,
        ),
{
    let ghost named = state.session_nick@;
    let ghost dids = state.session_dids@;
    let mut i: usize = 0;
    assert(named.take(0) =~= Seq::<(Seq<char>, Seq<char>)>::empty());
    while i < state.session_nick.len()
        invariant
            i <= named.len(),
            named == state.session_nick@,
            dids == state.session_dids@,
            canonical_nick(named.take(i as int), dids, did@, session@) is None,
        decreases named.len() - i,
    {
        assert(named.take(i + 1).drop_last() =~= named.take(i as int));
        let id = state.session_nick.key_at(i).as_str();
        let theirs = !str_eq(id, session) && match state.session_dids.get(id) {
            Some(d) => str_eq(d.as_str(), did),
            None => false,
        };
        if theirs {
            proof {
                lemma_canonical_prefix(named, dids, did@, session@, i + 1);
            }
            return Some(state.session_nick.value_at(i).clone());
        }
        i = i + 1;
    }
    assert(named.take(i as int) =~= named);
    None
}

/// Whether one of the sessions is in the set.
fn any_session_in(sessions: &Vec<String>, set: &StrSet) -> (b: bool)
    ensures
        b == any_in(sessions.deep_view(), set@),
{
    let ghost all = sessions.deep_view();
    let mut i: usize = 0;
    while i < sessions.len()
        invariant
            i <= all.len(),
            all == sessions.deep_view(),
            sessions@.len() == all.len(),
            forall|j: int| 0 <= j < i ==> !set@.contains(#[trigger] all[j]),
        decreases all.len() - i,
    {
        if set.contains(sessions[i].as_str()) {
            assert(set@.contains(all[i as int]));
            return true;
        }
        i = i + 1;
    }
    false
}

/// Lets a session join a channel that the user's other sessions are in.
fn share_channel(ch: &mut ChannelState, others: &Vec<String>, session: &str, did: &str)
    ensures
        final(ch).deep_view() == shared(old(ch).deep_view(), others.deep_view(), session@, did@),
{
    let is_op = any_session_in(others, &ch.ops) || has_did_ops(ch, did);
    let is_voiced = any_session_in(others, &ch.voiced);
    ch.members.insert(session.to_owned());
    if is_op {
        ch.ops.insert(session.to_owned());
    }
    if is_voiced {
        ch.voiced.insert(session.to_owned());
    }
}

/// Lets a session join all channels that the user's other sessions are in; gives their names.
fn share_channels(
    chs: &mut StrMap<ChannelState>,
    others: &Vec<String>,
    session: &str,
    did: &str,
) -> (names: Vec<String>)
    ensures
        final(chs)@ == share_all(old(chs)@, others.deep_view(), session@, did@),
        names.deep_view() == shared_names(old(chs)@, others.deep_view()),
{
    let ghost before = chs@;
    let ghost ov = others.deep_view();
    let ghost done = share_all(before, ov, session@, did@);
    let n: usize = chs.len();
    let mut names: Vec<String> = Vec::new();
    let mut i: usize = 0;
    assert(names.deep_view() =~= shared_names(before.take(0), ov));
    while i < n
        invariant
            i <= n,
            n == before.len(),
            n == chs@.len(),
            ov == others.deep_view(),
            done == share_all(before, ov, session@, did@),
            forall|j: int| 0 <= j < i ==> #[trigger] chs@[j] == done[j],
            forall|j: int| i <= j < n ==> #[trigger] chs@[j] == before[j],
            names.deep_view() == shared_names(before.take(i as int), ov),
        decreases n - i,
    {
        assert(before.take(i + 1).drop_last() =~= before.take(i as int));
        let ghost cur = chs@;
        let ghost prev = names.deep_view();
        if any_session_in(others, &chs.value_at(i).members) {
            let name = chs.key_at(i).clone();
            names.push(name);
            assert(names.deep_view() =~= prev.push(name@));
            let ch = chs.value_at_mut(i);
            share_channel(ch, others, session, did);
            assert(chs@ == cur.update(i as int, done[i as int]));
        }
        i = i + 1;
    }
    assert(before.take(i as int) =~= before);
    assert(chs@ =~= done);
    names
}

/// Shows a session a channel that it finds itself in.
fn push_shown_channel(
    fx: &mut Vec<Effect>,
    state: &ServerState,
    session: &str,
    nick: &str,
    did: &str,
    name: &str,
)
    ensures
        final(fx).deep_view() == old(fx).deep_view() + shown_channel(
            state.deep_view(),
            session@,
            nick@,
            did@,
            name@,
        ),
{
    let ghost before = fx.deep_view();
    let owner = Some(did);
    assert(owner.deep_view() == Some(did@));
    let host = cloaked_host_for_did(owner);
    let joined = Line::new(":").add(nick).add("!~u@").add(host.as_str()).add(" JOIN ").add(
        name,
    ).add("\r\n").done();
    push_send(fx, session, joined);
    if let Some(ch) = state.channels.get(name) {
        if let Some(t) = &ch.topic {
            push_reply(
                fx,
                session,
                state.server_name.as_str(),
                irc::RPL_TOPIC,
                p3(nick, name, t.text.as_str()),
            );
        }
        let names = text::join(&local_name_list(state, ch), " ");
        let names_msg = Message::from_server(
            state.server_name.as_str(),
            irc::RPL_NAMREPLY,
            p4(nick, "=", name, names.as_str()),
        );
        let end_msg = Message::from_server(
            state.server_name.as_str(),
            irc::RPL_ENDOFNAMES,
            p3(nick, name, "End of /NAMES list"),
        );
        let both = Line::new(names_msg.to_wire().as_str()).add(end_msg.to_wire().as_str()).done();
        push_send(fx, session, both);
    }
    assert(fx.deep_view() =~= before + shown_channel(
        state.deep_view(),
        session@,
        nick@,
        did@,
        name@,
    ));
}

/// The names of the local members of a channel.
fn local_name_list(state: &ServerState, ch: &ChannelState) -> (r: Vec<String>)
    ensures
        r.deep_view() == channel::local_names(
            state.deep_view(),
            ch.deep_view(),
            ch.deep_view().members,
            false,
        ).0,
{
    let mut list: Vec<String> = Vec::new();
    let mut seen: Vec<String> = Vec::new();
    channel::push_local_names(state, ch, false, &mut list, &mut seen);
    list
}

/// Shows a session all channels that it finds itself in.
fn push_shown_channels(
    fx: &mut Vec<Effect>,
    state: &ServerState,
    session: &str,
    nick: &str,
    did: &str,
    names: &Vec<String>,
)
    ensures
        final(fx).deep_view() == old(fx).deep_view() + shown_channels(
            state.deep_view(),
            session@,
            nick@,
            did@,
            names.deep_view(),
        ),
{
    let ghost before = fx.deep_view();
    let ghost st = state.deep_view();
    let ghost all = names.deep_view();
    let mut i: usize = 0;
    assert(before + shown_channels(st, session@, nick@, did@, all.take(0)) =~= before);
    while i < names.len()
        invariant
            i <= all.len(),
            all == names.deep_view(),
            names@.len() == all.len(),
            st == state.deep_view(),
            fx.deep_view() == before + shown_channels(
                st,
                session@,
                nick@,
                did@,
                all.take(i as int),
            ),
        decreases all.len() - i,
    {
        assert(all.take(i + 1).drop_last() =~= all.take(i as int));
        push_shown_channel(fx, state, session, nick, did, names[i].as_str());
        i = i + 1;
        assert(fx.deep_view() =~= before + shown_channels(
            st,
            session@,
            nick@,
            did@,
            all.take(i as int),
        ));
    }
    assert(all.take(i as int) =~= all);
}

/// Attaches a further session of a user.
fn attach_further(
    conn: &mut Connection,
    did: &str,
    others: &Vec<String>,
    state: &mut ServerState,
    fx: &mut Vec<Effect>,
)
    ensures
        ({
            let r = further_session_spec(
                old(state).deep_view(),
                old(conn).deep_view(),
                did@,
                others.deep_view(),
            );
            &&& final(state).deep_view() == r.0
            &&& final(conn).deep_view() == r.1
            &&& final(fx).deep_view() == old(fx).deep_view() + r.2
        }),
{
    if let Some(canon) = find_canonical_nick(state, did, conn.id.as_str()) {
        if !is_same_nick(&conn.nick, canon.as_str()) {
            state.unname_session(conn.id.as_str());
            conn.nick = Some(canon.clone());
        }
        state.set_nick(canon.as_str(), conn.id.as_str());
    }
    let names = share_channels(&mut state.channels, others, conn.id.as_str(), did);
    push_shown_channels(fx, state, conn.id.as_str(), conn.nick_or_star(), did, &names);
}

/// Attach a new session to existing sessions with the same DID.
/// This enables multi-device:
/// - The new session shares the same nick
/// - The new session is added to all channels the DID is already in
/// - Messages fan out to all sessions for the DID
/// - The user appears once in member lists
pub fn attach_same_did(conn: &mut Connection, state: &mut ServerState, fx: &mut Vec<Effect>)
    ensures
        ({
            let r = attach_spec(old(state).deep_view(), old(conn).deep_view());
            &&& final(state).deep_view() == r.0
            &&& final(conn).deep_view() == r.1
            &&& final(fx).deep_view() == old(fx).deep_view() + r.2
        }),
{
    reveal(attach_spec);
    assert(fx.deep_view() + Seq::<EffectView>::empty() =~= fx.deep_view());
    let did = match &conn.authenticated_did {
        Some(d) => d.clone(),
        None => {
            return;
        },
    };
    let mut mine = match state.did_sessions.get(did.as_str()) {
        Some(s) => s.dup(),
        None => StrSet::new(),
    };
    mine.insert(conn.id.clone());
    state.did_sessions.insert(did.clone(), mine);
    let found = match state.ghost_sessions.get(did.as_str()) {
        Some(g) => Some(g.dup()),
        None => None,
    };
    if let Some(g) = found {
        return_user(conn, did.as_str(), &g, state);
        return;
    }
    let others = find_other_sessions(&state.session_dids, did.as_str(), conn.id.as_str());
    if others.len() == 0 {
        attach_first(conn, state);
    } else {
        attach_further(conn, did.as_str(), &others, state, fx);
    }
}

// ── Completing registration ─────────────────────────────────────────

/// The name that a user gets who asks for a registered nick.
pub open spec fn guest_nick(guest: u32) -> Seq<char> {
    "Guest"@ + text::decimal_spec(guest as nat)
}

/// Whether the nick belongs to someone else.
pub open spec fn nick_owned_by_other(st: ServerStateView, c: ConnectionView) -> bool {
    match c.nick {
        Some(nick) => match containers::map_get(st.nick_owners, text::lowercase(nick)) {
            Some(owner) => c.authenticated_did != Some(owner),
            None => false,
        },
        None => false,
    }
}

/// The notice for a user who is renamed.
pub open spec fn renamed_notice(nick: Seq<char>, guest: u32) -> Seq<char> {
    "Nick "@ + nick + " is registered — renamed to "@ + guest_nick(guest)
        + ". Authenticate to reclaim."@
}

/// The nick of someone else is not granted: the user goes by a guest name instead.
#[verifier::opaque]
pub open spec fn ownership_spec(st: ServerStateView, c: ConnectionView, guest: u32) -> (
    ServerStateView,
    ConnectionView,
    Seq<EffectView>,
) {
    if nick_owned_by_other(st, c) {
        (
            st.nick_freed(c.nick->0).nick_set(guest_nick(guest), c.id),
            ConnectionView { nick: Some(guest_nick(guest)), ..c },
            seq![
                helpers::reply_fx(
                    c.id,
                    st.server_name,
                    "NOTICE"@,
                    seq!["*"@, renamed_notice(c.nick->0, guest)],
                ),
            ],
        )
    } else {
        (st, c, Seq::empty())
    }
}

/// Whether registration can be completed: both NICK and USER are there, nothing is being
/// negotiated, and it was not completed before.
pub open spec fn ready(c: ConnectionView) -> bool {
    !c.registered && !c.cap_negotiating && !c.sasl_in_progress && c.nick is Some && c.user is Some
}

/// The four replies that welcome a user.
pub open spec fn welcome_fx(st: ServerStateView, c: ConnectionView) -> Seq<EffectView> {
    let nick = c.nick_or_star();
    let s = st.server_name;
    seq![
        helpers::reply_fx(
            c.id,
            s,
            irc::RPL_WELCOME@,
            seq![nick, "Welcome to "@ + s + ", "@ + nick + auth_info(c)],
        ),
        helpers::reply_fx(
            c.id,
            s,
            irc::RPL_YOURHOST@,
            seq![nick, "Your host is "@ + s + ", running freeq 0.1"@],
        ),
        helpers::reply_fx(
            c.id,
            s,
            irc::RPL_CREATED@,
            seq![nick, "This server was started "@ + time::boot_time_text(st.boot_time)],
        ),
        helpers::reply_fx(c.id, s, irc::RPL_MYINFO@, seq![nick, s, "freeq-0.1"@, "o"@, "o"@]),
    ]
}

/// How the welcome tells who the user is.
pub open spec fn auth_info(c: ConnectionView) -> Seq<char> {
    match c.authenticated_did {
        Some(did) => " (authenticated as "@ + did + ")"@,
        None => " (guest)"@,
    }
}

/// One line of the message of the day.
pub open spec fn motd_line(st: ServerStateView, c: ConnectionView, line: Seq<char>) -> EffectView {
    helpers::reply_fx(
        c.id,
        st.server_name,
        irc::RPL_MOTD@,
        seq![c.nick_or_star(), "- "@ + line],
    )
}

/// The message of the day, or that there is none.
pub open spec fn motd_fx(st: ServerStateView, c: ConnectionView) -> Seq<EffectView> {
    let nick = c.nick_or_star();
    match st.motd {
        Some(motd) => seq![
            helpers::reply_fx(
                c.id,
                st.server_name,
                irc::RPL_MOTDSTART@,
                seq![nick, "- "@ + st.server_name + " Message of the day -"@],
            ),
        ] + text::lines_spec(motd).map_values(|l: Seq<char>| motd_line(st, c, l)) + seq![
            helpers::reply_fx(
                c.id,
                st.server_name,
                irc::RPL_ENDOFMOTD@,
                seq![nick, "End of /MOTD command"@],
            ),
        ],
        None => seq![
            helpers::reply_fx(
                c.id,
                st.server_name,
                irc::ERR_NOMOTD@,
                seq![nick, "MOTD File is missing"@],
            ),
        ],
    }
}

/// How long a restart is worth a notice, in seconds.
pub const RESTART_NOTICE_SECS: u64 = 300;

/// Seconds since the server came up.
pub open spec fn uptime(st: ServerStateView, now: u64) -> nat {
    if now >= st.boot_time {
        (now - st.boot_time) as nat
    } else {
        0
    }
}

/// A span of less than five minutes, as text.
pub open spec fn ago_text(secs: nat) -> Seq<char> {
    if secs < 60 {
        text::decimal_spec(secs) + "s ago"@
    } else {
        text::decimal_spec(secs / 60) + "m "@ + text::decimal_spec(secs % 60) + "s ago"@
    }
}

/// A notice that the server came up a short while ago.
pub open spec fn restart_fx(st: ServerStateView, c: ConnectionView, now: u64) -> Seq<EffectView> {
    if uptime(st, now) < RESTART_NOTICE_SECS {
        seq![
            helpers::send_fx(
                c.id,
                ":"@ + st.server_name + " NOTICE "@ + c.nick_or_star()
                    + " :⚡ Server restarted at "@ + time::boot_time_text(st.boot_time) + " ("@
                    + ago_text(uptime(st, now)) + ")\r\n"@,
            ),
        ]
    } else {
        Seq::empty()
    }
}

/// The topic of a channel, where it has one.
pub open spec fn regained_topic(
    st: ServerStateView,
    c: ConnectionView,
    name: Seq<char>,
) -> Seq<EffectView> {
    match st.channel(text::lowercase(name)) {
        Some(ch) => match ch.topic {
            Some(t) => seq![
                helpers::reply_fx(
                    c.id,
                    st.server_name,
                    irc::RPL_TOPIC@,
                    seq![c.nick_or_star(), name, t.text],
                ),
            ],
            None => Seq::empty(),
        },
        None => Seq::empty(),
    }
}

/// What a returning user is shown of a channel that it still is in.
pub open spec fn regained_fx(
    st: ServerStateView,
    c: ConnectionView,
    name: Seq<char>,
) -> Seq<EffectView> {
    let nick = c.nick_or_star();
    seq![helpers::send_fx(c.id, ":"@ + c.hostmask() + " JOIN "@ + name + "\r\n"@)]
        + regained_topic(st, c, name) + channel::names_fx(st, c.id, nick, name, st.cap_multi_prefix.contains(c.id))
}

/// What a returning user is shown of all the channels that it still is in.
pub open spec fn regained_all(
    st: ServerStateView,
    c: ConnectionView,
    names: Seq<Seq<char>>,
) -> Seq<EffectView>
    decreases names.len(),
{
    if names.len() == 0 {
        Seq::empty()
    } else {
        regained_all(st, c, names.drop_last()) + regained_fx(st, c, names.last())
    }
}

/// The state that remembers the peer's iroh endpoint.
pub open spec fn with_iroh_id(st: ServerStateView, c: ConnectionView) -> ServerStateView {
    match c.iroh_endpoint_id {
        Some(id) => ServerStateView {
            session_iroh_ids: containers::map_put(st.session_iroh_ids, c.id, id),
            ..st
        },
        None => st,
    }
}

/// Everything that a user is sent once it is registered.
#[verifier::opaque]
pub open spec fn greeting_fx(st: ServerStateView, c: ConnectionView, now: u64) -> Seq<EffectView> {
    welcome_fx(st, c) + motd_fx(st, c) + restart_fx(st, c, now) + (match c.ghost_channels {
        Some(names) => regained_all(st, c, names),
        None => Seq::empty(),
    })
}

/// What completing a registration does.
#[verifier::opaque]
pub open spec fn registration_spec(
    st: ServerStateView,
    c: ConnectionView,
    guest: u32,
    now: u64,
) -> (ServerStateView, ConnectionView, Seq<EffectView>) {
    if !ready(c) {
        (st, c, Seq::empty())
    } else {
        let own = ownership_spec(st, c, guest);
        let att = attach_spec(own.0, own.1);
        let c2 = ConnectionView { registered: true, ..att.1 };
        let st2 = with_iroh_id(att.0, c2);
        (
            st2,
            ConnectionView { ghost_channels: None, ..c2 },
            own.2 + att.2 + greeting_fx(st2, c2, now),
        )
    }
}

/// Renames a user who has asked for the nick of someone else.
fn enforce_ownership(
    conn: &mut Connection,
    guest: u32,
    state: &mut ServerState,
    fx: &mut Vec<Effect>,
)
    ensures
        ({
            let r = ownership_spec(old(state).deep_view(), old(conn).deep_view(), guest);
            &&& final(state).deep_view() == r.0
            &&& final(conn).deep_view() == r.1
            &&& final(fx).deep_view() == old(fx).deep_view() + r.2
        }),
{
    reveal(ownership_spec);
    assert(fx.deep_view() + Seq::<EffectView>::empty() =~= fx.deep_view());
    if !is_owned_by_other(conn, state) {
        return;
    }
    let nick = match &conn.nick {
        Some(n) => n.clone(),
        None => {
            return;
        },
    };
    let new_nick = Line::new("Guest").add(decimal(guest as u128).as_str()).done();
    let notice = Line::new("Nick ").add(nick.as_str()).add(" is registered — renamed to ").add(
        new_nick.as_str(),
    ).add(". Authenticate to reclaim.").done();
    push_reply(
        fx,
        conn.id.as_str(),
        state.server_name.as_str(),
        "NOTICE",
        p2("*", notice.as_str()),
    );
    rename_session(state, nick.as_str(), new_nick.as_str(), conn.id.as_str());
    conn.nick = Some(new_nick);
}

/// Whether the nick belongs to someone else.
fn is_owned_by_other(conn: &Connection, state: &ServerState) -> (b: bool)
    ensures
        b == nick_owned_by_other(state.deep_view(), conn.deep_view()),
{
    match &conn.nick {
        Some(nick) => match state.nick_owners.get(to_lowercase(nick.as_str()).as_str()) {
            Some(owner) => !opt_is(&conn.authenticated_did, owner.as_str()),
            None => false,
        },
        None => false,
    }
}

/// Welcomes a user.
fn push_welcome(fx: &mut Vec<Effect>, state: &ServerState, conn: &Connection)
    ensures
        final(fx).deep_view() == old(fx).deep_view() + welcome_fx(
            state.deep_view(),
            conn.deep_view(),
        ),
{
    let ghost before = fx.deep_view();
    let nick = conn.nick_or_star();
    let server = state.server_name.as_str();
    let session = conn.id.as_str();
    let who = match &conn.authenticated_did {
        Some(did) => Line::new(" (authenticated as ").add(did.as_str()).add(")").done(),
        None => " (guest)".to_owned(),
    };
    let welcome = Line::new("Welcome to ").add(server).add(", ").add(nick).add(
        who.as_str(),
    ).done();
    push_reply(fx, session, server, irc::RPL_WELCOME, p2(nick, welcome.as_str()));
    let host = Line::new("Your host is ").add(server).add(", running freeq 0.1").done();
    push_reply(fx, session, server, irc::RPL_YOURHOST, p2(nick, host.as_str()));
    let started = Line::new("This server was started ").add(
        format_boot_time(state.boot_time).as_str(),
    ).done();
    push_reply(fx, session, server, irc::RPL_CREATED, p2(nick, started.as_str()));
    push_reply(fx, session, server, irc::RPL_MYINFO, p5(nick, server, "freeq-0.1", "o", "o"));
    assert(fx.deep_view() =~= before + welcome_fx(state.deep_view(), conn.deep_view()));
}

/// Sends the message of the day.
pub fn push_motd(fx: &mut Vec<Effect>, state: &ServerState, conn: &Connection)
    ensures
        final(fx).deep_view() == old(fx).deep_view() + motd_fx(
            state.deep_view(),
            conn.deep_view(),
        ),
{
    let ghost start = fx.deep_view();
    let ghost st = state.deep_view();
    let ghost c = conn.deep_view();
    let nick = conn.nick_or_star();
    let server = state.server_name.as_str();
    let session = conn.id.as_str();
    match &state.motd {
        Some(motd) => {
            let head = Line::new("- ").add(server).add(" Message of the day -").done();
            push_reply(fx, session, server, irc::RPL_MOTDSTART, p2(nick, head.as_str()));
            let body = text::lines(motd.as_str());
            let ghost all = body.deep_view();
            let ghost f = |l: Seq<char>| motd_line(st, c, l);
            let ghost before = fx.deep_view();
            let mut i: usize = 0;
            assert(before + all.take(0).map_values(f) =~= before);
            while i < body.len()
                invariant
                    i <= all.len(),
                    all == body.deep_view(),
                    body@.len() == all.len(),
                    st == state.deep_view(),
                    c == conn.deep_view(),
                    nick@ == c.nick_or_star(),
                    server@ == st.server_name,
                    session@ == c.id,
                    f == (|l: Seq<char>| motd_line(st, c, l)),
                    fx.deep_view() == before + all.take(i as int).map_values(f),
                decreases all.len() - i,
            {
                let ghost prev = fx.deep_view();
                let line = Line::new("- ").add(body[i].as_str()).done();
                push_reply(fx, session, server, irc::RPL_MOTD, p2(nick, line.as_str()));
                assert(fx.deep_view() == prev.push(f(all[i as int])));
                i = i + 1;
                assert(fx.deep_view() =~= before + all.take(i as int).map_values(f));
            }
            assert(all.take(i as int) =~= all);
            push_reply(
                fx,
                session,
                server,
                irc::RPL_ENDOFMOTD,
                p2(nick, "End of /MOTD command"),
            );
        },
        None => {
            push_reply(fx, session, server, irc::ERR_NOMOTD, p2(nick, "MOTD File is missing"));
        },
    }
    assert(fx.deep_view() =~= start + motd_fx(st, c));
}

/// Tells that the server came up a short while ago.
fn push_restart(fx: &mut Vec<Effect>, state: &ServerState, conn: &Connection, now: u64)
    ensures
        final(fx).deep_view() == old(fx).deep_view() + restart_fx(
            state.deep_view(),
            conn.deep_view(),
            now,
        ),
{
    assert(fx.deep_view() + Seq::<EffectView>::empty() =~= fx.deep_view());
    let up: u64 = if now >= state.boot_time {
        now - state.boot_time
    } else {
        0
    };
    if up >= RESTART_NOTICE_SECS {
        return;
    }
    let ago = if up < 60 {
        Line::new(decimal(up as u128).as_str()).add("s ago").done()
    } else {
        Line::new(decimal((up / 60) as u128).as_str()).add("m ").add(
            decimal((up % 60) as u128).as_str(),
        ).add("s ago").done()
    };
    let notice = Line::new(":").add(state.server_name.as_str()).add(" NOTICE ").add(
        conn.nick_or_star(),
    ).add(" :⚡ Server restarted at ").add(format_boot_time(state.boot_time).as_str()).add(
        " (",
    ).add(ago.as_str()).add(")\r\n").done();
    push_send(fx, conn.id.as_str(), notice);
}

/// Shows a returning user a channel that it still is in.
fn push_regained(fx: &mut Vec<Effect>, state: &ServerState, conn: &Connection, name: &str)
    ensures
        final(fx).deep_view() == old(fx).deep_view() + regained_fx(
            state.deep_view(),
            conn.deep_view(),
            name@,
        ),
{
    broadcast use helpers::lemma_push_after, helpers::lemma_add_after;

    let ghost before = fx.deep_view();
    let nick = conn.nick_or_star();
    let joined = Line::new(":").add(conn.hostmask().as_str()).add(" JOIN ").add(name).add(
        "\r\n",
    ).done();
    push_send(fx, conn.id.as_str(), joined);
    assert(fx.deep_view() =~= before + seq![helpers::send_fx(conn.deep_view().id, joined@)]);
    let mut told = false;
    if let Some(ch) = state.channels.get(to_lowercase(name).as_str()) {
        if let Some(t) = &ch.topic {
            told = true;
            push_reply(
                fx,
                conn.id.as_str(),
                state.server_name.as_str(),
                irc::RPL_TOPIC,
                p3(nick, name, t.text.as_str()),
            );
        }
    }
    if !told {
        assert(fx.deep_view() + Seq::<EffectView>::empty() =~= fx.deep_view());
    }
    let multi = state.cap_multi_prefix.contains(conn.id.as_str());
    push_names(fx, state, conn.id.as_str(), nick, name, multi);
}

/// Shows a returning user all channels that it still is in.
fn push_regained_all(
    fx: &mut Vec<Effect>,
    state: &ServerState,
    conn: &Connection,
    names: &Vec<String>,
)
    ensures
        final(fx).deep_view() == old(fx).deep_view() + regained_all(
            state.deep_view(),
            conn.deep_view(),
            names.deep_view(),
        ),
{
    let ghost before = fx.deep_view();
    let ghost st = state.deep_view();
    let ghost c = conn.deep_view();
    let ghost all = names.deep_view();
    let mut i: usize = 0;
    assert(before + regained_all(st, c, all.take(0)) =~= before);
    while i < names.len()
        invariant
            i <= all.len(),
            all == names.deep_view(),
            names@.len() == all.len(),
            st == state.deep_view(),
            c == conn.deep_view(),
            fx.deep_view() == before + regained_all(st, c, all.take(i as int)),
        decreases all.len() - i,
    {
        assert(all.take(i + 1).drop_last() =~= all.take(i as int));
        push_regained(fx, state, conn, names[i].as_str());
        i = i + 1;
        assert(fx.deep_view() =~= before + regained_all(st, c, all.take(i as int)));
    }
    assert(all.take(i as int) =~= all);
}

/// Sends everything that a user is sent once it is registered.
fn push_greeting(fx: &mut Vec<Effect>, state: &ServerState, conn: &Connection, now: u64)
    ensures
        final(fx).deep_view() == old(fx).deep_view() + greeting_fx(
            state.deep_view(),
            conn.deep_view(),
            now,
        ),
{
    broadcast use helpers::lemma_push_after, helpers::lemma_add_after;

    reveal(greeting_fx);
    push_welcome(fx, state, conn);
    push_motd(fx, state, conn);
    push_restart(fx, state, conn, now);
    match &conn.ghost_channels {
        Some(names) => {
            push_regained_all(fx, state, conn, names);
        },
        None => {
            assert(fx.deep_view() + Seq::<EffectView>::empty() =~= fx.deep_view());
        },
    }
}

/// Remembers the peer's iroh endpoint.
fn note_iroh_id(state: &mut ServerState, conn: &Connection)
    ensures
        final(state).deep_view() == with_iroh_id(old(state).deep_view(), conn.deep_view()),
{
    if let Some(id) = &conn.iroh_endpoint_id {
        state.session_iroh_ids.insert(conn.id.clone(), id.clone());
    }
}

/// Completes a registration that is ready to be. `guest` is the number for a guest name, should
/// the user need one.
pub fn complete_registration(
    conn: &mut Connection,
    guest: u32,
    now: u64,
    state: &mut ServerState,
    fx: &mut Vec<Effect>,
)
    ensures
        ({
            let r = registration_spec(old(state).deep_view(), old(conn).deep_view(), guest, now);
            &&& final(state).deep_view() == r.0
            &&& final(conn).deep_view() == r.1
            &&& final(fx).deep_view() == old(fx).deep_view() + r.2
        }),
{
    broadcast use helpers::lemma_push_after, helpers::lemma_add_after;

    reveal(registration_spec);
    assert(fx.deep_view() + Seq::<EffectView>::empty() =~= fx.deep_view());
    if conn.registered || conn.cap_negotiating || conn.sasl_in_progress || conn.nick.is_none()
        || conn.user.is_none() {
        return;
    }
    enforce_ownership(conn, guest, state, fx);
    attach_same_did(conn, state, fx);
    conn.registered = true;
    note_iroh_id(state, conn);
    push_greeting(fx, state, conn, now);
    conn.ghost_channels = None;
}

/// `rand::random`: a number that nothing else determines.
#[verifier::external_body]
fn random_u32() -> (r: u32) {
    rand::random::<u32>()
}

/// A random number for a guest name.
pub fn random_guest() -> (r: u32)
    ensures
        r < 100000,
{
    random_u32() % 100000
}

/// Completes a registration that is ready to be, with a guest name of a random number below
/// 100000 should the user need one.
pub fn try_complete_registration(
    conn: &mut Connection,
    now: u64,
    state: &mut ServerState,
    fx: &mut Vec<Effect>,
)
    ensures
        exists|guest: u32|
            guest < 100000 && {
                let r = #[trigger] registration_spec(
                    old(state).deep_view(),
                    old(conn).deep_view(),
                    guest,
                    now,
                );
                &&& final(state).deep_view() == r.0
                &&& final(conn).deep_view() == r.1
                &&& final(fx).deep_view() == old(fx).deep_view() + r.2
            },
{
    let guest: u32 = random_guest();
    complete_registration(conn, guest, now, state, fx);
}

// ── Rejoining ───────────────────────────────────────────────────────

/// The lower-case names of the channels that a session is in.
pub open spec fn joined_names(
    chs: Seq<(Seq<char>, ChannelStateView)>,
    session: Seq<char>,
) -> Seq<Seq<char>>
    decreases chs.len(),
{
    if chs.len() == 0 {
        Seq::empty()
    } else {
        let rest = joined_names(chs.drop_last(), session);
        if chs.last().1.members.contains(session) {
            rest.push(text::lowercase(chs.last().0))
        } else {
            rest
        }
    }
}

/// The saved channels that a session is not in yet, in their order.
pub open spec fn rejoin_spec(
    st: ServerStateView,
    session: Seq<char>,
    saved: Seq<Seq<char>>,
) -> Seq<Seq<char>> {
    saved.filter(
        |ch: Seq<char>| !joined_names(st.channels, session).contains(text::lowercase(ch)),
    )
}

/// The saved channels that a session is to rejoin.
pub fn channels_to_rejoin(state: &ServerState, session: &str, saved: &Vec<String>) -> (r: Vec<
    String,
>)
    ensures
        r.deep_view() == rejoin_spec(state.deep_view(), session@, saved.deep_view()),
{
    let ghost chs = state.channels@;
    let mut already: Vec<String> = Vec::new();
    let mut i: usize = 0;
    assert(already.deep_view() =~= joined_names(chs.take(0), session@));
    while i < state.channels.len()
        invariant
            i <= chs.len(),
            chs == state.channels@,
            already.deep_view() == joined_names(chs.take(i as int), session@),
        decreases chs.len() - i,
    {
        assert(chs.take(i + 1).drop_last() =~= chs.take(i as int));
        let ghost prev = already.deep_view();
        if state.channels.value_at(i).members.contains(session) {
            let lower = to_lowercase(state.channels.key_at(i).as_str());
            already.push(lower);
            assert(already.deep_view() =~= prev.push(lower@));
        }
        i = i + 1;
    }
    assert(chs.take(i as int) =~= chs);
    let ghost st = state.deep_view();
    let ghost p = |ch: Seq<char>|
        !joined_names(st.channels, session@).contains(text::lowercase(ch));
    let ghost all = saved.deep_view();
    let mut out: Vec<String> = Vec::new();
    let mut k: usize = 0;
    assert(out.deep_view() =~= all.take(0).filter(p)) by {
        reveal(Seq::filter);
    }
    while k < saved.len()
        invariant
            k <= all.len(),
            all == saved.deep_view(),
            saved@.len() == all.len(),
            st == state.deep_view(),
            already.deep_view() == joined_names(st.channels, session@),
            p == (|ch: Seq<char>|
                !joined_names(st.channels, session@).contains(text::lowercase(ch))),
            out.deep_view() == all.take(k as int).filter(p),
        decreases all.len() - k,
    {
        assert(all.take(k + 1).drop_last() =~= all.take(k as int));
        reveal(Seq::filter);
        let ghost prev = out.deep_view();
        let lower = to_lowercase(saved[k].as_str());
        if !list_contains(&already, lower.as_str()) {
            out.push(saved[k].clone());
            assert(out.deep_view() =~= prev.push(all[k as int]));
        }
        k = k + 1;
    }
    assert(all.take(k as int) =~= all);
    out
}

} // verus!
