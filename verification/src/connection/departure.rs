//! The end of a connection.
//!
//! A guest quits at once. A user with a DID whose last session ends is held for a grace period, in
//! which it can come back without anyone seeing it leave.
use super::helpers;
use super::helpers::{push_multicast, push_s2s};
use super::{Connection, ConnectionView};
use crate::containers;
use crate::containers::{Dup, StrMap};
use crate::server::{
    ChannelState, ChannelStateView, Effect, EffectView, GhostChannel, GhostChannelView,
    GhostSession, GhostSessionView, S2sEvent, S2sEventView, ServerState, ServerStateView,
};
use crate::text::{str_eq, Line};
use vstd::prelude::*;

verus! {

broadcast use vstd::string::group_string_axioms;

/// How long a user is held after its last session has ended, in seconds.
pub const QUIT_GRACE_SECS: u64 = 30;

// ── Traces of a session ─────────────────────────────────────────────

/// The state without what is kept for a session, but for its channels and its nick.
pub open spec fn session_cleaned(st: ServerStateView, s: Seq<char>) -> ServerStateView {
    ServerStateView {
        connections: containers::set_remove(st.connections, s),
        session_dids: containers::map_del(st.session_dids, s),
        session_handles: containers::map_del(st.session_handles, s),
        session_iroh_ids: containers::map_del(st.session_iroh_ids, s),
        session_away: containers::map_del(st.session_away, s),
        msg_timestamps: containers::map_del(st.msg_timestamps, s),
        session_msg_keys: containers::map_del(st.session_msg_keys, s),
        session_client_info: containers::map_del(st.session_client_info, s),
        cap_message_tags: containers::set_remove(st.cap_message_tags, s),
        cap_multi_prefix: containers::set_remove(st.cap_multi_prefix, s),
        cap_echo_message: containers::set_remove(st.cap_echo_message, s),
        cap_server_time: containers::set_remove(st.cap_server_time, s),
        cap_batch: containers::set_remove(st.cap_batch, s),
        cap_account_notify: containers::set_remove(st.cap_account_notify, s),
        cap_extended_join: containers::set_remove(st.cap_extended_join, s),
        cap_away_notify: containers::set_remove(st.cap_away_notify, s),
        server_opers: containers::set_remove(st.server_opers, s),
        session_actor_class: containers::map_del(st.session_actor_class, s),
        agent_presence: containers::map_del(st.agent_presence, s),
        agent_heartbeats: containers::map_del(st.agent_heartbeats, s),
        ..st
    }
}

/// Clean up per-session state (connections, caps, etc.) but NOT channel membership.
pub fn cleanup_session_state(state: &mut ServerState, session: &str)
    ensures
        final(state).deep_view() == session_cleaned(old(state).deep_view(), session@),
{
    state.connections.remove(session);
    state.session_dids.remove(session);
    state.session_handles.remove(session);
    state.session_iroh_ids.remove(session);
    state.session_away.remove(session);
    state.msg_timestamps.remove(session);
    state.session_msg_keys.remove(session);
    state.session_client_info.remove(session);
    state.cap_message_tags.remove(session);
    state.cap_multi_prefix.remove(session);
    state.cap_echo_message.remove(session);
    state.cap_server_time.remove(session);
    state.cap_batch.remove(session);
    state.cap_account_notify.remove(session);
    state.cap_extended_join.remove(session);
    state.cap_away_notify.remove(session);
    state.server_opers.remove(session);
    state.session_actor_class.remove(session);
    state.agent_presence.remove(session);
    state.agent_heartbeats.remove(session);
}

/// The channel without a session.
pub open spec fn channel_left(ch: ChannelStateView, s: Seq<char>) -> ChannelStateView {
    ChannelStateView {
        members: containers::set_remove(ch.members, s),
        ops: containers::set_remove(ch.ops, s),
        voiced: containers::set_remove(ch.voiced, s),
        halfops: containers::set_remove(ch.halfops, s),
        ..ch
    }
}

/// Whether a channel holds anything that must not be lost.
pub open spec fn worth_keeping(ch: ChannelStateView) -> bool {
    ch.members.len() > 0 || ch.remote_members.len() > 0 || ch.founder_did is Some || ch.topic is Some
        || ch.bans.len() > 0
}

/// The channels without a session; those that hold nothing then are gone.
pub open spec fn channels_left(chs: Seq<(Seq<char>, ChannelStateView)>, s: Seq<char>) -> Seq<
    (Seq<char>, ChannelStateView),
>
    decreases chs.len(),
{
    if chs.len() == 0 {
        Seq::empty()
    } else {
        let before = channels_left(chs.drop_last(), s);
        let ch = channel_left(chs.last().1, s);
        if worth_keeping(ch) {
            before.push((chs.last().0, ch))
        } else {
            before
        }
    }
}

/// The state in which a session is in no channel.
pub open spec fn membership_cleaned(st: ServerStateView, s: Seq<char>) -> ServerStateView {
    ServerStateView { channels: channels_left(st.channels, s), ..st }
}

/// Takes a session out of a channel.
fn leave_channel(ch: &mut ChannelState, session: &str)
    ensures
        final(ch).deep_view() == channel_left(old(ch).deep_view(), session@),
{
    ch.members.remove(session);
    ch.ops.remove(session);
    ch.voiced.remove(session);
    ch.halfops.remove(session);
}

/// Whether a channel holds anything that must not be lost.
fn is_worth_keeping(ch: &ChannelState) -> (b: bool)
    ensures
        b == worth_keeping(ch.deep_view()),
{
    assert(ch.deep_view().bans.len() == ch.bans@.len());
    !ch.members.is_empty() || !ch.remote_members.is_empty() || ch.founder_did.is_some()
        || ch.topic.is_some() || ch.bans.len() > 0
}

/// Takes a session out of all channels.
fn leave_channels(channels: &mut StrMap<ChannelState>, session: &str)
    ensures
        final(channels)@ == channels_left(old(channels)@, session@),
{
    let ghost all = channels@;
    let ghost mut seen: int = 0;
    let mut i: usize = 0;
    assert(channels@ =~= channels_left(all.take(0), session@) + all.skip(0));
    while i < channels.len()
        invariant
            0 <= seen <= all.len(),
            i == channels_left(all.take(seen), session@).len(),
            channels@ == channels_left(all.take(seen), session@) + all.skip(seen),
        decreases all.len() - seen,
    {
        let ghost done = channels_left(all.take(seen), session@);
        let ghost cur = channels@;
        assert(seen < all.len());
        assert(cur[i as int] == all[seen]);
        assert(all.take(seen + 1).drop_last() =~= all.take(seen));
        leave_channel(channels.value_at_mut(i), session);
        let ghost mid = channels@;
        if is_worth_keeping(channels.value_at(i)) {
            i = i + 1;
            assert(mid =~= done.push(
                (all[seen].0, channel_left(all[seen].1, session@)),
            ) + all.skip(seen + 1));
        } else {
            channels.remove_at(i);
            assert(channels@ =~= done + all.skip(seen + 1));
        }
        proof {
            seen = seen + 1;
        }
    }
    assert(all.take(seen) =~= all);
    assert(channels@ =~= channels_left(all, session@));
}

/// Remove a session from all channels. Retains channels that still have content.
pub fn cleanup_channel_membership(state: &mut ServerState, session: &str)
    ensures
        final(state).deep_view() == membership_cleaned(old(state).deep_view(), session@),
{
    leave_channels(&mut state.channels, session);
}

// ── Telling others ──────────────────────────────────────────────────

/// The line that tells that a user has gone.
pub open spec fn quit_line(hostmask: Seq<char>) -> Seq<char> {
    ":"@ + hostmask + " QUIT :Connection closed\r\n"@
}

/// The event that tells the federation that a user has gone.
pub open spec fn quit_event(nick: Seq<char>) -> EffectView {
    EffectView::S2s(S2sEventView::Quit { nick, reason: "Connection closed"@ })
}

/// What those who share channels with a session are sent when it goes.
pub open spec fn quit_fx(
    chs: Seq<(Seq<char>, ChannelStateView)>,
    s: Seq<char>,
    line: Seq<char>,
) -> Seq<EffectView>
    decreases chs.len(),
{
    if chs.len() == 0 {
        Seq::empty()
    } else {
        let before = quit_fx(chs.drop_last(), s, line);
        let members = chs.last().1.members;
        if members.contains(s) {
            before + helpers::multicast_fx(containers::set_remove(members, s), line)
        } else {
            before
        }
    }
}

/// Broadcast QUIT to all channels the session is in.
fn broadcast_quit(fx: &mut Vec<Effect>, state: &ServerState, session: &str, hostmask: &str)
    ensures
        final(fx).deep_view() == old(fx).deep_view() + quit_fx(
            state.deep_view().channels,
            session@,
            quit_line(hostmask@),
        ),
{
    let line = Line::new(":").add(hostmask).add(" QUIT :Connection closed\r\n").done();
    let ghost chs = state.channels@;
    let ghost before = fx.deep_view();
    let mut i: usize = 0;
    assert(before + quit_fx(chs.take(0), session@, line@) =~= before);
    while i < state.channels.len()
        invariant
            i <= chs.len(),
            chs == state.channels@,
            fx.deep_view() == before + quit_fx(chs.take(i as int), session@, line@),
        decreases chs.len() - i,
    {
        assert(chs.take(i + 1).drop_last() =~= chs.take(i as int));
        let ch = state.channels.value_at(i);
        let ghost prev = quit_fx(chs.take(i as int), session@, line@);
        if ch.members.contains(session) {
            let mut others = ch.members.dup();
            others.remove(session);
            push_multicast(fx, &others, line.as_str());
            assert(fx.deep_view() =~= before + (prev + helpers::multicast_fx(others@, line@)));
        }
        i = i + 1;
    }
    assert(chs.take(i as int) =~= chs);
}

/// Broadcast QUIT to S2S peers.
fn broadcast_quit_s2s(fx: &mut Vec<Effect>, nick: &str)
    ensures
        final(fx).deep_view() == old(fx).deep_view().push(quit_event(nick@)),
{
    push_s2s(
        fx,
        S2sEvent::Quit { nick: nick.to_owned(), reason: "Connection closed".to_owned() },
    );
}

// ── Going ───────────────────────────────────────────────────────────

/// The sessions that a DID has left when one of them ends.
pub open spec fn sessions_left(st: ServerStateView, c: ConnectionView) -> Seq<Seq<char>> {
    match c.authenticated_did {
        Some(did) => match containers::map_get(st.did_sessions, did) {
            Some(sessions) => containers::set_remove(sessions, c.id),
            None => Seq::empty(),
        },
        None => Seq::empty(),
    }
}

/// The state in which a session is no longer among those of its DID.
pub open spec fn did_session_ended(st: ServerStateView, c: ConnectionView) -> ServerStateView {
    match c.authenticated_did {
        Some(did) => if containers::map_get(st.did_sessions, did) is Some {
            ServerStateView {
                did_sessions: if sessions_left(st, c).len() == 0 {
                    containers::map_del(st.did_sessions, did)
                } else {
                    containers::map_put(st.did_sessions, did, sessions_left(st, c))
                },
                ..st
            }
        } else {
            st
        },
        None => st,
    }
}

/// The channels of a session, with its status in each.
pub open spec fn held_channels(chs: Seq<(Seq<char>, ChannelStateView)>, s: Seq<char>) -> Seq<
    GhostChannelView,
>
    decreases chs.len(),
{
    if chs.len() == 0 {
        Seq::empty()
    } else {
        let before = held_channels(chs.drop_last(), s);
        let ch = chs.last().1;
        if ch.members.contains(s) {
            before.push(
                GhostChannelView {
                    name: chs.last().0,
                    was_op: ch.ops.contains(s),
                    was_voiced: ch.voiced.contains(s),
                    was_halfop: ch.halfops.contains(s),
                },
            )
        } else {
            before
        }
    }
}

/// What is held of a user whose last session has ended.
pub open spec fn ghost_of(st: ServerStateView, c: ConnectionView, nick: Seq<char>) -> GhostSessionView {
    GhostSessionView {
        session_id: c.id,
        nick,
        hostmask: c.hostmask(),
        channels: held_channels(st.channels, c.id),
    }
}

/// The state in which a user is held: nick and channels stay as they are.
pub open spec fn ghosted(
    st: ServerStateView,
    c: ConnectionView,
    did: Seq<char>,
    nick: Seq<char>,
) -> ServerStateView {
    ServerStateView {
        ghost_sessions: containers::map_put(st.ghost_sessions, did, ghost_of(st, c, nick)),
        ..session_cleaned(st, c.id)
    }
}

/// The state without a session and without its channels.
pub open spec fn gone(st: ServerStateView, s: Seq<char>) -> ServerStateView {
    membership_cleaned(session_cleaned(st, s), s)
}

/// What the end of a connection does, and whether the user is held for a while.
pub open spec fn disconnect_spec(st: ServerStateView, c: ConnectionView) -> (
    ServerStateView,
    Seq<EffectView>,
    bool,
) {
    let ended = did_session_ended(st, c);
    match c.nick {
        Some(nick) => if sessions_left(st, c).len() > 0 {
            (gone(ended, c.id), Seq::empty(), false)
        } else {
            match c.authenticated_did {
                Some(did) => (ghosted(ended, c, did, nick), Seq::empty(), true),
                None => (
                    gone(ended.nick_freed(nick), c.id),
                    quit_fx(ended.channels, c.id, quit_line(c.hostmask())).push(quit_event(nick)),
                    false,
                ),
            }
        },
        None => (gone(ended, c.id), Seq::empty(), false),
    }
}

/// Takes a session out of those of its DID, and tells whether it was the last.
fn end_did_session(conn: &Connection, state: &mut ServerState) -> (last: bool)
    ensures
        final(state).deep_view() == did_session_ended(old(state).deep_view(), conn.deep_view()),
        last == (sessions_left(old(state).deep_view(), conn.deep_view()).len() == 0),
{
    match &conn.authenticated_did {
        Some(did) => {
            let mut left = match state.did_sessions.get(did.as_str()) {
                Some(sessions) => sessions.dup(),
                None => {
                    return true;
                },
            };
            left.remove(conn.id.as_str());
            if left.is_empty() {
                state.did_sessions.remove(did.as_str());
                true
            } else {
                state.did_sessions.insert(did.clone(), left);
                false
            }
        },
        None => true,
    }
}

/// The channels of a session, with its status in each.
fn list_held(channels: &StrMap<ChannelState>, session: &str) -> (r: Vec<GhostChannel>)
    ensures
        r.deep_view() == held_channels(channels@, session@),
{
    let ghost chs = channels@;
    let mut out: Vec<GhostChannel> = Vec::new();
    let mut i: usize = 0;
    assert(out.deep_view() =~= held_channels(chs.take(0), session@));
    while i < channels.len()
        invariant
            i <= chs.len(),
            chs == channels@,
            out.deep_view() == held_channels(chs.take(i as int), session@),
        decreases chs.len() - i,
    {
        assert(chs.take(i + 1).drop_last() =~= chs.take(i as int));
        let ch = channels.value_at(i);
        let ghost before = out.deep_view();
        if ch.members.contains(session) {
            let g = GhostChannel {
                name: channels.key_at(i).clone(),
                was_op: ch.ops.contains(session),
                was_voiced: ch.voiced.contains(session),
                was_halfop: ch.halfops.contains(session),
            };
            out.push(g);
            assert(out.deep_view() =~= before.push(g.deep_view()));
        }
        i = i + 1;
    }
    assert(chs.take(i as int) =~= chs);
    out
}

/// Holds a user whose last session has ended.
fn hold(conn: &Connection, did: &str, nick: &str, state: &mut ServerState)
    ensures
        final(state).deep_view() == ghosted(
            old(state).deep_view(),
            conn.deep_view(),
            did@,
            nick@,
        ),
{
    let ghost_session = GhostSession {
        session_id: conn.id.clone(),
        nick: nick.to_owned(),
        hostmask: conn.hostmask(),
        channels: list_held(&state.channels, conn.id.as_str()),
    };
    cleanup_session_state(state, conn.id.as_str());
    state.ghost_sessions.insert(did.to_owned(), ghost_session);
}

/// Drops a session and its channels.
fn drop_session(state: &mut ServerState, session: &str)
    ensures
        final(state).deep_view() == gone(old(state).deep_view(), session@),
{
    cleanup_session_state(state, session);
    cleanup_channel_membership(state, session);
}

/// Handles the end of a connection. Where the result is true the user is held, and
/// [`expire_ghost`] is to be called when the grace period is over.
pub fn disconnect(conn: &Connection, state: &mut ServerState, fx: &mut Vec<Effect>) -> (held: bool)
    ensures
        ({
            let r = disconnect_spec(old(state).deep_view(), conn.deep_view());
            &&& final(state).deep_view() == r.0
            &&& final(fx).deep_view() == old(fx).deep_view() + r.1
            &&& held == r.2
        }),
{
    broadcast use helpers::lemma_push_after, helpers::lemma_add_after;

    assert(fx.deep_view() + Seq::<EffectView>::empty() =~= fx.deep_view());
    let last = end_did_session(conn, state);
    if !last {
        drop_session(state, conn.id.as_str());
        return false;
    }
    match &conn.nick {
        Some(nick) => match &conn.authenticated_did {
            Some(did) => {
                hold(conn, did.as_str(), nick.as_str(), state);
                true
            },
            None => {
                let hostmask = conn.hostmask();
                broadcast_quit(fx, state, conn.id.as_str(), hostmask.as_str());
                broadcast_quit_s2s(fx, nick.as_str());
                state.free_nick(nick.as_str());
                drop_session(state, conn.id.as_str());
                false
            },
        },
        None => {
            drop_session(state, conn.id.as_str());
            false
        },
    }
}

// ── The end of the grace period ─────────────────────────────────────

/// What every member of every channel is sent when a held user is given up.
pub open spec fn expiry_fx(chs: Seq<(Seq<char>, ChannelStateView)>, line: Seq<char>) -> Seq<
    EffectView,
>
    decreases chs.len(),
{
    if chs.len() == 0 {
        Seq::empty()
    } else {
        expiry_fx(chs.drop_last(), line) + helpers::multicast_fx(chs.last().1.members, line)
    }
}

/// What the end of the grace period does: a user that has not come back, and has not gone again
/// since, quits. The members of all channels are told, and the session leaves its own.
pub open spec fn expiry_spec(st: ServerStateView, did: Seq<char>, session: Seq<char>) -> (
    ServerStateView,
    Seq<EffectView>,
) {
    match containers::map_get(st.ghost_sessions, did) {
        Some(g) => if g.session_id == session {
            (
                membership_cleaned(
                    (ServerStateView {
                        ghost_sessions: containers::map_del(st.ghost_sessions, did),
                        ..st
                    }).nick_freed(g.nick),
                    session,
                ),
                expiry_fx(st.channels, quit_line(g.hostmask)).push(quit_event(g.nick)),
            )
        } else {
            (st, Seq::empty())
        },
        None => (st, Seq::empty()),
    }
}

/// Sends every member of every channel a line.
fn broadcast_all(fx: &mut Vec<Effect>, channels: &StrMap<ChannelState>, line: &str)
    ensures
        final(fx).deep_view() == old(fx).deep_view() + expiry_fx(channels@, line@),
{
    let ghost chs = channels@;
    let ghost before = fx.deep_view();
    let mut i: usize = 0;
    assert(before + expiry_fx(chs.take(0), line@) =~= before);
    while i < channels.len()
        invariant
            i <= chs.len(),
            chs == channels@,
            fx.deep_view() == before + expiry_fx(chs.take(i as int), line@),
        decreases chs.len() - i,
    {
        assert(chs.take(i + 1).drop_last() =~= chs.take(i as int));
        let ghost prev = expiry_fx(chs.take(i as int), line@);
        push_multicast(fx, &channels.value_at(i).members, line);
        assert(fx.deep_view() =~= before + (prev + helpers::multicast_fx(
            chs[i as int].1.members,
            line@,
        )));
        i = i + 1;
    }
    assert(chs.take(i as int) =~= chs);
}

/// Handles the end of the grace period of the user `did` whose last session was `session`.
pub fn expire_ghost(did: &str, session: &str, state: &mut ServerState, fx: &mut Vec<Effect>)
    ensures
        ({
            let r = expiry_spec(old(state).deep_view(), did@, session@);
            &&& final(state).deep_view() == r.0
            &&& final(fx).deep_view() == old(fx).deep_view() + r.1
        }),
{
    broadcast use helpers::lemma_push_after, helpers::lemma_add_after;

    assert(fx.deep_view() + Seq::<EffectView>::empty() =~= fx.deep_view());
    let held = match state.ghost_sessions.get(did) {
        Some(g) => g.dup(),
        None => {
            return;
        },
    };
    if !str_eq(held.session_id.as_str(), session) {
        return;
    }
    let line = Line::new(":").add(held.hostmask.as_str()).add(" QUIT :Connection closed\r\n").done();
    broadcast_all(fx, &state.channels, line.as_str());
    broadcast_quit_s2s(fx, held.nick.as_str());
    state.ghost_sessions.remove(did);
    state.free_nick(held.nick.as_str());
    cleanup_channel_membership(state, session);
}

} // verus!
