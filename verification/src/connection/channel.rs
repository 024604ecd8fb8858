//! Channel operations: join, part, mode, topic, kick, invite, names, list.
//!
//! Each handler is specified by a spec function of the same name with the suffix `_spec`, which
//! gives the new server state and the effects from the old state, the connection and the command.
use super::helpers;
use super::helpers::{
    p2, p3, p4, p5, push_crdt, push_multicast, push_reply, push_s2s,
    push_send, push_store,
};
use super::{Connection, ConnectionView};
use crate::containers;
use crate::containers::{Dup, StrSet};
use crate::irc;
use crate::server::{
    BanEntry, BanEntryView, ChannelState, ChannelStateView, ChannelTarget, ChannelTargetView,
    CrdtOp, CrdtOpView, Effect, EffectView, RemoteMember, RemoteMemberView, S2sEvent, S2sEventView,
    ServerState, ServerStateView, StoreOp, StoreOpView, TopicInfo, TopicInfoView,
};
use crate::text;
use crate::text::{byte_len, decimal, join, str_eq, to_lowercase, Line};
use vstd::prelude::*;

verus! {

broadcast use vstd::string::group_string_axioms;

// ── KICK ────────────────────────────────────────────────────────────

/// The line that tells of a kick.
pub open spec fn kick_line(
    c: ConnectionView,
    channel: Seq<char>,
    target: Seq<char>,
    reason: Seq<char>,
) -> Seq<char> {
    ":"@ + c.hostmask() + " KICK "@ + channel + " "@ + target + " :"@ + reason + "\r\n"@
}

/// A channel without a session.
pub open spec fn without_session(ch: ChannelStateView, session: Seq<char>) -> ChannelStateView {
    ChannelStateView {
        members: containers::set_remove(ch.members, session),
        ops: containers::set_remove(ch.ops, session),
        voiced: containers::set_remove(ch.voiced, session),
        halfops: containers::set_remove(ch.halfops, session),
        ..ch
    }
}

/// Whether a remote member is an operator: at home or by DID.
pub open spec fn remote_has_ops(ch: ChannelStateView, rm: RemoteMemberView) -> bool {
    rm.is_op || (rm.did matches Some(d) && did_has_ops(ch, d))
}

/// Whether a remote member is an operator: at home or by DID.
fn is_remote_op(ch: &ChannelState, rm: &RemoteMember) -> (b: bool)
    ensures
        b == remote_has_ops(ch.deep_view(), rm.deep_view()),
{
    rm.is_op || match &rm.did {
        Some(d) => has_did_ops(ch, d.as_str()),
        None => false,
    }
}

/// Whether a moderator may not kick a nick: it is an operator or a moderator.
pub open spec fn is_protected(st: ServerStateView, channel: Seq<char>, target: Seq<char>) -> bool {
    ||| st.session_of(target) matches Some(s) && (st.is_op(channel, s) || st.is_halfop(channel, s))
    ||| st.channel_target(channel, target) matches ChannelTargetView::Remote(rm) && (st.channel(
        channel,
    ) matches Some(ch) && remote_has_ops(ch, rm))
}

/// Only members that are operators or moderators, or server operators, may kick; a moderator may
/// not kick an operator or another moderator. Everyone in the channel sees the kick; a remote
/// target's home server is told.
pub open spec fn kick_spec(
    st: ServerStateView,
    c: ConnectionView,
    channel: Seq<char>,
    target: Seq<char>,
    reason: Seq<char>,
) -> (ServerStateView, Seq<EffectView>) {
    let nick = c.nick_or_star();
    let oper = st.server_opers.contains(c.id);
    let op = st.is_op(channel, c.id);
    let halfop = st.is_halfop(channel, c.id);
    let line = kick_line(c, channel, target, reason);
    if !st.is_member(channel, c.id) {
        helpers::refuse(st, c, irc::ERR_NOTONCHANNEL@, seq![nick, channel, "You're not on that channel"@])
    } else if !op && !halfop && !oper {
        helpers::refuse(st, c, irc::ERR_CHANOPRIVSNEEDED@, seq![nick, channel, "You're not channel operator"@])
    } else if halfop && !op && !oper && is_protected(st, channel, target) {
        helpers::refuse(st, c, irc::ERR_CHANOPRIVSNEEDED@, seq![nick, channel, "Cannot kick a channel operator or moderator"@])
    } else {
        match st.channel_target(channel, target) {
            ChannelTargetView::Local { session_id } => (
                st.with_channel(channel, without_session(st.channel(channel)->0, session_id)),
                helpers::multicast_fx(st.members(channel), line),
            ),
            ChannelTargetView::Remote(_) => (
                st.with_channel(
                    channel,
                    ChannelStateView {
                        remote_members: crate::server::remote_without(
                            st.channel(channel)->0.remote_members,
                            target,
                        ),
                        ..st.channel(channel)->0
                    },
                ),
                helpers::multicast_fx(st.members(channel), line).push(
                    EffectView::S2s(
                        S2sEventView::Kick { nick: target, channel, by: nick, reason },
                    ),
                ),
            ),
            ChannelTargetView::NotPresent => helpers::refuse(
                st,
                c,
                irc::ERR_USERNOTINCHANNEL@,
                seq![nick, target, channel, "They aren't on that channel"@],
            ),
        }
    }
}

/// Whether a moderator may not kick a nick.
fn check_protected(state: &ServerState, channel: &str, target: &str) -> (b: bool)
    ensures
        b == is_protected(state.deep_view(), channel@, target@),
{
    let here = match state.session_of(target) {
        Some(sid) => state.is_op(channel, sid.as_str()) || state.is_halfop(channel, sid.as_str()),
        None => false,
    };
    here || match state.resolve_channel_target(channel, target) {
        ChannelTarget::Remote(rm) => match state.channels.get(channel) {
            Some(ch) => is_remote_op(ch, &rm),
            None => false,
        },
        _ => false,
    }
}

/// Handle KICK command.
pub fn handle_kick(
    conn: &Connection,
    channel: &str,
    target_nick: &str,
    reason: &str,
    state: &mut ServerState,
    fx: &mut Vec<Effect>,
)
    ensures
        final(state).deep_view() == kick_spec(
            old(state).deep_view(),
            conn.deep_view(),
            channel@,
            target_nick@,
            reason@,
        ).0,
        final(fx).deep_view() == old(fx).deep_view() + kick_spec(
            old(state).deep_view(),
            conn.deep_view(),
            channel@,
            target_nick@,
            reason@,
        ).1,
{
    let nick = conn.nick_or_star();
    let session_id = conn.id.as_str();
    if !state.is_member(channel, session_id) {
        push_reply(
            fx,
            session_id,
            state.server_name.as_str(),
            irc::ERR_NOTONCHANNEL,
            p3(nick, channel, "You're not on that channel"),
        );
        return;
    }
    let is_op = state.is_op(channel, session_id);
    let is_halfop = state.is_halfop(channel, session_id);
    let is_server_oper = state.server_opers.contains(session_id);
    if !is_op && !is_halfop && !is_server_oper {
        push_reply(
            fx,
            session_id,
            state.server_name.as_str(),
            irc::ERR_CHANOPRIVSNEEDED,
            p3(nick, channel, "You're not channel operator"),
        );
        return;
    }
    if is_halfop && !is_op && !is_server_oper {
        if check_protected(state, channel, target_nick) {
            push_reply(
                fx,
                session_id,
                state.server_name.as_str(),
                irc::ERR_CHANOPRIVSNEEDED,
                p3(nick, channel, "Cannot kick a channel operator or moderator"),
            );
            return;
        }
    }
    let target = state.resolve_channel_target(channel, target_nick);
    match target {
        ChannelTarget::Local { session_id: target_session } => {
            let kick_msg = Line::new(":").add(conn.hostmask().as_str()).add(" KICK ").add(
                channel,
            ).add(" ").add(target_nick).add(" :").add(reason).add("\r\n").done();
            push_multicast(fx, &state.members(channel), kick_msg.as_str());
            if let Some(ch) = state.channels.get_mut(channel) {
                ch.members.remove(target_session.as_str());
                ch.ops.remove(target_session.as_str());
                ch.voiced.remove(target_session.as_str());
                ch.halfops.remove(target_session.as_str());
            }
        },
        ChannelTarget::Remote(_) => {
            let kick_msg = Line::new(":").add(conn.hostmask().as_str()).add(" KICK ").add(
                channel,
            ).add(" ").add(target_nick).add(" :").add(reason).add("\r\n").done();
            push_multicast(fx, &state.members(channel), kick_msg.as_str());
            if let Some(ch) = state.channels.get_mut(channel) {
                ch.remove_remote_member(target_nick);
            }
            push_s2s(
                fx,
                S2sEvent::Kick {
                    nick: target_nick.to_owned(),
                    channel: channel.to_owned(),
                    by: nick.to_owned(),
                    reason: reason.to_owned(),
                },
            );
        },
        ChannelTarget::NotPresent => {
            push_reply(
                fx,
                session_id,
                state.server_name.as_str(),
                irc::ERR_USERNOTINCHANNEL,
                p4(nick, target_nick, channel, "They aren't on that channel"),
            );
        },
    }
}

// ── PART ────────────────────────────────────────────────────────────

/// A member leaves: everyone in the channel, the leaver too, sees it, and the channel is no longer
/// rejoined automatically.
pub open spec fn part_spec(st: ServerStateView, c: ConnectionView, channel: Seq<char>) -> (
    ServerStateView,
    Seq<EffectView>,
) {
    let nick = c.nick_or_star();
    if !st.is_member(channel, c.id) {
        helpers::refuse(
            st,
            c,
            irc::ERR_NOTONCHANNEL@,
            seq![nick, channel, "You're not on that channel"@],
        )
    } else {
        let ch = st.channel(channel)->0;
        (
            st.with_channel(
                channel,
                ChannelStateView { members: containers::set_remove(ch.members, c.id), ..ch },
            ),
            helpers::multicast_fx(
                st.members(channel),
                ":"@ + c.hostmask() + " PART "@ + channel + "\r\n"@,
            ) + (match c.authenticated_did {
                Some(did) => seq![EffectView::Store(StoreOpView::RemoveUserChannel { did, channel })],
                None => Seq::empty(),
            }) + seq![EffectView::S2s(S2sEventView::Part { nick, channel })],
        )
    }
}

/// Handle PART command.
pub fn handle_part(conn: &Connection, channel: &str, state: &mut ServerState, fx: &mut Vec<Effect>)
    ensures
        final(state).deep_view() == part_spec(old(state).deep_view(), conn.deep_view(), channel@).0,
        final(fx).deep_view() == old(fx).deep_view() + part_spec(
            old(state).deep_view(),
            conn.deep_view(),
            channel@,
        ).1,
{
    let nick = conn.nick_or_star();
    let session_id = conn.id.as_str();
    if !state.is_member(channel, session_id) {
        push_reply(
            fx,
            session_id,
            state.server_name.as_str(),
            irc::ERR_NOTONCHANNEL,
            p3(nick, channel, "You're not on that channel"),
        );
        return;
    }
    let part_msg = Line::new(":").add(conn.hostmask().as_str()).add(" PART ").add(channel).add(
        "\r\n",
    ).done();
    push_multicast(fx, &state.members(channel), part_msg.as_str());
    if let Some(ch) = state.channels.get_mut(channel) {
        ch.members.remove(session_id);
    }
    if let Some(did) = &conn.authenticated_did {
        push_store(
            fx,
            StoreOp::RemoveUserChannel { did: did.clone(), channel: channel.to_owned() },
        );
    }
    push_s2s(fx, S2sEvent::Part { nick: nick.to_owned(), channel: channel.to_owned() });
}

// ── INVITE ──────────────────────────────────────────────────────────

/// The token that invites whoever has the nick.
pub open spec fn nick_token(nick: Seq<char>) -> Seq<char> {
    "nick:"@ + nick
}

/// The invites of a channel after a local user was invited: by session and, if known, by DID.
pub open spec fn invite_local(
    ch: ChannelStateView,
    session: Seq<char>,
    did: Option<Seq<char>>,
) -> ChannelStateView {
    let one = containers::set_insert(ch.invites, session);
    ChannelStateView {
        invites: match did {
            Some(d) => containers::set_insert(one, d),
            None => one,
        },
        ..ch
    }
}

/// The invites of a channel after a remote user was invited: by nick and, if known, by DID.
pub open spec fn invite_remote(
    ch: ChannelStateView,
    target: Seq<char>,
    did: Option<Seq<char>>,
) -> ChannelStateView {
    let one = match did {
        Some(d) => containers::set_insert(ch.invites, d),
        None => ch.invites,
    };
    ChannelStateView { invites: containers::set_insert(one, nick_token(target)), ..ch }
}

/// A member invites; on an invite-only channel only an operator may. The invite is kept by DID
/// where there is one, and the other servers are told.
pub open spec fn invite_spec(
    st: ServerStateView,
    c: ConnectionView,
    target: Seq<char>,
    channel: Seq<char>,
) -> (ServerStateView, Seq<EffectView>) {
    let nick = c.nick_or_star();
    if !st.is_member(channel, c.id) {
        helpers::refuse(
            st,
            c,
            irc::ERR_NOTONCHANNEL@,
            seq![nick, channel, "You're not on that channel"@],
        )
    } else if st.channel(channel)->0.invite_only && !st.is_op(channel, c.id)
        && !st.server_opers.contains(c.id) {
        helpers::refuse(
            st,
            c,
            irc::ERR_CHANOPRIVSNEEDED@,
            seq![nick, channel, "You're not channel operator"@],
        )
    } else {
        let ch = st.channel(channel)->0;
        let told = helpers::reply_fx(c.id, st.server_name, "341"@, seq![nick, target, channel]);
        match st.network_target(target) {
            ChannelTargetView::Local { session_id } => (
                st.with_channel(channel, invite_local(ch, session_id, st.did_of(session_id))),
                seq![
                    told,
                    helpers::send_fx(
                        session_id,
                        ":"@ + c.hostmask() + " INVITE "@ + target + " "@ + channel + "\r\n"@,
                    ),
                    EffectView::S2s(
                        S2sEventView::Invite {
                            channel,
                            invitee: text::or_default(st.did_of(session_id), nick_token(target)),
                            invited_by: nick,
                        },
                    ),
                ],
            ),
            ChannelTargetView::Remote(rm) => (
                st.with_channel(channel, invite_remote(ch, target, rm.did)),
                seq![
                    told,
                    EffectView::S2s(
                        S2sEventView::Invite {
                            channel,
                            invitee: text::or_default(rm.did, nick_token(target)),
                            invited_by: nick,
                        },
                    ),
                ],
            ),
            ChannelTargetView::NotPresent => helpers::refuse(
                st,
                c,
                irc::ERR_NOSUCHNICK@,
                seq![nick, target, "No such nick"@],
            ),
        }
    }
}

/// Handle INVITE command.
pub fn handle_invite(
    conn: &Connection,
    target_nick: &str,
    channel: &str,
    state: &mut ServerState,
    fx: &mut Vec<Effect>,
)
    ensures
        final(state).deep_view() == invite_spec(
            old(state).deep_view(),
            conn.deep_view(),
            target_nick@,
            channel@,
        ).0,
        final(fx).deep_view() == old(fx).deep_view() + invite_spec(
            old(state).deep_view(),
            conn.deep_view(),
            target_nick@,
            channel@,
        ).1,
{
    let nick = conn.nick_or_star();
    let session_id = conn.id.as_str();
    if !state.is_member(channel, session_id) {
        push_reply(
            fx,
            session_id,
            state.server_name.as_str(),
            irc::ERR_NOTONCHANNEL,
            p3(nick, channel, "You're not on that channel"),
        );
        return;
    }
    let is_invite_only = match state.channels.get(channel) {
        Some(ch) => ch.invite_only,
        None => false,
    };
    if is_invite_only && !state.is_op(channel, session_id) && !state.server_opers.contains(
        session_id,
    ) {
        push_reply(
            fx,
            session_id,
            state.server_name.as_str(),
            irc::ERR_CHANOPRIVSNEEDED,
            p3(nick, channel, "You're not channel operator"),
        );
        return;
    }
    let token = Line::new("nick:").add(target_nick).done();
    match state.resolve_network_target(target_nick) {
        ChannelTarget::Local { session_id: target_sid } => {
            let did = match state.did_of(target_sid.as_str()) {
                Some(d) => Some(d.clone()),
                None => None,
            };
            if let Some(ch) = state.channels.get_mut(channel) {
                ch.invites.insert(target_sid.clone());
                if let Some(d) = &did {
                    ch.invites.insert(d.clone());
                }
            }
            let invitee = match did {
                Some(d) => d,
                None => token,
            };
            push_reply(
                fx,
                session_id,
                state.server_name.as_str(),
                "341",
                p3(nick, target_nick, channel),
            );
            let invite_msg = Line::new(":").add(conn.hostmask().as_str()).add(" INVITE ").add(
                target_nick,
            ).add(" ").add(channel).add("\r\n").done();
            push_send(fx, target_sid.as_str(), invite_msg);
            push_s2s(
                fx,
                S2sEvent::Invite {
                    channel: channel.to_owned(),
                    invitee,
                    invited_by: nick.to_owned(),
                },
            );
        },
        ChannelTarget::Remote(rm) => {
            if let Some(ch) = state.channels.get_mut(channel) {
                if let Some(d) = &rm.did {
                    ch.invites.insert(d.clone());
                }
                ch.invites.insert(token.clone());
            }
            let invitee = match rm.did {
                Some(d) => d,
                None => token,
            };
            push_reply(
                fx,
                session_id,
                state.server_name.as_str(),
                "341",
                p3(nick, target_nick, channel),
            );
            push_s2s(
                fx,
                S2sEvent::Invite {
                    channel: channel.to_owned(),
                    invitee,
                    invited_by: nick.to_owned(),
                },
            );
        },
        ChannelTarget::NotPresent => {
            push_reply(
                fx,
                session_id,
                state.server_name.as_str(),
                irc::ERR_NOSUCHNICK,
                p3(nick, target_nick, "No such nick"),
            );
        },
    }
}

// ── TOPIC ───────────────────────────────────────────────────────────

/// The replies that tell the topic of a channel.
pub open spec fn topic_replies(
    st: ServerStateView,
    session: Seq<char>,
    nick: Seq<char>,
    channel: Seq<char>,
    topic: TopicInfoView,
) -> Seq<EffectView> {
    seq![
        helpers::reply_fx(
            session,
            st.server_name,
            irc::RPL_TOPIC@,
            seq![nick, channel, topic.text],
        ),
        helpers::reply_fx(
            session,
            st.server_name,
            irc::RPL_TOPICWHOTIME@,
            seq![nick, channel, topic.set_by, text::decimal_spec(topic.set_at as nat)],
        ),
    ]
}

/// Without a text, a member is told the topic. With one of at most 512 bytes, a member sets it; on
/// a channel with +t only an operator or a server operator may.
pub open spec fn topic_spec(
    st: ServerStateView,
    c: ConnectionView,
    channel: Seq<char>,
    new_topic: Option<Seq<char>>,
    now: u64,
) -> (ServerStateView, Seq<EffectView>) {
    let nick = c.nick_or_star();
    if !st.is_member(channel, c.id) {
        helpers::refuse(
            st,
            c,
            irc::ERR_NOTONCHANNEL@,
            seq![nick, channel, "You're not on that channel"@],
        )
    } else {
        let ch = st.channel(channel)->0;
        match new_topic {
            Some(t) => if vstd::utf8::encode_utf8(t).len() > 512 {
                helpers::refuse(
                    st,
                    c,
                    "FAIL"@,
                    seq!["TOPIC"@, "TOO_LONG"@, "Topic too long (max 512 characters)"@],
                )
            } else if ch.topic_locked && !st.is_op(channel, c.id) && !st.server_opers.contains(
                c.id,
            ) {
                helpers::refuse(
                    st,
                    c,
                    irc::ERR_CHANOPRIVSNEEDED@,
                    seq![nick, channel, "You're not channel operator"@],
                )
            } else {
                let set = ChannelStateView {
                    topic: Some(TopicInfoView { text: t, set_by: c.hostmask(), set_at: now }),
                    ..ch
                };
                (
                    st.with_channel(channel, set),
                    seq![
                        EffectView::Crdt(
                            CrdtOpView::SetTopic { channel, text: t, nick, did: st.did_of(c.id) },
                        ),
                        EffectView::Store(StoreOpView::SaveChannel { channel, state: set }),
                    ] + helpers::multicast_fx(
                        st.members(channel),
                        ":"@ + c.hostmask() + " TOPIC "@ + channel + " :"@ + t + "\r\n"@,
                    ) + seq![
                        EffectView::S2s(S2sEventView::Topic { channel, topic: t, set_by: nick }),
                    ],
                )
            },
            None => match ch.topic {
                Some(topic) => (st, topic_replies(st, c.id, nick, channel, topic)),
                None => helpers::refuse(
                    st,
                    c,
                    irc::RPL_NOTOPIC@,
                    seq![nick, channel, "No topic is set"@],
                ),
            },
        }
    }
}

/// Tells a session the topic of a channel.
pub fn push_topic(
    fx: &mut Vec<Effect>,
    session_id: &str,
    server_name: &str,
    nick: &str,
    channel: &str,
    topic: &TopicInfo,
)
    ensures
        forall|st: ServerStateView|
            st.server_name == server_name@ ==> final(fx).deep_view() == old(fx).deep_view()
                + #[trigger] topic_replies(st, session_id@, nick@, channel@, topic.deep_view()),
{
    push_reply(
        fx,
        session_id,
        server_name,
        irc::RPL_TOPIC,
        p3(nick, channel, topic.text.as_str()),
    );
    let at = decimal(topic.set_at as u128);
    push_reply(
        fx,
        session_id,
        server_name,
        irc::RPL_TOPICWHOTIME,
        p4(nick, channel, topic.set_by.as_str(), at.as_str()),
    );
}

/// Handle TOPIC command.
pub fn handle_topic(
    conn: &Connection,
    channel: &str,
    new_topic: Option<&str>,
    now: u64,
    state: &mut ServerState,
    fx: &mut Vec<Effect>,
)
    ensures
        final(state).deep_view() == topic_spec(
            old(state).deep_view(),
            conn.deep_view(),
            channel@,
            new_topic.deep_view(),
            now,
        ).0,
        final(fx).deep_view() == old(fx).deep_view() + topic_spec(
            old(state).deep_view(),
            conn.deep_view(),
            channel@,
            new_topic.deep_view(),
            now,
        ).1,
{
    let nick = conn.nick_or_star();
    let session_id = conn.id.as_str();
    if !state.is_member(channel, session_id) {
        push_reply(
            fx,
            session_id,
            state.server_name.as_str(),
            irc::ERR_NOTONCHANNEL,
            p3(nick, channel, "You're not on that channel"),
        );
        return;
    }
    match new_topic {
        Some(t) => {
            if byte_len(t) > 512 {
                push_reply(
                    fx,
                    session_id,
                    state.server_name.as_str(),
                    "FAIL",
                    p3("TOPIC", "TOO_LONG", "Topic too long (max 512 characters)"),
                );
                return;
            }
            let is_locked = match state.channels.get(channel) {
                Some(ch) => ch.topic_locked,
                None => false,
            };
            if is_locked && !state.is_op(channel, session_id) && !state.server_opers.contains(
                session_id,
            ) {
                push_reply(
                    fx,
                    session_id,
                    state.server_name.as_str(),
                    irc::ERR_CHANOPRIVSNEEDED,
                    p3(nick, channel, "You're not channel operator"),
                );
                return;
            }
            let did = match state.did_of(session_id) {
                Some(d) => Some(d.clone()),
                None => None,
            };
            push_crdt(
                fx,
                CrdtOp::SetTopic {
                    channel: channel.to_owned(),
                    text: t.to_owned(),
                    nick: nick.to_owned(),
                    did,
                },
            );
            let members = state.members(channel);
            if let Some(ch) = state.channels.get_mut(channel) {
                ch.topic = Some(
                    TopicInfo { text: t.to_owned(), set_by: conn.hostmask(), set_at: now },
                );
                push_store(
                    fx,
                    StoreOp::SaveChannel { channel: channel.to_owned(), state: ch.dup() },
                );
            }
            let topic_msg = Line::new(":").add(conn.hostmask().as_str()).add(" TOPIC ").add(
                channel,
            ).add(" :").add(t).add("\r\n").done();
            push_multicast(fx, &members, topic_msg.as_str());
            push_s2s(
                fx,
                S2sEvent::Topic {
                    channel: channel.to_owned(),
                    topic: t.to_owned(),
                    set_by: nick.to_owned(),
                },
            );
        },
        None => {
            if let Some(ch) = state.channels.get(channel) {
                if let Some(topic) = &ch.topic {
                    push_topic(fx, session_id, state.server_name.as_str(), nick, channel, topic);
                } else {
                    push_reply(
                        fx,
                        session_id,
                        state.server_name.as_str(),
                        irc::RPL_NOTOPIC,
                        p3(nick, channel, "No topic is set"),
                    );
                }
            }
        },
    }
}

// ── NAMES ───────────────────────────────────────────────────────────

/// The status prefix of a session in a channel; with multi-prefix all of them, else the highest.
pub open spec fn status_prefix(ch: ChannelStateView, session: Seq<char>, multi: bool) -> Seq<char> {
    if multi {
        (if ch.ops.contains(session) {
            "@"@
        } else {
            ""@
        }) + (if ch.voiced.contains(session) {
            "+"@
        } else {
            ""@
        })
    } else if ch.ops.contains(session) {
        "@"@
    } else if ch.voiced.contains(session) {
        "+"@
    } else {
        ""@
    }
}

/// The names of the given sessions of a channel, each nick once (a user may have several
/// sessions), with the lower-case nicks already named.
pub open spec fn local_names(
    st: ServerStateView,
    ch: ChannelStateView,
    sessions: Seq<Seq<char>>,
    multi: bool,
) -> (Seq<Seq<char>>, Seq<Seq<char>>)
    decreases sessions.len(),
{
    if sessions.len() == 0 {
        (Seq::empty(), Seq::empty())
    } else {
        let (names, seen) = local_names(st, ch, sessions.drop_last(), multi);
        let s = sessions.last();
        match st.nick_of(s) {
            Some(n) => if seen.contains(text::lowercase(n)) {
                (names, seen)
            } else {
                (names.push(status_prefix(ch, s, multi) + n), seen.push(text::lowercase(n)))
            },
            None => (names, seen),
        }
    }
}

/// Whether a DID is the founder's or has persistent operator status.
pub open spec fn did_has_ops(ch: ChannelStateView, did: Seq<char>) -> bool {
    ch.founder_did == Some(did) || ch.did_ops.contains(did)
}

/// The name of a remote member, marked if it is an operator at home or by DID.
pub open spec fn remote_name(
    ch: ChannelStateView,
    e: (Seq<char>, RemoteMemberView),
) -> Seq<char> {
    (if remote_has_ops(ch, e.1) {
        "@"@
    } else {
        ""@
    }) + e.0
}

/// All names in a channel: the local ones, then the remote ones.
pub open spec fn names_list(
    st: ServerStateView,
    channel: Seq<char>,
    multi: bool,
) -> Seq<Seq<char>> {
    match st.channel(channel) {
        Some(ch) => local_names(st, ch, ch.members, multi).0 + ch.remote_members.map_values(
            |e: (Seq<char>, RemoteMemberView)| remote_name(ch, e),
        ),
        None => Seq::empty(),
    }
}

/// The replies that tell who is in a channel.
pub open spec fn names_fx(
    st: ServerStateView,
    session: Seq<char>,
    nick: Seq<char>,
    channel: Seq<char>,
    multi: bool,
) -> Seq<EffectView> {
    seq![
        helpers::reply_fx(
            session,
            st.server_name,
            irc::RPL_NAMREPLY@,
            seq![nick, "="@, channel, text::join_spec(names_list(st, channel, multi), " "@)],
        ),
        helpers::reply_fx(
            session,
            st.server_name,
            irc::RPL_ENDOFNAMES@,
            seq![nick, channel, "End of /NAMES list"@],
        ),
    ]
}

/// Whether a DID is the founder's or has persistent operator status.
pub fn has_did_ops(ch: &ChannelState, did: &str) -> (b: bool)
    ensures
        b == did_has_ops(ch.deep_view(), did@),
{
    let founder = match &ch.founder_did {
        Some(f) => str_eq(f.as_str(), did),
        None => false,
    };
    founder || ch.did_ops.contains(did)
}

/// The status prefix of a session in a channel.
fn prefix_of(ch: &ChannelState, session: &str, multi: bool) -> (r: String)
    ensures
        r@ == status_prefix(ch.deep_view(), session@, multi),
{
    if multi {
        let a = if ch.ops.contains(session) {
            "@"
        } else {
            ""
        };
        let b = if ch.voiced.contains(session) {
            "+"
        } else {
            ""
        };
        Line::new(a).add(b).done()
    } else if ch.ops.contains(session) {
        "@".to_owned()
    } else if ch.voiced.contains(session) {
        "+".to_owned()
    } else {
        "".to_owned()
    }
}

/// Appends the names of the local members of a channel.
pub fn push_local_names(
    state: &ServerState,
    ch: &ChannelState,
    multi: bool,
    list: &mut Vec<String>,
    seen: &mut Vec<String>,
)
    requires
        old(list)@.len() == 0,
        old(seen)@.len() == 0,
    ensures
        (final(list).deep_view(), final(seen).deep_view()) == local_names(
            state.deep_view(),
            ch.deep_view(),
            ch.deep_view().members,
            multi,
        ),
{
    let ghost st = state.deep_view();
    let ghost chv = ch.deep_view();
    let mut i: usize = 0;
    let n: usize = ch.members.len();
    assert(chv.members.take(0) =~= Seq::<Seq<char>>::empty());
    assert(list.deep_view() =~= Seq::<Seq<char>>::empty());
    assert(seen.deep_view() =~= Seq::<Seq<char>>::empty());
    while i < n
        invariant
            i <= n,
            n == chv.members.len(),
            chv == ch.deep_view(),
            st == state.deep_view(),
            (list.deep_view(), seen.deep_view()) == local_names(
                st,
                chv,
                chv.members.take(i as int),
                multi,
            ),
        decreases n - i,
    {
        assert(chv.members.take(i + 1).drop_last() =~= chv.members.take(i as int));
        let s = ch.members.at(i);
        if let Some(nick) = state.nick_of(s.as_str()) {
            let lower = to_lowercase(nick.as_str());
            if !list_contains(seen, lower.as_str()) {
                let ghost names0 = list.deep_view();
                let ghost seen0 = seen.deep_view();
                let name = Line::new(prefix_of(ch, s.as_str(), multi).as_str()).add(
                    nick.as_str(),
                ).done();
                list.push(name);
                seen.push(lower);
                assert(list.deep_view() =~= names0.push(name@));
                assert(seen.deep_view() =~= seen0.push(lower@));
            }
        }
        i = i + 1;
    }
    assert(chv.members.take(i as int) =~= chv.members);
}

/// All names in a channel.
pub fn channel_names(state: &ServerState, channel: &str, multi: bool) -> (r: Vec<String>)
    ensures
        r.deep_view() == names_list(state.deep_view(), channel@, multi),
{
    let mut list: Vec<String> = Vec::new();
    match state.channels.get(channel) {
        Some(ch) => {
            let ghost chv = ch.deep_view();
            let mut seen: Vec<String> = Vec::new();
            push_local_names(state, ch, multi, &mut list, &mut seen);
            let ghost locals = list.deep_view();
            let ghost f = |e: (Seq<char>, RemoteMemberView)| remote_name(chv, e);
            let m: usize = ch.remote_members.len();
            let mut j: usize = 0;
            assert(locals + chv.remote_members.take(0).map_values(f) =~= locals);
            while j < m
                invariant
                    j <= m,
                    m == chv.remote_members.len(),
                    chv == ch.deep_view(),
                    f == (|e: (Seq<char>, RemoteMemberView)| remote_name(chv, e)),
                    list.deep_view() == locals + chv.remote_members.take(j as int).map_values(f),
                decreases m - j,
            {
                let ghost before = list.deep_view();
                let rm = ch.remote_members.value_at(j);
                let mark = if is_remote_op(ch, rm) {
                    "@"
                } else {
                    ""
                };
                let name = Line::new(mark).add(ch.remote_members.key_at(j).as_str()).done();
                assert(name@ == f(chv.remote_members[j as int]));
                list.push(name);
                assert(list.deep_view() =~= before.push(name@));
                j = j + 1;
                assert(list.deep_view() =~= locals + chv.remote_members.take(j as int).map_values(
                    f,
                ));
            }
            assert(chv.remote_members.take(j as int) =~= chv.remote_members);
        },
        None => {
            assert(list.deep_view() =~= Seq::<Seq<char>>::empty());
        },
    }
    list
}

/// Whether a list holds a string.
pub fn list_contains(v: &Vec<String>, x: &str) -> (b: bool)
    ensures
        b == v.deep_view().contains(x@),
{
    let ghost all = v.deep_view();
    let mut i: usize = 0;
    while i < v.len()
        invariant
            i <= v.len(),
            all == v.deep_view(),
            forall|j: int| 0 <= j < i ==> all[j] != x@,
        decreases v.len() - i,
    {
        if str_eq(v[i].as_str(), x) {
            assert(all[i as int] == x@);
            return true;
        }
        i = i + 1;
    }
    false
}

/// Tells a session who is in a channel.
pub fn push_names(
    fx: &mut Vec<Effect>,
    state: &ServerState,
    session_id: &str,
    nick: &str,
    channel: &str,
    multi: bool,
)
    ensures
        final(fx).deep_view() == old(fx).deep_view() + names_fx(
            state.deep_view(),
            session_id@,
            nick@,
            channel@,
            multi,
        ),
{
    let names = join(&channel_names(state, channel, multi), " ");
    push_reply(
        fx,
        session_id,
        state.server_name.as_str(),
        irc::RPL_NAMREPLY,
        p4(nick, "=", channel, names.as_str()),
    );
    push_reply(
        fx,
        session_id,
        state.server_name.as_str(),
        irc::RPL_ENDOFNAMES,
        p3(nick, channel, "End of /NAMES list"),
    );
}

/// Handle NAMES command.
pub fn handle_names(conn: &Connection, channel: &str, state: &ServerState, fx: &mut Vec<Effect>)
    ensures
        final(fx).deep_view() == old(fx).deep_view() + names_fx(
            state.deep_view(),
            conn.deep_view().id,
            conn.deep_view().nick_or_star(),
            channel@,
            state.deep_view().cap_multi_prefix.contains(conn.deep_view().id),
        ),
{
    let multi = state.cap_multi_prefix.contains(conn.id.as_str());
    push_names(fx, state, conn.id.as_str(), conn.nick_or_star(), channel, multi);
}

// ── LIST ────────────────────────────────────────────────────────────

/// The text of a channel's topic; empty where none is set.
pub open spec fn topic_text(ch: ChannelStateView) -> Seq<char> {
    match ch.topic {
        Some(t) => t.text,
        None => ""@,
    }
}

/// The reply that lists one channel: its name, how many are in it, and its topic.
pub open spec fn list_entry(
    st: ServerStateView,
    c: ConnectionView,
    e: (Seq<char>, ChannelStateView),
) -> EffectView {
    helpers::reply_fx(
        c.id,
        st.server_name,
        irc::RPL_LIST@,
        seq![
            c.nick_or_star(),
            e.0,
            text::decimal_spec((e.1.members.len() + e.1.remote_members.len()) as nat),
            topic_text(e.1),
        ],
    )
}

/// The replies to LIST: every channel, then the end.
pub open spec fn list_fx(st: ServerStateView, c: ConnectionView) -> Seq<EffectView> {
    st.channels.map_values(|e: (Seq<char>, ChannelStateView)| list_entry(st, c, e)).push(
        helpers::reply_fx(
            c.id,
            st.server_name,
            irc::RPL_LISTEND@,
            seq![c.nick_or_star(), "End of /LIST"@],
        ),
    )
}

/// Handle LIST command.
pub fn handle_list(conn: &Connection, state: &ServerState, fx: &mut Vec<Effect>)
    ensures
        final(fx).deep_view() == old(fx).deep_view() + list_fx(
            state.deep_view(),
            conn.deep_view(),
        ),
{
    let nick = conn.nick_or_star();
    let ghost st = state.deep_view();
    let ghost c = conn.deep_view();
    let ghost f = |e: (Seq<char>, ChannelStateView)| list_entry(st, c, e);
    let ghost before = fx.deep_view();
    let n: usize = state.channels.len();
    let mut i: usize = 0;
    assert(before + st.channels.take(0).map_values(f) =~= before);
    while i < n
        invariant
            i <= n,
            n == st.channels.len(),
            st == state.deep_view(),
            c == conn.deep_view(),
            nick@ == c.nick_or_star(),
            f == (|e: (Seq<char>, ChannelStateView)| list_entry(st, c, e)),
            fx.deep_view() == before + st.channels.take(i as int).map_values(f),
        decreases n - i,
    {
        let ch = state.channels.value_at(i);
        let count: u128 = ch.members.len() as u128 + ch.remote_members.len() as u128;
        let topic = match &ch.topic {
            Some(t) => t.text.as_str(),
            None => "",
        };
        let count_text = decimal(count);
        let ghost prev = fx.deep_view();
        push_reply(
            fx,
            conn.id.as_str(),
            state.server_name.as_str(),
            irc::RPL_LIST,
            p4(nick, state.channels.key_at(i).as_str(), count_text.as_str(), topic),
        );
        assert(fx.deep_view() == prev.push(f(st.channels[i as int])));
        i = i + 1;
        assert(fx.deep_view() =~= before + st.channels.take(i as int).map_values(f));
    }
    assert(st.channels.take(i as int) =~= st.channels);
    push_reply(
        fx,
        conn.id.as_str(),
        state.server_name.as_str(),
        irc::RPL_LISTEND,
        p2(nick, "End of /LIST"),
    );
}

// ── MODE ────────────────────────────────────────────────────────────

/// A mode with its sign.
pub open spec fn mode_text(adding: bool, m: char) -> Seq<char> {
    (if adding {
        "+"@
    } else {
        "-"@
    }).push(m)
}

/// The line that tells of a mode change.
pub open spec fn mode_line(
    c: ConnectionView,
    channel: Seq<char>,
    mode: Seq<char>,
    arg: Option<Seq<char>>,
) -> Seq<char> {
    match arg {
        Some(a) => ":"@ + c.hostmask() + " MODE "@ + channel + " "@ + mode + " "@ + a + "\r\n"@,
        None => ":"@ + c.hostmask() + " MODE "@ + channel + " "@ + mode + "\r\n"@,
    }
}

/// A mode change is told to the channel and to the other servers.
pub open spec fn mode_told(
    members: Seq<Seq<char>>,
    c: ConnectionView,
    channel: Seq<char>,
    mode: Seq<char>,
    arg: Option<Seq<char>>,
) -> Seq<EffectView> {
    helpers::multicast_fx(members, mode_line(c, channel, mode, arg)).push(
        EffectView::S2s(S2sEventView::Mode { channel, mode, arg, set_by: c.nick_or_star() }),
    )
}

/// What one mode character does: the new state, the effects, and whether the rest of the mode
/// string is dropped.
pub struct ModeStep {
    pub state: ServerStateView,
    pub fx: Seq<EffectView>,
    pub stop: bool,
}

/// Nothing changes, one reply is sent, and the rest of the mode string is dropped.
pub open spec fn mode_refused(
    st: ServerStateView,
    c: ConnectionView,
    command: Seq<char>,
    params: Seq<Seq<char>>,
) -> ModeStep {
    ModeStep {
        state: st,
        fx: seq![helpers::reply_fx(c.id, st.server_name, command, params)],
        stop: true,
    }
}

/// `s` with or without `x`.
pub open spec fn set_to(s: Seq<Seq<char>>, x: Seq<char>, present: bool) -> Seq<Seq<char>> {
    if present {
        containers::set_insert(s, x)
    } else {
        containers::set_remove(s, x)
    }
}

/// A channel after `+o`, `+h`, `+v` or their opposites for a local session.
pub open spec fn with_status(
    ch: ChannelStateView,
    m: char,
    session: Seq<char>,
    adding: bool,
) -> ChannelStateView {
    if m == 'o' {
        ChannelStateView { ops: set_to(ch.ops, session, adding), ..ch }
    } else if m == 'h' {
        ChannelStateView { halfops: set_to(ch.halfops, session, adding), ..ch }
    } else {
        ChannelStateView { voiced: set_to(ch.voiced, session, adding), ..ch }
    }
}

/// The change of a DID's persistent operator status, for the federation.
pub open spec fn crdt_op_change(
    st: ServerStateView,
    c: ConnectionView,
    channel: Seq<char>,
    did: Seq<char>,
    adding: bool,
) -> Seq<EffectView> {
    seq![
        EffectView::Crdt(
            if adding {
                CrdtOpView::GrantOp { channel, did, granted_by: st.did_of(c.id) }
            } else {
                CrdtOpView::RevokeOp { channel, did }
            },
        ),
        EffectView::Crdt(CrdtOpView::Sync),
    ]
}

/// Whether the change would de-op the channel's founder.
pub open spec fn deops_founder(
    ch: ChannelStateView,
    m: char,
    adding: bool,
    did: Option<Seq<char>>,
) -> bool {
    m == 'o' && !adding && did is Some && ch.founder_did == did
}

/// `+o`, `+h`, `+v` and their opposites for a local session.
pub open spec fn local_status_mode(
    st: ServerStateView,
    c: ConnectionView,
    channel: Seq<char>,
    m: char,
    adding: bool,
    target: Seq<char>,
    session: Seq<char>,
) -> ModeStep {
    let ch = st.channel(channel)->0;
    let did = st.did_of(session);
    let told = mode_told(st.members(channel), c, channel, mode_text(adding, m), Some(target));
    if deops_founder(ch, m, adding, did) {
        ModeStep { state: st, fx: Seq::empty(), stop: false }
    } else {
        let ch1 = with_status(ch, m, session, adding);
        if m == 'o' && did is Some {
            let ch2 = ChannelStateView { did_ops: set_to(ch1.did_ops, did->0, adding), ..ch1 };
            ModeStep {
                state: st.with_channel(channel, ch2),
                fx: crdt_op_change(st, c, channel, did->0, adding) + seq![
                    EffectView::Store(StoreOpView::SaveChannel { channel, state: ch2 }),
                ] + told,
                stop: false,
            }
        } else {
            ModeStep { state: st.with_channel(channel, ch1), fx: told, stop: false }
        }
    }
}

/// `+o`, `+h`, `+v` and their opposites for a remote member.
pub open spec fn remote_status_mode(
    st: ServerStateView,
    c: ConnectionView,
    channel: Seq<char>,
    m: char,
    adding: bool,
    target: Seq<char>,
    did: Option<Seq<char>>,
) -> ModeStep {
    let ch = st.channel(channel)->0;
    let told = mode_told(st.members(channel), c, channel, mode_text(adding, m), Some(target));
    if deops_founder(ch, m, adding, did) {
        ModeStep { state: st, fx: Seq::empty(), stop: false }
    } else {
        let ch1 = with_remote_op(ch, m, target, adding);
        if m == 'o' && did is Some {
            let ch2 = ChannelStateView { did_ops: set_to(ch1.did_ops, did->0, adding), ..ch1 };
            ModeStep {
                state: st.with_channel(channel, ch2),
                fx: seq![EffectView::Store(StoreOpView::SaveChannel { channel, state: ch2 })]
                    + crdt_op_change(st, c, channel, did->0, adding) + told,
                stop: false,
            }
        } else {
            ModeStep { state: st.with_channel(channel, ch1), fx: told, stop: false }
        }
    }
}

/// `+o`, `+h`, `+v` and their opposites. Operator status of an authenticated user is also kept by
/// DID. The founder cannot be de-opped: the attempt is silently ignored.
pub open spec fn status_mode(
    st: ServerStateView,
    c: ConnectionView,
    channel: Seq<char>,
    m: char,
    adding: bool,
    arg: Option<Seq<char>>,
) -> ModeStep {
    let nick = c.nick_or_star();
    match arg {
        None => mode_refused(
            st,
            c,
            irc::ERR_NEEDMOREPARAMS@,
            seq![nick, "MODE"@, "Not enough parameters"@],
        ),
        Some(target) => match st.channel_target(channel, target) {
            ChannelTargetView::Local { session_id } => local_status_mode(
                st,
                c,
                channel,
                m,
                adding,
                target,
                session_id,
            ),
            ChannelTargetView::Remote(rm) => remote_status_mode(
                st,
                c,
                channel,
                m,
                adding,
                target,
                rm.did,
            ),
            ChannelTargetView::NotPresent => mode_refused(
                st,
                c,
                irc::ERR_USERNOTINCHANNEL@,
                seq![nick, target, channel, "They aren't on that channel"@],
            ),
        },
    }
}

/// A channel after `+o` or `-o` for a remote member; other modes are kept by its home server.
pub open spec fn with_remote_op(
    ch: ChannelStateView,
    m: char,
    target: Seq<char>,
    adding: bool,
) -> ChannelStateView {
    match containers::map_get(ch.remote_members, target) {
        Some(rm) if m == 'o' => ChannelStateView {
            remote_members: containers::map_put(
                ch.remote_members,
                target,
                RemoteMemberView { is_op: adding, ..rm },
            ),
            ..ch
        },
        _ => ch,
    }
}

/// Whether a mask is among the bans.
pub open spec fn ban_listed(bans: Seq<BanEntryView>, mask: Seq<char>) -> bool {
    exists|i: int| 0 <= i < bans.len() && (#[trigger] bans[i]).mask == mask
}

/// The bans without those of the given mask.
pub open spec fn bans_without(bans: Seq<BanEntryView>, mask: Seq<char>) -> Seq<BanEntryView> {
    bans.filter(|b: BanEntryView| b.mask != mask)
}

/// The reply that lists one ban.
pub open spec fn ban_entry_fx(
    st: ServerStateView,
    c: ConnectionView,
    channel: Seq<char>,
    b: BanEntryView,
) -> EffectView {
    helpers::reply_fx(
        c.id,
        st.server_name,
        irc::RPL_BANLIST@,
        seq![c.nick_or_star(), channel, b.mask, b.set_by, text::decimal_spec(b.set_at as nat)],
    )
}

/// The replies that list the bans of a channel.
pub open spec fn ban_list_fx(
    st: ServerStateView,
    c: ConnectionView,
    channel: Seq<char>,
    bans: Seq<BanEntryView>,
) -> Seq<EffectView> {
    bans.map_values(|b: BanEntryView| ban_entry_fx(st, c, channel, b)).push(
        helpers::reply_fx(
            c.id,
            st.server_name,
            irc::RPL_ENDOFBANLIST@,
            seq![c.nick_or_star(), channel, "End of channel ban list"@],
        ),
    )
}

/// `+b` and `-b`. `+b` alone lists the bans; `-b` alone and an empty mask do nothing. A mask is
/// never listed twice.
pub open spec fn ban_mode(
    st: ServerStateView,
    c: ConnectionView,
    channel: Seq<char>,
    adding: bool,
    arg: Option<Seq<char>>,
    now: u64,
) -> ModeStep {
    let ch = st.channel(channel)->0;
    match arg {
        None => ModeStep {
            state: st,
            fx: if adding {
                ban_list_fx(st, c, channel, ch.bans)
            } else {
                Seq::empty()
            },
            stop: true,
        },
        Some(a) => {
            let mask = text::trim_spec(a);
            if mask.len() == 0 {
                ModeStep { state: st, fx: Seq::empty(), stop: true }
            } else {
                let entry = BanEntryView { mask, set_by: c.hostmask(), set_at: now };
                let told = helpers::multicast_fx(
                    st.members(channel),
                    mode_line(c, channel, mode_text(adding, 'b'), Some(mask)),
                ).push(
                    EffectView::S2s(
                        S2sEventView::Ban { channel, mask, set_by: c.nick_or_star(), adding },
                    ),
                );
                if adding && ban_listed(ch.bans, mask) {
                    ModeStep { state: st, fx: told, stop: false }
                } else if adding {
                    ModeStep {
                        state: st.with_channel(
                            channel,
                            ChannelStateView { bans: ch.bans.push(entry), ..ch },
                        ),
                        fx: seq![EffectView::Store(StoreOpView::AddBan { channel, ban: entry })]
                            + told,
                        stop: false,
                    }
                } else {
                    ModeStep {
                        state: st.with_channel(
                            channel,
                            ChannelStateView { bans: bans_without(ch.bans, mask), ..ch },
                        ),
                        fx: seq![EffectView::Store(StoreOpView::RemoveBan { channel, mask })]
                            + told,
                        stop: false,
                    }
                }
            }
        },
    }
}

/// Whether the character is a mode without a parameter.
pub open spec fn is_flag_mode(m: char) -> bool {
    m == 'i' || m == 't' || m == 'n' || m == 'm' || m == 'E'
}

/// A channel with a flag mode set or cleared; `-i` also forgets the invites.
pub open spec fn with_flag(ch: ChannelStateView, m: char, adding: bool) -> ChannelStateView {
    if m == 'i' {
        ChannelStateView {
            invite_only: adding,
            invites: if adding {
                ch.invites
            } else {
                Seq::empty()
            },
            ..ch
        }
    } else if m == 't' {
        ChannelStateView { topic_locked: adding, ..ch }
    } else if m == 'n' {
        ChannelStateView { no_ext_msg: adding, ..ch }
    } else if m == 'm' {
        ChannelStateView { moderated: adding, ..ch }
    } else {
        ChannelStateView { encrypted_only: adding, ..ch }
    }
}

/// `+i`, `+t`, `+n`, `+m`, `+E` and their opposites.
pub open spec fn flag_mode(
    st: ServerStateView,
    c: ConnectionView,
    channel: Seq<char>,
    m: char,
    adding: bool,
) -> ModeStep {
    let ch1 = with_flag(st.channel(channel)->0, m, adding);
    ModeStep {
        state: st.with_channel(channel, ch1),
        fx: seq![EffectView::Store(StoreOpView::SaveChannel { channel, state: ch1 })] + mode_told(
            st.members(channel),
            c,
            channel,
            mode_text(adding, m),
            None,
        ),
        stop: false,
    }
}

/// `+k` and `-k`. Only the removal of a key that was set is told.
pub open spec fn key_mode(
    st: ServerStateView,
    c: ConnectionView,
    channel: Seq<char>,
    adding: bool,
    arg: Option<Seq<char>>,
) -> ModeStep {
    let ch = st.channel(channel)->0;
    if adding && arg is None {
        mode_refused(
            st,
            c,
            irc::ERR_NEEDMOREPARAMS@,
            seq![c.nick_or_star(), "MODE"@, "Not enough parameters"@],
        )
    } else {
        let ch1 = ChannelStateView {
            key: if adding {
                arg
            } else {
                None
            },
            ..ch
        };
        let shown = if adding {
            arg
        } else {
            ch.key
        };
        ModeStep {
            state: st.with_channel(channel, ch1),
            fx: seq![EffectView::Store(StoreOpView::SaveChannel { channel, state: ch1 })] + (
            if shown is Some {
                mode_told(st.members(channel), c, channel, mode_text(adding, 'k'), shown)
            } else {
                Seq::empty()
            }),
            stop: false,
        }
    }
}

/// What one mode character other than a sign does.
pub open spec fn mode_step(
    st: ServerStateView,
    c: ConnectionView,
    channel: Seq<char>,
    m: char,
    adding: bool,
    arg: Option<Seq<char>>,
    now: u64,
) -> ModeStep {
    if m == 'o' || m == 'h' || m == 'v' {
        status_mode(st, c, channel, m, adding, arg)
    } else if m == 'b' {
        ban_mode(st, c, channel, adding, arg, now)
    } else if m == 'k' {
        key_mode(st, c, channel, adding, arg)
    } else if is_flag_mode(m) {
        flag_mode(st, c, channel, m, adding)
    } else {
        ModeStep {
            state: st,
            fx: seq![
                helpers::reply_fx(
                    c.id,
                    st.server_name,
                    irc::ERR_UNKNOWNMODE@,
                    seq![c.nick_or_star(), seq![m], "is unknown mode char to me"@],
                ),
            ],
            stop: false,
        }
    }
}

/// What a mode string does, character by character; every mode takes the same parameter.
pub open spec fn mode_run(
    st: ServerStateView,
    c: ConnectionView,
    channel: Seq<char>,
    modes: Seq<char>,
    adding: bool,
    arg: Option<Seq<char>>,
    now: u64,
) -> (ServerStateView, Seq<EffectView>)
    decreases modes.len(),
{
    if modes.len() == 0 {
        (st, Seq::empty())
    } else if modes[0] == '+' || modes[0] == '-' {
        mode_run(st, c, channel, modes.skip(1), modes[0] == '+', arg, now)
    } else {
        let step = mode_step(st, c, channel, modes[0], adding, arg, now);
        if step.stop {
            (step.state, step.fx)
        } else {
            let rest = mode_run(step.state, c, channel, modes.skip(1), adding, arg, now);
            (rest.0, step.fx + rest.1)
        }
    }
}

/// Modes that a moderator may not set: all but voice. Without a mask `b` sets nothing, it lists the
/// bans.
pub open spec fn is_op_only_mode(m: char, has_arg: bool) -> bool {
    m == 'o' || m == 'h' || m == 'm' || m == 't' || m == 'i' || m == 'k' || m == 'n' || m == 'E' || (m == 'b'
        && has_arg)
}

/// The modes that are set, as MODE without a mode string shows them.
pub open spec fn modes_shown(ch: ChannelStateView) -> Seq<char> {
    let s0 = "+"@;
    let s1 = if ch.no_ext_msg {
        s0.push('n')
    } else {
        s0
    };
    let s2 = if ch.topic_locked {
        s1.push('t')
    } else {
        s1
    };
    let s3 = if ch.invite_only {
        s2.push('i')
    } else {
        s2
    };
    let s4 = if ch.moderated {
        s3.push('m')
    } else {
        s3
    };
    let s5 = if ch.encrypted_only {
        s4.push('E')
    } else {
        s4
    };
    if ch.key is Some {
        s5.push('k')
    } else {
        s5
    }
}

/// A member is told the modes, or changes them: operators and server operators may change all,
/// moderators only who has voice.
pub open spec fn mode_spec(
    st: ServerStateView,
    c: ConnectionView,
    channel: Seq<char>,
    mode_str: Option<Seq<char>>,
    arg: Option<Seq<char>>,
    now: u64,
) -> (ServerStateView, Seq<EffectView>) {
    let nick = c.nick_or_star();
    let op = st.is_op(channel, c.id);
    let halfop = st.is_halfop(channel, c.id);
    let oper = st.server_opers.contains(c.id);
    if !st.is_member(channel, c.id) {
        helpers::refuse(
            st,
            c,
            irc::ERR_NOTONCHANNEL@,
            seq![nick, channel, "You're not on that channel"@],
        )
    } else {
        match mode_str {
            None => helpers::refuse(
                st,
                c,
                irc::RPL_CHANNELMODEIS@,
                seq![nick, channel, modes_shown(st.channel(channel)->0)],
            ),
            Some(modes) => if !op && !halfop && !oper {
                helpers::refuse(
                    st,
                    c,
                    irc::ERR_CHANOPRIVSNEEDED@,
                    seq![nick, channel, "You're not channel operator"@],
                )
            } else if halfop && !op && !oper && exists|i: int|
                0 <= i < modes.len() && #[trigger] is_op_only_mode(modes[i], arg is Some) {
                helpers::refuse(
                    st,
                    c,
                    irc::ERR_CHANOPRIVSNEEDED@,
                    seq![nick, channel, "Moderators can only set +v/-v"@],
                )
            } else {
                mode_run(st, c, channel, modes, true, arg, now)
            },
        }
    }
}

/// Tells a mode change to the channel and to the other servers.
fn push_mode(
    fx: &mut Vec<Effect>,
    members: &StrSet,
    conn: &Connection,
    channel: &str,
    mode: String,
    arg: Option<&str>,
)
    ensures
        final(fx).deep_view() == old(fx).deep_view() + mode_told(
            members@,
            conn.deep_view(),
            channel@,
            mode@,
            arg.deep_view(),
        ),
{
    let line = mode_change_line(conn, channel, mode.as_str(), arg);
    push_multicast(fx, members, line.as_str());
    let arg_owned = match arg {
        Some(a) => Some(a.to_owned()),
        None => None,
    };
    push_s2s(
        fx,
        S2sEvent::Mode {
            channel: channel.to_owned(),
            mode,
            arg: arg_owned,
            set_by: conn.nick_or_star().to_owned(),
        },
    );
}

/// The line that tells of a mode change.
fn mode_change_line(conn: &Connection, channel: &str, mode: &str, arg: Option<&str>) -> (r: String)
    ensures
        r@ == mode_line(conn.deep_view(), channel@, mode@, arg.deep_view()),
{
    let line = Line::new(":").add(conn.hostmask().as_str()).add(" MODE ").add(channel).add(" ").add(
        mode,
    );
    match arg {
        Some(a) => line.add(" ").add(a).add("\r\n").done(),
        None => line.add("\r\n").done(),
    }
}

/// A mode with its sign.
fn signed_mode(adding: bool, m: char) -> (r: String)
    ensures
        r@ == mode_text(adding, m),
{
    Line::new(
        if adding {
            "+"
        } else {
            "-"
        },
    ).add_char(m).done()
}

/// Puts a string into a set or takes it out.
fn set_present(s: &mut StrSet, x: &str, present: bool)
    ensures
        final(s)@ == set_to(old(s)@, x@, present),
{
    if present {
        s.insert(x.to_owned());
    } else {
        s.remove(x);
    }
}

/// Puts a session into a channel's set for `o`, `h` or `v`, or takes it out.
fn set_status(ch: &mut ChannelState, m: char, session: &str, adding: bool)
    ensures
        final(ch).deep_view() == with_status(old(ch).deep_view(), m, session@, adding),
{
    if m == 'o' {
        set_present(&mut ch.ops, session, adding);
    } else if m == 'h' {
        set_present(&mut ch.halfops, session, adding);
    } else {
        set_present(&mut ch.voiced, session, adding);
    }
}

/// Passes the change of a DID's operator status on to the federation.
fn push_crdt_op(
    fx: &mut Vec<Effect>,
    state: &ServerState,
    conn: &Connection,
    channel: &str,
    did: &str,
    adding: bool,
)
    ensures
        final(fx).deep_view() == old(fx).deep_view() + crdt_op_change(
            state.deep_view(),
            conn.deep_view(),
            channel@,
            did@,
            adding,
        ),
{
    if adding {
        let granted_by = match state.did_of(conn.id.as_str()) {
            Some(d) => Some(d.clone()),
            None => None,
        };
        push_crdt(
            fx,
            CrdtOp::GrantOp { channel: channel.to_owned(), did: did.to_owned(), granted_by },
        );
    } else {
        push_crdt(fx, CrdtOp::RevokeOp { channel: channel.to_owned(), did: did.to_owned() });
    }
    push_crdt(fx, CrdtOp::Sync);
}

/// Whether an optional string is the given one.
pub fn opt_is(o: &Option<String>, x: &str) -> (b: bool)
    ensures
        b == (o.deep_view() == Some(x@)),
{
    match o {
        Some(s) => str_eq(s.as_str(), x),
        None => false,
    }
}

/// Sets or clears `o`, `h` or `v` of a local session.
fn handle_local_status(
    conn: &Connection,
    channel: &str,
    m: char,
    adding: bool,
    target_nick: &str,
    session: &str,
    state: &mut ServerState,
    fx: &mut Vec<Effect>,
)
    requires
        old(state).deep_view().channel(channel@) is Some,
    ensures
        final(state).deep_view() == local_status_mode(
            old(state).deep_view(),
            conn.deep_view(),
            channel@,
            m,
            adding,
            target_nick@,
            session@,
        ).state,
        final(fx).deep_view() == old(fx).deep_view() + local_status_mode(
            old(state).deep_view(),
            conn.deep_view(),
            channel@,
            m,
            adding,
            target_nick@,
            session@,
        ).fx,
{
    let target_did = match state.did_of(session) {
        Some(d) => Some(d.clone()),
        None => None,
    };
    let members = state.members(channel);
    let founder = match (state.channels.get(channel), &target_did) {
        (Some(ch), Some(d)) => opt_is(&ch.founder_did, d.as_str()),
        _ => false,
    };
    if m == 'o' && !adding && founder {
        assert(fx.deep_view() + Seq::<EffectView>::empty() =~= fx.deep_view());
        return;
    }
    if m == 'o' {
        if let Some(d) = &target_did {
            push_crdt_op(fx, state, conn, channel, d.as_str(), adding);
        }
    }
    if let Some(ch) = state.channels.get_mut(channel) {
        set_status(ch, m, session, adding);
        if m == 'o' {
            if let Some(d) = &target_did {
                set_present(&mut ch.did_ops, d.as_str(), adding);
                push_store(
                    fx,
                    StoreOp::SaveChannel { channel: channel.to_owned(), state: ch.dup() },
                );
            }
        }
    }
    let arg = Some(target_nick);
    assert(arg.deep_view() == Some(target_nick@));
    push_mode(fx, &members, conn, channel, signed_mode(adding, m), arg);
}

/// Sets or clears `o`, `h` or `v` of a remote member.
fn handle_remote_status(
    conn: &Connection,
    channel: &str,
    m: char,
    adding: bool,
    target_nick: &str,
    did: &Option<String>,
    state: &mut ServerState,
    fx: &mut Vec<Effect>,
)
    requires
        old(state).deep_view().channel(channel@) is Some,
    ensures
        final(state).deep_view() == remote_status_mode(
            old(state).deep_view(),
            conn.deep_view(),
            channel@,
            m,
            adding,
            target_nick@,
            did.deep_view(),
        ).state,
        final(fx).deep_view() == old(fx).deep_view() + remote_status_mode(
            old(state).deep_view(),
            conn.deep_view(),
            channel@,
            m,
            adding,
            target_nick@,
            did.deep_view(),
        ).fx,
{
    let members = state.members(channel);
    let founder = match (state.channels.get(channel), did) {
        (Some(ch), Some(d)) => opt_is(&ch.founder_did, d.as_str()),
        _ => false,
    };
    if m == 'o' && !adding && founder {
        assert(fx.deep_view() + Seq::<EffectView>::empty() =~= fx.deep_view());
        return;
    }
    if let Some(ch) = state.channels.get_mut(channel) {
        if m == 'o' {
            if let Some(remote) = ch.remote_members.get_mut(target_nick) {
                remote.is_op = adding;
            }
            if let Some(d) = did {
                set_present(&mut ch.did_ops, d.as_str(), adding);
                push_store(
                    fx,
                    StoreOp::SaveChannel { channel: channel.to_owned(), state: ch.dup() },
                );
            }
        }
    }
    if m == 'o' {
        if let Some(d) = did {
            push_crdt_op(fx, state, conn, channel, d.as_str(), adding);
        }
    }
    let arg = Some(target_nick);
    assert(arg.deep_view() == Some(target_nick@));
    push_mode(fx, &members, conn, channel, signed_mode(adding, m), arg);
}

/// Handles `o`, `h` and `v`; tells whether the rest of the mode string is dropped.
fn handle_status_mode(
    conn: &Connection,
    channel: &str,
    m: char,
    adding: bool,
    arg: Option<&str>,
    state: &mut ServerState,
    fx: &mut Vec<Effect>,
) -> (stop: bool)
    requires
        old(state).deep_view().channel(channel@) is Some,
    ensures
        ({
            let step = status_mode(
                old(state).deep_view(),
                conn.deep_view(),
                channel@,
                m,
                adding,
                arg.deep_view(),
            );
            &&& final(state).deep_view() == step.state
            &&& final(fx).deep_view() == old(fx).deep_view() + step.fx
            &&& stop == step.stop
        }),
{
    let nick = conn.nick_or_star();
    let session_id = conn.id.as_str();
    let target_nick = match arg {
        Some(t) => t,
        None => {
            push_reply(
                fx,
                session_id,
                state.server_name.as_str(),
                irc::ERR_NEEDMOREPARAMS,
                p3(nick, "MODE", "Not enough parameters"),
            );
            return true;
        },
    };
    match state.resolve_channel_target(channel, target_nick) {
        ChannelTarget::Local { session_id: session } => {
            handle_local_status(conn, channel, m, adding, target_nick, session.as_str(), state, fx);
            false
        },
        ChannelTarget::Remote(rm) => {
            handle_remote_status(conn, channel, m, adding, target_nick, &rm.did, state, fx);
            false
        },
        ChannelTarget::NotPresent => {
            push_reply(
                fx,
                session_id,
                state.server_name.as_str(),
                irc::ERR_USERNOTINCHANNEL,
                p4(nick, target_nick, channel, "They aren't on that channel"),
            );
            true
        },
    }
}

/// Whether a mask is among the bans.
fn has_ban(bans: &Vec<BanEntry>, mask: &str) -> (b: bool)
    ensures
        b == ban_listed(bans.deep_view(), mask@),
{
    let ghost all = bans.deep_view();
    let mut i: usize = 0;
    while i < bans.len()
        invariant
            i <= bans.len(),
            all == bans.deep_view(),
            forall|j: int| 0 <= j < i ==> (#[trigger] all[j]).mask != mask@,
        decreases bans.len() - i,
    {
        if str_eq(bans[i].mask.as_str(), mask) {
            assert(all[i as int].mask == mask@);
            return true;
        }
        i = i + 1;
    }
    false
}

/// Drops the bans of the given mask.
fn remove_bans(bans: &mut Vec<BanEntry>, mask: &str)
    ensures
        final(bans).deep_view() == bans_without(old(bans).deep_view(), mask@),
{
    let ghost before = bans.deep_view();
    let mut kept: Vec<BanEntry> = Vec::new();
    let mut i: usize = 0;
    assert(kept.deep_view() =~= bans_without(before.take(0), mask@)) by {
        reveal(Seq::filter);
    }
    while i < bans.len()
        invariant
            i <= bans.len(),
            before == bans.deep_view(),
            kept.deep_view() == bans_without(before.take(i as int), mask@),
        decreases bans.len() - i,
    {
        let ghost prev = kept.deep_view();
        assert(before.take(i + 1).drop_last() =~= before.take(i as int));
        assert(before[i as int].mask == bans@[i as int].mask@);
        reveal(Seq::filter);
        if !str_eq(bans[i].mask.as_str(), mask) {
            kept.push(bans[i].dup());
            assert(kept.deep_view() =~= prev.push(before[i as int]));
        }
        i = i + 1;
    }
    assert(before.take(i as int) =~= before);
    *bans = kept;
}

/// Lists the bans of a channel for a session.
fn push_ban_list(
    fx: &mut Vec<Effect>,
    state: &ServerState,
    conn: &Connection,
    channel: &str,
    bans: &Vec<BanEntry>,
)
    ensures
        final(fx).deep_view() == old(fx).deep_view() + ban_list_fx(
            state.deep_view(),
            conn.deep_view(),
            channel@,
            bans.deep_view(),
        ),
{
    let nick = conn.nick_or_star();
    let ghost st = state.deep_view();
    let ghost c = conn.deep_view();
    let ghost all = bans.deep_view();
    let ghost f = |b: BanEntryView| ban_entry_fx(st, c, channel@, b);
    let ghost before = fx.deep_view();
    let mut i: usize = 0;
    assert(before + all.take(0).map_values(f) =~= before);
    while i < bans.len()
        invariant
            i <= bans.len(),
            all == bans.deep_view(),
            st == state.deep_view(),
            c == conn.deep_view(),
            nick@ == c.nick_or_star(),
            f == (|b: BanEntryView| ban_entry_fx(st, c, channel@, b)),
            fx.deep_view() == before + all.take(i as int).map_values(f),
        decreases bans.len() - i,
    {
        let ghost prev = fx.deep_view();
        let ban = &bans[i];
        let at = decimal(ban.set_at as u128);
        push_reply(
            fx,
            conn.id.as_str(),
            state.server_name.as_str(),
            irc::RPL_BANLIST,
            p5(nick, channel, ban.mask.as_str(), ban.set_by.as_str(), at.as_str()),
        );
        assert(all[i as int] == ban.deep_view());
        assert(fx.deep_view() == prev.push(f(all[i as int])));
        i = i + 1;
        assert(fx.deep_view() =~= before + all.take(i as int).map_values(f));
    }
    assert(all.take(i as int) =~= all);
    push_reply(
        fx,
        conn.id.as_str(),
        state.server_name.as_str(),
        irc::RPL_ENDOFBANLIST,
        p3(nick, channel, "End of channel ban list"),
    );
}

/// Handles `b`; tells whether the rest of the mode string is dropped.
fn handle_ban_mode(
    conn: &Connection,
    channel: &str,
    adding: bool,
    arg: Option<&str>,
    now: u64,
    state: &mut ServerState,
    fx: &mut Vec<Effect>,
) -> (stop: bool)
    requires
        old(state).deep_view().channel(channel@) is Some,
    ensures
        ({
            let step = ban_mode(
                old(state).deep_view(),
                conn.deep_view(),
                channel@,
                adding,
                arg.deep_view(),
                now,
            );
            &&& final(state).deep_view() == step.state
            &&& final(fx).deep_view() == old(fx).deep_view() + step.fx
            &&& stop == step.stop
        }),
{
    let raw = match arg {
        Some(a) => a,
        None => {
            if adding {
                if let Some(ch) = state.channels.get(channel) {
                    push_ban_list(fx, state, conn, channel, &ch.bans);
                }
            } else {
                assert(fx.deep_view() + Seq::<EffectView>::empty() =~= fx.deep_view());
            }
            return true;
        },
    };
    let mask = text::trim(raw);
    if mask.as_str().is_empty() {
        assert(fx.deep_view() + Seq::<EffectView>::empty() =~= fx.deep_view());
        return true;
    }
    let members = state.members(channel);
    let listed = match state.channels.get(channel) {
        Some(ch) => has_ban(&ch.bans, mask.as_str()),
        None => false,
    };
    if adding && !listed {
        if let Some(ch) = state.channels.get_mut(channel) {
            let entry = BanEntry { mask: mask.clone(), set_by: conn.hostmask(), set_at: now };
            let ghost bans0 = ch.bans.deep_view();
            ch.bans.push(entry.dup());
            assert(ch.bans.deep_view() =~= bans0.push(entry.deep_view()));
            push_store(fx, StoreOp::AddBan { channel: channel.to_owned(), ban: entry });
        }
    }
    if !adding {
        if let Some(ch) = state.channels.get_mut(channel) {
            remove_bans(&mut ch.bans, mask.as_str());
            push_store(
                fx,
                StoreOp::RemoveBan { channel: channel.to_owned(), mask: mask.clone() },
            );
        }
    }
    let shown = Some(mask.as_str());
    assert(shown.deep_view() == Some(mask@));
    let line = mode_change_line(conn, channel, signed_mode(adding, 'b').as_str(), shown);
    push_multicast(fx, &members, line.as_str());
    push_s2s(
        fx,
        S2sEvent::Ban {
            channel: channel.to_owned(),
            mask,
            set_by: conn.nick_or_star().to_owned(),
            adding,
        },
    );
    false
}

/// Sets or clears a flag mode.
fn set_flag(ch: &mut ChannelState, m: char, adding: bool)
    requires
        is_flag_mode(m),
    ensures
        final(ch).deep_view() == with_flag(old(ch).deep_view(), m, adding),
{
    if m == 'i' {
        ch.invite_only = adding;
        if !adding {
            ch.invites.clear();
        }
    } else if m == 't' {
        ch.topic_locked = adding;
    } else if m == 'n' {
        ch.no_ext_msg = adding;
    } else if m == 'm' {
        ch.moderated = adding;
    } else {
        ch.encrypted_only = adding;
    }
}

/// Handles the modes without a parameter.
fn handle_flag_mode(
    conn: &Connection,
    channel: &str,
    m: char,
    adding: bool,
    state: &mut ServerState,
    fx: &mut Vec<Effect>,
)
    requires
        old(state).deep_view().channel(channel@) is Some,
        is_flag_mode(m),
    ensures
        final(state).deep_view() == flag_mode(
            old(state).deep_view(),
            conn.deep_view(),
            channel@,
            m,
            adding,
        ).state,
        final(fx).deep_view() == old(fx).deep_view() + flag_mode(
            old(state).deep_view(),
            conn.deep_view(),
            channel@,
            m,
            adding,
        ).fx,
{
    let members = state.members(channel);
    if let Some(ch) = state.channels.get_mut(channel) {
        set_flag(ch, m, adding);
        push_store(fx, StoreOp::SaveChannel { channel: channel.to_owned(), state: ch.dup() });
    }
    push_mode(fx, &members, conn, channel, signed_mode(adding, m), None);
}

/// Handles `k`; tells whether the rest of the mode string is dropped.
fn handle_key_mode(
    conn: &Connection,
    channel: &str,
    adding: bool,
    arg: Option<&str>,
    state: &mut ServerState,
    fx: &mut Vec<Effect>,
) -> (stop: bool)
    requires
        old(state).deep_view().channel(channel@) is Some,
    ensures
        ({
            let step = key_mode(
                old(state).deep_view(),
                conn.deep_view(),
                channel@,
                adding,
                arg.deep_view(),
            );
            &&& final(state).deep_view() == step.state
            &&& final(fx).deep_view() == old(fx).deep_view() + step.fx
            &&& stop == step.stop
        }),
{
    if adding && arg.is_none() {
        push_reply(
            fx,
            conn.id.as_str(),
            state.server_name.as_str(),
            irc::ERR_NEEDMOREPARAMS,
            p3(conn.nick_or_star(), "MODE", "Not enough parameters"),
        );
        return true;
    }
    let members = state.members(channel);
    let new_key = match arg {
        Some(a) => if adding {
            Some(a.to_owned())
        } else {
            None
        },
        None => None,
    };
    let mut shown: Option<String> = new_key.dup();
    if let Some(ch) = state.channels.get_mut(channel) {
        if !adding {
            shown = ch.key.dup();
        }
        ch.key = new_key;
        push_store(fx, StoreOp::SaveChannel { channel: channel.to_owned(), state: ch.dup() });
    }
    if let Some(key) = &shown {
        let shown_arg = Some(key.as_str());
        assert(shown_arg.deep_view() == Some(key@));
        push_mode(fx, &members, conn, channel, signed_mode(adding, 'k'), shown_arg);
    }
    false
}

/// Handles one mode character other than a sign; tells whether the rest is dropped.
fn handle_mode_char(
    conn: &Connection,
    channel: &str,
    m: char,
    adding: bool,
    arg: Option<&str>,
    now: u64,
    state: &mut ServerState,
    fx: &mut Vec<Effect>,
) -> (stop: bool)
    requires
        old(state).deep_view().channel(channel@) is Some,
    ensures
        ({
            let step = mode_step(
                old(state).deep_view(),
                conn.deep_view(),
                channel@,
                m,
                adding,
                arg.deep_view(),
                now,
            );
            &&& final(state).deep_view() == step.state
            &&& final(fx).deep_view() == old(fx).deep_view() + step.fx
            &&& stop == step.stop
        }),
{
    if m == 'o' || m == 'h' || m == 'v' {
        handle_status_mode(conn, channel, m, adding, arg, state, fx)
    } else if m == 'b' {
        handle_ban_mode(conn, channel, adding, arg, now, state, fx)
    } else if m == 'k' {
        handle_key_mode(conn, channel, adding, arg, state, fx)
    } else if m == 'i' || m == 't' || m == 'n' || m == 'm' || m == 'E' {
        handle_flag_mode(conn, channel, m, adding, state, fx);
        false
    } else {
        let shown = Line::new("").add_char(m).done();
        proof {
            reveal_strlit("");
        }
        assert(shown@ =~= seq![m]);
        push_reply(
            fx,
            conn.id.as_str(),
            state.server_name.as_str(),
            irc::ERR_UNKNOWNMODE,
            p3(conn.nick_or_star(), shown.as_str(), "is unknown mode char to me"),
        );
        false
    }
}

/// A mode character leaves the channel in place.
proof fn lemma_mode_step_keeps_channel(
    st: ServerStateView,
    c: ConnectionView,
    channel: Seq<char>,
    m: char,
    adding: bool,
    arg: Option<Seq<char>>,
    now: u64,
)
    requires
        st.channel(channel) is Some,
    ensures
        mode_step(st, c, channel, m, adding, arg, now).state.channel(channel) is Some,
{
    broadcast use crate::containers::lemma_map_put_get;

}

/// The modes that are set, as text.
fn shown_modes(ch: &ChannelState) -> (m: String)
    ensures
        m@ == modes_shown(ch.deep_view()),
{
    let mut m = "+".to_owned();
    if ch.no_ext_msg {
        m.push('n');
    }
    if ch.topic_locked {
        m.push('t');
    }
    if ch.invite_only {
        m.push('i');
    }
    if ch.moderated {
        m.push('m');
    }
    if ch.encrypted_only {
        m.push('E');
    }
    if ch.key.is_some() {
        m.push('k');
    }
    m
}

/// Handle MODE command on a channel.
pub fn handle_mode(
    conn: &Connection,
    channel: &str,
    mode_str: Option<&str>,
    mode_arg: Option<&str>,
    now: u64,
    state: &mut ServerState,
    fx: &mut Vec<Effect>,
)
    ensures
        final(state).deep_view() == mode_spec(
            old(state).deep_view(),
            conn.deep_view(),
            channel@,
            mode_str.deep_view(),
            mode_arg.deep_view(),
            now,
        ).0,
        final(fx).deep_view() == old(fx).deep_view() + mode_spec(
            old(state).deep_view(),
            conn.deep_view(),
            channel@,
            mode_str.deep_view(),
            mode_arg.deep_view(),
            now,
        ).1,
{
    let nick = conn.nick_or_star();
    let session_id = conn.id.as_str();
    if !state.is_member(channel, session_id) {
        push_reply(
            fx,
            session_id,
            state.server_name.as_str(),
            irc::ERR_NOTONCHANNEL,
            p3(nick, channel, "You're not on that channel"),
        );
        return;
    }
    let modes = match mode_str {
        Some(m) => text::chars_of(m),
        None => {
            if let Some(ch) = state.channels.get(channel) {
                let shown = shown_modes(ch);
                push_reply(
                    fx,
                    session_id,
                    state.server_name.as_str(),
                    irc::RPL_CHANNELMODEIS,
                    p3(nick, channel, shown.as_str()),
                );
            }
            return;
        },
    };
    let is_op = state.is_op(channel, session_id);
    let is_halfop = state.is_halfop(channel, session_id);
    let is_server_oper = state.server_opers.contains(session_id);
    if !is_op && !is_halfop && !is_server_oper {
        push_reply(
            fx,
            session_id,
            state.server_name.as_str(),
            irc::ERR_CHANOPRIVSNEEDED,
            p3(nick, channel, "You're not channel operator"),
        );
        return;
    }
    let n: usize = modes.len();
    if is_halfop && !is_op && !is_server_oper {
        let has_arg = mode_arg.is_some();
        let mut has_restricted = false;
        let mut k: usize = 0;
        while k < n
            invariant
                k <= n,
                n == modes@.len(),
                has_arg == (mode_arg is Some),
                has_restricted == exists|i: int|
                    0 <= i < k && #[trigger] is_op_only_mode(modes@[i], has_arg),
            decreases n - k,
        {
            let m = modes[k];
            if m == 'o' || m == 'h' || m == 'm' || m == 't' || m == 'i' || m == 'k' || m == 'n' || m
                == 'E' || (m == 'b' && has_arg) {
                assert(is_op_only_mode(modes@[k as int], has_arg));
                has_restricted = true;
            }
            k = k + 1;
        }
        if has_restricted {
            push_reply(
                fx,
                session_id,
                state.server_name.as_str(),
                irc::ERR_CHANOPRIVSNEEDED,
                p3(nick, channel, "Moderators can only set +v/-v"),
            );
            return;
        }
    }
    let ghost c = conn.deep_view();
    let ghost arg = mode_arg.deep_view();
    let ghost before = fx.deep_view();
    let ghost goal = mode_run(state.deep_view(), c, channel@, modes@, true, arg, now);
    let mut adding = true;
    let mut i: usize = 0;
    assert(modes@.skip(0) =~= modes@);
    while i < n
        invariant_except_break
            state.deep_view().channel(channel@) is Some,
            goal.0 == mode_run(
                state.deep_view(),
                c,
                channel@,
                modes@.skip(i as int),
                adding,
                arg,
                now,
            ).0,
            before + goal.1 == fx.deep_view() + mode_run(
                state.deep_view(),
                c,
                channel@,
                modes@.skip(i as int),
                adding,
                arg,
                now,
            ).1,
        invariant
            i <= n,
            n == modes@.len(),
            c == conn.deep_view(),
            arg == mode_arg.deep_view(),
        ensures
            goal.0 == state.deep_view(),
            before + goal.1 == fx.deep_view(),
        decreases n - i,
    {
        let ghost rest = modes@.skip(i as int);
        let ghost cur = state.deep_view();
        let ghost done = fx.deep_view();
        assert(rest[0] == modes@[i as int]);
        assert(rest.skip(1) =~= modes@.skip(i + 1));
        let m = modes[i];
        if m == '+' {
            adding = true;
        } else if m == '-' {
            adding = false;
        } else {
            proof {
                lemma_mode_step_keeps_channel(cur, c, channel@, m, adding, arg, now);
            }
            if handle_mode_char(conn, channel, m, adding, mode_arg, now, state, fx) {
                break;
            }
            assert(fx.deep_view() + mode_run(
                state.deep_view(),
                c,
                channel@,
                rest.skip(1),
                adding,
                arg,
                now,
            ).1 =~= done + mode_run(cur, c, channel@, rest, adding, arg, now).1);
        }
        i = i + 1;
        if i == n {
            assert(modes@.skip(i as int).len() == 0);
            assert(fx.deep_view() + Seq::<EffectView>::empty() =~= fx.deep_view());
        }
    }
}

} // verus!
