//! JOIN: who may enter a channel, what status they get, and what everyone is told.
use super::channel;
use super::channel::{has_did_ops, push_names, push_topic};
use super::helpers;
use super::helpers::{
    p3, push_crdt, push_multicast, push_plugin, push_reply, push_s2s, push_send, push_store,
};
use super::{Connection, ConnectionView};
use crate::containers;
use crate::containers::{Dup, StrMap, StrSet};
use crate::irc;
use crate::irc::{Message, MessageView};
use crate::server::{
    ChannelState, ChannelStateView, CrdtOp, CrdtOpView, Effect, EffectView, HistoryMessage,
    HistoryMessageView, PluginEvent, PluginEventView, RemoteMemberView, S2sEvent, S2sEventView,
    ServerState, ServerStateView, StoreOp, StoreOpView,
};
use crate::text;
use crate::text::{byte_len, str_eq, Line};
use crate::time;
use crate::time::format_time_tag;
use vstd::prelude::*;

verus! {

broadcast use vstd::string::group_string_axioms;

/// How many channels a user may be in.
pub const MAX_CHANNELS_PER_USER: usize = 100;

/// Longest channel name, in bytes.
pub const MAX_CHANNEL_NAME: usize = 64;

/// What the policy engine says of a user and a channel with a policy.
pub enum Membership {
    /// The user holds a valid attestation with this role.
    Attested(String),
    /// The user holds none.
    Missing,
    /// The engine failed.
    Failed,
}

/// The mathematical content of a [`Membership`].
pub enum MembershipView {
    Attested(Seq<char>),
    Missing,
    Failed,
}

impl DeepView for Membership {
    type V = MembershipView;

    open spec fn deep_view(&self) -> MembershipView {
        match self {
            Membership::Attested(r) => MembershipView::Attested(r@),
            Membership::Missing => MembershipView::Missing,
            Membership::Failed => MembershipView::Failed,
        }
    }
}

/// The policy of a channel, as it bears on one user.
pub struct Policy {
    /// The policy says who gets which role.
    pub has_role_requirements: bool,
    pub membership: Membership,
}

/// The mathematical content of a [`Policy`].
pub struct PolicyView {
    pub has_role_requirements: bool,
    pub membership: MembershipView,
}

impl DeepView for Policy {
    type V = PolicyView;

    open spec fn deep_view(&self) -> PolicyView {
        PolicyView {
            has_role_requirements: self.has_role_requirements,
            membership: self.membership.deep_view(),
        }
    }
}

// ── Who may enter ───────────────────────────────────────────────────

/// Whether the channel has to be created: there is none, or one that holds nobody and nothing that
/// persists.
pub open spec fn is_new(st: ServerStateView, channel: Seq<char>) -> bool {
    match st.channel(channel) {
        None => true,
        Some(ch) => ch.members.len() == 0 && ch.remote_members.len() == 0 && ch.founder_did is None
            && ch.topic is None && ch.ops.len() == 0,
    }
}

/// In how many of the given channels the session is.
pub open spec fn joined_count(chs: Seq<(Seq<char>, ChannelStateView)>, session: Seq<char>) -> nat
    decreases chs.len(),
{
    if chs.len() == 0 {
        0
    } else {
        joined_count(chs.drop_last(), session) + (if chs.last().1.members.contains(session) {
            1nat
        } else {
            0nat
        })
    }
}

/// Whether the user was invited: by session, by DID, or by nick.
pub open spec fn invited(ch: ChannelStateView, c: ConnectionView) -> bool {
    ch.invites.contains(c.id) || (c.authenticated_did matches Some(d) && ch.invites.contains(d))
        || ch.invites.contains(channel::nick_token(text::or_default(c.nick, ""@)))
}

/// What the checks at the door say.
pub enum Gate {
    /// Refused, with a reply.
    Refuse { numeric: &'static str, text: &'static str },
    /// Nothing happens.
    Ignore,
    /// Go on.
    Pass,
}

/// The checks at the door, in their order: the name, the number of channels, and for a channel
/// that exists whether the session is in it already, the key, the bans, and the invitation.
pub open spec fn entry_gate(
    st: ServerStateView,
    c: ConnectionView,
    channel: Seq<char>,
    key: Option<Seq<char>>,
    banned: bool,
) -> Gate {
    if vstd::utf8::encode_utf8(channel).len() > MAX_CHANNEL_NAME {
        Gate::Refuse { numeric: "479", text: "Channel name too long (max 64 characters)" }
    } else if !c.is_oper && joined_count(st.channels, c.id) >= MAX_CHANNELS_PER_USER {
        Gate::Refuse {
            numeric: irc::ERR_TOOMANYCHANNELS,
            text: "You have joined too many channels",
        }
    } else if is_new(st, channel) {
        Gate::Pass
    } else {
        let ch = st.channel(channel)->0;
        if ch.members.contains(c.id) {
            Gate::Ignore
        } else if ch.key is Some && key != ch.key {
            Gate::Refuse { numeric: irc::ERR_BADCHANNELKEY, text: "Cannot join channel (+k)" }
        } else if banned {
            Gate::Refuse { numeric: irc::ERR_BANNEDFROMCHAN, text: "Cannot join channel (+b)" }
        } else if ch.invite_only && !invited(ch, c) {
            Gate::Refuse { numeric: irc::ERR_INVITEONLYCHAN, text: "Cannot join channel (+i)" }
        } else {
            Gate::Pass
        }
    }
}

/// The channel with the user's invitation, in all its forms, used up.
pub open spec fn without_invite(ch: ChannelStateView, c: ConnectionView) -> ChannelStateView {
    let i1 = containers::set_remove(ch.invites, c.id);
    let i2 = match c.authenticated_did {
        Some(d) => containers::set_remove(i1, d),
        None => i1,
    };
    ChannelStateView {
        invites: containers::set_remove(
            i2,
            channel::nick_token(text::or_default(c.nick, ""@)),
        ),
        ..ch
    }
}

/// The state after the door: on an invite-only channel the invitation is used up.
pub open spec fn past_door(
    st: ServerStateView,
    c: ConnectionView,
    channel: Seq<char>,
) -> ServerStateView {
    if !is_new(st, channel) && st.channel(channel)->0.invite_only {
        st.with_channel(channel, without_invite(st.channel(channel)->0, c))
    } else {
        st
    }
}

/// Text for a user without a valid attestation.
pub const POLICY_MISSING: &'static str =
    "This channel requires policy acceptance — use POLICY <channel> ACCEPT";

/// Text for a guest at a channel with a policy.
pub const POLICY_GUEST: &'static str = "This channel requires authentication — sign in to join";

/// What the channel's policy says: a refusal's text, or the role that comes with entering.
/// Founders and persistent operators pass as operators; a failing engine lets everyone pass.
pub open spec fn policy_gate(
    st: ServerStateView,
    c: ConnectionView,
    channel: Seq<char>,
    policy: Option<PolicyView>,
) -> Result<Option<Seq<char>>, Seq<char>> {
    match policy {
        None => Ok(None),
        Some(p) => match c.authenticated_did {
            None => Err(POLICY_GUEST@),
            Some(d) => if st.channel(text::ascii_lower(channel)) matches Some(ch)
                && channel::did_has_ops(ch, d) {
                Ok(Some("op"@))
            } else {
                match p.membership {
                    MembershipView::Attested(role) => Ok(Some(role)),
                    MembershipView::Missing => Err(POLICY_MISSING@),
                    MembershipView::Failed => Ok(None),
                }
            },
        },
    }
}

// ── Entering ────────────────────────────────────────────────────────

/// A channel that nobody has entered yet.
pub open spec fn empty_channel() -> ChannelStateView {
    ChannelStateView {
        members: Seq::empty(),
        remote_members: Seq::empty(),
        ops: Seq::empty(),
        halfops: Seq::empty(),
        voiced: Seq::empty(),
        founder_did: None,
        did_ops: Seq::empty(),
        created_at: 0,
        bans: Seq::empty(),
        invite_only: false,
        invites: Seq::empty(),
        history: Seq::empty(),
        topic: None,
        topic_locked: false,
        no_ext_msg: false,
        moderated: false,
        encrypted_only: false,
        key: None,
        pins: Seq::empty(),
    }
}

/// The channel that its first user creates: the user is operator and, if authenticated, founder;
/// the channel starts with +nt.
pub open spec fn created(ch: ChannelStateView, c: ConnectionView, now: u64) -> ChannelStateView {
    ChannelStateView {
        members: containers::set_insert(ch.members, c.id),
        ops: containers::set_insert(ch.ops, c.id),
        created_at: now,
        founder_did: match c.authenticated_did {
            Some(d) => Some(d),
            None => ch.founder_did,
        },
        did_ops: match c.authenticated_did {
            Some(d) => containers::set_insert(ch.did_ops, d),
            None => ch.did_ops,
        },
        no_ext_msg: true,
        topic_locked: true,
        ..ch
    }
}

/// Whether some remote member is an operator.
pub open spec fn remote_op(m: Seq<(Seq<char>, RemoteMemberView)>) -> bool {
    exists|i: int| 0 <= i < m.len() && (#[trigger] m[i]).1.is_op
}

/// The existing channel that a user enters. Founders and persistent operators get their status
/// back; so does the first to enter a channel without anyone, unless a policy gives out the roles.
pub open spec fn entered(
    ch: ChannelStateView,
    c: ConnectionView,
    roles_by_policy: bool,
) -> ChannelStateView {
    let members = containers::set_insert(ch.members, c.id);
    let by_did = c.authenticated_did matches Some(d) && channel::did_has_ops(ch, d);
    let orphaned = members.len() == 1 && ch.remote_members.len() == 0 && ch.ops.len() == 0
        && !remote_op(ch.remote_members) && !roles_by_policy;
    ChannelStateView {
        members,
        ops: if by_did || orphaned {
            containers::set_insert(ch.ops, c.id)
        } else {
            ch.ops
        },
        ..ch
    }
}

/// The status that a policy role brings.
pub open spec fn with_role(
    ch: ChannelStateView,
    c: ConnectionView,
    role: Option<Seq<char>>,
) -> ChannelStateView {
    match role {
        Some(r) => if r == "op"@ || r == "admin"@ || r == "owner"@ {
            ChannelStateView {
                ops: containers::set_insert(ch.ops, c.id),
                did_ops: match c.authenticated_did {
                    Some(d) => containers::set_insert(ch.did_ops, d),
                    None => ch.did_ops,
                },
                ..ch
            }
        } else if r == "moderator"@ || r == "halfop"@ {
            ChannelStateView { halfops: containers::set_insert(ch.halfops, c.id), ..ch }
        } else if r == "voice"@ || r == "voiced"@ || r == "speaker"@ {
            ChannelStateView { voiced: containers::set_insert(ch.voiced, c.id), ..ch }
        } else {
            ch
        },
        None => ch,
    }
}

/// The channel before anyone entered: as it is, or a fresh one.
pub open spec fn base_channel(st: ServerStateView, channel: Seq<char>) -> ChannelStateView {
    match st.channel(channel) {
        Some(ch) => ch,
        None => empty_channel(),
    }
}

/// The channel once the user is in it, before the policy role takes effect.
pub open spec fn seated(
    st: ServerStateView,
    c: ConnectionView,
    channel: Seq<char>,
    policy: Option<PolicyView>,
    now: u64,
) -> ChannelStateView {
    if is_new(st, channel) {
        created(base_channel(st, channel), c, now)
    } else {
        entered(
            base_channel(st, channel),
            c,
            policy matches Some(p) && p.has_role_requirements,
        )
    }
}

/// What a creation is passed on as.
pub open spec fn creation_fx(
    c: ConnectionView,
    channel: Seq<char>,
    ch: ChannelStateView,
) -> Seq<EffectView> {
    (match c.authenticated_did {
        Some(did) => seq![
            EffectView::Crdt(CrdtOpView::SetFounder { channel, did }),
            EffectView::Crdt(CrdtOpView::GrantOp { channel, did, granted_by: None }),
        ],
        None => Seq::empty(),
    }).push(EffectView::Store(StoreOpView::SaveChannel { channel, state: ch }))
}

// ── What everyone is told ───────────────────────────────────────────

/// The announcement of automatic operator or moderator status.
pub open spec fn auto_mode_fx(
    st: ServerStateView,
    c: ConnectionView,
    channel: Seq<char>,
    ch: ChannelStateView,
) -> Seq<EffectView> {
    let nick = text::or_default(c.nick, ""@);
    if ch.ops.contains(c.id) {
        helpers::multicast_fx(
            ch.members,
            ":"@ + st.server_name + " MODE "@ + channel + " "@ + "+o"@ + " "@ + nick + "\r\n"@,
        )
    } else if ch.halfops.contains(c.id) {
        helpers::multicast_fx(
            ch.members,
            ":"@ + st.server_name + " MODE "@ + channel + " "@ + "+h"@ + " "@ + nick + "\r\n"@,
        )
    } else {
        Seq::empty()
    }
}

/// The plain JOIN line.
pub open spec fn standard_join(c: ConnectionView, channel: Seq<char>) -> Seq<char> {
    ":"@ + c.hostmask() + " JOIN "@ + channel + "\r\n"@
}

/// The JOIN line with account and real name.
pub open spec fn extended_join(c: ConnectionView, channel: Seq<char>) -> Seq<char> {
    ":"@ + c.hostmask() + " JOIN "@ + channel + " "@ + text::or_default(
        c.authenticated_did,
        "*"@,
    ) + " :"@ + text::or_default(c.realname, text::or_default(c.nick, ""@)) + "\r\n"@
}

/// The extended JOIN line with the actor class as a tag.
pub open spec fn class_join(c: ConnectionView, channel: Seq<char>) -> Seq<char> {
    "@+freeq.at/actor-class="@ + super::actor_class_name(c.actor_class) + " "@ + extended_join(
        c,
        channel,
    )
}

/// The JOIN line for one member, by what its client understands.
pub open spec fn join_line_for(
    st: ServerStateView,
    c: ConnectionView,
    channel: Seq<char>,
    member: Seq<char>,
) -> EffectView {
    helpers::send_fx(
        member,
        if !st.cap_extended_join.contains(member) {
            standard_join(c, channel)
        } else if st.cap_message_tags.contains(member) {
            class_join(c, channel)
        } else {
            extended_join(c, channel)
        },
    )
}

/// The JOIN lines for all members.
pub open spec fn join_lines(
    st: ServerStateView,
    c: ConnectionView,
    channel: Seq<char>,
    members: Seq<Seq<char>>,
) -> Seq<EffectView> {
    members.map_values(|m: Seq<char>| join_line_for(st, c, channel, m))
}

/// The tags of a replayed message, by what the client understands.
pub open spec fn replay_tags(
    tags: Seq<(Seq<char>, Seq<char>)>,
    msgid: Option<Seq<char>>,
    edit_of: Option<Seq<char>>,
    ts: u64,
    has_tags: bool,
    has_time: bool,
    has_batch: bool,
    batch: Seq<char>,
) -> Seq<(Seq<char>, Seq<char>)> {
    let t0 = if has_tags {
        tags
    } else {
        Seq::empty()
    };
    let t1 = if has_tags && msgid is Some {
        containers::map_put(t0, "msgid"@, msgid->0)
    } else {
        t0
    };
    let t2 = if has_tags && edit_of is Some && !containers::map_has(t1, "+draft/edit"@) {
        containers::map_put(t1, "+draft/edit"@, edit_of->0)
    } else {
        t1
    };
    let t3 = if has_time {
        containers::map_put(t2, "time"@, time::time_tag(ts))
    } else {
        t2
    };
    if has_batch {
        containers::map_put(t3, "batch"@, batch)
    } else {
        t3
    }
}

/// The line of a replayed message: tagged for a client with message tags, plain else.
pub open spec fn replay_line(
    tags: Seq<(Seq<char>, Seq<char>)>,
    has_tags: bool,
    from: Seq<char>,
    target: Seq<char>,
    body: Seq<char>,
) -> Seq<char> {
    if tags.len() > 0 && has_tags {
        irc::wire(
            MessageView {
                tags,
                prefix: Some(from),
                command: "PRIVMSG"@,
                params: seq![target, body],
            },
        )
    } else {
        ":"@ + from + " PRIVMSG "@ + target + " :"@ + body + "\r\n"@
    }
}

/// One message of the history, for one session.
pub open spec fn history_fx(
    st: ServerStateView,
    session: Seq<char>,
    channel: Seq<char>,
    batch: Seq<char>,
    h: HistoryMessageView,
) -> EffectView {
    let has_tags = st.cap_message_tags.contains(session);
    helpers::send_fx(
        session,
        replay_line(
            replay_tags(
                h.tags,
                h.msgid,
                None,
                h.timestamp,
                has_tags,
                st.cap_server_time.contains(session),
                st.cap_batch.contains(session),
                batch,
            ),
            has_tags,
            h.from,
            channel,
            h.text,
        ),
    )
}

/// The line that opens a batch.
pub open spec fn batch_start(server: Seq<char>, batch: Seq<char>, what: Seq<char>) -> Seq<char> {
    ":"@ + server + " BATCH +"@ + batch + " "@ + what + "\r\n"@
}

/// The line that closes a batch.
pub open spec fn batch_end(server: Seq<char>, batch: Seq<char>) -> Seq<char> {
    ":"@ + server + " BATCH -"@ + batch + "\r\n"@
}

/// Effects in a batch, for a session whose client understands batches.
pub open spec fn batched(
    st: ServerStateView,
    session: Seq<char>,
    batch: Seq<char>,
    what: Seq<char>,
    fx: Seq<EffectView>,
) -> Seq<EffectView> {
    if st.cap_batch.contains(session) {
        seq![helpers::send_fx(session, batch_start(st.server_name, batch, what))] + fx + seq![
            helpers::send_fx(session, batch_end(st.server_name, batch)),
        ]
    } else {
        fx
    }
}

/// The replay of a channel's history.
pub open spec fn replay_fx(
    st: ServerStateView,
    session: Seq<char>,
    channel: Seq<char>,
    batch: Seq<char>,
    history: Seq<HistoryMessageView>,
) -> Seq<EffectView> {
    if history.len() == 0 {
        Seq::empty()
    } else {
        batched(
            st,
            session,
            batch,
            "chathistory "@ + channel,
            history.map_values(|h: HistoryMessageView| history_fx(st, session, channel, batch, h)),
        )
    }
}

/// What everyone is told of an entry, in order.
pub open spec fn join_news(
    st: ServerStateView,
    c: ConnectionView,
    channel: Seq<char>,
    ch: ChannelStateView,
    new: bool,
) -> Seq<EffectView> {
    let nick = text::or_default(c.nick, ""@);
    auto_mode_fx(st, c, channel, ch) + seq![
        EffectView::Plugin(
            PluginEventView::Join {
                nick,
                channel,
                did: c.authenticated_did,
                session_id: c.id,
                is_new_channel: new,
            },
        ),
    ] + join_lines(st, c, channel, ch.members) + seq![
        EffectView::S2s(
            S2sEventView::Join {
                nick,
                channel,
                did: c.authenticated_did,
                handle: containers::map_get(st.session_handles, c.id),
                is_op: ch.ops.contains(c.id),
            },
        ),
    ] + join_kept(c, channel, ch, new)
}

/// What is passed on of a creation, and what is kept for rejoining.
pub open spec fn join_kept(
    c: ConnectionView,
    channel: Seq<char>,
    ch: ChannelStateView,
    new: bool,
) -> Seq<EffectView> {
    (if new {
        seq![
            EffectView::S2s(
                S2sEventView::ChannelCreated {
                    channel,
                    founder_did: ch.founder_did,
                    did_ops: ch.did_ops,
                    created_at: ch.created_at,
                },
            ),
        ]
    } else {
        Seq::empty()
    }) + (match c.authenticated_did {
        Some(did) => seq![EffectView::Store(StoreOpView::AddUserChannel { did, channel })],
        None => Seq::empty(),
    })
}

/// What the user who entered is shown: the topic, the history, and the names.
pub open spec fn join_welcome(
    st: ServerStateView,
    c: ConnectionView,
    channel: Seq<char>,
    ch: ChannelStateView,
    batch: Seq<char>,
) -> Seq<EffectView> {
    let nick = text::or_default(c.nick, ""@);
    (match ch.topic {
        Some(t) => channel::topic_replies(st, c.id, nick, channel, t),
        None => Seq::empty(),
    }) + replay_fx(st, c.id, channel, batch, ch.history) + channel::names_fx(
        st,
        c.id,
        nick,
        channel,
        false,
    )
}

/// What entering a channel is followed by, in order, once the user is in it.
pub open spec fn join_told(
    st: ServerStateView,
    c: ConnectionView,
    channel: Seq<char>,
    ch: ChannelStateView,
    new: bool,
    batch: Seq<char>,
) -> Seq<EffectView> {
    join_news(st, c, channel, ch, new) + join_welcome(st, c, channel, ch, batch)
}

/// What JOIN does.
pub open spec fn join_spec(
    st: ServerStateView,
    c: ConnectionView,
    channel: Seq<char>,
    key: Option<Seq<char>>,
    banned: bool,
    policy: Option<PolicyView>,
    now: u64,
    fresh_id: Seq<char>,
) -> (ServerStateView, Seq<EffectView>) {
    let nick = text::or_default(c.nick, ""@);
    match entry_gate(st, c, channel, key, banned) {
        Gate::Refuse { numeric, text } => helpers::refuse(
            st,
            c,
            numeric@,
            seq![nick, channel, text@],
        ),
        Gate::Ignore => (st, Seq::empty()),
        Gate::Pass => {
            let st1 = past_door(st, c, channel);
            match policy_gate(st1, c, channel, policy) {
                Err(reason) => helpers::refuse(st1, c, "477"@, seq![nick, channel, reason]),
                Ok(role) => {
                    let new = is_new(st, channel);
                    let ch1 = seated(st1, c, channel, policy, now);
                    let ch2 = with_role(ch1, c, role);
                    let st2 = st1.with_channel(channel, ch2);
                    (
                        st2,
                        (if new {
                            creation_fx(c, channel, ch1)
                        } else {
                            Seq::empty()
                        }) + join_told(st2, c, channel, ch2, new, "hist"@ + fresh_id),
                    )
                },
            }
        },
    }
}

// ── Carrying it out ─────────────────────────────────────────────────

/// Whether the channel has to be created.
fn needs_creation(state: &ServerState, channel: &str) -> (b: bool)
    ensures
        b == is_new(state.deep_view(), channel@),
{
    match state.channels.get(channel) {
        None => true,
        Some(ch) => ch.members.is_empty() && ch.remote_members.is_empty()
            && ch.founder_did.is_none() && ch.topic.is_none() && ch.ops.is_empty(),
    }
}

/// In how many channels the session is.
fn count_joined(state: &ServerState, session: &str) -> (n: usize)
    ensures
        n == joined_count(state.deep_view().channels, session@),
{
    let ghost all = state.deep_view().channels;
    let mut n: usize = 0;
    let mut i: usize = 0;
    assert(all.take(0) =~= Seq::<(Seq<char>, ChannelStateView)>::empty());
    while i < state.channels.len()
        invariant
            i <= all.len(),
            all == state.channels@,
            n <= i,
            n == joined_count(all.take(i as int), session@),
        decreases all.len() - i,
    {
        assert(all.take(i + 1).drop_last() =~= all.take(i as int));
        if state.channels.value_at(i).members.contains(session) {
            n = n + 1;
        }
        i = i + 1;
    }
    assert(all.take(i as int) =~= all);
    n
}

/// Whether the user was invited.
fn has_invite(ch: &ChannelState, conn: &Connection) -> (b: bool)
    ensures
        b == invited(ch.deep_view(), conn.deep_view()),
{
    let by_did = match &conn.authenticated_did {
        Some(d) => ch.invites.contains(d.as_str()),
        None => false,
    };
    let token = Line::new("nick:").add(super::opt_str_or(&conn.nick, "")).done();
    ch.invites.contains(conn.id.as_str()) || by_did || ch.invites.contains(token.as_str())
}

/// The checks at the door.
fn check_entry(
    conn: &Connection,
    channel: &str,
    supplied_key: Option<&str>,
    banned: bool,
    state: &ServerState,
) -> (g: Gate)
    ensures
        g == entry_gate(
            state.deep_view(),
            conn.deep_view(),
            channel@,
            supplied_key.deep_view(),
            banned,
        ),
{
    if byte_len(channel) > MAX_CHANNEL_NAME {
        return Gate::Refuse {
            numeric: "479",
            text: "Channel name too long (max 64 characters)",
        };
    }
    if !conn.is_oper && count_joined(state, conn.id.as_str()) >= MAX_CHANNELS_PER_USER {
        return Gate::Refuse {
            numeric: irc::ERR_TOOMANYCHANNELS,
            text: "You have joined too many channels",
        };
    }
    if needs_creation(state, channel) {
        return Gate::Pass;
    }
    match state.channels.get(channel) {
        None => Gate::Pass,
        Some(ch) => {
            if ch.members.contains(conn.id.as_str()) {
                return Gate::Ignore;
            }
            if let Some(key) = &ch.key {
                let matches_key = match supplied_key {
                    Some(k) => str_eq(k, key.as_str()),
                    None => false,
                };
                if !matches_key {
                    return Gate::Refuse {
                        numeric: irc::ERR_BADCHANNELKEY,
                        text: "Cannot join channel (+k)",
                    };
                }
            }
            if banned {
                return Gate::Refuse {
                    numeric: irc::ERR_BANNEDFROMCHAN,
                    text: "Cannot join channel (+b)",
                };
            }
            if ch.invite_only && !has_invite(ch, conn) {
                return Gate::Refuse {
                    numeric: irc::ERR_INVITEONLYCHAN,
                    text: "Cannot join channel (+i)",
                };
            }
            Gate::Pass
        },
    }
}

/// Uses up the user's invitation to an invite-only channel.
fn use_invite(conn: &Connection, channel: &str, state: &mut ServerState)
    ensures
        final(state).deep_view() == past_door(old(state).deep_view(), conn.deep_view(), channel@),
{
    let invite_only = match state.channels.get(channel) {
        Some(ch) => ch.invite_only,
        None => false,
    };
    if invite_only && !needs_creation(state, channel) {
        let token = Line::new("nick:").add(super::opt_str_or(&conn.nick, "")).done();
        if let Some(ch) = state.channels.get_mut(channel) {
            ch.invites.remove(conn.id.as_str());
            if let Some(d) = &conn.authenticated_did {
                ch.invites.remove(d.as_str());
            }
            ch.invites.remove(token.as_str());
        }
    }
}

/// What the policy says: a refusal's text, or the role that comes with entering.
fn check_policy(
    conn: &Connection,
    channel: &str,
    policy: &Option<Policy>,
    state: &ServerState,
) -> (r: Result<Option<String>, &'static str>)
    ensures
        match policy_gate(state.deep_view(), conn.deep_view(), channel@, policy.deep_view()) {
            Ok(role) => r matches Ok(x) && x.deep_view() == role,
            Err(reason) => r matches Err(x) && x@ == reason,
        },
{
    let p = match policy {
        None => {
            return Ok(None);
        },
        Some(p) => p,
    };
    let did = match &conn.authenticated_did {
        None => {
            return Err(POLICY_GUEST);
        },
        Some(d) => d,
    };
    let lower = text::to_ascii_lower(channel);
    let is_did_op = match state.channels.get(lower.as_str()) {
        Some(ch) => has_did_ops(ch, did.as_str()),
        None => false,
    };
    if is_did_op {
        return Ok(Some("op".to_owned()));
    }
    match &p.membership {
        Membership::Attested(role) => Ok(Some(role.clone())),
        Membership::Missing => Err(POLICY_MISSING),
        Membership::Failed => Ok(None),
    }
}

/// Whether some remote member is an operator.
fn has_remote_op(ch: &ChannelState) -> (b: bool)
    ensures
        b == remote_op(ch.deep_view().remote_members),
{
    let ghost all = ch.remote_members@;
    let mut i: usize = 0;
    while i < ch.remote_members.len()
        invariant
            i <= all.len(),
            all == ch.remote_members@,
            forall|j: int| 0 <= j < i ==> !(#[trigger] all[j]).1.is_op,
        decreases all.len() - i,
    {
        if ch.remote_members.value_at(i).is_op {
            assert(all[i as int].1.is_op);
            return true;
        }
        i = i + 1;
    }
    false
}

/// Seats the user in a channel that is created for it.
fn seat_new(ch: &mut ChannelState, conn: &Connection, now: u64)
    ensures
        final(ch).deep_view() == created(old(ch).deep_view(), conn.deep_view(), now),
{
    ch.members.insert(conn.id.clone());
    ch.created_at = now;
    if let Some(d) = &conn.authenticated_did {
        ch.founder_did = Some(d.clone());
        ch.did_ops.insert(d.clone());
    }
    ch.ops.insert(conn.id.clone());
    ch.no_ext_msg = true;
    ch.topic_locked = true;
}

/// Seats the user in a channel that exists.
fn seat_existing(ch: &mut ChannelState, conn: &Connection, roles_by_policy: bool)
    ensures
        final(ch).deep_view() == entered(old(ch).deep_view(), conn.deep_view(), roles_by_policy),
{
    let should_op = match &conn.authenticated_did {
        Some(d) => has_did_ops(ch, d.as_str()),
        None => false,
    };
    ch.members.insert(conn.id.clone());
    let has_any_ops = !ch.ops.is_empty() || has_remote_op(ch);
    let is_truly_empty = ch.members.len() == 1 && ch.remote_members.is_empty() && !has_any_ops
        && !roles_by_policy;
    if should_op || is_truly_empty {
        ch.ops.insert(conn.id.clone());
    }
}

/// Gives the user the status of a policy role.
fn give_role(ch: &mut ChannelState, conn: &Connection, role: &Option<String>)
    ensures
        final(ch).deep_view() == with_role(
            old(ch).deep_view(),
            conn.deep_view(),
            role.deep_view(),
        ),
{
    if let Some(r) = role {
        let r = r.as_str();
        if str_eq(r, "op") || str_eq(r, "admin") || str_eq(r, "owner") {
            ch.ops.insert(conn.id.clone());
            if let Some(d) = &conn.authenticated_did {
                ch.did_ops.insert(d.clone());
            }
        } else if str_eq(r, "moderator") || str_eq(r, "halfop") {
            ch.halfops.insert(conn.id.clone());
        } else if str_eq(r, "voice") || str_eq(r, "voiced") || str_eq(r, "speaker") {
            ch.voiced.insert(conn.id.clone());
        }
    }
}

/// Announces automatic operator or moderator status.
fn push_auto_mode(
    fx: &mut Vec<Effect>,
    state: &ServerState,
    conn: &Connection,
    channel: &str,
    ch: &ChannelState,
)
    ensures
        final(fx).deep_view() == old(fx).deep_view() + auto_mode_fx(
            state.deep_view(),
            conn.deep_view(),
            channel@,
            ch.deep_view(),
        ),
{
    let nick = super::opt_str_or(&conn.nick, "");
    let mode = if ch.ops.contains(conn.id.as_str()) {
        "+o"
    } else if ch.halfops.contains(conn.id.as_str()) {
        "+h"
    } else {
        assert(fx.deep_view() + Seq::<EffectView>::empty() =~= fx.deep_view());
        return;
    };
    let line = Line::new(":").add(state.server_name.as_str()).add(" MODE ").add(channel).add(
        " ",
    ).add(mode).add(" ").add(nick).add("\r\n").done();
    push_multicast(fx, &ch.members, line.as_str());
}

/// Announces the JOIN to all members, to each in the form its client understands.
fn push_join_lines(
    fx: &mut Vec<Effect>,
    state: &ServerState,
    conn: &Connection,
    channel: &str,
    members: &StrSet,
)
    ensures
        final(fx).deep_view() == old(fx).deep_view() + join_lines(
            state.deep_view(),
            conn.deep_view(),
            channel@,
            members@,
        ),
{
    let hostmask = conn.hostmask();
    let realname = super::opt_str_or(&conn.realname, super::opt_str_or(&conn.nick, ""));
    let std_join = Line::new(":").add(hostmask.as_str()).add(" JOIN ").add(channel).add(
        "\r\n",
    ).done();
    let ext_join = Line::new(":").add(hostmask.as_str()).add(" JOIN ").add(channel).add(" ").add(
        super::opt_str_or(&conn.authenticated_did, "*"),
    ).add(" :").add(realname).add("\r\n").done();
    let ext_join_class = Line::new("@+freeq.at/actor-class=").add(conn.actor_class.as_str()).add(
        " ",
    ).add(ext_join.as_str()).done();
    let ghost st = state.deep_view();
    let ghost c = conn.deep_view();
    let ghost f = |m: Seq<char>| join_line_for(st, c, channel@, m);
    let ghost before = fx.deep_view();
    let ghost all = members@;
    let mut i: usize = 0;
    assert(before + all.take(0).map_values(f) =~= before);
    while i < members.len()
        invariant
            i <= all.len(),
            all == members@,
            st == state.deep_view(),
            c == conn.deep_view(),
            std_join@ == standard_join(c, channel@),
            ext_join@ == extended_join(c, channel@),
            ext_join_class@ == class_join(c, channel@),
            f == (|m: Seq<char>| join_line_for(st, c, channel@, m)),
            fx.deep_view() == before + all.take(i as int).map_values(f),
        decreases all.len() - i,
    {
        let ghost prev = fx.deep_view();
        let member = members.at(i);
        let line = if !state.cap_extended_join.contains(member.as_str()) {
            &std_join
        } else if state.cap_message_tags.contains(member.as_str()) {
            &ext_join_class
        } else {
            &ext_join
        };
        push_send(fx, member.as_str(), line.clone());
        assert(fx.deep_view() == prev.push(f(all[i as int])));
        i = i + 1;
        assert(fx.deep_view() =~= before + all.take(i as int).map_values(f));
    }
    assert(all.take(i as int) =~= all);
}

/// The tags of a replayed message.
pub fn tags_for_replay(
    tags: &StrMap<String>,
    msgid: &Option<String>,
    edit_of: &Option<String>,
    ts: u64,
    has_tags: bool,
    has_time: bool,
    has_batch: bool,
    batch: &str,
) -> (r: StrMap<String>)
    ensures
        r@ == replay_tags(
            tags@,
            msgid.deep_view(),
            edit_of.deep_view(),
            ts,
            has_tags,
            has_time,
            has_batch,
            batch@,
        ),
{
    let mut t: StrMap<String> = if has_tags {
        tags.dup()
    } else {
        StrMap::new()
    };
    if has_tags {
        if let Some(mid) = msgid {
            t.insert("msgid".to_owned(), mid.clone());
        }
        if let Some(original) = edit_of {
            if !t.contains_key("+draft/edit") {
                t.insert("+draft/edit".to_owned(), original.clone());
            }
        }
    }
    if has_time {
        t.insert("time".to_owned(), format_time_tag(ts));
    }
    if has_batch {
        t.insert("batch".to_owned(), batch.to_owned());
    }
    t
}

/// The line of a replayed message.
pub fn line_for_replay(
    tags: StrMap<String>,
    has_tags: bool,
    from: &str,
    target: &str,
    body: &str,
) -> (r: String)
    ensures
        r@ == replay_line(tags@, has_tags, from@, target@, body@),
{
    if !tags.is_empty() && has_tags {
        let mut params: Vec<String> = Vec::new();
        params.push(target.to_owned());
        params.push(body.to_owned());
        assert(params.deep_view() =~= seq![target@, body@]);
        let m = Message {
            tags,
            prefix: Some(from.to_owned()),
            command: "PRIVMSG".to_owned(),
            params,
        };
        m.to_wire()
    } else {
        Line::new(":").add(from).add(" PRIVMSG ").add(target).add(" :").add(body).add(
            "\r\n",
        ).done()
    }
}

/// Opens a batch for a session whose client understands batches.
pub fn push_batch_start(
    fx: &mut Vec<Effect>,
    state: &ServerState,
    session: &str,
    batch: &str,
    what: &str,
)
    ensures
        final(fx).deep_view() == old(fx).deep_view() + (
        if state.deep_view().cap_batch.contains(session@) {
            seq![
                helpers::send_fx(
                    session@,
                    batch_start(state.deep_view().server_name, batch@, what@),
                ),
            ]
        } else {
            Seq::empty()
        }),
{
    if state.cap_batch.contains(session) {
        let line = Line::new(":").add(state.server_name.as_str()).add(" BATCH +").add(batch).add(
            " ",
        ).add(what).add("\r\n").done();
        push_send(fx, session, line);
    }
}

/// Closes a batch for a session whose client understands batches.
pub fn push_batch_end(fx: &mut Vec<Effect>, state: &ServerState, session: &str, batch: &str)
    ensures
        final(fx).deep_view() == old(fx).deep_view() + (
        if state.deep_view().cap_batch.contains(session@) {
            seq![helpers::send_fx(session@, batch_end(state.deep_view().server_name, batch@))]
        } else {
            Seq::empty()
        }),
{
    if state.cap_batch.contains(session) {
        let line = Line::new(":").add(state.server_name.as_str()).add(" BATCH -").add(batch).add(
            "\r\n",
        ).done();
        push_send(fx, session, line);
    }
}

/// Replays a channel's history for a session.
fn push_replay(
    fx: &mut Vec<Effect>,
    state: &ServerState,
    session: &str,
    channel: &str,
    batch: &str,
    history: &Vec<HistoryMessage>,
)
    ensures
        final(fx).deep_view() == old(fx).deep_view() + replay_fx(
            state.deep_view(),
            session@,
            channel@,
            batch@,
            history.deep_view(),
        ),
{
    if history.len() == 0 {
        assert(fx.deep_view() + Seq::<EffectView>::empty() =~= fx.deep_view());
        return;
    }
    let has_tags = state.cap_message_tags.contains(session);
    let has_time = state.cap_server_time.contains(session);
    let has_batch = state.cap_batch.contains(session);
    let ghost start = fx.deep_view();
    let what = Line::new("chathistory ").add(channel).done();
    push_batch_start(fx, state, session, batch, what.as_str());
    let ghost st = state.deep_view();
    let ghost f = |h: HistoryMessageView| history_fx(st, session@, channel@, batch@, h);
    let ghost before = fx.deep_view();
    let ghost all = history.deep_view();
    let mut i: usize = 0;
    assert(before + all.take(0).map_values(f) =~= before);
    while i < history.len()
        invariant
            i <= all.len(),
            all == history.deep_view(),
            history@.len() == all.len(),
            st == state.deep_view(),
            has_tags == st.cap_message_tags.contains(session@),
            has_time == st.cap_server_time.contains(session@),
            has_batch == st.cap_batch.contains(session@),
            f == (|h: HistoryMessageView| history_fx(st, session@, channel@, batch@, h)),
            fx.deep_view() == before + all.take(i as int).map_values(f),
        decreases all.len() - i,
    {
        let ghost prev = fx.deep_view();
        let h = &history[i];
        assert(all[i as int] == h.deep_view());
        let no_edit: Option<String> = None;
        let tags = tags_for_replay(
            &h.tags,
            &h.msgid,
            &no_edit,
            h.timestamp,
            has_tags,
            has_time,
            has_batch,
            batch,
        );
        let line = line_for_replay(tags, has_tags, h.from.as_str(), channel, h.text.as_str());
        push_send(fx, session, line);
        assert(fx.deep_view() == prev.push(f(all[i as int])));
        i = i + 1;
        assert(fx.deep_view() =~= before + all.take(i as int).map_values(f));
    }
    assert(all.take(i as int) =~= all);
    push_batch_end(fx, state, session, batch);
    assert(fx.deep_view() =~= start + replay_fx(st, session@, channel@, batch@, all));
}

/// Passes on a creation.
fn push_creation(fx: &mut Vec<Effect>, conn: &Connection, channel: &str, ch: &ChannelState)
    ensures
        final(fx).deep_view() == old(fx).deep_view() + creation_fx(
            conn.deep_view(),
            channel@,
            ch.deep_view(),
        ),
{
    let ghost before = fx.deep_view();
    if let Some(d) = &conn.authenticated_did {
        push_crdt(fx, CrdtOp::SetFounder { channel: channel.to_owned(), did: d.clone() });
        push_crdt(
            fx,
            CrdtOp::GrantOp { channel: channel.to_owned(), did: d.clone(), granted_by: None },
        );
    }
    push_store(fx, StoreOp::SaveChannel { channel: channel.to_owned(), state: ch.dup() });
    assert(fx.deep_view() =~= before + creation_fx(conn.deep_view(), channel@, ch.deep_view()));
}

/// Passes on a creation to the other servers, and keeps the channel for rejoining.
fn push_join_kept(
    fx: &mut Vec<Effect>,
    conn: &Connection,
    channel: &str,
    ch: &ChannelState,
    new: bool,
)
    ensures
        final(fx).deep_view() == old(fx).deep_view() + join_kept(
            conn.deep_view(),
            channel@,
            ch.deep_view(),
            new,
        ),
{
    let ghost before = fx.deep_view();
    if new {
        push_s2s(
            fx,
            S2sEvent::ChannelCreated {
                channel: channel.to_owned(),
                founder_did: ch.founder_did.dup(),
                did_ops: ch.did_ops.to_vec(),
                created_at: ch.created_at,
            },
        );
    }
    if let Some(d) = &conn.authenticated_did {
        push_store(fx, StoreOp::AddUserChannel { did: d.clone(), channel: channel.to_owned() });
    }
    assert(fx.deep_view() =~= before + join_kept(conn.deep_view(), channel@, ch.deep_view(), new));
}

/// Tells everyone of a JOIN that has taken place.
fn push_join_news(
    fx: &mut Vec<Effect>,
    state: &ServerState,
    conn: &Connection,
    channel: &str,
    ch: &ChannelState,
    new: bool,
)
    ensures
        final(fx).deep_view() == old(fx).deep_view() + join_news(
            state.deep_view(),
            conn.deep_view(),
            channel@,
            ch.deep_view(),
            new,
        ),
{
    broadcast use helpers::lemma_push_after, helpers::lemma_add_after;

    let nick = super::opt_str_or(&conn.nick, "");
    let session = conn.id.as_str();
    push_auto_mode(fx, state, conn, channel, ch);
    push_plugin(
        fx,
        PluginEvent::Join {
            nick: nick.to_owned(),
            channel: channel.to_owned(),
            did: conn.authenticated_did.dup(),
            session_id: conn.id.clone(),
            is_new_channel: new,
        },
    );
    push_join_lines(fx, state, conn, channel, &ch.members);
    let handle = match state.session_handles.get(session) {
        Some(h) => Some(h.clone()),
        None => None,
    };
    push_s2s(
        fx,
        S2sEvent::Join {
            nick: nick.to_owned(),
            channel: channel.to_owned(),
            did: conn.authenticated_did.dup(),
            handle,
            is_op: ch.ops.contains(session),
        },
    );
    push_join_kept(fx, conn, channel, ch, new);
}

/// Shows the topic, the history and the names to the user who entered.
fn push_join_welcome(
    fx: &mut Vec<Effect>,
    state: &ServerState,
    conn: &Connection,
    channel: &str,
    ch: &ChannelState,
    batch: &str,
)
    ensures
        final(fx).deep_view() == old(fx).deep_view() + join_welcome(
            state.deep_view(),
            conn.deep_view(),
            channel@,
            ch.deep_view(),
            batch@,
        ),
{
    broadcast use helpers::lemma_push_after, helpers::lemma_add_after;

    let nick = super::opt_str_or(&conn.nick, "");
    let session = conn.id.as_str();
    if let Some(t) = &ch.topic {
        push_topic(fx, session, state.server_name.as_str(), nick, channel, t);
        assert(fx.deep_view() == old(fx).deep_view() + channel::topic_replies(
            state.deep_view(),
            session@,
            nick@,
            channel@,
            t.deep_view(),
        ));
    } else {
        assert(fx.deep_view() + Seq::<EffectView>::empty() =~= fx.deep_view());
    }
    push_replay(fx, state, session, channel, batch, &ch.history);
    push_names(fx, state, session, nick, channel, false);
}

/// Handle JOIN command for one channel.
///
/// `banned` says whether a ban of the channel is on this user, `policy` what the policy engine says
/// where the channel has a policy, and `fresh_id` is for the name of the batch of replayed messages.
pub fn handle_join(
    conn: &Connection,
    channel: &str,
    supplied_key: Option<&str>,
    banned: bool,
    policy: &Option<Policy>,
    now: u64,
    fresh_id: &str,
    state: &mut ServerState,
    fx: &mut Vec<Effect>,
)
    ensures
        final(state).deep_view() == join_spec(
            old(state).deep_view(),
            conn.deep_view(),
            channel@,
            supplied_key.deep_view(),
            banned,
            policy.deep_view(),
            now,
            fresh_id@,
        ).0,
        final(fx).deep_view() == old(fx).deep_view() + join_spec(
            old(state).deep_view(),
            conn.deep_view(),
            channel@,
            supplied_key.deep_view(),
            banned,
            policy.deep_view(),
            now,
            fresh_id@,
        ).1,
{
    let nick = super::opt_str_or(&conn.nick, "");
    match check_entry(conn, channel, supplied_key, banned, state) {
        Gate::Refuse { numeric, text } => {
            push_reply(
                fx,
                conn.id.as_str(),
                state.server_name.as_str(),
                numeric,
                p3(nick, channel, text),
            );
            return;
        },
        Gate::Ignore => {
            assert(fx.deep_view() + Seq::<EffectView>::empty() =~= fx.deep_view());
            return;
        },
        Gate::Pass => {},
    }
    let new = needs_creation(state, channel);
    use_invite(conn, channel, state);
    let ghost st1 = state.deep_view();
    assert(is_new(st1, channel@) == new) by {
        crate::containers::lemma_map_put_get(
            old(state).deep_view().channels,
            channel@,
            without_invite(old(state).deep_view().channel(channel@)->0, conn.deep_view()),
            channel@,
        );
    }
    let role = match check_policy(conn, channel, policy, state) {
        Ok(role) => role,
        Err(reason) => {
            push_reply(
                fx,
                conn.id.as_str(),
                state.server_name.as_str(),
                "477",
                p3(nick, channel, reason),
            );
            return;
        },
    };
    let mut ch = match state.channels.get(channel) {
        Some(ch) => ch.dup(),
        None => ChannelState::new(),
    };
    if new {
        seat_new(&mut ch, conn, now);
        push_creation(fx, conn, channel, &ch);
    } else {
        let roles_by_policy = match policy {
            Some(p) => p.has_role_requirements,
            None => false,
        };
        seat_existing(&mut ch, conn, roles_by_policy);
    }
    give_role(&mut ch, conn, &role);
    state.channels.insert(channel.to_owned(), ch.dup());
    let ghost done = fx.deep_view();
    push_join_news(fx, state, conn, channel, &ch, new);
    let batch = Line::new("hist").add(fresh_id).done();
    push_join_welcome(fx, state, conn, channel, &ch, batch.as_str());
    proof {
        helpers::lemma_add_after(
            done,
            join_news(state.deep_view(), conn.deep_view(), channel@, ch.deep_view(), new),
            join_welcome(state.deep_view(), conn.deep_view(), channel@, ch.deep_view(), batch@),
        );
    }
}

} // verus!
