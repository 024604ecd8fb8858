//! Shared server state.
//!
//! The channels and sessions that the command handlers read and change, as plain values. A handler
//! is a function from the state and a command to the new state and a list of [`Effect`]s: what is
//! to be sent, stored, or handed to the other parts of the server.
use crate::containers;
use crate::connection::{ActorClass, AgentPresence, AgentPresenceView};
use crate::containers::{Dup, StrMap, StrSet};
use crate::db::{CoordinationEventRow, CoordinationEventRowView};
use crate::text;
use crate::text::{str_eq, to_lowercase};
use vstd::prelude::*;

verus! {

broadcast use vstd::string::group_string_axioms;

/// How many messages a channel keeps for replay.
pub const MAX_HISTORY: usize = 100;

/// How many pinned messages a channel keeps.
pub const MAX_PINS: usize = 50;

/// The mathematical content of a [`TopicInfo`].
pub struct TopicInfoView {
    pub text: Seq<char>,
    pub set_by: Seq<char>,
    pub set_at: u64,
}

/// Channel topic with metadata.
#[derive(Debug)]
pub struct TopicInfo {
    pub text: String,
    /// Hostmask of who set it.
    pub set_by: String,
    /// Seconds since the Unix epoch.
    pub set_at: u64,
}

impl DeepView for TopicInfo {
    type V = TopicInfoView;

    open spec fn deep_view(&self) -> TopicInfoView {
        TopicInfoView {
            text: self.text.deep_view(),
            set_by: self.set_by.deep_view(),
            set_at: self.set_at.deep_view(),
        }
    }
}

impl Dup for TopicInfo {
    fn dup(&self) -> (r: TopicInfo) {
        TopicInfo {
            text: self.text.dup(),
            set_by: self.set_by.dup(),
            set_at: self.set_at.dup(),
        }
    }
}

/// The mathematical content of a [`BanEntry`].
pub struct BanEntryView {
    pub mask: Seq<char>,
    pub set_by: Seq<char>,
    pub set_at: u64,
}

/// A ban by hostmask or DID.
#[derive(Debug)]
pub struct BanEntry {
    pub mask: String,
    pub set_by: String,
    pub set_at: u64,
}

impl DeepView for BanEntry {
    type V = BanEntryView;

    open spec fn deep_view(&self) -> BanEntryView {
        BanEntryView {
            mask: self.mask.deep_view(),
            set_by: self.set_by.deep_view(),
            set_at: self.set_at.deep_view(),
        }
    }
}

impl Dup for BanEntry {
    fn dup(&self) -> (r: BanEntry) {
        BanEntry {
            mask: self.mask.dup(),
            set_by: self.set_by.dup(),
            set_at: self.set_at.dup(),
        }
    }
}

/// The mathematical content of a [`RemoteMember`].
pub struct RemoteMemberView {
    pub is_op: bool,
    pub did: Option<Seq<char>>,
}

/// A channel member on another server of the federation.
#[derive(Debug)]
pub struct RemoteMember {
    /// Operator on its home server.
    pub is_op: bool,
    pub did: Option<String>,
}

impl DeepView for RemoteMember {
    type V = RemoteMemberView;

    open spec fn deep_view(&self) -> RemoteMemberView {
        RemoteMemberView {
            is_op: self.is_op.deep_view(),
            did: self.did.deep_view(),
        }
    }
}

impl Dup for RemoteMember {
    fn dup(&self) -> (r: RemoteMember) {
        RemoteMember {
            is_op: self.is_op.dup(),
            did: self.did.dup(),
        }
    }
}

/// The mathematical content of a [`HistoryMessage`].
pub struct HistoryMessageView {
    pub from: Seq<char>,
    pub text: Seq<char>,
    pub timestamp: u64,
    pub tags: Seq<(Seq<char>, Seq<char>)>,
    pub msgid: Option<Seq<char>>,
}

/// A channel message kept for replay.
#[derive(Debug)]
pub struct HistoryMessage {
    pub from: String,
    pub text: String,
    pub timestamp: u64,
    pub tags: StrMap<String>,
    pub msgid: Option<String>,
}

impl DeepView for HistoryMessage {
    type V = HistoryMessageView;

    open spec fn deep_view(&self) -> HistoryMessageView {
        HistoryMessageView {
            from: self.from.deep_view(),
            text: self.text.deep_view(),
            timestamp: self.timestamp.deep_view(),
            tags: self.tags.deep_view(),
            msgid: self.msgid.deep_view(),
        }
    }
}

impl Dup for HistoryMessage {
    fn dup(&self) -> (r: HistoryMessage) {
        HistoryMessage {
            from: self.from.dup(),
            text: self.text.dup(),
            timestamp: self.timestamp.dup(),
            tags: self.tags.dup(),
            msgid: self.msgid.dup(),
        }
    }
}

/// The mathematical content of a [`PinnedMessage`].
pub struct PinnedMessageView {
    pub msgid: Seq<char>,
    pub pinned_by: Seq<char>,
    pub pinned_at: u64,
}

/// A pinned message.
#[derive(Debug)]
pub struct PinnedMessage {
    pub msgid: String,
    pub pinned_by: String,
    pub pinned_at: u64,
}

impl DeepView for PinnedMessage {
    type V = PinnedMessageView;

    open spec fn deep_view(&self) -> PinnedMessageView {
        PinnedMessageView {
            msgid: self.msgid.deep_view(),
            pinned_by: self.pinned_by.deep_view(),
            pinned_at: self.pinned_at.deep_view(),
        }
    }
}

impl Dup for PinnedMessage {
    fn dup(&self) -> (r: PinnedMessage) {
        PinnedMessage {
            msgid: self.msgid.dup(),
            pinned_by: self.pinned_by.dup(),
            pinned_at: self.pinned_at.dup(),
        }
    }
}

/// The mathematical content of a [`ChannelState`].
pub struct ChannelStateView {
    pub members: Seq<Seq<char>>,
    pub remote_members: Seq<(Seq<char>, RemoteMemberView)>,
    pub ops: Seq<Seq<char>>,
    pub halfops: Seq<Seq<char>>,
    pub voiced: Seq<Seq<char>>,
    pub founder_did: Option<Seq<char>>,
    pub did_ops: Seq<Seq<char>>,
    pub created_at: u64,
    pub bans: Seq<BanEntryView>,
    pub invite_only: bool,
    pub invites: Seq<Seq<char>>,
    pub history: Seq<HistoryMessageView>,
    pub topic: Option<TopicInfoView>,
    pub topic_locked: bool,
    pub no_ext_msg: bool,
    pub moderated: bool,
    pub encrypted_only: bool,
    pub key: Option<Seq<char>>,
    pub pins: Seq<PinnedMessageView>,
}

/// State of a single channel.
#[derive(Debug)]
pub struct ChannelState {
    /// Session IDs of the local members.
    pub members: StrSet,
    /// Members on other servers, by nick.
    pub remote_members: StrMap<RemoteMember>,
    /// Session IDs with operator status.
    pub ops: StrSet,
    /// Session IDs with moderator status.
    pub halfops: StrSet,
    /// Session IDs with voice.
    pub voiced: StrSet,
    /// DID of the channel founder.
    pub founder_did: Option<String>,
    /// DIDs with persistent operator status.
    pub did_ops: StrSet,
    pub created_at: u64,
    pub bans: Vec<BanEntry>,
    /// +i
    pub invite_only: bool,
    /// Session IDs, DIDs and `nick:` tokens that may pass +i.
    pub invites: StrSet,
    /// Oldest first.
    pub history: Vec<HistoryMessage>,
    pub topic: Option<TopicInfo>,
    /// +t
    pub topic_locked: bool,
    /// +n
    pub no_ext_msg: bool,
    /// +m
    pub moderated: bool,
    /// +E
    pub encrypted_only: bool,
    /// +k
    pub key: Option<String>,
    /// Newest first.
    pub pins: Vec<PinnedMessage>,
}

impl DeepView for ChannelState {
    type V = ChannelStateView;

    open spec fn deep_view(&self) -> ChannelStateView {
        ChannelStateView {
            members: self.members.deep_view(),
            remote_members: self.remote_members.deep_view(),
            ops: self.ops.deep_view(),
            halfops: self.halfops.deep_view(),
            voiced: self.voiced.deep_view(),
            founder_did: self.founder_did.deep_view(),
            did_ops: self.did_ops.deep_view(),
            created_at: self.created_at.deep_view(),
            bans: self.bans.deep_view(),
            invite_only: self.invite_only.deep_view(),
            invites: self.invites.deep_view(),
            history: self.history.deep_view(),
            topic: self.topic.deep_view(),
            topic_locked: self.topic_locked.deep_view(),
            no_ext_msg: self.no_ext_msg.deep_view(),
            moderated: self.moderated.deep_view(),
            encrypted_only: self.encrypted_only.deep_view(),
            key: self.key.deep_view(),
            pins: self.pins.deep_view(),
        }
    }
}

impl Dup for ChannelState {
    fn dup(&self) -> (r: ChannelState) {
        ChannelState {
            members: self.members.dup(),
            remote_members: self.remote_members.dup(),
            ops: self.ops.dup(),
            halfops: self.halfops.dup(),
            voiced: self.voiced.dup(),
            founder_did: self.founder_did.dup(),
            did_ops: self.did_ops.dup(),
            created_at: self.created_at.dup(),
            bans: self.bans.dup(),
            invite_only: self.invite_only.dup(),
            invites: self.invites.dup(),
            history: self.history.dup(),
            topic: self.topic.dup(),
            topic_locked: self.topic_locked.dup(),
            no_ext_msg: self.no_ext_msg.dup(),
            moderated: self.moderated.dup(),
            encrypted_only: self.encrypted_only.dup(),
            key: self.key.dup(),
            pins: self.pins.dup(),
        }
    }
}

/// The mathematical content of a [`GhostChannel`].
pub struct GhostChannelView {
    pub name: Seq<char>,
    pub was_op: bool,
    pub was_voiced: bool,
    pub was_halfop: bool,
}

/// A channel that a disconnected session held, with its status there.
#[derive(Debug)]
pub struct GhostChannel {
    pub name: String,
    pub was_op: bool,
    pub was_voiced: bool,
    pub was_halfop: bool,
}

impl DeepView for GhostChannel {
    type V = GhostChannelView;

    open spec fn deep_view(&self) -> GhostChannelView {
        GhostChannelView {
            name: self.name.deep_view(),
            was_op: self.was_op.deep_view(),
            was_voiced: self.was_voiced.deep_view(),
            was_halfop: self.was_halfop.deep_view(),
        }
    }
}

impl Dup for GhostChannel {
    fn dup(&self) -> (r: GhostChannel) {
        GhostChannel {
            name: self.name.dup(),
            was_op: self.was_op.dup(),
            was_voiced: self.was_voiced.dup(),
            was_halfop: self.was_halfop.dup(),
        }
    }
}

/// The mathematical content of a [`GhostSession`].
pub struct GhostSessionView {
    pub session_id: Seq<char>,
    pub nick: Seq<char>,
    pub hostmask: Seq<char>,
    pub channels: Seq<GhostChannelView>,
}

/// A disconnected DID user within the grace period.
#[derive(Debug)]
pub struct GhostSession {
    pub session_id: String,
    pub nick: String,
    pub hostmask: String,
    pub channels: Vec<GhostChannel>,
}

impl DeepView for GhostSession {
    type V = GhostSessionView;

    open spec fn deep_view(&self) -> GhostSessionView {
        GhostSessionView {
            session_id: self.session_id.deep_view(),
            nick: self.nick.deep_view(),
            hostmask: self.hostmask.deep_view(),
            channels: self.channels.deep_view(),
        }
    }
}

impl Dup for GhostSession {
    fn dup(&self) -> (r: GhostSession) {
        GhostSession {
            session_id: self.session_id.dup(),
            nick: self.nick.dup(),
            hostmask: self.hostmask.dup(),
            channels: self.channels.dup(),
        }
    }
}

/// The mathematical content of a [`Heartbeat`].
pub struct HeartbeatView {
    pub at: i64,
    pub ttl: u64,
}

/// The last sign of life of an agent.
#[derive(Debug)]
pub struct Heartbeat {
    pub at: i64,
    pub ttl: u64,
}

impl DeepView for Heartbeat {
    type V = HeartbeatView;

    open spec fn deep_view(&self) -> HeartbeatView {
        HeartbeatView {
            at: self.at.deep_view(),
            ttl: self.ttl.deep_view(),
        }
    }
}

impl Dup for Heartbeat {
    fn dup(&self) -> (r: Heartbeat) {
        Heartbeat {
            at: self.at.dup(),
            ttl: self.ttl.dup(),
        }
    }
}

/// The mathematical content of a [`ServerState`].
pub struct ServerStateView {
    pub server_name: Seq<char>,
    pub iroh_id: Option<Seq<char>>,
    pub motd: Option<Seq<char>>,
    pub oper_password: Option<Seq<char>>,
    pub oper_dids: Seq<Seq<char>>,
    pub max_messages_per_channel: u64,
    pub signing_key: Seq<u8>,
    pub boot_time: u64,
    pub channels: Seq<(Seq<char>, ChannelStateView)>,
    pub connections: Seq<Seq<char>>,
    pub nick_session: Seq<(Seq<char>, Seq<char>)>,
    pub session_nick: Seq<(Seq<char>, Seq<char>)>,
    pub session_dids: Seq<(Seq<char>, Seq<char>)>,
    pub did_sessions: Seq<(Seq<char>, Seq<Seq<char>>)>,
    pub session_handles: Seq<(Seq<char>, Seq<char>)>,
    pub session_iroh_ids: Seq<(Seq<char>, Seq<char>)>,
    pub session_away: Seq<(Seq<char>, Seq<char>)>,
    pub session_client_info: Seq<(Seq<char>, Seq<char>)>,
    pub session_actor_class: Seq<(Seq<char>, ActorClass)>,
    pub session_msg_keys: Seq<(Seq<char>, Seq<u8>)>,
    pub did_msg_keys: Seq<(Seq<char>, Seq<char>)>,
    pub msg_timestamps: Seq<(Seq<char>, Seq<u64>)>,
    pub nick_owners: Seq<(Seq<char>, Seq<char>)>,
    pub did_nicks: Seq<(Seq<char>, Seq<char>)>,
    pub server_opers: Seq<Seq<char>>,
    pub cap_message_tags: Seq<Seq<char>>,
    pub cap_multi_prefix: Seq<Seq<char>>,
    pub cap_echo_message: Seq<Seq<char>>,
    pub cap_server_time: Seq<Seq<char>>,
    pub cap_batch: Seq<Seq<char>>,
    pub cap_account_notify: Seq<Seq<char>>,
    pub cap_extended_join: Seq<Seq<char>>,
    pub cap_away_notify: Seq<Seq<char>>,
    pub agent_presence: Seq<(Seq<char>, AgentPresenceView)>,
    pub agent_heartbeats: Seq<(Seq<char>, HeartbeatView)>,
    pub ghost_sessions: Seq<(Seq<char>, GhostSessionView)>,
    pub provenance_declarations: Seq<(Seq<char>, Seq<char>)>,
}

/// State shared by all connections.
#[derive(Debug)]
pub struct ServerState {
    pub server_name: String,
    /// Iroh endpoint ID of this server.
    pub iroh_id: Option<String>,
    pub motd: Option<String>,
    pub oper_password: Option<String>,
    /// DIDs that are server operators once authenticated.
    pub oper_dids: Vec<String>,
    /// How many stored messages a channel keeps; 0 for all.
    pub max_messages_per_channel: u64,
    /// Ed25519 secret key with which the server signs messages.
    pub signing_key: [u8; 32],
    /// When the server came up, in seconds since the Unix epoch.
    pub boot_time: u64,
    /// Channels by name.
    pub channels: StrMap<ChannelState>,
    /// Session IDs with an open connection.
    pub connections: StrSet,
    /// Session of each nick in use, by lower-case nick.
    pub nick_session: StrMap<String>,
    /// Nick of each session.
    pub session_nick: StrMap<String>,
    pub session_dids: StrMap<String>,
    /// Sessions of each authenticated DID.
    pub did_sessions: StrMap<StrSet>,
    pub session_handles: StrMap<String>,
    pub session_iroh_ids: StrMap<String>,
    pub session_away: StrMap<String>,
    pub session_client_info: StrMap<String>,
    pub session_actor_class: StrMap<ActorClass>,
    /// Registered message-signing key of each session.
    pub session_msg_keys: StrMap<[u8; 32]>,
    pub did_msg_keys: StrMap<String>,
    /// When each session sent its latest messages, in milliseconds.
    pub msg_timestamps: StrMap<Vec<u64>>,
    /// DID that owns each registered nick, by lower-case nick.
    pub nick_owners: StrMap<String>,
    pub did_nicks: StrMap<String>,
    pub server_opers: StrSet,
    pub cap_message_tags: StrSet,
    pub cap_multi_prefix: StrSet,
    pub cap_echo_message: StrSet,
    pub cap_server_time: StrSet,
    pub cap_batch: StrSet,
    pub cap_account_notify: StrSet,
    pub cap_extended_join: StrSet,
    pub cap_away_notify: StrSet,
    pub agent_presence: StrMap<AgentPresence>,
    pub agent_heartbeats: StrMap<Heartbeat>,
    /// Disconnected DID users within the grace period, by DID.
    pub ghost_sessions: StrMap<GhostSession>,
    /// Provenance declaration of each DID, as JSON text.
    pub provenance_declarations: StrMap<String>,
}

impl DeepView for ServerState {
    type V = ServerStateView;

    open spec fn deep_view(&self) -> ServerStateView {
        ServerStateView {
            server_name: self.server_name.deep_view(),
            iroh_id: self.iroh_id.deep_view(),
            motd: self.motd.deep_view(),
            oper_password: self.oper_password.deep_view(),
            oper_dids: self.oper_dids.deep_view(),
            max_messages_per_channel: self.max_messages_per_channel.deep_view(),
            signing_key: self.signing_key.deep_view(),
            boot_time: self.boot_time.deep_view(),
            channels: self.channels.deep_view(),
            connections: self.connections.deep_view(),
            nick_session: self.nick_session.deep_view(),
            session_nick: self.session_nick.deep_view(),
            session_dids: self.session_dids.deep_view(),
            did_sessions: self.did_sessions.deep_view(),
            session_handles: self.session_handles.deep_view(),
            session_iroh_ids: self.session_iroh_ids.deep_view(),
            session_away: self.session_away.deep_view(),
            session_client_info: self.session_client_info.deep_view(),
            session_actor_class: self.session_actor_class.deep_view(),
            session_msg_keys: self.session_msg_keys.deep_view(),
            did_msg_keys: self.did_msg_keys.deep_view(),
            msg_timestamps: self.msg_timestamps.deep_view(),
            nick_owners: self.nick_owners.deep_view(),
            did_nicks: self.did_nicks.deep_view(),
            server_opers: self.server_opers.deep_view(),
            cap_message_tags: self.cap_message_tags.deep_view(),
            cap_multi_prefix: self.cap_multi_prefix.deep_view(),
            cap_echo_message: self.cap_echo_message.deep_view(),
            cap_server_time: self.cap_server_time.deep_view(),
            cap_batch: self.cap_batch.deep_view(),
            cap_account_notify: self.cap_account_notify.deep_view(),
            cap_extended_join: self.cap_extended_join.deep_view(),
            cap_away_notify: self.cap_away_notify.deep_view(),
            agent_presence: self.agent_presence.deep_view(),
            agent_heartbeats: self.agent_heartbeats.deep_view(),
            ghost_sessions: self.ghost_sessions.deep_view(),
            provenance_declarations: self.provenance_declarations.deep_view(),
        }
    }
}

/// The mathematical content of a [`S2sEvent`].
pub enum S2sEventView {
    Join { nick: Seq<char>, channel: Seq<char>, did: Option<Seq<char>>, handle: Option<Seq<char>>, is_op: bool },
    ChannelCreated { channel: Seq<char>, founder_did: Option<Seq<char>>, did_ops: Seq<Seq<char>>, created_at: u64 },
    Part { nick: Seq<char>, channel: Seq<char> },
    Kick { nick: Seq<char>, channel: Seq<char>, by: Seq<char>, reason: Seq<char> },
    Invite { channel: Seq<char>, invitee: Seq<char>, invited_by: Seq<char> },
    Topic { channel: Seq<char>, topic: Seq<char>, set_by: Seq<char> },
    Ban { channel: Seq<char>, mask: Seq<char>, set_by: Seq<char>, adding: bool },
    Mode { channel: Seq<char>, mode: Seq<char>, arg: Option<Seq<char>>, set_by: Seq<char> },
    NickChange { old: Seq<char>, new: Seq<char> },
    Quit { nick: Seq<char>, reason: Seq<char> },
    Privmsg { from: Seq<char>, target: Seq<char>, text: Seq<char>, msgid: Option<Seq<char>>, sig: Option<Seq<char>> },
}

/// An event for the other servers of the federation. Event ID and origin are added when it is sent.
#[derive(Debug)]
pub enum S2sEvent {
    /// A local user joined.
    Join { nick: String, channel: String, did: Option<String>, handle: Option<String>, is_op: bool },
    /// A channel was created here.
    ChannelCreated { channel: String, founder_did: Option<String>, did_ops: Vec<String>, created_at: u64 },
    /// A local user left.
    Part { nick: String, channel: String },
    /// A remote user was kicked.
    Kick { nick: String, channel: String, by: String, reason: String },
    /// A user was invited, by DID or by a `nick:` token.
    Invite { channel: String, invitee: String, invited_by: String },
    /// The topic changed.
    Topic { channel: String, topic: String, set_by: String },
    /// A ban was set or lifted.
    Ban { channel: String, mask: String, set_by: String, adding: bool },
    /// A mode changed.
    Mode { channel: String, mode: String, arg: Option<String>, set_by: String },
    /// A local user changed nick.
    NickChange { old: String, new: String },
    /// A local user quit.
    Quit { nick: String, reason: String },
    /// A message to a channel or a user.
    Privmsg { from: String, target: String, text: String, msgid: Option<String>, sig: Option<String> },
}

impl DeepView for S2sEvent {
    type V = S2sEventView;

    open spec fn deep_view(&self) -> S2sEventView {
        match self {
            S2sEvent::Join { nick, channel, did, handle, is_op } => S2sEventView::Join {
                nick: nick.deep_view(),
                channel: channel.deep_view(),
                did: did.deep_view(),
                handle: handle.deep_view(),
                is_op: is_op.deep_view(),
            },
            S2sEvent::ChannelCreated { channel, founder_did, did_ops, created_at } => S2sEventView::ChannelCreated {
                channel: channel.deep_view(),
                founder_did: founder_did.deep_view(),
                did_ops: did_ops.deep_view(),
                created_at: created_at.deep_view(),
            },
            S2sEvent::Part { nick, channel } => S2sEventView::Part {
                nick: nick.deep_view(),
                channel: channel.deep_view(),
            },
            S2sEvent::Kick { nick, channel, by, reason } => S2sEventView::Kick {
                nick: nick.deep_view(),
                channel: channel.deep_view(),
                by: by.deep_view(),
                reason: reason.deep_view(),
            },
            S2sEvent::Invite { channel, invitee, invited_by } => S2sEventView::Invite {
                channel: channel.deep_view(),
                invitee: invitee.deep_view(),
                invited_by: invited_by.deep_view(),
            },
            S2sEvent::Topic { channel, topic, set_by } => S2sEventView::Topic {
                channel: channel.deep_view(),
                topic: topic.deep_view(),
                set_by: set_by.deep_view(),
            },
            S2sEvent::Ban { channel, mask, set_by, adding } => S2sEventView::Ban {
                channel: channel.deep_view(),
                mask: mask.deep_view(),
                set_by: set_by.deep_view(),
                adding: adding.deep_view(),
            },
            S2sEvent::Mode { channel, mode, arg, set_by } => S2sEventView::Mode {
                channel: channel.deep_view(),
                mode: mode.deep_view(),
                arg: arg.deep_view(),
                set_by: set_by.deep_view(),
            },
            S2sEvent::NickChange { old, new } => S2sEventView::NickChange {
                old: old.deep_view(),
                new: new.deep_view(),
            },
            S2sEvent::Quit { nick, reason } => S2sEventView::Quit {
                nick: nick.deep_view(),
                reason: reason.deep_view(),
            },
            S2sEvent::Privmsg { from, target, text, msgid, sig } => S2sEventView::Privmsg {
                from: from.deep_view(),
                target: target.deep_view(),
                text: text.deep_view(),
                msgid: msgid.deep_view(),
                sig: sig.deep_view(),
            },
        }
    }
}

/// The mathematical content of a [`StoreOp`].
#[allow(inconsistent_fields)]
pub enum StoreOpView {
    SaveChannel { channel: Seq<char>, state: ChannelStateView },
    AddBan { channel: Seq<char>, ban: BanEntryView },
    RemoveBan { channel: Seq<char>, mask: Seq<char> },
    AddUserChannel { did: Seq<char>, channel: Seq<char> },
    RemoveUserChannel { did: Seq<char>, channel: Seq<char> },
    SaveIdentity { did: Seq<char>, nick: Seq<char> },
    InsertMessage { channel: Seq<char>, sender: Seq<char>, text: Seq<char>, timestamp: u64, tags: Seq<(Seq<char>, Seq<char>)>, msgid: Option<Seq<char>>, sender_did: Option<Seq<char>> },
    PruneMessages { channel: Seq<char>, keep: u64 },
    InsertEdit { channel: Seq<char>, sender: Seq<char>, text: Seq<char>, timestamp: u64, tags: Seq<(Seq<char>, Seq<char>)>, msgid: Seq<char>, replaces: Seq<char>, sender_did: Option<Seq<char>> },
    SoftDelete { channel: Seq<char>, msgid: Seq<char> },
    CoordinationEvent(CoordinationEventRowView),
}

/// A change to the database.
#[allow(inconsistent_fields)]
#[derive(Debug)]
pub enum StoreOp {
    /// Save the channel as it is now.
    SaveChannel { channel: String, state: ChannelState },
    /// Add a ban.
    AddBan { channel: String, ban: BanEntry },
    /// Remove a ban.
    RemoveBan { channel: String, mask: String },
    /// Remember the channel for rejoining.
    AddUserChannel { did: String, channel: String },
    /// Forget the channel.
    RemoveUserChannel { did: String, channel: String },
    /// Bind a nick to a DID.
    SaveIdentity { did: String, nick: String },
    /// Store a message under a channel name or a conversation key.
    InsertMessage { channel: String, sender: String, text: String, timestamp: u64, tags: StrMap<String>, msgid: Option<String>, sender_did: Option<String> },
    /// Keep only the newest messages of the channel.
    PruneMessages { channel: String, keep: u64 },
    /// Store an edit of a message.
    InsertEdit { channel: String, sender: String, text: String, timestamp: u64, tags: StrMap<String>, msgid: String, replaces: String, sender_did: Option<String> },
    /// Mark a message as deleted.
    SoftDelete { channel: String, msgid: String },
    /// Store a coordination event.
    CoordinationEvent(CoordinationEventRow),
}

impl DeepView for StoreOp {
    type V = StoreOpView;

    open spec fn deep_view(&self) -> StoreOpView {
        match self {
            StoreOp::SaveChannel { channel, state } => StoreOpView::SaveChannel {
                channel: channel.deep_view(),
                state: state.deep_view(),
            },
            StoreOp::AddBan { channel, ban } => StoreOpView::AddBan {
                channel: channel.deep_view(),
                ban: ban.deep_view(),
            },
            StoreOp::RemoveBan { channel, mask } => StoreOpView::RemoveBan {
                channel: channel.deep_view(),
                mask: mask.deep_view(),
            },
            StoreOp::AddUserChannel { did, channel } => StoreOpView::AddUserChannel {
                did: did.deep_view(),
                channel: channel.deep_view(),
            },
            StoreOp::RemoveUserChannel { did, channel } => StoreOpView::RemoveUserChannel {
                did: did.deep_view(),
                channel: channel.deep_view(),
            },
            StoreOp::SaveIdentity { did, nick } => StoreOpView::SaveIdentity {
                did: did.deep_view(),
                nick: nick.deep_view(),
            },
            StoreOp::InsertMessage { channel, sender, text, timestamp, tags, msgid, sender_did } => StoreOpView::InsertMessage {
                channel: channel.deep_view(),
                sender: sender.deep_view(),
                text: text.deep_view(),
                timestamp: timestamp.deep_view(),
                tags: tags.deep_view(),
                msgid: msgid.deep_view(),
                sender_did: sender_did.deep_view(),
            },
            StoreOp::PruneMessages { channel, keep } => StoreOpView::PruneMessages {
                channel: channel.deep_view(),
                keep: keep.deep_view(),
            },
            StoreOp::InsertEdit { channel, sender, text, timestamp, tags, msgid, replaces, sender_did } => StoreOpView::InsertEdit {
                channel: channel.deep_view(),
                sender: sender.deep_view(),
                text: text.deep_view(),
                timestamp: timestamp.deep_view(),
                tags: tags.deep_view(),
                msgid: msgid.deep_view(),
                replaces: replaces.deep_view(),
                sender_did: sender_did.deep_view(),
            },
            StoreOp::SoftDelete { channel, msgid } => StoreOpView::SoftDelete {
                channel: channel.deep_view(),
                msgid: msgid.deep_view(),
            },
            StoreOp::CoordinationEvent(x) => StoreOpView::CoordinationEvent(x.deep_view()),
        }
    }
}

/// The mathematical content of a [`CrdtOp`].
#[allow(inconsistent_fields)]
pub enum CrdtOpView {
    SetFounder { channel: Seq<char>, did: Seq<char> },
    GrantOp { channel: Seq<char>, did: Seq<char>, granted_by: Option<Seq<char>> },
    RevokeOp { channel: Seq<char>, did: Seq<char> },
    SetTopic { channel: Seq<char>, text: Seq<char>, nick: Seq<char>, did: Option<Seq<char>> },
    SetNickOwner { nick: Seq<char>, did: Seq<char> },
    Sync,
}

/// A change to the replicated channel authority.
#[allow(inconsistent_fields)]
#[derive(Debug)]
pub enum CrdtOp {
    SetFounder { channel: String, did: String },
    GrantOp { channel: String, did: String, granted_by: Option<String> },
    RevokeOp { channel: String, did: String },
    SetTopic { channel: String, text: String, nick: String, did: Option<String> },
    SetNickOwner { nick: String, did: String },
    /// Send the changes to the peers now.
    Sync,
}

impl DeepView for CrdtOp {
    type V = CrdtOpView;

    open spec fn deep_view(&self) -> CrdtOpView {
        match self {
            CrdtOp::SetFounder { channel, did } => CrdtOpView::SetFounder {
                channel: channel.deep_view(),
                did: did.deep_view(),
            },
            CrdtOp::GrantOp { channel, did, granted_by } => CrdtOpView::GrantOp {
                channel: channel.deep_view(),
                did: did.deep_view(),
                granted_by: granted_by.deep_view(),
            },
            CrdtOp::RevokeOp { channel, did } => CrdtOpView::RevokeOp {
                channel: channel.deep_view(),
                did: did.deep_view(),
            },
            CrdtOp::SetTopic { channel, text, nick, did } => CrdtOpView::SetTopic {
                channel: channel.deep_view(),
                text: text.deep_view(),
                nick: nick.deep_view(),
                did: did.deep_view(),
            },
            CrdtOp::SetNickOwner { nick, did } => CrdtOpView::SetNickOwner {
                nick: nick.deep_view(),
                did: did.deep_view(),
            },
            CrdtOp::Sync => CrdtOpView::Sync,
        }
    }
}

/// The mathematical content of a [`PluginEvent`].
#[allow(inconsistent_fields)]
pub enum PluginEventView {
    Join { nick: Seq<char>, channel: Seq<char>, did: Option<Seq<char>>, session_id: Seq<char>, is_new_channel: bool },
    NickChange { old_nick: Seq<char>, new_nick: Seq<char>, did: Option<Seq<char>>, session_id: Seq<char> },
    Auth { nick: Seq<char>, did: Seq<char>, handle: Option<Seq<char>>, session_id: Seq<char> },
}

/// A notification for the plugins.
#[allow(inconsistent_fields)]
#[derive(Debug)]
pub enum PluginEvent {
    Join { nick: String, channel: String, did: Option<String>, session_id: String, is_new_channel: bool },
    NickChange { old_nick: String, new_nick: String, did: Option<String>, session_id: String },
    Auth { nick: String, did: String, handle: Option<String>, session_id: String },
}

impl DeepView for PluginEvent {
    type V = PluginEventView;

    open spec fn deep_view(&self) -> PluginEventView {
        match self {
            PluginEvent::Join { nick, channel, did, session_id, is_new_channel } => PluginEventView::Join {
                nick: nick.deep_view(),
                channel: channel.deep_view(),
                did: did.deep_view(),
                session_id: session_id.deep_view(),
                is_new_channel: is_new_channel.deep_view(),
            },
            PluginEvent::NickChange { old_nick, new_nick, did, session_id } => PluginEventView::NickChange {
                old_nick: old_nick.deep_view(),
                new_nick: new_nick.deep_view(),
                did: did.deep_view(),
                session_id: session_id.deep_view(),
            },
            PluginEvent::Auth { nick, did, handle, session_id } => PluginEventView::Auth {
                nick: nick.deep_view(),
                did: did.deep_view(),
                handle: handle.deep_view(),
                session_id: session_id.deep_view(),
            },
        }
    }
}

/// The mathematical content of a [`Effect`].
pub enum EffectView {
    Send { to: Seq<char>, line: Seq<char> },
    S2s(S2sEventView),
    Store(StoreOpView),
    Crdt(CrdtOpView),
    Plugin(PluginEventView),
    Close { session: Seq<char> },
    ResolveHandle { did: Seq<char>, session: Seq<char>, nick: Seq<char> },
    AccountNotify { session: Seq<char>, nick: Seq<char>, did: Seq<char> },
}

/// What a handler asks the rest of the server to do, in order.
#[derive(Debug)]
#[allow(inconsistent_fields)]
pub enum Effect {
    /// Queue a line for a session, if it is connected.
    Send { to: String, line: String },
    S2s(S2sEvent),
    Store(StoreOp),
    Crdt(CrdtOp),
    Plugin(PluginEvent),
    /// Close the connection of a session once its lines are out.
    Close { session: String },
    /// Look up the handle of a DID, for the session that authenticated with it.
    ResolveHandle { did: String, session: String, nick: String },
    /// Tell those who share a channel with the session about its account.
    AccountNotify { session: String, nick: String, did: String },
}

impl DeepView for Effect {
    type V = EffectView;

    open spec fn deep_view(&self) -> EffectView {
        match self {
            Effect::Send { to, line } => EffectView::Send {
                to: to.deep_view(),
                line: line.deep_view(),
            },
            Effect::S2s(x) => EffectView::S2s(x.deep_view()),
            Effect::Store(x) => EffectView::Store(x.deep_view()),
            Effect::Crdt(x) => EffectView::Crdt(x.deep_view()),
            Effect::Plugin(x) => EffectView::Plugin(x.deep_view()),
            Effect::Close { session } => EffectView::Close { session: session.deep_view() },
            Effect::ResolveHandle { did, session, nick } => EffectView::ResolveHandle {
                did: did.deep_view(),
                session: session.deep_view(),
                nick: nick.deep_view(),
            },
            Effect::AccountNotify { session, nick, did } => EffectView::AccountNotify {
                session: session.deep_view(),
                nick: nick.deep_view(),
                did: did.deep_view(),
            },
        }
    }
}

// ── Reading the state ───────────────────────────────────────────────

impl ServerStateView {
    /// The channel of the given name.
    pub open spec fn channel(self, name: Seq<char>) -> Option<ChannelStateView> {
        containers::map_get(self.channels, name)
    }

    /// The state with another channel of the given name.
    pub open spec fn with_channel(self, name: Seq<char>, ch: ChannelStateView) -> ServerStateView {
        ServerStateView { channels: containers::map_put(self.channels, name, ch), ..self }
    }

    /// Whether the session is in the channel.
    pub open spec fn is_member(self, name: Seq<char>, session: Seq<char>) -> bool {
        match self.channel(name) {
            Some(ch) => ch.members.contains(session),
            None => false,
        }
    }

    /// Whether the session is an operator of the channel.
    pub open spec fn is_op(self, name: Seq<char>, session: Seq<char>) -> bool {
        match self.channel(name) {
            Some(ch) => ch.ops.contains(session),
            None => false,
        }
    }

    /// Whether the session is a moderator of the channel.
    pub open spec fn is_halfop(self, name: Seq<char>, session: Seq<char>) -> bool {
        match self.channel(name) {
            Some(ch) => ch.halfops.contains(session),
            None => false,
        }
    }

    /// The local members of the channel; none where there is no such channel.
    pub open spec fn members(self, name: Seq<char>) -> Seq<Seq<char>> {
        match self.channel(name) {
            Some(ch) => ch.members,
            None => Seq::empty(),
        }
    }

    /// The session that holds a nick; case does not matter.
    pub open spec fn session_of(self, nick: Seq<char>) -> Option<Seq<char>> {
        containers::map_get(self.nick_session, text::lowercase(nick))
    }

    /// The nick of a session.
    pub open spec fn nick_of(self, session: Seq<char>) -> Option<Seq<char>> {
        containers::map_get(self.session_nick, session)
    }

    /// The DID of a session.
    pub open spec fn did_of(self, session: Seq<char>) -> Option<Seq<char>> {
        containers::map_get(self.session_dids, session)
    }
}

impl ServerState {
    /// Whether the session is in the channel.
    pub fn is_member(&self, name: &str, session: &str) -> (b: bool)
        ensures
            b == self.deep_view().is_member(name@, session@),
    {
        match self.channels.get(name) {
            Some(ch) => ch.members.contains(session),
            None => false,
        }
    }

    /// Whether the session is an operator of the channel.
    pub fn is_op(&self, name: &str, session: &str) -> (b: bool)
        ensures
            b == self.deep_view().is_op(name@, session@),
    {
        match self.channels.get(name) {
            Some(ch) => ch.ops.contains(session),
            None => false,
        }
    }

    /// Whether the session is a moderator of the channel.
    pub fn is_halfop(&self, name: &str, session: &str) -> (b: bool)
        ensures
            b == self.deep_view().is_halfop(name@, session@),
    {
        match self.channels.get(name) {
            Some(ch) => ch.halfops.contains(session),
            None => false,
        }
    }

    /// The local members of the channel.
    pub fn members(&self, name: &str) -> (r: StrSet)
        ensures
            r@ == self.deep_view().members(name@),
    {
        match self.channels.get(name) {
            Some(ch) => ch.members.dup(),
            None => StrSet::new(),
        }
    }

    /// The session that holds a nick; case does not matter.
    pub fn session_of(&self, nick: &str) -> (r: Option<&String>)
        ensures
            r.deep_view() == self.deep_view().session_of(nick@),
    {
        self.nick_session.get(to_lowercase(nick).as_str())
    }

    /// The nick of a session.
    pub fn nick_of(&self, session: &str) -> (r: Option<&String>)
        ensures
            r.deep_view() == self.deep_view().nick_of(session@),
    {
        self.session_nick.get(session)
    }

    /// The DID of a session.
    pub fn did_of(&self, session: &str) -> (r: Option<&String>)
        ensures
            r.deep_view() == self.deep_view().did_of(session@),
    {
        self.session_dids.get(session)
    }
}

// ── Finding the target of a command ─────────────────────────────────

/// The first remote member with the given nick; case does not matter.
pub open spec fn remote_find(
    m: Seq<(Seq<char>, RemoteMemberView)>,
    nick: Seq<char>,
) -> Option<RemoteMemberView>
    decreases m.len(),
{
    if m.len() == 0 {
        None
    } else {
        match remote_find(m.drop_last(), nick) {
            Some(r) => Some(r),
            None => if text::lowercase(m.last().0) == text::lowercase(nick) {
                Some(m.last().1)
            } else {
                None
            },
        }
    }
}

/// What `remote_find` gives on a prefix stays.
proof fn lemma_remote_find_prefix(m: Seq<(Seq<char>, RemoteMemberView)>, nick: Seq<char>, n: int)
    requires
        0 <= n <= m.len(),
        remote_find(m.take(n), nick) is Some,
    ensures
        remote_find(m, nick) == remote_find(m.take(n), nick),
    decreases m.len() - n,
{
    if n < m.len() {
        assert(m.take(n + 1).drop_last() =~= m.take(n));
        lemma_remote_find_prefix(m, nick, n + 1);
    } else {
        assert(m.take(n) =~= m);
    }
}

/// The remote members without those of the given nick; case does not matter.
pub open spec fn remote_without(
    m: Seq<(Seq<char>, RemoteMemberView)>,
    nick: Seq<char>,
) -> Seq<(Seq<char>, RemoteMemberView)> {
    m.filter(|e: (Seq<char>, RemoteMemberView)| text::lowercase(e.0) != text::lowercase(nick))
}

impl ChannelState {
    /// The remote member with the given nick; case does not matter.
    pub fn remote_member(&self, nick: &str) -> (r: Option<&RemoteMember>)
        ensures
            r.deep_view() == remote_find(self.deep_view().remote_members, nick@),
    {
        let lower = to_lowercase(nick);
        let ghost all = self.remote_members@;
        let mut i: usize = 0;
        let n: usize = self.remote_members.len();
        while i < n
            invariant
                i <= n,
                n == all.len(),
                all == self.remote_members@,
                lower@ == text::lowercase(nick@),
                remote_find(all.take(i as int), nick@) is None,
            decreases n - i,
        {
            assert(all.take(i + 1).drop_last() =~= all.take(i as int));
            let key = to_lowercase(self.remote_members.key_at(i).as_str());
            if str_eq(key.as_str(), lower.as_str()) {
                proof {
                    lemma_remote_find_prefix(all, nick@, i + 1);
                }
                return Some(self.remote_members.value_at(i));
            }
            i = i + 1;
        }
        assert(all.take(i as int) =~= all);
        None
    }

    /// Drops the remote members of the given nick; case does not matter.
    pub fn remove_remote_member(&mut self, nick: &str)
        ensures
            final(self).deep_view() == (ChannelStateView {
                remote_members: remote_without(old(self).deep_view().remote_members, nick@),
                ..old(self).deep_view()
            }),
    {
        let lower = to_lowercase(nick);
        let ghost before = self.remote_members@;
        let mut i: usize = 0;
        let ghost mut seen: int = 0;
        assert(remote_without(before.take(0), nick@) =~= Seq::<
            (Seq<char>, RemoteMemberView),
        >::empty()) by {
            reveal(Seq::filter);
        }
        while i < self.remote_members.len()
            invariant
                0 <= seen <= before.len(),
                i <= self.remote_members@.len(),
                lower@ == text::lowercase(nick@),
                self.remote_members@.len() - i == before.len() - seen,
                self.remote_members@.skip(i as int) == before.skip(seen),
                self.remote_members@.take(i as int) == remote_without(before.take(seen), nick@),
                self.deep_view() == (ChannelStateView {
                    remote_members: self.remote_members@,
                    ..old(self).deep_view()
                }),
            decreases self.remote_members@.len() - i,
        {
            let ghost cur = self.remote_members@;
            assert(cur.skip(i as int)[0] == before.skip(seen)[0]);
            assert(before.take(seen + 1).drop_last() =~= before.take(seen));
            reveal(Seq::filter);
            let key = to_lowercase(self.remote_members.key_at(i).as_str());
            if str_eq(key.as_str(), lower.as_str()) {
                self.remote_members.remove_at(i);
                assert(self.remote_members@.skip(i as int) =~= cur.skip(i as int).skip(1));
                assert(self.remote_members@.take(i as int) =~= cur.take(i as int));
            } else {
                assert(cur.take(i + 1) =~= cur.take(i as int).push(before[seen]));
                assert(cur.skip(i + 1) =~= cur.skip(i as int).skip(1));
                i = i + 1;
            }
            assert(before.skip(seen + 1) =~= before.skip(seen).skip(1));
            proof {
                seen = seen + 1;
            }
        }
        assert(before.take(seen) =~= before);
        assert(self.remote_members@.take(i as int) =~= self.remote_members@);
    }
}

/// Where in a channel a nick is to be found.
pub enum ChannelTargetView {
    Local { session_id: Seq<char> },
    Remote(RemoteMemberView),
    NotPresent,
}

/// Where in a channel a nick was found.
pub enum ChannelTarget {
    /// A local session that is in the channel.
    Local { session_id: String },
    /// A member on another server.
    Remote(RemoteMember),
    /// Nowhere.
    NotPresent,
}

impl DeepView for ChannelTarget {
    type V = ChannelTargetView;

    open spec fn deep_view(&self) -> ChannelTargetView {
        match self {
            ChannelTarget::Local { session_id } => ChannelTargetView::Local {
                session_id: session_id@,
            },
            ChannelTarget::Remote(r) => ChannelTargetView::Remote(r.deep_view()),
            ChannelTarget::NotPresent => ChannelTargetView::NotPresent,
        }
    }
}

/// The first remote member with the given nick over all channels, in their order.
pub open spec fn network_remote_find(
    chs: Seq<(Seq<char>, ChannelStateView)>,
    nick: Seq<char>,
) -> Option<RemoteMemberView>
    decreases chs.len(),
{
    if chs.len() == 0 {
        None
    } else {
        match network_remote_find(chs.drop_last(), nick) {
            Some(r) => Some(r),
            None => remote_find(chs.last().1.remote_members, nick),
        }
    }
}

/// What `network_remote_find` gives on a prefix stays.
proof fn lemma_network_find_prefix(
    chs: Seq<(Seq<char>, ChannelStateView)>,
    nick: Seq<char>,
    n: int,
)
    requires
        0 <= n <= chs.len(),
        network_remote_find(chs.take(n), nick) is Some,
    ensures
        network_remote_find(chs, nick) == network_remote_find(chs.take(n), nick),
    decreases chs.len() - n,
{
    if n < chs.len() {
        assert(chs.take(n + 1).drop_last() =~= chs.take(n));
        lemma_network_find_prefix(chs, nick, n + 1);
    } else {
        assert(chs.take(n) =~= chs);
    }
}

impl ServerStateView {
    /// Where in the channel the nick is: a local session that is a member, else a remote member.
    pub open spec fn channel_target(self, name: Seq<char>, nick: Seq<char>) -> ChannelTargetView {
        match self.channel(name) {
            None => ChannelTargetView::NotPresent,
            Some(ch) => match self.session_of(nick) {
                Some(s) if ch.members.contains(s) => ChannelTargetView::Local { session_id: s },
                _ => match remote_find(ch.remote_members, nick) {
                    Some(r) => ChannelTargetView::Remote(r),
                    None => ChannelTargetView::NotPresent,
                },
            },
        }
    }

    /// Where on the network the nick is: a local session, else a remote member of any channel.
    pub open spec fn network_target(self, nick: Seq<char>) -> ChannelTargetView {
        match self.session_of(nick) {
            Some(s) => ChannelTargetView::Local { session_id: s },
            None => match network_remote_find(self.channels, nick) {
                Some(r) => ChannelTargetView::Remote(r),
                None => ChannelTargetView::NotPresent,
            },
        }
    }
}

impl ServerState {
    /// Resolves a nick via the roster of a channel, local and remote.
    pub fn resolve_channel_target(&self, name: &str, nick: &str) -> (r: ChannelTarget)
        ensures
            r.deep_view() == self.deep_view().channel_target(name@, nick@),
    {
        match self.channels.get(name) {
            None => ChannelTarget::NotPresent,
            Some(ch) => {
                if let Some(s) = self.session_of(nick) {
                    if ch.members.contains(s.as_str()) {
                        return ChannelTarget::Local { session_id: s.clone() };
                    }
                }
                match ch.remote_member(nick) {
                    Some(r) => ChannelTarget::Remote(r.dup()),
                    None => ChannelTarget::NotPresent,
                }
            },
        }
    }

    /// Resolves a nick anywhere on the network.
    pub fn resolve_network_target(&self, nick: &str) -> (r: ChannelTarget)
        ensures
            r.deep_view() == self.deep_view().network_target(nick@),
    {
        if let Some(s) = self.session_of(nick) {
            return ChannelTarget::Local { session_id: s.clone() };
        }
        let ghost all = self.channels@;
        let mut i: usize = 0;
        let n: usize = self.channels.len();
        while i < n
            invariant
                i <= n,
                n == all.len(),
                all == self.channels@,
                self.deep_view().session_of(nick@) is None,
                network_remote_find(all.take(i as int), nick@) is None,
            decreases n - i,
        {
            assert(all.take(i + 1).drop_last() =~= all.take(i as int));
            if let Some(r) = self.channels.value_at(i).remote_member(nick) {
                proof {
                    lemma_network_find_prefix(all, nick@, i + 1);
                }
                return ChannelTarget::Remote(r.dup());
            }
            i = i + 1;
        }
        assert(all.take(i as int) =~= all);
        ChannelTarget::NotPresent
    }
}

impl ChannelState {
    /// A channel that nobody has entered yet.
    pub fn new() -> (r: ChannelState)
        ensures
            r.deep_view() == crate::connection::join::empty_channel(),
    {
        let r = ChannelState {
            members: StrSet::new(),
            remote_members: StrMap::new(),
            ops: StrSet::new(),
            halfops: StrSet::new(),
            voiced: StrSet::new(),
            founder_did: None,
            did_ops: StrSet::new(),
            created_at: 0,
            bans: Vec::new(),
            invite_only: false,
            invites: StrSet::new(),
            history: Vec::new(),
            topic: None,
            topic_locked: false,
            no_ext_msg: false,
            moderated: false,
            encrypted_only: false,
            key: None,
            pins: Vec::new(),
        };
        assert(r.bans.deep_view() =~= Seq::<BanEntryView>::empty());
        assert(r.history.deep_view() =~= Seq::<HistoryMessageView>::empty());
        assert(r.pins.deep_view() =~= Seq::<PinnedMessageView>::empty());
        r
    }
}

/// The name under which a channel is kept; case does not matter.
pub open spec fn channel_key(name: Seq<char>) -> Seq<char> {
    text::lowercase(name)
}

/// The name under which a channel is kept.
pub fn normalize_channel(name: &str) -> (r: String)
    ensures
        r@ == channel_key(name@),
{
    to_lowercase(name)
}

/// Names of ASCII characters that differ in case alone are names of one channel, and the name under
/// which it is kept is one of them.
pub proof fn law_case_does_not_matter(a: Seq<char>, b: Seq<char>)
    requires
        text::all_ascii(a),
        text::all_ascii(b),
        text::ascii_lower(a) == text::ascii_lower(b),
    ensures
        channel_key(a) == channel_key(b),
        channel_key(channel_key(a)) == channel_key(a),
{
    let k = text::ascii_lower(a);
    assert forall|i: int| 0 <= i < k.len() implies (#[trigger] k[i]) as u32 <= 127 by {
        assert(a[i] as u32 <= 127);
    }
    assert(text::ascii_lower(k) =~= k);
}

// ── Nicks ───────────────────────────────────────────────────────────

/// The entries whose value, in lower case, is not the given one.
pub open spec fn without_nick(
    m: Seq<(Seq<char>, Seq<char>)>,
    lower: Seq<char>,
) -> Seq<(Seq<char>, Seq<char>)> {
    m.filter(|e: (Seq<char>, Seq<char>)| text::lowercase(e.1) != lower)
}

/// The entries whose value is not the given one.
pub open spec fn without_value(
    m: Seq<(Seq<char>, Seq<char>)>,
    v: Seq<char>,
) -> Seq<(Seq<char>, Seq<char>)> {
    m.filter(|e: (Seq<char>, Seq<char>)| e.1 != v)
}

impl ServerStateView {
    /// The state in which a session has a nick and the nick leads to the session. Other sessions
    /// keep the same nick: one user may be here several times.
    #[verifier::opaque]
    pub open spec fn nick_set(self, nick: Seq<char>, session: Seq<char>) -> ServerStateView {
        ServerStateView {
            nick_session: containers::map_put(self.nick_session, text::lowercase(nick), session),
            session_nick: containers::map_put(self.session_nick, session, nick),
            ..self
        }
    }

    /// The state in which nobody has the nick.
    #[verifier::opaque]
    pub open spec fn nick_freed(self, nick: Seq<char>) -> ServerStateView {
        ServerStateView {
            nick_session: containers::map_del(self.nick_session, text::lowercase(nick)),
            session_nick: without_nick(self.session_nick, text::lowercase(nick)),
            ..self
        }
    }

    /// The state in which the session has no nick and no nick leads to it.
    #[verifier::opaque]
    pub open spec fn session_unnamed(self, session: Seq<char>) -> ServerStateView {
        ServerStateView {
            session_nick: containers::map_del(self.session_nick, session),
            nick_session: without_value(self.nick_session, session),
            ..self
        }
    }
}

/// Drops the entries whose value is, in lower case, the given one.
fn drop_nick(m: &mut StrMap<String>, lower: &str)
    ensures
        final(m)@ == without_nick(old(m)@, lower@),
{
    let ghost before = m@;
    let mut i: usize = 0;
    let ghost mut seen: int = 0;
    assert(without_nick(before.take(0), lower@) =~= Seq::<(Seq<char>, Seq<char>)>::empty()) by {
        reveal(Seq::filter);
    }
    while i < m.len()
        invariant
            0 <= seen <= before.len(),
            i <= m@.len(),
            m@.len() - i == before.len() - seen,
            m@.skip(i as int) == before.skip(seen),
            m@.take(i as int) == without_nick(before.take(seen), lower@),
        decreases m@.len() - i,
    {
        let ghost cur = m@;
        assert(cur.skip(i as int)[0] == before.skip(seen)[0]);
        assert(before.take(seen + 1).drop_last() =~= before.take(seen));
        reveal(Seq::filter);
        let v = to_lowercase(m.value_at(i).as_str());
        if str_eq(v.as_str(), lower) {
            m.remove_at(i);
            assert(m@.skip(i as int) =~= cur.skip(i as int).skip(1));
            assert(m@.take(i as int) =~= cur.take(i as int));
        } else {
            assert(cur.take(i + 1) =~= cur.take(i as int).push(before[seen]));
            assert(cur.skip(i + 1) =~= cur.skip(i as int).skip(1));
            i = i + 1;
        }
        assert(before.skip(seen + 1) =~= before.skip(seen).skip(1));
        proof {
            seen = seen + 1;
        }
    }
    assert(before.take(seen) =~= before);
    assert(m@.take(i as int) =~= m@);
}

/// Drops the entries with the given value.
fn drop_value(m: &mut StrMap<String>, value: &str)
    ensures
        final(m)@ == without_value(old(m)@, value@),
{
    let ghost before = m@;
    let mut i: usize = 0;
    let ghost mut seen: int = 0;
    assert(without_value(before.take(0), value@) =~= Seq::<(Seq<char>, Seq<char>)>::empty()) by {
        reveal(Seq::filter);
    }
    while i < m.len()
        invariant
            0 <= seen <= before.len(),
            i <= m@.len(),
            m@.len() - i == before.len() - seen,
            m@.skip(i as int) == before.skip(seen),
            m@.take(i as int) == without_value(before.take(seen), value@),
        decreases m@.len() - i,
    {
        let ghost cur = m@;
        assert(cur.skip(i as int)[0] == before.skip(seen)[0]);
        assert(before.take(seen + 1).drop_last() =~= before.take(seen));
        reveal(Seq::filter);
        if str_eq(m.value_at(i).as_str(), value) {
            m.remove_at(i);
            assert(m@.skip(i as int) =~= cur.skip(i as int).skip(1));
            assert(m@.take(i as int) =~= cur.take(i as int));
        } else {
            assert(cur.take(i + 1) =~= cur.take(i as int).push(before[seen]));
            assert(cur.skip(i + 1) =~= cur.skip(i as int).skip(1));
            i = i + 1;
        }
        assert(before.skip(seen + 1) =~= before.skip(seen).skip(1));
        proof {
            seen = seen + 1;
        }
    }
    assert(before.take(seen) =~= before);
    assert(m@.take(i as int) =~= m@);
}

impl ServerState {
    /// Gives a session a nick.
    pub fn set_nick(&mut self, nick: &str, session: &str)
        ensures
            final(self).deep_view() == old(self).deep_view().nick_set(nick@, session@),
    {
        reveal(ServerStateView::nick_set);
        self.nick_session.insert(to_lowercase(nick), session.to_owned());
        self.session_nick.insert(session.to_owned(), nick.to_owned());
    }

    /// Frees a nick.
    pub fn free_nick(&mut self, nick: &str)
        ensures
            final(self).deep_view() == old(self).deep_view().nick_freed(nick@),
    {
        reveal(ServerStateView::nick_freed);
        let lower = to_lowercase(nick);
        self.nick_session.remove(lower.as_str());
        drop_nick(&mut self.session_nick, lower.as_str());
    }

    /// Takes a session's nick away from it.
    pub fn unname_session(&mut self, session: &str)
        ensures
            final(self).deep_view() == old(self).deep_view().session_unnamed(session@),
    {
        reveal(ServerStateView::session_unnamed);
        self.session_nick.remove(session);
        drop_value(&mut self.nick_session, session);
    }
}

/// The state of a server that nobody has connected to yet.
pub open spec fn fresh_state(server_name: Seq<char>, signing_key: Seq<u8>, boot_time: u64) -> ServerStateView {
    ServerStateView {
        server_name,
        iroh_id: None,
        motd: None,
        oper_password: None,
        oper_dids: Seq::empty(),
        max_messages_per_channel: 0,
        signing_key,
        boot_time,
        channels: Seq::empty(),
        connections: Seq::empty(),
        nick_session: Seq::empty(),
        session_nick: Seq::empty(),
        session_dids: Seq::empty(),
        did_sessions: Seq::empty(),
        session_handles: Seq::empty(),
        session_iroh_ids: Seq::empty(),
        session_away: Seq::empty(),
        session_client_info: Seq::empty(),
        session_actor_class: Seq::empty(),
        session_msg_keys: Seq::empty(),
        did_msg_keys: Seq::empty(),
        msg_timestamps: Seq::empty(),
        nick_owners: Seq::empty(),
        did_nicks: Seq::empty(),
        server_opers: Seq::empty(),
        cap_message_tags: Seq::empty(),
        cap_multi_prefix: Seq::empty(),
        cap_echo_message: Seq::empty(),
        cap_server_time: Seq::empty(),
        cap_batch: Seq::empty(),
        cap_account_notify: Seq::empty(),
        cap_extended_join: Seq::empty(),
        cap_away_notify: Seq::empty(),
        agent_presence: Seq::empty(),
        agent_heartbeats: Seq::empty(),
        ghost_sessions: Seq::empty(),
        provenance_declarations: Seq::empty(),
    }
}

impl ServerState {
    /// The state of a server that nobody has connected to yet.
    pub fn new(server_name: &str, signing_key: [u8; 32], boot_time: u64) -> (r: ServerState)
        ensures
            r.deep_view() == fresh_state(server_name@, signing_key@, boot_time),
    {
        let r = ServerState {
            server_name: server_name.to_owned(),
            iroh_id: None,
            motd: None,
            oper_password: None,
            oper_dids: Vec::new(),
            max_messages_per_channel: 0,
            signing_key,
            boot_time,
            channels: StrMap::new(),
            connections: StrSet::new(),
            nick_session: StrMap::new(),
            session_nick: StrMap::new(),
            session_dids: StrMap::new(),
            did_sessions: StrMap::new(),
            session_handles: StrMap::new(),
            session_iroh_ids: StrMap::new(),
            session_away: StrMap::new(),
            session_client_info: StrMap::new(),
            session_actor_class: StrMap::new(),
            session_msg_keys: StrMap::new(),
            did_msg_keys: StrMap::new(),
            msg_timestamps: StrMap::new(),
            nick_owners: StrMap::new(),
            did_nicks: StrMap::new(),
            server_opers: StrSet::new(),
            cap_message_tags: StrSet::new(),
            cap_multi_prefix: StrSet::new(),
            cap_echo_message: StrSet::new(),
            cap_server_time: StrSet::new(),
            cap_batch: StrSet::new(),
            cap_account_notify: StrSet::new(),
            cap_extended_join: StrSet::new(),
            cap_away_notify: StrSet::new(),
            agent_presence: StrMap::new(),
            agent_heartbeats: StrMap::new(),
            ghost_sessions: StrMap::new(),
            provenance_declarations: StrMap::new(),
        };
        assert(r.oper_dids.deep_view() =~= Seq::empty());
        assert(r.signing_key.deep_view() =~= signing_key@);
        r
    }
}

} // verus!
