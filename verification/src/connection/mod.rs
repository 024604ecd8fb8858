//! Per-client connection state and command handling.
//!
//! - [`channel`] — JOIN, PART, MODE, TOPIC, KICK, INVITE, NAMES, LIST
use crate::containers::{Dup, StrSet};
use crate::text;
use crate::text::{split_once, strip_prefix, to_byte_prefix, Line};
use vstd::prelude::*;

pub mod agent;
pub mod cap;
pub mod channel;
pub mod channel_laws;
pub mod command_laws;
pub mod commands;
pub mod departure;
pub mod helpers;
pub mod history;
pub mod join;
pub mod join_laws;
pub mod laws;
pub mod messaging;
pub mod messaging_laws;
pub mod nick;
pub mod registration;
pub mod request_laws;
pub mod requests;
pub mod session_laws;
pub mod told;
pub mod user_laws;

verus! {

broadcast use vstd::string::group_string_axioms;

/// Actor class — distinguishes humans from agents in the protocol.
#[derive(Debug, Clone, Copy, PartialEq, Eq, Structural)]
pub enum ActorClass {
    Human,
    Agent,
    ExternalAgent,
}

impl DeepView for ActorClass {
    type V = ActorClass;

    open spec fn deep_view(&self) -> ActorClass {
        *self
    }
}

impl Dup for ActorClass {
    fn dup(&self) -> (r: ActorClass) {
        *self
    }
}

/// Operational state for agents.
#[derive(Debug, Clone, Copy, PartialEq, Eq, Structural)]
pub enum PresenceState {
    Online,
    Idle,
    Active,
    Executing,
    WaitingForInput,
    BlockedOnPermission,
    BlockedOnBudget,
    Degraded,
    Paused,
    Sandboxed,
    RateLimited,
    Revoked,
    Offline,
}

impl DeepView for PresenceState {
    type V = PresenceState;

    open spec fn deep_view(&self) -> PresenceState {
        *self
    }
}

impl Dup for PresenceState {
    fn dup(&self) -> (r: PresenceState) {
        *self
    }
}

/// The mathematical content of a [`AgentPresence`].
pub struct AgentPresenceView {
    pub state: PresenceState,
    pub status: Option<Seq<char>>,
    pub task: Option<Seq<char>>,
    pub updated_at: i64,
}

/// Structured agent presence state.
#[derive(Debug)]
pub struct AgentPresence {
    pub state: PresenceState,
    pub status: Option<String>,
    pub task: Option<String>,
    pub updated_at: i64,
}

impl DeepView for AgentPresence {
    type V = AgentPresenceView;

    open spec fn deep_view(&self) -> AgentPresenceView {
        AgentPresenceView {
            state: self.state.deep_view(),
            status: self.status.deep_view(),
            task: self.task.deep_view(),
            updated_at: self.updated_at.deep_view(),
        }
    }
}

impl Dup for AgentPresence {
    fn dup(&self) -> (r: AgentPresence) {
        AgentPresence {
            state: self.state.dup(),
            status: self.status.dup(),
            task: self.task.dup(),
            updated_at: self.updated_at.dup(),
        }
    }
}

/// The mathematical content of a [`Connection`].
pub struct ConnectionView {
    pub id: Seq<char>,
    pub nick: Option<Seq<char>>,
    pub user: Option<Seq<char>>,
    pub realname: Option<Seq<char>>,
    pub authenticated_did: Option<Seq<char>>,
    pub registered: bool,
    pub actor_class: ActorClass,
    pub iroh_endpoint_id: Option<Seq<char>>,
    pub cap_negotiating: bool,
    pub caps: Seq<Seq<char>>,
    pub is_oper: bool,
    pub client_info: Option<Seq<char>>,
    pub ghost_channels: Option<Seq<Seq<char>>>,
    pub sasl_in_progress: bool,
    pub sasl_failures: u8,
    pub dpop_retries: u8,
}

/// State of a single client connection.
#[derive(Debug)]
pub struct Connection {
    pub id: String,
    pub nick: Option<String>,
    pub user: Option<String>,
    pub realname: Option<String>,
    pub authenticated_did: Option<String>,
    pub registered: bool,
    /// Actor class: human (default), agent, or external_agent.
    pub actor_class: ActorClass,
    /// Iroh endpoint ID of the remote peer (if connected via iroh).
    pub iroh_endpoint_id: Option<String>,
    pub cap_negotiating: bool,
    /// Capabilities that the client has asked for and got, by name.
    pub caps: StrSet,
    /// Server operator (OPER) status.
    pub is_oper: bool,
    /// Client software identifier (derived from USER realname).
    pub client_info: Option<String>,
    /// Channels reclaimed from a ghost session, pending synthetic state after registration.
    pub ghost_channels: Option<Vec<String>>,
    pub sasl_in_progress: bool,
    pub sasl_failures: u8,
    /// How often the current SASL attempt was asked for a fresh DPoP nonce.
    pub dpop_retries: u8,
}

impl DeepView for Connection {
    type V = ConnectionView;

    open spec fn deep_view(&self) -> ConnectionView {
        ConnectionView {
            id: self.id.deep_view(),
            nick: self.nick.deep_view(),
            user: self.user.deep_view(),
            realname: self.realname.deep_view(),
            authenticated_did: self.authenticated_did.deep_view(),
            registered: self.registered.deep_view(),
            actor_class: self.actor_class.deep_view(),
            iroh_endpoint_id: self.iroh_endpoint_id.deep_view(),
            cap_negotiating: self.cap_negotiating.deep_view(),
            caps: self.caps.deep_view(),
            is_oper: self.is_oper.deep_view(),
            client_info: self.client_info.deep_view(),
            ghost_channels: self.ghost_channels.deep_view(),
            sasl_in_progress: self.sasl_in_progress.deep_view(),
            sasl_failures: self.sasl_failures.deep_view(),
            dpop_retries: self.dpop_retries.deep_view(),
        }
    }
}

/// The name of an actor class in the protocol.
pub open spec fn actor_class_name(a: ActorClass) -> Seq<char> {
    match a {
        ActorClass::Human => "human"@,
        ActorClass::Agent => "agent"@,
        ActorClass::ExternalAgent => "external_agent"@,
    }
}

impl ActorClass {
    /// The name of the class in the protocol.
    pub fn as_str(&self) -> (r: &'static str)
        ensures
            r@ == actor_class_name(*self),
    {
        match self {
            ActorClass::Human => "human",
            ActorClass::Agent => "agent",
            ActorClass::ExternalAgent => "external_agent",
        }
    }
}

/// The cloaked host of a user: the shortened DID of an authenticated one, `freeq/guest` else.
pub open spec fn cloak(did: Option<Seq<char>>) -> Seq<char> {
    match did {
        Some(d) => match text::split_once_spec(
            text::or_default(text::strip_prefix_spec(d, "did:"@), d),
            ':',
        ) {
            Some((method, id)) => "freeq/"@ + method + "/"@ + text::byte_prefix(id, 8),
            None => "freeq/did"@,
        },
        None => "freeq/guest"@,
    }
}

/// The cloaked host of a user with the given DID.
pub fn cloaked_host_for_did(did: Option<&str>) -> (r: String)
    ensures
        r@ == cloak(did.deep_view()),
{
    match did {
        Some(d) => {
            let short = match strip_prefix(d, "did:") {
                Some(rest) => rest,
                None => d.to_owned(),
            };
            match split_once(short.as_str(), ':') {
                Some((method, id)) => Line::new("freeq/").add(method.as_str()).add("/").add(
                    to_byte_prefix(id.as_str(), 8).as_str(),
                ).done(),
                None => "freeq/did".to_owned(),
            }
        },
        None => "freeq/guest".to_owned(),
    }
}

impl ConnectionView {
    /// The nick, or `*` before there is one.
    pub open spec fn nick_or_star(self) -> Seq<char> {
        text::or_default(self.nick, "*"@)
    }

    /// `nick!user@host` with the cloaked host.
    pub open spec fn hostmask(self) -> Seq<char> {
        text::or_default(self.nick, "*"@) + "!"@ + text::or_default(self.user, "~u"@) + "@"@
            + cloak(self.authenticated_did)
    }
}

/// The string behind an optional one.
pub fn opt_str<'a>(o: &'a Option<String>) -> (r: Option<&'a str>)
    ensures
        r.deep_view() == o.deep_view(),
{
    match o {
        Some(s) => Some(s.as_str()),
        None => None,
    }
}

/// The string behind an optional one, or a default.
pub fn opt_str_or<'a>(o: &'a Option<String>, d: &'a str) -> (r: &'a str)
    ensures
        r@ == text::or_default(o.deep_view(), d@),
{
    match o {
        Some(s) => s.as_str(),
        None => d,
    }
}

impl Connection {
    /// A connection that has sent nothing yet.
    pub fn new(id: String) -> (c: Connection)
        ensures
            c.deep_view() == (ConnectionView {
                id: id@,
                nick: None,
                user: None,
                realname: None,
                authenticated_did: None,
                registered: false,
                actor_class: ActorClass::Human,
                iroh_endpoint_id: None,
                cap_negotiating: false,
                caps: Seq::empty(),
                is_oper: false,
                client_info: None,
                ghost_channels: None,
                sasl_in_progress: false,
                sasl_failures: 0,
                dpop_retries: 0,
            }),
    {
        Connection {
            id,
            nick: None,
            user: None,
            realname: None,
            authenticated_did: None,
            registered: false,
            actor_class: ActorClass::Human,
            iroh_endpoint_id: None,
            cap_negotiating: false,
            caps: StrSet::new(),
            is_oper: false,
            client_info: None,
            ghost_channels: None,
            sasl_in_progress: false,
            sasl_failures: 0,
            dpop_retries: 0,
        }
    }

    /// The nick, or `*` before there is one.
    pub fn nick_or_star(&self) -> (r: &str)
        ensures
            r@ == self.deep_view().nick_or_star(),
    {
        opt_str_or(&self.nick, "*")
    }

    /// `nick!user@host` with the cloaked host.
    pub fn hostmask(&self) -> (r: String)
        ensures
            r@ == self.deep_view().hostmask(),
    {
        Line::new(opt_str_or(&self.nick, "*")).add("!").add(opt_str_or(&self.user, "~u")).add(
            "@",
        ).add(self.cloaked_host().as_str()).done()
    }

    /// Generate a cloaked hostname.
    /// Authenticated users: shortened DID, e.g. `freeq/plc/4qsyxmns`.
    /// Guests: `freeq/guest`.
    pub fn cloaked_host(&self) -> (r: String)
        ensures
            r@ == cloak(self.deep_view().authenticated_did),
    {
        cloaked_host_for_did(opt_str(&self.authenticated_did))
    }
}

} // verus!
