//! What a client may send, and how fast.
//!
//! A line is read as a [`Request`], which says which handler is to be called with which arguments.
use super::helpers;
use super::helpers::{p1, p2, push_reply};
use super::messaging;
use super::messaging::is_channel;
use super::{Connection, ConnectionView};
use crate::irc::{Message, MessageView};
use crate::server;
use crate::server::{normalize_channel, Effect, EffectView, ServerState, ServerStateView};
use crate::text;
use crate::text::{split, str_eq};
use vstd::prelude::*;

verus! {

broadcast use vstd::string::group_string_axioms;

// ── Requests ────────────────────────────────────────────────────────

/// The mathematical content of a [`Request`].
pub enum RequestView {
    Ignored,
    NotRegistered,
    NeedMore { command: Seq<char> },
    Unknown { command: Seq<char> },
    Cap,
    Authenticate { text: Seq<char> },
    Nick { nick: Seq<char> },
    User { nick: Seq<char>, text: Seq<char> },
    Ping { text: Seq<char> },
    Pong,
    Quit,
    Join { targets: Seq<(Seq<char>, Option<Seq<char>>)> },
    Part { channels: Seq<Seq<char>> },
    UserMode,
    Mode { channel: Seq<char>, mode: Option<Seq<char>>, arg: Option<Seq<char>> },
    Invite { nick: Seq<char>, channel: Seq<char> },
    Kick { channel: Seq<char>, nick: Seq<char>, text: Seq<char> },
    Topic { channel: Seq<char>, arg: Option<Seq<char>> },
    Pin { channel: Seq<char>, msgid: Seq<char>, pin: bool },
    Pins { channel: Seq<char> },
    Names { channel: Seq<char> },
    Whois { nick: Seq<char> },
    MsgSig { arg: Option<Seq<char>> },
    Message { command: Seq<char>, target: Seq<char>, text: Seq<char> },
    TagMsg { target: Seq<char> },
    List,
    Who { target: Seq<char> },
    Away { arg: Option<Seq<char>> },
    Motd,
    ChatHistory,
    Version,
    Time,
    Lusers,
    UserHost,
    IsOn,
    Admin,
    Info,
    Login { text: Seq<char> },
    Policy,
    Oper { text: Seq<char> },
    Agent { text: Seq<char>, arg: Option<Seq<char>> },
    Provenance { text: Seq<char> },
    Presence { text: Seq<char> },
    Heartbeat { text: Seq<char> },
    RevokePeer { arg: Option<Seq<char>> },
}

/// What a client asks for.
#[derive(Debug)]
pub enum Request {
    /// Nothing that is answered.
    Ignored,
    /// Something that only a registered user may ask for, which is answered.
    NotRegistered,
    /// A command without the parameters that it needs.
    NeedMore { command: String },
    /// A command that there is not.
    Unknown { command: String },
    Cap,
    Authenticate { text: String },
    Nick { nick: String },
    User { nick: String, text: String },
    Ping { text: String },
    Pong,
    Quit,
    /// Channels, each with its key.
    Join { targets: Vec<(String, Option<String>)> },
    Part { channels: Vec<String> },
    UserMode,
    Mode { channel: String, mode: Option<String>, arg: Option<String> },
    Invite { nick: String, channel: String },
    Kick { channel: String, nick: String, text: String },
    Topic { channel: String, arg: Option<String> },
    /// PIN, or UNPIN where `pin` is false.
    Pin { channel: String, msgid: String, pin: bool },
    Pins { channel: String },
    Names { channel: String },
    Whois { nick: String },
    MsgSig { arg: Option<String> },
    /// PRIVMSG or NOTICE.
    Message { command: String, target: String, text: String },
    TagMsg { target: String },
    List,
    Who { target: String },
    Away { arg: Option<String> },
    Motd,
    ChatHistory,
    Version,
    Time,
    Lusers,
    UserHost,
    IsOn,
    Admin,
    Info,
    Login { text: String },
    Policy,
    Oper { text: String },
    Agent { text: String, arg: Option<String> },
    Provenance { text: String },
    Presence { text: String },
    Heartbeat { text: String },
    RevokePeer { arg: Option<String> },
}

impl DeepView for Request {
    type V = RequestView;

    open spec fn deep_view(&self) -> RequestView {
        match self {
            Request::Ignored => RequestView::Ignored,
            Request::NotRegistered => RequestView::NotRegistered,
            Request::NeedMore { command } => RequestView::NeedMore {
                command: command.deep_view(),
            },
            Request::Unknown { command } => RequestView::Unknown {
                command: command.deep_view(),
            },
            Request::Cap => RequestView::Cap,
            Request::Authenticate { text } => RequestView::Authenticate {
                text: text.deep_view(),
            },
            Request::Nick { nick } => RequestView::Nick {
                nick: nick.deep_view(),
            },
            Request::User { nick, text } => RequestView::User {
                nick: nick.deep_view(),
                text: text.deep_view(),
            },
            Request::Ping { text } => RequestView::Ping {
                text: text.deep_view(),
            },
            Request::Pong => RequestView::Pong,
            Request::Quit => RequestView::Quit,
            Request::Join { targets } => RequestView::Join {
                targets: targets.deep_view(),
            },
            Request::Part { channels } => RequestView::Part {
                channels: channels.deep_view(),
            },
            Request::UserMode => RequestView::UserMode,
            Request::Mode { channel, mode, arg } => RequestView::Mode {
                channel: channel.deep_view(),
                mode: mode.deep_view(),
                arg: arg.deep_view(),
            },
            Request::Invite { nick, channel } => RequestView::Invite {
                nick: nick.deep_view(),
                channel: channel.deep_view(),
            },
            Request::Kick { channel, nick, text } => RequestView::Kick {
                channel: channel.deep_view(),
                nick: nick.deep_view(),
                text: text.deep_view(),
            },
            Request::Topic { channel, arg } => RequestView::Topic {
                channel: channel.deep_view(),
                arg: arg.deep_view(),
            },
            Request::Pin { channel, msgid, pin } => RequestView::Pin {
                channel: channel.deep_view(),
                msgid: msgid.deep_view(),
                pin: pin.deep_view(),
            },
            Request::Pins { channel } => RequestView::Pins {
                channel: channel.deep_view(),
            },
            Request::Names { channel } => RequestView::Names {
                channel: channel.deep_view(),
            },
            Request::Whois { nick } => RequestView::Whois {
                nick: nick.deep_view(),
            },
            Request::MsgSig { arg } => RequestView::MsgSig {
                arg: arg.deep_view(),
            },
            Request::Message { command, target, text } => RequestView::Message {
                command: command.deep_view(),
                target: target.deep_view(),
                text: text.deep_view(),
            },
            Request::TagMsg { target } => RequestView::TagMsg {
                target: target.deep_view(),
            },
            Request::List => RequestView::List,
            Request::Who { target } => RequestView::Who {
                target: target.deep_view(),
            },
            Request::Away { arg } => RequestView::Away {
                arg: arg.deep_view(),
            },
            Request::Motd => RequestView::Motd,
            Request::ChatHistory => RequestView::ChatHistory,
            Request::Version => RequestView::Version,
            Request::Time => RequestView::Time,
            Request::Lusers => RequestView::Lusers,
            Request::UserHost => RequestView::UserHost,
            Request::IsOn => RequestView::IsOn,
            Request::Admin => RequestView::Admin,
            Request::Info => RequestView::Info,
            Request::Login { text } => RequestView::Login {
                text: text.deep_view(),
            },
            Request::Policy => RequestView::Policy,
            Request::Oper { text } => RequestView::Oper {
                text: text.deep_view(),
            },
            Request::Agent { text, arg } => RequestView::Agent {
                text: text.deep_view(),
                arg: arg.deep_view(),
            },
            Request::Provenance { text } => RequestView::Provenance {
                text: text.deep_view(),
            },
            Request::Presence { text } => RequestView::Presence {
                text: text.deep_view(),
            },
            Request::Heartbeat { text } => RequestView::Heartbeat {
                text: text.deep_view(),
            },
            Request::RevokePeer { arg } => RequestView::RevokePeer {
                arg: arg.deep_view(),
            },
        }
    }
}

/// A parameter, if there is one at that place.
pub open spec fn param(params: Seq<Seq<char>>, i: int) -> Option<Seq<char>> {
    if 0 <= i < params.len() {
        Some(params[i])
    } else {
        None
    }
}

/// A parameter, if there is one at that place.
fn nth(params: &Vec<String>, i: usize) -> (r: Option<String>)
    ensures
        r.deep_view() == param(params.deep_view(), i as int),
{
    if i < params.len() {
        Some(params[i].clone())
    } else {
        None
    }
}

/// A parameter, or a default.
fn nth_or(params: &Vec<String>, i: usize, d: &str) -> (r: String)
    ensures
        r@ == text::or_default(param(params.deep_view(), i as int), d@),
{
    if i < params.len() {
        params[i].clone()
    } else {
        d.to_owned()
    }
}

/// The keys of a JOIN command.
pub open spec fn join_keys(keys: Option<Seq<char>>) -> Seq<Seq<char>> {
    match keys {
        Some(k) => text::split_spec(k, ','),
        None => Seq::empty(),
    }
}

/// The channels of a JOIN command, each with the key at the same place.
pub open spec fn join_targets(names: Seq<Seq<char>>, keys: Seq<Seq<char>>) -> Seq<
    (Seq<char>, Option<Seq<char>>),
> {
    Seq::new(names.len(), |i: int| (server::channel_key(names[i]), param(keys, i)))
}

/// The channels of a JOIN command, each with its key.
fn read_targets(names: &str, keys: Option<String>) -> (r: Vec<(String, Option<String>)>)
    ensures
        r.deep_view() == join_targets(
            text::split_spec(names@, ','),
            join_keys(keys.deep_view()),
        ),
{
    let list = split(names, ',');
    let key_list = match keys {
        Some(k) => split(k.as_str(), ','),
        None => Vec::new(),
    };
    let ghost want = join_targets(list.deep_view(), key_list.deep_view());
    assert(key_list.deep_view() =~= join_keys(keys.deep_view()));
    let mut out: Vec<(String, Option<String>)> = Vec::new();
    let mut i: usize = 0;
    assert(out.deep_view() =~= want.take(0));
    while i < list.len()
        invariant
            i <= list.len(),
            want == join_targets(list.deep_view(), key_list.deep_view()),
            want.len() == list.len(),
            out.deep_view() == want.take(i as int),
        decreases list.len() - i,
    {
        let ghost before = out.deep_view();
        let e = (normalize_channel(list[i].as_str()), nth(&key_list, i));
        out.push(e);
        assert(out.deep_view() =~= before.push((e.0@, e.1.deep_view())));
        assert(list.deep_view()[i as int] == list@[i as int]@);
        assert(want[i as int] == (e.0@, e.1.deep_view()));
        i = i + 1;
        assert(out.deep_view() =~= want.take(i as int));
    }
    assert(want.take(i as int) =~= want);
    out
}

/// The channels of a list with commas.
fn read_channels(names: &str) -> (r: Vec<String>)
    ensures
        r.deep_view() == text::split_spec(names@, ',').map_values(
            |ch: Seq<char>| server::channel_key(ch),
        ),
{
    let list = split(names, ',');
    let ghost want = list.deep_view().map_values(|ch: Seq<char>| server::channel_key(ch));
    let mut out: Vec<String> = Vec::new();
    let mut i: usize = 0;
    assert(out.deep_view() =~= want.take(0));
    while i < list.len()
        invariant
            i <= list.len(),
            want == list.deep_view().map_values(|ch: Seq<char>| server::channel_key(ch)),
            want.len() == list.len(),
            out.deep_view() == want.take(i as int),
        decreases list.len() - i,
    {
        let ghost before = out.deep_view();
        let e = normalize_channel(list[i].as_str());
        out.push(e);
        assert(out.deep_view() =~= before.push(e@));
        assert(list.deep_view()[i as int] == list@[i as int]@);
        i = i + 1;
        assert(out.deep_view() =~= want.take(i as int));
    }
    assert(want.take(i as int) =~= want);
    out
}

/// The requests that anyone may make.
pub open spec fn early_request(m: MessageView) -> Option<RequestView> {
    if m.command == "CAP"@ {
        Some(RequestView::Cap)
    } else if m.command == "AUTHENTICATE"@ {
        Some(RequestView::Authenticate { text: text::or_default(param(m.params, 0), ""@) })
    } else if m.command == "NICK"@ {
        Some(match param(m.params, 0) {
            Some(p) => RequestView::Nick { nick: p },
            None => RequestView::Ignored,
        })
    } else if m.command == "USER"@ {
        Some(if m.params.len() >= 4 {
            RequestView::User { nick: m.params[0], text: m.params[3] }
        } else {
            RequestView::Ignored
        })
    } else if m.command == "PING"@ {
        Some(RequestView::Ping { text: text::or_default(param(m.params, 0), ""@) })
    } else if m.command == "PONG"@ {
        Some(RequestView::Pong)
    } else if m.command == "QUIT"@ {
        Some(RequestView::Quit)
    } else {
        None
    }
}

/// The requests about channels.
pub open spec fn channel_request(c: ConnectionView, m: MessageView) -> Option<RequestView> {
    if m.command == "JOIN"@ {
        Some(match param(m.params, 0) {
            Some(p) => RequestView::Join {
                targets: join_targets(text::split_spec(p, ','), join_keys(param(m.params, 1))),
            },
            None => RequestView::Ignored,
        })
    } else if m.command == "PART"@ {
        Some(match param(m.params, 0) {
            Some(p) => RequestView::Part {
                channels: text::split_spec(p, ',').map_values(
                    |ch: Seq<char>| server::channel_key(ch),
                ),
            },
            None => RequestView::Ignored,
        })
    } else if m.command == "MODE"@ {
        Some(match param(m.params, 0) {
            Some(p) => if messaging::is_channel_name(p) {
                RequestView::Mode {
                    channel: server::channel_key(p),
                    mode: param(m.params, 1),
                    arg: param(m.params, 2),
                }
            } else {
                RequestView::UserMode
            },
            None => RequestView::Ignored,
        })
    } else if m.command == "INVITE"@ {
        Some(if m.params.len() >= 2 {
            RequestView::Invite { nick: m.params[0], channel: server::channel_key(m.params[1]) }
        } else {
            RequestView::Ignored
        })
    } else if m.command == "KICK"@ {
        Some(if m.params.len() >= 2 {
            RequestView::Kick {
                channel: server::channel_key(m.params[0]),
                nick: m.params[1],
                text: text::or_default(param(m.params, 2), c.nick_or_star()),
            }
        } else {
            RequestView::Ignored
        })
    } else if m.command == "TOPIC"@ {
        Some(match param(m.params, 0) {
            Some(p) => RequestView::Topic { channel: server::channel_key(p), arg: param(m.params, 1) },
            None => RequestView::Ignored,
        })
    } else if m.command == "PIN"@ || m.command == "UNPIN"@ {
        Some(if m.params.len() >= 2 {
            RequestView::Pin {
                channel: server::channel_key(m.params[0]),
                msgid: m.params[1],
                pin: m.command == "PIN"@,
            }
        } else {
            RequestView::NeedMore { command: m.command }
        })
    } else if m.command == "PINS"@ {
        Some(match param(m.params, 0) {
            Some(p) => RequestView::Pins { channel: server::channel_key(p) },
            None => RequestView::Ignored,
        })
    } else if m.command == "NAMES"@ {
        Some(match param(m.params, 0) {
            Some(p) => RequestView::Names { channel: server::channel_key(p) },
            None => RequestView::Ignored,
        })
    } else {
        None
    }
}

/// The requests that send and ask.
pub open spec fn talk_request(m: MessageView) -> Option<RequestView> {
    if m.command == "WHOIS"@ {
        Some(match param(m.params, 0) {
            Some(p) => RequestView::Whois { nick: p },
            None => RequestView::Ignored,
        })
    } else if m.command == "MSGSIG"@ {
        Some(RequestView::MsgSig { arg: param(m.params, 0) })
    } else if m.command == "PRIVMSG"@ || m.command == "NOTICE"@ {
        Some(if m.params.len() >= 2 {
            RequestView::Message {
                command: m.command,
                target: if messaging::is_channel_name(m.params[0]) {
                    server::channel_key(m.params[0])
                } else {
                    m.params[0]
                },
                text: m.params[1],
            }
        } else {
            RequestView::Ignored
        })
    } else if m.command == "TAGMSG"@ {
        Some(match param(m.params, 0) {
            Some(p) => RequestView::TagMsg { target: p },
            None => RequestView::Ignored,
        })
    } else if m.command == "LIST"@ {
        Some(RequestView::List)
    } else if m.command == "WHO"@ {
        Some(RequestView::Who { target: text::or_default(param(m.params, 0), "*"@) })
    } else if m.command == "AWAY"@ {
        Some(RequestView::Away { arg: param(m.params, 0) })
    } else if m.command == "MOTD"@ {
        Some(RequestView::Motd)
    } else if m.command == "CHATHISTORY"@ {
        Some(RequestView::ChatHistory)
    } else if m.command == "VERSION"@ {
        Some(RequestView::Version)
    } else if m.command == "TIME"@ {
        Some(RequestView::Time)
    } else if m.command == "LUSERS"@ {
        Some(RequestView::Lusers)
    } else if m.command == "USERHOST"@ {
        Some(RequestView::UserHost)
    } else if m.command == "ISON"@ {
        Some(RequestView::IsOn)
    } else if m.command == "ADMIN"@ {
        Some(RequestView::Admin)
    } else if m.command == "INFO"@ {
        Some(RequestView::Info)
    } else {
        None
    }
}

/// The requests of operators and agents, and what is no request.
pub open spec fn special_request(m: MessageView) -> RequestView {
    if m.command == "LOGIN"@ {
        RequestView::Login { text: text::or_default(param(m.params, 0), ""@) }
    } else if m.command == "POLICY"@ {
        RequestView::Policy
    } else if m.command == "OPER"@ {
        if m.params.len() >= 2 {
            RequestView::Oper { text: m.params[1] }
        } else {
            RequestView::NeedMore { command: m.command }
        }
    } else if m.command == "AGENT"@ {
        match param(m.params, 0) {
            Some(p) => RequestView::Agent { text: p, arg: param(m.params, 1) },
            None => RequestView::NeedMore { command: m.command },
        }
    } else if m.command == "PROVENANCE"@ {
        match param(m.params, 0) {
            Some(p) => RequestView::Provenance { text: p },
            None => RequestView::NeedMore { command: m.command },
        }
    } else if m.command == "PRESENCE"@ {
        match param(m.params, 0) {
            Some(p) => RequestView::Presence { text: p },
            None => RequestView::NeedMore { command: m.command },
        }
    } else if m.command == "HEARTBEAT"@ {
        RequestView::Heartbeat { text: text::or_default(param(m.params, 0), ""@) }
    } else if m.command == "REVOKEPEER"@ {
        RequestView::RevokePeer { arg: param(m.params, 0) }
    } else {
        RequestView::Unknown { command: m.command }
    }
}

/// What a message asks for. Most of it only a registered user may ask for; who has not registered
/// is told so only of JOIN.
pub open spec fn request_spec(c: ConnectionView, m: MessageView) -> RequestView {
    match early_request(m) {
        Some(r) => r,
        None => if !c.registered {
            if m.command == "JOIN"@ {
                RequestView::NotRegistered
            } else {
                RequestView::Ignored
            }
        } else {
            match channel_request(c, m) {
                Some(r) => r,
                None => match talk_request(m) {
                    Some(r) => r,
                    None => special_request(m),
                },
            }
        },
    }
}

/// The requests that anyone may make.
fn read_early(m: &Message) -> (r: Option<Request>)
    ensures
        r.deep_view() == early_request(m.deep_view()),
{
    let command = m.command.as_str();
    let params = &m.params;
    if str_eq(command, "CAP") {
        Some(Request::Cap)
    } else if str_eq(command, "AUTHENTICATE") {
        Some(Request::Authenticate { text: nth_or(params, 0, "") })
    } else if str_eq(command, "NICK") {
        Some(match nth(params, 0) {
            Some(p) => Request::Nick { nick: p },
            None => Request::Ignored,
        })
    } else if str_eq(command, "USER") {
        Some(if params.len() >= 4 {
            Request::User { nick: params[0].clone(), text: params[3].clone() }
        } else {
            Request::Ignored
        })
    } else if str_eq(command, "PING") {
        Some(Request::Ping { text: nth_or(params, 0, "") })
    } else if str_eq(command, "PONG") {
        Some(Request::Pong)
    } else if str_eq(command, "QUIT") {
        Some(Request::Quit)
    } else {
        None
    }
}

/// The requests about channels.
fn read_channel_request(conn: &Connection, m: &Message) -> (r: Option<Request>)
    ensures
        r.deep_view() == channel_request(conn.deep_view(), m.deep_view()),
{
    let command = m.command.as_str();
    let params = &m.params;
    if str_eq(command, "JOIN") {
        Some(match nth(params, 0) {
            Some(p) => Request::Join { targets: read_targets(p.as_str(), nth(params, 1)) },
            None => Request::Ignored,
        })
    } else if str_eq(command, "PART") {
        Some(match nth(params, 0) {
            Some(p) => Request::Part { channels: read_channels(p.as_str()) },
            None => Request::Ignored,
        })
    } else if str_eq(command, "MODE") {
        Some(match nth(params, 0) {
            Some(p) => if is_channel(p.as_str()) {
                Request::Mode {
                    channel: normalize_channel(p.as_str()),
                    mode: nth(params, 1),
                    arg: nth(params, 2),
                }
            } else {
                Request::UserMode
            },
            None => Request::Ignored,
        })
    } else if str_eq(command, "INVITE") {
        Some(if params.len() >= 2 {
            Request::Invite {
                nick: params[0].clone(),
                channel: normalize_channel(params[1].as_str()),
            }
        } else {
            Request::Ignored
        })
    } else if str_eq(command, "KICK") {
        Some(if params.len() >= 2 {
            Request::Kick {
                channel: normalize_channel(params[0].as_str()),
                nick: params[1].clone(),
                text: nth_or(params, 2, conn.nick_or_star()),
            }
        } else {
            Request::Ignored
        })
    } else if str_eq(command, "TOPIC") {
        Some(match nth(params, 0) {
            Some(p) => Request::Topic {
                channel: normalize_channel(p.as_str()),
                arg: nth(params, 1),
            },
            None => Request::Ignored,
        })
    } else if str_eq(command, "PIN") || str_eq(command, "UNPIN") {
        Some(if params.len() >= 2 {
            Request::Pin {
                channel: normalize_channel(params[0].as_str()),
                msgid: params[1].clone(),
                pin: str_eq(command, "PIN"),
            }
        } else {
            Request::NeedMore { command: command.to_owned() }
        })
    } else if str_eq(command, "PINS") {
        Some(match nth(params, 0) {
            Some(p) => Request::Pins { channel: normalize_channel(p.as_str()) },
            None => Request::Ignored,
        })
    } else if str_eq(command, "NAMES") {
        Some(match nth(params, 0) {
            Some(p) => Request::Names { channel: normalize_channel(p.as_str()) },
            None => Request::Ignored,
        })
    } else {
        None
    }
}

/// The requests that send and ask.
fn read_talk(m: &Message) -> (r: Option<Request>)
    ensures
        r.deep_view() == talk_request(m.deep_view()),
{
    let command = m.command.as_str();
    let params = &m.params;
    if str_eq(command, "WHOIS") {
        Some(match nth(params, 0) {
            Some(p) => Request::Whois { nick: p },
            None => Request::Ignored,
        })
    } else if str_eq(command, "MSGSIG") {
        Some(Request::MsgSig { arg: nth(params, 0) })
    } else if str_eq(command, "PRIVMSG") || str_eq(command, "NOTICE") {
        Some(if params.len() >= 2 {
            Request::Message {
                command: command.to_owned(),
                target: if is_channel(params[0].as_str()) {
                    normalize_channel(params[0].as_str())
                } else {
                    params[0].clone()
                },
                text: params[1].clone(),
            }
        } else {
            Request::Ignored
        })
    } else if str_eq(command, "TAGMSG") {
        Some(match nth(params, 0) {
            Some(p) => Request::TagMsg { target: p },
            None => Request::Ignored,
        })
    } else if str_eq(command, "LIST") {
        Some(Request::List)
    } else if str_eq(command, "WHO") {
        Some(Request::Who { target: nth_or(params, 0, "*") })
    } else if str_eq(command, "AWAY") {
        Some(Request::Away { arg: nth(params, 0) })
    } else if str_eq(command, "MOTD") {
        Some(Request::Motd)
    } else if str_eq(command, "CHATHISTORY") {
        Some(Request::ChatHistory)
    } else if str_eq(command, "VERSION") {
        Some(Request::Version)
    } else if str_eq(command, "TIME") {
        Some(Request::Time)
    } else if str_eq(command, "LUSERS") {
        Some(Request::Lusers)
    } else if str_eq(command, "USERHOST") {
        Some(Request::UserHost)
    } else if str_eq(command, "ISON") {
        Some(Request::IsOn)
    } else if str_eq(command, "ADMIN") {
        Some(Request::Admin)
    } else if str_eq(command, "INFO") {
        Some(Request::Info)
    } else {
        None
    }
}

/// The requests of operators and agents, and what is no request.
fn read_special(m: &Message) -> (r: Request)
    ensures
        r.deep_view() == special_request(m.deep_view()),
{
    let command = m.command.as_str();
    let params = &m.params;
    if str_eq(command, "LOGIN") {
        Request::Login { text: nth_or(params, 0, "") }
    } else if str_eq(command, "POLICY") {
        Request::Policy
    } else if str_eq(command, "OPER") {
        if params.len() >= 2 {
            Request::Oper { text: params[1].clone() }
        } else {
            Request::NeedMore { command: command.to_owned() }
        }
    } else if str_eq(command, "AGENT") {
        match nth(params, 0) {
            Some(p) => Request::Agent { text: p, arg: nth(params, 1) },
            None => Request::NeedMore { command: command.to_owned() },
        }
    } else if str_eq(command, "PROVENANCE") {
        match nth(params, 0) {
            Some(p) => Request::Provenance { text: p },
            None => Request::NeedMore { command: command.to_owned() },
        }
    } else if str_eq(command, "PRESENCE") {
        match nth(params, 0) {
            Some(p) => Request::Presence { text: p },
            None => Request::NeedMore { command: command.to_owned() },
        }
    } else if str_eq(command, "HEARTBEAT") {
        Request::Heartbeat { text: nth_or(params, 0, "") }
    } else if str_eq(command, "REVOKEPEER") {
        Request::RevokePeer { arg: nth(params, 0) }
    } else {
        Request::Unknown { command: command.to_owned() }
    }
}

/// What a message asks for.
pub fn read_request(conn: &Connection, m: &Message) -> (r: Request)
    ensures
        r.deep_view() == request_spec(conn.deep_view(), m.deep_view()),
{
    match read_early(m) {
        Some(r) => r,
        None => {
            if !conn.registered {
                return if str_eq(m.command.as_str(), "JOIN") {
                    Request::NotRegistered
                } else {
                    Request::Ignored
                };
            }
            match read_channel_request(conn, m) {
                Some(r) => r,
                None => match read_talk(m) {
                    Some(r) => r,
                    None => read_special(m),
                },
            }
        },
    }
}

// ── Rate limit ──────────────────────────────────────────────────────

/// How long a user waits for the right to one command, in nanoseconds: ten commands a second.
pub const NANOS_PER_COMMAND: u64 = 100_000_000;

/// How much waiting counts at most: ten commands.
pub const MAX_CREDIT: u64 = 1_000_000_000;

/// A limit on the commands of a connection.
#[derive(Debug, Clone, Copy)]
pub struct RateLimit {
    /// Waiting that has not been used up, in nanoseconds.
    pub credit: u64,
    /// When the credit was last reckoned, in nanoseconds.
    pub last: u64,
    /// Whether the latest command was refused, and the user has been told.
    pub warned: bool,
}

/// The credit at a later time.
pub open spec fn credit_at(l: RateLimit, now: u64) -> int {
    let more = if now >= l.last {
        l.credit + (now - l.last)
    } else {
        l.credit as int
    };
    if more > MAX_CREDIT {
        MAX_CREDIT as int
    } else {
        more
    }
}

/// The limit after a command, and whether the command may pass.
pub open spec fn rate_spec(l: RateLimit, now: u64) -> (RateLimit, bool) {
    let credit = credit_at(l, now);
    if credit < NANOS_PER_COMMAND {
        (RateLimit { credit: credit as u64, last: now, warned: true }, false)
    } else {
        (RateLimit { credit: (credit - NANOS_PER_COMMAND) as u64, last: now, warned: false }, true)
    }
}

impl RateLimit {
    /// The limit of a new connection.
    pub fn new(now: u64) -> (l: RateLimit)
        ensures
            l == (RateLimit { credit: MAX_CREDIT, last: now, warned: false }),
    {
        RateLimit { credit: MAX_CREDIT, last: now, warned: false }
    }

    /// Whether a command may pass now.
    pub fn allow(&mut self, now: u64) -> (b: bool)
        ensures
            *final(self) == rate_spec(*old(self), now).0,
            b == rate_spec(*old(self), now).1,
    {
        let elapsed: u64 = if now >= self.last {
            now - self.last
        } else {
            0
        };
        let more: u128 = self.credit as u128 + elapsed as u128;
        let credit: u64 = if more > MAX_CREDIT as u128 {
            MAX_CREDIT
        } else {
            more as u64
        };
        if credit < NANOS_PER_COMMAND {
            *self = RateLimit { credit, last: now, warned: true };
            false
        } else {
            *self = RateLimit { credit: credit - NANOS_PER_COMMAND, last: now, warned: false };
            true
        }
    }
}

/// The limit after commands at the given times, and how many of them have passed.
pub open spec fn rate_run(l: RateLimit, times: Seq<u64>) -> (RateLimit, nat)
    decreases times.len(),
{
    if times.len() == 0 {
        (l, 0)
    } else {
        let before = rate_run(l, times.drop_last());
        let r = rate_spec(before.0, times.last());
        (
            r.0,
            if r.1 {
                before.1 + 1
            } else {
                before.1
            },
        )
    }
}

/// Ten commands pass at once and ten more each second: of the commands that a connection sends
/// within a span of time, at most ten and one for every tenth of a second of the span pass.
pub proof fn law_rate_is_bounded(l: RateLimit, times: Seq<u64>)
    requires
        l.credit <= MAX_CREDIT,
        forall|i: int, j: int| 0 <= i <= j < times.len() ==> times[i] <= times[j],
        times.len() > 0 ==> l.last <= times[0],
    ensures
        rate_run(l, times).0.credit <= MAX_CREDIT,
        times.len() > 0 ==> rate_run(l, times).1 * NANOS_PER_COMMAND <= MAX_CREDIT + (times.last()
            - l.last),
{
    lemma_rate_run(l, times);
}

/// Credit and passed commands never exceed the first credit and the time that went by.
proof fn lemma_rate_run(l: RateLimit, times: Seq<u64>)
    requires
        l.credit <= MAX_CREDIT,
        forall|i: int, j: int| 0 <= i <= j < times.len() ==> times[i] <= times[j],
        times.len() > 0 ==> l.last <= times[0],
    ensures
        rate_run(l, times).0.credit <= MAX_CREDIT,
        rate_run(l, times).0.last == (if times.len() > 0 {
            times.last()
        } else {
            l.last
        }),
        rate_run(l, times).1 * NANOS_PER_COMMAND + rate_run(l, times).0.credit <= l.credit + (
        rate_run(l, times).0.last - l.last),
    decreases times.len(),
{
    if times.len() > 0 {
        let t = times.drop_last();
        lemma_rate_run(l, t);
        let n = rate_run(l, t).1;
        assert((n + 1) * NANOS_PER_COMMAND == n * NANOS_PER_COMMAND + NANOS_PER_COMMAND)
            by (nonlinear_arith);
    }
}

/// Whether a command does not count: those that read and those that clients send in a burst.
pub open spec fn is_exempt(command: Seq<char>) -> bool {
    command == "JOIN"@ || command == "CHATHISTORY"@ || command == "WHOIS"@ || command == "PING"@
        || command == "PONG"@ || command == "MODE"@ || command == "WHO"@ || command == "NAMES"@
        || command == "LOGIN"@
}

/// What the rate limit does with a command, and whether it may pass. Of the commands that are
/// refused one after the other only the first is answered.
pub open spec fn screen_spec(
    st: ServerStateView,
    c: ConnectionView,
    command: Seq<char>,
    l: RateLimit,
    now: u64,
) -> (RateLimit, Seq<EffectView>, bool) {
    if !c.registered || is_exempt(command) {
        (l, Seq::empty(), true)
    } else {
        let r = rate_spec(l, now);
        (
            r.0,
            if r.1 || l.warned {
                Seq::empty()
            } else {
                seq![
                    helpers::reply_fx(
                        c.id,
                        st.server_name,
                        "NOTICE"@,
                        seq!["*"@, "Flood protection: you are sending commands too fast"@],
                    ),
                ]
            },
            r.1,
        )
    }
}

/// A user is warned only once per burst: the first command that is refused is answered, and none
/// after it until one has passed.
pub proof fn law_one_warning_per_burst(
    st: ServerStateView,
    c: ConnectionView,
    command: Seq<char>,
    l: RateLimit,
    now: u64,
)
    requires
        c.registered,
        !is_exempt(command),
    ensures
        ({
            let (after, fx, passes) = screen_spec(st, c, command, l, now);
            &&& passes ==> fx.len() == 0 && !after.warned
            &&& !passes ==> fx.len() == (if l.warned {
                0int
            } else {
                1int
            }) && after.warned
        }),
{
}

/// Holds a command to the rate limit at the time `now`, in nanoseconds; tells whether it may pass.
pub fn screen(
    conn: &Connection,
    command: &str,
    limit: &mut RateLimit,
    now: u64,
    state: &ServerState,
    fx: &mut Vec<Effect>,
) -> (b: bool)
    ensures
        ({
            let r = screen_spec(state.deep_view(), conn.deep_view(), command@, *old(limit), now);
            &&& *final(limit) == r.0
            &&& final(fx).deep_view() == old(fx).deep_view() + r.1
            &&& b == r.2
        }),
{
    assert(fx.deep_view() + Seq::<EffectView>::empty() =~= fx.deep_view());
    if !conn.registered || str_eq(command, "JOIN") || str_eq(command, "CHATHISTORY") || str_eq(
        command,
        "WHOIS",
    ) || str_eq(command, "PING") || str_eq(command, "PONG") || str_eq(command, "MODE") || str_eq(
        command,
        "WHO",
    ) || str_eq(command, "NAMES") || str_eq(command, "LOGIN") {
        return true;
    }
    let warned = limit.warned;
    let ok = limit.allow(now);
    if !ok && !warned {
        push_reply(
            fx,
            conn.id.as_str(),
            state.server_name.as_str(),
            "NOTICE",
            p2("*", "Flood protection: you are sending commands too fast"),
        );
    }
    ok
}

// ── Lines and silence ───────────────────────────────────────────────

/// How many bytes a line may have.
pub const MAX_LINE_LEN: usize = 8192;

/// Replies to a line that is too long, if it is; tells whether it is.
pub fn refuse_long_line(
    conn: &Connection,
    len: usize,
    state: &ServerState,
    fx: &mut Vec<Effect>,
) -> (b: bool)
    ensures
        b == (len > MAX_LINE_LEN),
        final(fx).deep_view() == old(fx).deep_view() + (if len > MAX_LINE_LEN {
            seq![
                helpers::reply_fx(
                    conn.deep_view().id,
                    state.deep_view().server_name,
                    "417"@,
                    seq!["*"@, "Input line was too long"@],
                ),
            ]
        } else {
            Seq::empty()
        }),
{
    if len > MAX_LINE_LEN {
        push_reply(
            fx,
            conn.id.as_str(),
            state.server_name.as_str(),
            "417",
            p2("*", "Input line was too long"),
        );
        true
    } else {
        assert(fx.deep_view() + Seq::<EffectView>::empty() =~= fx.deep_view());
        false
    }
}

/// After how much silence a connection is given up that has not answered a PING, in nanoseconds.
pub const PING_TIMEOUT: u64 = 60_000_000_000;

/// Whether a connection is given up that has been silent for a while.
pub open spec fn timed_out(awaiting_pong: bool, idle: u64) -> bool {
    awaiting_pong && idle > PING_TIMEOUT
}

/// Deals with silence of `idle` nanoseconds: sends a PING unless one is unanswered, and tells
/// whether the connection is to be given up.
pub fn handle_silence(
    conn: &Connection,
    awaiting_pong: &mut bool,
    idle: u64,
    state: &ServerState,
    fx: &mut Vec<Effect>,
) -> (b: bool)
    ensures
        b == timed_out(*old(awaiting_pong), idle),
        *final(awaiting_pong),
        final(fx).deep_view() == old(fx).deep_view() + (if *old(awaiting_pong) {
            Seq::empty()
        } else {
            seq![
                helpers::reply_fx(
                    conn.deep_view().id,
                    state.deep_view().server_name,
                    "PING"@,
                    seq![state.deep_view().server_name],
                ),
            ]
        }),
{
    if *awaiting_pong {
        assert(fx.deep_view() + Seq::<EffectView>::empty() =~= fx.deep_view());
        idle > PING_TIMEOUT
    } else {
        push_reply(
            fx,
            conn.id.as_str(),
            state.server_name.as_str(),
            "PING",
            p1(state.server_name.as_str()),
        );
        *awaiting_pong = true;
        false
    }
}

} // verus!
