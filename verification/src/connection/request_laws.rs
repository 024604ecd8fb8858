//! What holds of the reading of commands and of how fast they may come.
use super::requests;
use super::requests::{RateLimit, RequestView};
use super::session_laws;
use super::ConnectionView;
use crate::irc::MessageView;
use crate::server::{EffectView, ServerStateView};
use crate::text;
use vstd::prelude::*;

verus! {

broadcast use vstd::string::group_string_axioms;

/// A number by which the names of commands can be told apart.
spec fn mark(s: Seq<char>) -> int {
    s.len() + 100 * (s[0] as int) + 100000 * (s[1] as int) + 100000000 * (s[s.len() - 1] as int)
}

/// No two commands have the same name.
proof fn lemma_names_differ()
    ensures
        mark("CAP"@) == 8006506703,
        mark("AUTHENTICATE"@) == 6908506512,
        mark("NICK"@) == 7507307804,
        mark("USER"@) == 8208308504,
        mark("PING"@) == 7107308004,
        mark("PONG"@) == 7107908004,
        mark("QUIT"@) == 8408508104,
        mark("JOIN"@) == 7807907404,
        mark("PART"@) == 8406508004,
        mark("MODE"@) == 6907907704,
        mark("INVITE"@) == 6907807306,
        mark("KICK"@) == 7507307504,
        mark("TOPIC"@) == 6707908405,
        mark("PIN"@) == 7807308003,
        mark("UNPIN"@) == 7807808505,
        mark("PINS"@) == 8307308004,
        mark("NAMES"@) == 8306507805,
        mark("WHOIS"@) == 8307208705,
        mark("MSGSIG"@) == 7108307706,
        mark("PRIVMSG"@) == 7108208007,
        mark("NOTICE"@) == 6907907806,
        mark("TAGMSG"@) == 7106508406,
        mark("LIST"@) == 8407307604,
        mark("WHO"@) == 7907208703,
        mark("AWAY"@) == 8908706504,
        mark("MOTD"@) == 6807907704,
        mark("CHATHISTORY"@) == 8907206711,
        mark("VERSION"@) == 7806908607,
        mark("TIME"@) == 6907308404,
        mark("LUSERS"@) == 8308507606,
        mark("USERHOST"@) == 8408308508,
        mark("ISON"@) == 7808307304,
        mark("ADMIN"@) == 7806806505,
        mark("INFO"@) == 7907807304,
        mark("LOGIN"@) == 7807907605,
        mark("POLICY"@) == 8907908006,
        mark("OPER"@) == 8208007904,
        mark("AGENT"@) == 8407106505,
        mark("PROVENANCE"@) == 6908208010,
        mark("PRESENCE"@) == 6908208008,
        mark("HEARTBEAT"@) == 8406907209,
        mark("REVOKEPEER"@) == 8206908210,
{
    reveal_strlit("CAP");
    reveal_strlit("AUTHENTICATE");
    reveal_strlit("NICK");
    reveal_strlit("USER");
    reveal_strlit("PING");
    reveal_strlit("PONG");
    reveal_strlit("QUIT");
    reveal_strlit("JOIN");
    reveal_strlit("PART");
    reveal_strlit("MODE");
    reveal_strlit("INVITE");
    reveal_strlit("KICK");
    reveal_strlit("TOPIC");
    reveal_strlit("PIN");
    reveal_strlit("UNPIN");
    reveal_strlit("PINS");
    reveal_strlit("NAMES");
    reveal_strlit("WHOIS");
    reveal_strlit("MSGSIG");
    reveal_strlit("PRIVMSG");
    reveal_strlit("NOTICE");
    reveal_strlit("TAGMSG");
    reveal_strlit("LIST");
    reveal_strlit("WHO");
    reveal_strlit("AWAY");
    reveal_strlit("MOTD");
    reveal_strlit("CHATHISTORY");
    reveal_strlit("VERSION");
    reveal_strlit("TIME");
    reveal_strlit("LUSERS");
    reveal_strlit("USERHOST");
    reveal_strlit("ISON");
    reveal_strlit("ADMIN");
    reveal_strlit("INFO");
    reveal_strlit("LOGIN");
    reveal_strlit("POLICY");
    reveal_strlit("OPER");
    reveal_strlit("AGENT");
    reveal_strlit("PROVENANCE");
    reveal_strlit("PRESENCE");
    reveal_strlit("HEARTBEAT");
    reveal_strlit("REVOKEPEER");
}

/// Whether a name is that of a channel.
pub open spec fn names_channel(s: Seq<char>) -> bool {
    s.len() > 0 && (s[0] == '#' || s[0] == '&')
}

/// The commands by which a user signs on are read whether they are registered or not.
pub proof fn law_signing_on_is_read(c: ConnectionView, m: MessageView)
    ensures
        ({
            let r = requests::request_spec(c, m);
            let p = m.params;
            &&& m.command == "CAP"@ ==> r == RequestView::Cap
            &&& m.command == "AUTHENTICATE"@ && p.len() > 0 ==> r == (RequestView::Authenticate { text: p[0] })
            &&& m.command == "NICK"@ && p.len() > 0 ==> r == (RequestView::Nick { nick: p[0] })
            &&& m.command == "USER"@ && p.len() >= 4 ==> r == (RequestView::User { nick: p[0], text: p[3] })
            &&& m.command == "USER"@ && p.len() < 4 ==> r == RequestView::Ignored
            &&& m.command == "PING"@ && p.len() > 0 ==> r == (RequestView::Ping { text: p[0] })
            &&& m.command == "PONG"@ ==> r == RequestView::Pong
            &&& m.command == "QUIT"@ ==> r == RequestView::Quit
        }),
{
    lemma_names_differ();
}

/// A registered user's commands on channels are read with the channel in lower case and with their
/// parameters, each in its place.
pub proof fn law_channel_commands_are_read(c: ConnectionView, m: MessageView)
    requires
        c.registered,
    ensures
        ({
            let r = requests::request_spec(c, m);
            let p = m.params;
            let two = if p.len() > 1 {
                Some(p[1])
            } else {
                None
            };
            let three = if p.len() > 2 {
                Some(p[2])
            } else {
                None
            };
            &&& m.command == "MODE"@ && p.len() > 0 && names_channel(p[0]) ==> r == (RequestView::Mode {
                channel: text::lowercase(p[0]),
                mode: two,
                arg: three,
            })
            &&& m.command == "MODE"@ && p.len() > 0 && !names_channel(p[0]) ==> r == RequestView::UserMode
            &&& m.command == "INVITE"@ && p.len() >= 2 ==> r == (RequestView::Invite { nick: p[0], channel: text::lowercase(p[1]) })
            &&& m.command == "KICK"@ && p.len() >= 3 ==> r == (RequestView::Kick {
                channel: text::lowercase(p[0]),
                nick: p[1],
                text: p[2],
            })
            &&& m.command == "KICK"@ && p.len() == 2 ==> r == (RequestView::Kick {
                channel: text::lowercase(p[0]),
                nick: p[1],
                text: c.nick_or_star(),
            })
            &&& m.command == "TOPIC"@ && p.len() > 0 ==> r == (RequestView::Topic { channel: text::lowercase(p[0]), arg: two })
            &&& m.command == "PIN"@ && p.len() >= 2 ==> r == (RequestView::Pin {
                channel: text::lowercase(p[0]),
                msgid: p[1],
                pin: true,
            })
            &&& m.command == "UNPIN"@ && p.len() >= 2 ==> r == (RequestView::Pin {
                channel: text::lowercase(p[0]),
                msgid: p[1],
                pin: false,
            })
            &&& (m.command == "PIN"@ || m.command == "UNPIN"@) && p.len() < 2 ==> r == (RequestView::NeedMore { command: m.command })
            &&& m.command == "PINS"@ && p.len() > 0 ==> r == (RequestView::Pins { channel: text::lowercase(p[0]) })
            &&& m.command == "NAMES"@ && p.len() > 0 ==> r == (RequestView::Names { channel: text::lowercase(p[0]) })
        }),
{
    lemma_names_differ();
}

/// JOIN and PART name several channels at once, between commas; with JOIN the keys go with the
/// channels one by one.
pub proof fn law_several_channels_are_read(c: ConnectionView, m: MessageView, i: int)
    requires
        c.registered,
        m.params.len() > 0,
        0 <= i < text::split_spec(m.params[0], ',').len(),
    ensures
        ({
            let r = requests::request_spec(c, m);
            let names = text::split_spec(m.params[0], ',');
            let keys = text::split_spec(m.params[1], ',');
            &&& m.command == "JOIN"@ ==> r is Join && r->targets.len() == names.len() && r->targets[i].0 == text::lowercase(names[i])
            &&& m.command == "JOIN"@ && m.params.len() > 1 && i < keys.len() ==> r->targets[i].1 == Some(keys[i])
            &&& m.command == "JOIN"@ && (m.params.len() == 1 || i >= keys.len()) ==> r->targets[i].1 is None
            &&& m.command == "PART"@ ==> r is Part && r->channels.len() == names.len() && r->channels[i] == text::lowercase(names[i])
        }),
{
    lemma_names_differ();
}

/// A registered user's messages and questions are read with their parameters; the name of a channel
/// is read in lower case.
pub proof fn law_messages_are_read(c: ConnectionView, m: MessageView)
    requires
        c.registered,
    ensures
        ({
            let r = requests::request_spec(c, m);
            let p = m.params;
            let one = if p.len() > 0 {
                Some(p[0])
            } else {
                None
            };
            &&& (m.command == "PRIVMSG"@ || m.command == "NOTICE"@) && p.len() >= 2 ==> r == (RequestView::Message {
                command: m.command,
                target: if names_channel(p[0]) {
                    text::lowercase(p[0])
                } else {
                    p[0]
                },
                text: p[1],
            })
            &&& m.command == "TAGMSG"@ && p.len() > 0 ==> r == (RequestView::TagMsg { target: p[0] })
            &&& m.command == "WHOIS"@ && p.len() > 0 ==> r == (RequestView::Whois { nick: p[0] })
            &&& m.command == "MSGSIG"@ ==> r == (RequestView::MsgSig { arg: one })
            &&& m.command == "LIST"@ ==> r == RequestView::List
            &&& m.command == "WHO"@ && p.len() > 0 ==> r == (RequestView::Who { target: p[0] })
            &&& m.command == "AWAY"@ ==> r == (RequestView::Away { arg: one })
            &&& m.command == "MOTD"@ ==> r == RequestView::Motd
            &&& m.command == "CHATHISTORY"@ ==> r == RequestView::ChatHistory
            &&& m.command == "VERSION"@ ==> r == RequestView::Version
            &&& m.command == "TIME"@ ==> r == RequestView::Time
            &&& m.command == "LUSERS"@ ==> r == RequestView::Lusers
            &&& m.command == "USERHOST"@ ==> r == RequestView::UserHost
            &&& m.command == "ISON"@ ==> r == RequestView::IsOn
            &&& m.command == "ADMIN"@ ==> r == RequestView::Admin
            &&& m.command == "INFO"@ ==> r == RequestView::Info
        }),
{
    lemma_names_differ();
}

/// So are the commands of operators and agents; a command that there is not is said to be unknown.
pub proof fn law_special_commands_are_read(c: ConnectionView, m: MessageView)
    requires
        c.registered,
    ensures
        ({
            let r = requests::request_spec(c, m);
            let p = m.params;
            let one = if p.len() > 0 {
                Some(p[0])
            } else {
                None
            };
            let two = if p.len() > 1 {
                Some(p[1])
            } else {
                None
            };
            &&& m.command == "OPER"@ && p.len() >= 2 ==> r == (RequestView::Oper { text: p[1] })
            &&& m.command == "OPER"@ && p.len() < 2 ==> r == (RequestView::NeedMore { command: m.command })
            &&& m.command == "AGENT"@ && p.len() > 0 ==> r == (RequestView::Agent { text: p[0], arg: two })
            &&& m.command == "PROVENANCE"@ && p.len() > 0 ==> r == (RequestView::Provenance { text: p[0] })
            &&& m.command == "PRESENCE"@ && p.len() > 0 ==> r == (RequestView::Presence { text: p[0] })
            &&& m.command == "HEARTBEAT"@ && p.len() > 0 ==> r == (RequestView::Heartbeat { text: p[0] })
            &&& m.command == "REVOKEPEER"@ ==> r == (RequestView::RevokePeer { arg: one })
            &&& m.command == "POLICY"@ ==> r == RequestView::Policy
            &&& r is Unknown ==> r == (RequestView::Unknown { command: m.command })
        }),
{
    lemma_names_differ();
}

/// A command passes exactly where a tenth of a second of waiting has been saved up, of a second at
/// most, and uses it up.
pub proof fn law_commands_cost_a_tenth_of_a_second(l: RateLimit, now: u64)
    requires
        l.credit <= 1_000_000_000,
        now >= l.last,
    ensures
        ({
            let (after, passes) = requests::rate_spec(l, now);
            let saved = if l.credit + (now - l.last) < 1_000_000_000 {
                l.credit + (now - l.last)
            } else {
                1_000_000_000
            };
            &&& passes <==> saved >= 100_000_000
            &&& after.last == now
            &&& passes ==> after.credit == saved - 100_000_000 && !after.warned
            &&& !passes ==> after.credit == saved && after.warned
        }),
{
}

/// A registered user who sends commands too fast is told so once; questions about who is there, the
/// history and joining are never held back.
pub proof fn law_floods_are_held_back(st: ServerStateView, c: ConnectionView, command: Seq<char>, l: RateLimit, now: u64)
    requires
        c.registered,
        l.credit <= 1_000_000_000,
        now >= l.last,
    ensures
        ({
            let (after, fx, passes) = requests::screen_spec(st, c, command, l, now);
            let free = command == "JOIN"@ || command == "CHATHISTORY"@ || command == "WHOIS"@ || command == "PING"@ || command
                == "PONG"@ || command == "MODE"@ || command == "WHO"@ || command == "NAMES"@ || command == "LOGIN"@;
            let saved = l.credit + (now - l.last) >= 100_000_000;
            &&& passes <==> free || saved
            &&& free ==> after == l
            &&& !passes && !l.warned ==> fx == seq![
                session_laws::reply(
                    c.id,
                    st.server_name,
                    "NOTICE"@,
                    seq!["*"@, "Flood protection: you are sending commands too fast"@],
                ),
            ]
            &&& passes || l.warned ==> fx.len() == 0
        }),
{
}

/// A connection is given up where it owes an answer and was silent for more than a minute.
pub proof fn law_silence_ends_a_connection(awaiting: bool, idle: u64)
    ensures
        requests::timed_out(awaiting, idle) <==> awaiting && idle > 60_000_000_000,
{
}

} // verus!
