//! NICK and USER.
use super::helpers;
use super::helpers::{p3, push_multicast, push_plugin, push_reply, push_s2s};
use super::registration;
use super::registration::{complete_registration, random_guest};
use super::{opt_str_or, Connection, ConnectionView};
use crate::containers;
use crate::containers::{StrMap, StrSet};
use crate::irc;
use crate::server::{
    ChannelState, ChannelStateView, Effect, EffectView, PluginEvent, PluginEventView, S2sEvent,
    S2sEventView, ServerState, ServerStateView,
};
use crate::text;
use crate::text::{
    byte_len, char_is_control, chars_of, contains_str, head, str_eq, to_lowercase, words, Line,
};
use vstd::prelude::*;

verus! {

broadcast use vstd::string::group_string_axioms;

/// How many bytes a nick may have.
pub const MAX_NICK_BYTES: usize = 64;

/// Whether a character may not stand in a nick.
pub open spec fn bad_in_nick(c: char) -> bool {
    text::is_control(c) || c == ' ' || c == ',' || c == '*' || c == '?' || c == '!' || c == '@' || c
        == '#' || c == '&' || c == ':'
}

/// Whether a nick is well-formed.
pub open spec fn valid_nick(nick: Seq<char>) -> bool {
    nick.len() > 0 && vstd::utf8::encode_utf8(nick).len() <= MAX_NICK_BYTES && forall|i: int|
        0 <= i < nick.len() ==> !bad_in_nick(#[trigger] nick[i])
}

/// Whether a nick is well-formed.
pub fn is_valid_nick(nick: &str) -> (b: bool)
    ensures
        b == valid_nick(nick@),
{
    let v = chars_of(nick);
    if v.len() == 0 || byte_len(nick) > MAX_NICK_BYTES {
        return false;
    }
    let mut ok = true;
    let mut i: usize = 0;
    while i < v.len() && ok
        invariant
            i <= v.len(),
            v@ == nick@,
            ok ==> forall|j: int| 0 <= j < i ==> !bad_in_nick(#[trigger] nick@[j]),
            !ok ==> exists|j: int| 0 <= j < v.len() && bad_in_nick(#[trigger] nick@[j]),
        decreases v.len() - i,
    {
        let c = v[i];
        if char_is_control(c) || c == ' ' || c == ',' || c == '*' || c == '?' || c == '!' || c
            == '@' || c == '#' || c == '&' || c == ':' {
            assert(bad_in_nick(nick@[i as int]));
            ok = false;
        }
        i = i + 1;
    }
    ok
}

/// A list with the entries of another that it lacks.
pub open spec fn set_union(a: Seq<Seq<char>>, b: Seq<Seq<char>>) -> Seq<Seq<char>>
    decreases b.len(),
{
    if b.len() == 0 {
        a
    } else {
        containers::set_insert(set_union(a, b.drop_last()), b.last())
    }
}

/// A session and those who share a channel with it, each once.
pub open spec fn neighbours(
    chs: Seq<(Seq<char>, ChannelStateView)>,
    session: Seq<char>,
) -> Seq<Seq<char>>
    decreases chs.len(),
{
    if chs.len() == 0 {
        seq![session]
    } else {
        let before = neighbours(chs.drop_last(), session);
        if chs.last().1.members.contains(session) {
            set_union(before, chs.last().1.members)
        } else {
            before
        }
    }
}

/// Adds the entries of a set to another.
fn add_all(to: &mut StrSet, from: &StrSet)
    ensures
        final(to)@ == set_union(old(to)@, from@),
{
    let ghost start = to@;
    let mut i: usize = 0;
    assert(from@.take(0) =~= Seq::<Seq<char>>::empty());
    while i < from.len()
        invariant
            i <= from@.len(),
            to@ == set_union(start, from@.take(i as int)),
        decreases from@.len() - i,
    {
        assert(from@.take(i + 1).drop_last() =~= from@.take(i as int));
        to.insert(from.at(i).clone());
        i = i + 1;
    }
    assert(from@.take(i as int) =~= from@);
}

/// A session and those who share a channel with it.
pub fn find_neighbours(channels: &StrMap<ChannelState>, session: &str) -> (r: StrSet)
    ensures
        r@ == neighbours(channels@, session@),
{
    let ghost chs = channels@;
    let mut out = StrSet::new();
    out.insert(session.to_owned());
    assert(out@ =~= neighbours(chs.take(0), session@));
    let mut i: usize = 0;
    while i < channels.len()
        invariant
            i <= chs.len(),
            chs == channels@,
            out@ == neighbours(chs.take(i as int), session@),
        decreases chs.len() - i,
    {
        assert(chs.take(i + 1).drop_last() =~= chs.take(i as int));
        let ch = channels.value_at(i);
        if ch.members.contains(session) {
            add_all(&mut out, &ch.members);
        }
        i = i + 1;
    }
    assert(chs.take(i as int) =~= chs);
    out
}

/// How a change of nick shows who made it.
pub open spec fn nick_source(c: ConnectionView, old_nick: Option<Seq<char>>) -> Seq<char> {
    match old_nick {
        Some(o) => o + "!~"@ + text::or_default(c.user, "u"@) + "@"@ + super::cloak(
            c.authenticated_did,
        ),
        None => c.hostmask(),
    }
}

/// What a change of nick tells the plugins and the federation.
pub open spec fn renamed_fx(c: ConnectionView, old_nick: Option<Seq<char>>, nick: Seq<char>) -> Seq<
    EffectView,
> {
    match old_nick {
        Some(o) => seq![
            EffectView::Plugin(
                PluginEventView::NickChange {
                    old_nick: o,
                    new_nick: nick,
                    did: c.authenticated_did,
                    session_id: c.id,
                },
            ),
            EffectView::S2s(S2sEventView::NickChange { old: o, new: nick }),
        ],
        None => Seq::empty(),
    }
}

/// The state and the connection under another nick.
pub open spec fn renamed(st: ServerStateView, c: ConnectionView, nick: Seq<char>) -> (
    ServerStateView,
    ConnectionView,
) {
    (
        match c.nick {
            Some(o) => st.nick_freed(o).nick_set(nick, c.id),
            None => st.nick_set(nick, c.id),
        },
        ConnectionView { nick: Some(nick), ..c },
    )
}

/// What is told of a registered user's new nick. The connection `c` has it already.
pub open spec fn nick_told(
    st: ServerStateView,
    c: ConnectionView,
    old_nick: Option<Seq<char>>,
    nick: Seq<char>,
) -> Seq<EffectView> {
    helpers::multicast_fx(
        neighbours(st.channels, c.id),
        ":"@ + nick_source(c, old_nick) + " NICK :"@ + nick + "\r\n"@,
    ) + renamed_fx(c, old_nick, nick)
}

/// Whether the session that holds a nick belongs to the user.
pub open spec fn same_did(st: ServerStateView, c: ConnectionView, session: Seq<char>) -> bool {
    match st.did_of(session) {
        Some(d) => c.authenticated_did == Some(d),
        None => false,
    }
}

/// Whether the user is still negotiating.
pub open spec fn negotiating(c: ConnectionView) -> bool {
    c.cap_negotiating || c.sasl_in_progress
}

/// What becomes of a wish for a nick.
#[derive(Debug, Clone, Copy, PartialEq, Eq, Structural)]
pub enum NickVerdict {
    /// It is not a nick.
    Bad,
    /// Someone else uses it.
    InUse,
    /// It is someone else's own.
    Registered,
    /// It is noted, to be settled when authentication is done.
    Stashed,
    /// It is the user's from now on.
    Granted,
}

/// What becomes of a wish for a nick.
pub open spec fn nick_verdict(st: ServerStateView, c: ConnectionView, nick: Seq<char>) -> NickVerdict {
    let owner = containers::map_get(st.nick_owners, text::lowercase(nick));
    if !valid_nick(nick) {
        NickVerdict::Bad
    } else {
        match st.session_of(nick) {
            Some(session) => if same_did(st, c, session) || (negotiating(c) && owner is Some) {
                NickVerdict::Stashed
            } else {
                NickVerdict::InUse
            },
            None => if !negotiating(c) && owner is Some && c.authenticated_did != owner {
                NickVerdict::Registered
            } else {
                NickVerdict::Granted
            },
        }
    }
}

/// What a NICK command does.
pub open spec fn nick_spec(
    st: ServerStateView,
    c: ConnectionView,
    nick: Seq<char>,
    guest: u32,
    now: u64,
) -> (ServerStateView, ConnectionView, Seq<EffectView>) {
    match nick_verdict(st, c, nick) {
        NickVerdict::Bad => (
            st,
            c,
            seq![
                helpers::reply_fx(
                    c.id,
                    st.server_name,
                    "432"@,
                    seq![c.nick_or_star(), nick, "Erroneous Nickname"@],
                ),
            ],
        ),
        NickVerdict::InUse => (
            st,
            c,
            seq![
                helpers::reply_fx(
                    c.id,
                    st.server_name,
                    irc::ERR_NICKNAMEINUSE@,
                    seq![c.nick_or_star(), nick, "Nickname is already in use"@],
                ),
            ],
        ),
        NickVerdict::Registered => (
            st,
            c,
            seq![
                helpers::reply_fx(
                    c.id,
                    st.server_name,
                    irc::ERR_NICKNAMEINUSE@,
                    seq![c.nick_or_star(), nick, "Nickname is registered to another identity"@],
                ),
            ],
        ),
        NickVerdict::Stashed => (st, ConnectionView { nick: Some(nick), ..c }, Seq::empty()),
        NickVerdict::Granted => granted_spec(st, c, nick, guest, now),
    }
}

/// What a granted nick does.
#[verifier::opaque]
pub open spec fn granted_spec(
    st: ServerStateView,
    c: ConnectionView,
    nick: Seq<char>,
    guest: u32,
    now: u64,
) -> (ServerStateView, ConnectionView, Seq<EffectView>) {
    let r = renamed(st, c, nick);
    if c.registered {
        (r.0, r.1, nick_told(r.0, r.1, c.nick, nick))
    } else {
        registration::registration_spec(r.0, r.1, guest, now)
    }
}

/// Decides what becomes of a wish for a nick.
pub fn judge_nick(conn: &Connection, nick: &str, state: &ServerState) -> (r: NickVerdict)
    ensures
        r == nick_verdict(state.deep_view(), conn.deep_view(), nick@),
{
    if !is_valid_nick(nick) {
        return NickVerdict::Bad;
    }
    let lower = to_lowercase(nick);
    let owner = state.nick_owners.get(lower.as_str());
    let early = conn.cap_negotiating || conn.sasl_in_progress;
    match state.session_of(nick) {
        Some(session) => {
            let mine = match (state.did_of(session.as_str()), &conn.authenticated_did) {
                (Some(other), Some(my)) => str_eq(other.as_str(), my.as_str()),
                _ => false,
            };
            if mine || (early && owner.is_some()) {
                NickVerdict::Stashed
            } else {
                NickVerdict::InUse
            }
        },
        None => {
            let stolen = match owner {
                Some(o) => match &conn.authenticated_did {
                    Some(my) => !str_eq(my.as_str(), o.as_str()),
                    None => true,
                },
                None => false,
            };
            if !early && stolen {
                NickVerdict::Registered
            } else {
                NickVerdict::Granted
            }
        },
    }
}

/// Gives a user another nick.
fn take_nick(conn: &mut Connection, nick: &str, state: &mut ServerState)
    ensures
        ({
            let r = renamed(old(state).deep_view(), old(conn).deep_view(), nick@);
            &&& final(state).deep_view() == r.0
            &&& final(conn).deep_view() == r.1
        }),
{
    if let Some(old_nick) = &conn.nick {
        state.free_nick(old_nick.as_str());
    }
    state.set_nick(nick, conn.id.as_str());
    conn.nick = Some(nick.to_owned());
}

/// Tells of a registered user's new nick.
fn push_nick_told(
    fx: &mut Vec<Effect>,
    state: &ServerState,
    conn: &Connection,
    old_nick: &Option<String>,
    nick: &str,
)
    ensures
        final(fx).deep_view() == old(fx).deep_view() + nick_told(
            state.deep_view(),
            conn.deep_view(),
            old_nick.deep_view(),
            nick@,
        ),
{
    broadcast use helpers::lemma_push_after, helpers::lemma_add_after;

    let source = match old_nick {
        Some(o) => Line::new(o.as_str()).add("!~").add(opt_str_or(&conn.user, "u")).add("@").add(
            conn.cloaked_host().as_str(),
        ).done(),
        None => conn.hostmask(),
    };
    let line = Line::new(":").add(source.as_str()).add(" NICK :").add(nick).add("\r\n").done();
    let to = find_neighbours(&state.channels, conn.id.as_str());
    push_multicast(fx, &to, line.as_str());
    let ghost before = fx.deep_view();
    match old_nick {
        Some(o) => {
            push_plugin(
                fx,
                PluginEvent::NickChange {
                    old_nick: o.clone(),
                    new_nick: nick.to_owned(),
                    did: conn.authenticated_did.clone(),
                    session_id: conn.id.clone(),
                },
            );
            push_s2s(fx, S2sEvent::NickChange { old: o.clone(), new: nick.to_owned() });
        },
        None => {},
    }
    assert(fx.deep_view() =~= before + renamed_fx(
        conn.deep_view(),
        old_nick.deep_view(),
        nick@,
    ));
}

/// Grants a nick.
fn grant_nick(
    conn: &mut Connection,
    nick: &str,
    guest: u32,
    now: u64,
    state: &mut ServerState,
    fx: &mut Vec<Effect>,
)
    ensures
        ({
            let r = granted_spec(
                old(state).deep_view(),
                old(conn).deep_view(),
                nick@,
                guest,
                now,
            );
            &&& final(state).deep_view() == r.0
            &&& final(conn).deep_view() == r.1
            &&& final(fx).deep_view() == old(fx).deep_view() + r.2
        }),
{
    reveal(granted_spec);
    let old_nick = conn.nick.clone();
    take_nick(conn, nick, state);
    if conn.registered {
        push_nick_told(fx, state, conn, &old_nick, nick);
    } else {
        complete_registration(conn, guest, now, state, fx);
    }
}

/// Handles a NICK command. `guest` is the number for a guest name, should registration be
/// completed and the user need one.
pub fn nick_command(
    conn: &mut Connection,
    nick: &str,
    guest: u32,
    now: u64,
    state: &mut ServerState,
    fx: &mut Vec<Effect>,
)
    ensures
        ({
            let r = nick_spec(old(state).deep_view(), old(conn).deep_view(), nick@, guest, now);
            &&& final(state).deep_view() == r.0
            &&& final(conn).deep_view() == r.1
            &&& final(fx).deep_view() == old(fx).deep_view() + r.2
        }),
{
    assert(fx.deep_view() + Seq::<EffectView>::empty() =~= fx.deep_view());
    let verdict = judge_nick(conn, nick, state);
    match verdict {
        NickVerdict::Bad => {
            push_reply(
                fx,
                conn.id.as_str(),
                state.server_name.as_str(),
                "432",
                p3(conn.nick_or_star(), nick, "Erroneous Nickname"),
            );
        },
        NickVerdict::InUse => {
            push_reply(
                fx,
                conn.id.as_str(),
                state.server_name.as_str(),
                irc::ERR_NICKNAMEINUSE,
                p3(conn.nick_or_star(), nick, "Nickname is already in use"),
            );
        },
        NickVerdict::Registered => {
            push_reply(
                fx,
                conn.id.as_str(),
                state.server_name.as_str(),
                irc::ERR_NICKNAMEINUSE,
                p3(conn.nick_or_star(), nick, "Nickname is registered to another identity"),
            );
        },
        NickVerdict::Stashed => {
            conn.nick = Some(nick.to_owned());
        },
        NickVerdict::Granted => {
            grant_nick(conn, nick, guest, now, state, fx);
        },
    }
}

/// Handles a NICK command.
pub fn handle_nick(
    conn: &mut Connection,
    nick: &str,
    now: u64,
    state: &mut ServerState,
    fx: &mut Vec<Effect>,
)
    ensures
        exists|guest: u32|
            guest < 100000 && {
                let r = #[trigger] nick_spec(
                    old(state).deep_view(),
                    old(conn).deep_view(),
                    nick@,
                    guest,
                    now,
                );
                &&& final(state).deep_view() == r.0
                &&& final(conn).deep_view() == r.1
                &&& final(fx).deep_view() == old(fx).deep_view() + r.2
            },
{
    let guest: u32 = random_guest();
    nick_command(conn, nick, guest, now, state, fx);
}

/// The name of a known client whose real name, in lower case, is given.
pub open spec fn known_client(r: Seq<char>) -> Option<Seq<char>> {
    if text::contains_spec(r, "freeq web"@) {
        Some("freeq-web"@)
    } else if text::contains_spec(r, "freeq ios"@) {
        Some("freeq-ios"@)
    } else if text::contains_spec(r, "freeq android"@) {
        Some("freeq-android"@)
    } else if r == "freeq"@ {
        Some("freeq-sdk"@)
    } else if text::contains_spec(r, "irssi"@) {
        Some("irssi"@)
    } else if text::contains_spec(r, "weechat"@) {
        Some("weechat"@)
    } else if text::contains_spec(r, "hexchat"@) {
        Some("hexchat"@)
    } else if text::contains_spec(r, "thunderbird"@) {
        Some("thunderbird"@)
    } else if text::contains_spec(r, "textual"@) {
        Some("textual"@)
    } else if text::contains_spec(r, "mutter"@) {
        Some("mutter"@)
    } else if text::contains_spec(r, "irccloud"@) {
        Some("irccloud"@)
    } else if text::contains_spec(r, "znc"@) {
        Some("znc"@)
    } else if text::contains_spec(r, "kiwi"@) {
        Some("kiwi-irc"@)
    } else if text::contains_spec(r, "thelounge"@) {
        Some("thelounge"@)
    } else if text::contains_spec(r, "revolution"@) {
        Some("revolution-irc"@)
    } else if text::contains_spec(r, "goguma"@) {
        Some("goguma"@)
    } else {
        None
    }
}

/// The name of a known client whose real name, in lower case, is given.
fn find_client(r: &str) -> (c: Option<&'static str>)
    ensures
        c.deep_view() == known_client(r@),
{
    if contains_str(r, "freeq web") {
        Some("freeq-web")
    } else if contains_str(r, "freeq ios") {
        Some("freeq-ios")
    } else if contains_str(r, "freeq android") {
        Some("freeq-android")
    } else if str_eq(r, "freeq") {
        Some("freeq-sdk")
    } else if contains_str(r, "irssi") {
        Some("irssi")
    } else if contains_str(r, "weechat") {
        Some("weechat")
    } else if contains_str(r, "hexchat") {
        Some("hexchat")
    } else if contains_str(r, "thunderbird") {
        Some("thunderbird")
    } else if contains_str(r, "textual") {
        Some("textual")
    } else if contains_str(r, "mutter") {
        Some("mutter")
    } else if contains_str(r, "irccloud") {
        Some("irccloud")
    } else if contains_str(r, "znc") {
        Some("znc")
    } else if contains_str(r, "kiwi") {
        Some("kiwi-irc")
    } else if contains_str(r, "thelounge") {
        Some("thelounge")
    } else if contains_str(r, "revolution") {
        Some("revolution-irc")
    } else if contains_str(r, "goguma") {
        Some("goguma")
    } else {
        None
    }
}

/// The first word of a text, if any.
pub open spec fn first_word(s: Seq<char>) -> Option<Seq<char>> {
    if text::words_spec(s).len() > 0 {
        Some(text::words_spec(s)[0])
    } else {
        None
    }
}

/// The client software that a real name gives away: the name of a known client, or the first word,
/// at most twenty characters of it.
pub open spec fn client_spec(realname: Seq<char>) -> Seq<char> {
    match known_client(text::lowercase(realname)) {
        Some(c) => c,
        None => text::head_spec(text::or_default(first_word(realname), "unknown"@), 20),
    }
}

/// Detect the client software from the USER realname field.
pub fn detect_client(realname: &str) -> (r: String)
    ensures
        r@ == client_spec(realname@),
{
    let lower = to_lowercase(realname);
    match find_client(lower.as_str()) {
        Some(c) => c.to_owned(),
        None => {
            let all = words(realname);
            if all.len() > 0 {
                head(all[0].as_str(), 20)
            } else {
                head("unknown", 20)
            }
        },
    }
}

/// State and connection once a USER command has been noted.
pub open spec fn user_noted(
    st: ServerStateView,
    c: ConnectionView,
    user: Seq<char>,
    realname: Seq<char>,
) -> (ServerStateView, ConnectionView) {
    let client = client_spec(realname);
    (
        ServerStateView {
            session_client_info: containers::map_put(st.session_client_info, c.id, client),
            ..st
        },
        ConnectionView {
            user: Some(user),
            realname: Some(realname),
            client_info: Some(client),
            ..c
        },
    )
}

/// What a USER command does.
pub open spec fn user_spec(
    st: ServerStateView,
    c: ConnectionView,
    user: Seq<char>,
    realname: Seq<char>,
    guest: u32,
    now: u64,
) -> (ServerStateView, ConnectionView, Seq<EffectView>) {
    let r = user_noted(st, c, user, realname);
    registration::registration_spec(r.0, r.1, guest, now)
}

/// Handles a USER command. `guest` is the number for a guest name, should registration be
/// completed and the user need one.
pub fn user_command(
    conn: &mut Connection,
    user: &str,
    realname: &str,
    guest: u32,
    now: u64,
    state: &mut ServerState,
    fx: &mut Vec<Effect>,
)
    ensures
        ({
            let r = user_spec(
                old(state).deep_view(),
                old(conn).deep_view(),
                user@,
                realname@,
                guest,
                now,
            );
            &&& final(state).deep_view() == r.0
            &&& final(conn).deep_view() == r.1
            &&& final(fx).deep_view() == old(fx).deep_view() + r.2
        }),
{
    let client = detect_client(realname);
    state.session_client_info.insert(conn.id.clone(), client.clone());
    conn.user = Some(user.to_owned());
    conn.realname = Some(realname.to_owned());
    conn.client_info = Some(client);
    complete_registration(conn, guest, now, state, fx);
}

/// Handles a USER command.
pub fn handle_user(
    conn: &mut Connection,
    user: &str,
    realname: &str,
    now: u64,
    state: &mut ServerState,
    fx: &mut Vec<Effect>,
)
    ensures
        exists|guest: u32|
            guest < 100000 && {
                let r = #[trigger] user_spec(
                    old(state).deep_view(),
                    old(conn).deep_view(),
                    user@,
                    realname@,
                    guest,
                    now,
                );
                &&& final(state).deep_view() == r.0
                &&& final(conn).deep_view() == r.1
                &&& final(fx).deep_view() == old(fx).deep_view() + r.2
            },
{
    let guest: u32 = random_guest();
    user_command(conn, user, realname, guest, now, state, fx);
}

} // verus!
