//! What holds of nicks, registration, and leaving.
use super::departure;
use super::nick;
use super::registration;
use super::session_laws;
use super::told;
use super::ConnectionView;
use crate::containers;
use crate::server::{ChannelStateView, EffectView, GhostSessionView, S2sEventView, ServerStateView};
use crate::text;
use crate::time;
use vstd::prelude::*;

verus! {

broadcast use {
    vstd::string::group_string_axioms,
    told::group_told,
    containers::lemma_map_put_get,
    containers::lemma_map_del_get,
    containers::lemma_set_insert_contains,
    containers::lemma_set_remove_contains,
};

// ── Looking things up ───────────────────────────────────────────────

proof fn lemma_push_get<V>(m: Seq<(Seq<char>, V)>, e: (Seq<char>, V), k: Seq<char>)
    ensures
        containers::map_get(m.push(e), k) == (if containers::map_get(m, k) is Some {
            containers::map_get(m, k)
        } else if e.0 == k {
            Some(e.1)
        } else {
            None
        }),
{
    containers::lemma_map_find(m, k);
    let n = m.push(e);
    assert forall|j: int| 0 <= j < m.len() implies #[trigger] n[j] == m[j] by {}
    if let Some(i) = containers::map_find(m, k) {
        containers::lemma_map_find_is(n, k, i);
    } else if e.0 == k {
        containers::lemma_map_find_is(n, k, m.len() as int);
    } else {
        containers::lemma_map_find_none(n, k);
    }
}

/// What is found in a map of which some entries were dropped.
proof fn lemma_filter_get<V>(m: Seq<(Seq<char>, V)>, p: spec_fn((Seq<char>, V)) -> bool, k: Seq<char>)
    requires
        containers::map_distinct(m),
    ensures
        containers::map_get(m.filter(p), k) == (match containers::map_get(m, k) {
            Some(v) => if p((k, v)) {
                Some(v)
            } else {
                None
            },
            None => None,
        }),
    decreases m.len(),
{
    reveal(Seq::filter);
    if m.len() > 0 {
        let t = m.drop_last();
        let e = m.last();
        assert(m =~= t.push(e));
        assert forall|i: int, j: int| 0 <= i < j < t.len() implies (#[trigger] t[i]).0 != (#[trigger] t[j]).0 by {
            assert(m[i] == t[i] && m[j] == t[j]);
        }
        lemma_filter_get(t, p, k);
        lemma_push_get(t, e, k);
        lemma_push_get(t.filter(p), e, k);
        containers::lemma_map_find(t, k);
        if let Some(i) = containers::map_find(t, k) {
            assert(m[i].0 != m[m.len() - 1].0);
        }
        assert(e == (e.0, e.1));
    }
}

/// Whether two sessions are in one channel.
pub open spec fn share_a_channel(st: ServerStateView, a: Seq<char>, b: Seq<char>) -> bool {
    exists|i: int|
        0 <= i < st.channels.len() && (#[trigger] st.channels[i]).1.members.contains(a) && st.channels[i].1.members.contains(b)
}

// ── NICK and USER ───────────────────────────────────────────────────

proof fn lemma_set_union(a: Seq<Seq<char>>, b: Seq<Seq<char>>, x: Seq<char>)
    ensures
        nick::set_union(a, b).contains(x) <==> a.contains(x) || b.contains(x),
    decreases b.len(),
{
    if b.len() > 0 {
        lemma_set_union(a, b.drop_last(), x);
        assert(b =~= b.drop_last().push(b.last()));
    }
}

proof fn lemma_neighbours(chs: Seq<(Seq<char>, ChannelStateView)>, session: Seq<char>, x: Seq<char>)
    ensures
        nick::neighbours(chs, session).contains(x) <==> x == session || exists|i: int|
            0 <= i < chs.len() && (#[trigger] chs[i]).1.members.contains(session) && chs[i].1.members.contains(x),
    decreases chs.len(),
{
    if chs.len() == 0 {
        assert(seq![session][0] == session);
    } else {
        let t = chs.drop_last();
        lemma_neighbours(t, session, x);
        lemma_set_union(nick::neighbours(t, session), chs.last().1.members, x);
        if exists|i: int|
            0 <= i < chs.len() && (#[trigger] chs[i]).1.members.contains(session) && chs[i].1.members.contains(x) {
            let i = choose|i: int|
                0 <= i < chs.len() && (#[trigger] chs[i]).1.members.contains(session) && chs[i].1.members.contains(x);
            if i < t.len() {
                assert(t[i] == chs[i]);
            }
        }
        if exists|i: int|
            0 <= i < t.len() && (#[trigger] t[i]).1.members.contains(session) && t[i].1.members.contains(x) {
            let i = choose|i: int|
                0 <= i < t.len() && (#[trigger] t[i]).1.members.contains(session) && t[i].1.members.contains(x);
            assert(chs[i] == t[i]);
        }
        assert(chs[chs.len() - 1] == chs.last());
    }
}

/// Whether a text can be a nick: 1 to 64 bytes without spaces, control characters and the signs that
/// have a meaning of their own.
pub open spec fn fit_for_a_nick(n: Seq<char>) -> bool {
    &&& 0 < n.len()
    &&& vstd::utf8::encode_utf8(n).len() <= 64
    &&& forall|i: int|
        0 <= i < n.len() ==> !text::is_control(#[trigger] n[i]) && n[i] != ' ' && n[i] != ',' && n[i] != '*' && n[i] != '?' && n[i]
            != '!' && n[i] != '@' && n[i] != '#' && n[i] != '&' && n[i] != ':'
}

/// A nick that cannot be one, that someone else uses, or that belongs to someone else is refused,
/// and nothing changes.
pub proof fn law_nick_is_refused(st: ServerStateView, c: ConnectionView, n: Seq<char>, guest: u32, now: u64)
    ensures
        ({
            let (after, conn, fx) = nick::nick_spec(st, c, n, guest, now);
            let holder = containers::map_get(st.nick_session, text::lowercase(n));
            let owner = containers::map_get(st.nick_owners, text::lowercase(n));
            let settled = !c.cap_negotiating && !c.sasl_in_progress;
            let own = holder is Some && containers::map_get(st.session_dids, holder->0) is Some && containers::map_get(
                st.session_dids,
                holder->0,
            ) == c.authenticated_did;
            &&& !fit_for_a_nick(n) ==> after == st && conn == c && fx == seq![
                session_laws::reply(c.id, st.server_name, "432"@, seq![c.nick_or_star(), n, "Erroneous Nickname"@]),
            ]
            &&& fit_for_a_nick(n) && holder is Some && !own && (settled || owner is None) ==> after == st && conn == c && fx == seq![
                session_laws::reply(c.id, st.server_name, "433"@, seq![c.nick_or_star(), n, "Nickname is already in use"@]),
            ]
            &&& fit_for_a_nick(n) && holder is None && settled && owner is Some && owner != c.authenticated_did ==> after == st
                && conn == c && fx == seq![
                session_laws::reply(
                    c.id,
                    st.server_name,
                    "433"@,
                    seq![c.nick_or_star(), n, "Nickname is registered to another identity"@],
                ),
            ]
            &&& fit_for_a_nick(n) && holder is Some && own ==> after == st && fx.len() == 0 && conn == (ConnectionView {
                nick: Some(n),
                ..c
            })
        }),
{
    assert(fit_for_a_nick(n) == nick::valid_nick(n)) by {
        if fit_for_a_nick(n) {
            assert forall|i: int| 0 <= i < n.len() implies !nick::bad_in_nick(#[trigger] n[i]) by {}
        }
        if nick::valid_nick(n) {
            assert forall|i: int| 0 <= i < n.len() implies !text::is_control(#[trigger] n[i]) && n[i] != ' ' && n[i] != ',' && n[i]
                != '*' && n[i] != '?' && n[i] != '!' && n[i] != '@' && n[i] != '#' && n[i] != '&' && n[i] != ':' by {
                assert(!nick::bad_in_nick(n[i]));
            }
        }
    }
}

/// A registered user gets a nick that is free and nobody else's: it leads to them, the old one to
/// nobody, all other nicks stay, and exactly the user and those in a channel with them are told.
pub proof fn law_nick_change_is_told(
    st: ServerStateView,
    c: ConnectionView,
    n: Seq<char>,
    old_nick: Seq<char>,
    guest: u32,
    now: u64,
    to: Seq<char>,
    line: Seq<char>,
    other: Seq<char>,
)
    requires
        fit_for_a_nick(n),
        c.registered,
        c.nick == Some(old_nick),
        containers::map_get(st.nick_session, text::lowercase(n)) is None,
        containers::map_get(st.nick_owners, text::lowercase(n)) matches Some(owner) ==> c.authenticated_did == Some(owner),
        containers::map_distinct(st.session_nick),
    ensures
        ({
            let (after, conn, fx) = nick::nick_spec(st, c, n, guest, now);
            &&& conn == (ConnectionView { nick: Some(n), ..c })
            &&& after == (ServerStateView { nick_session: after.nick_session, session_nick: after.session_nick, ..st })
            &&& containers::map_get(after.nick_session, text::lowercase(n)) == Some(c.id)
            &&& containers::map_get(after.session_nick, c.id) == Some(n)
            &&& text::lowercase(old_nick) != text::lowercase(n) ==> containers::map_get(after.nick_session, text::lowercase(old_nick))
                is None
            &&& other != text::lowercase(n) && other != text::lowercase(old_nick) ==> containers::map_get(after.nick_session, other)
                == containers::map_get(st.nick_session, other)
            &&& other != c.id ==> containers::map_get(after.session_nick, other) == (match containers::map_get(
                st.session_nick,
                other,
            ) {
                Some(m) => if text::lowercase(m) == text::lowercase(old_nick) {
                    None
                } else {
                    Some(m)
                },
                None => None,
            })
            &&& fx.contains(EffectView::Send { to, line }) <==> (to == c.id || share_a_channel(st, c.id, to)) && line == ":"@
                + (old_nick + "!~"@ + (match c.user {
                Some(u) => u,
                None => "u"@,
            }) + "@"@ + super::cloak(c.authenticated_did)) + " NICK :"@ + n + "\r\n"@
            &&& fx.contains(EffectView::S2s(S2sEventView::NickChange { old: old_nick, new: n }))
        }),
{
    reveal(ServerStateView::nick_set);
    reveal(ServerStateView::nick_freed);
    reveal(nick::granted_spec);
    assert(nick::valid_nick(n)) by {
        assert forall|i: int| 0 <= i < n.len() implies !nick::bad_in_nick(#[trigger] n[i]) by {}
    }
    lemma_neighbours(st.channels, c.id, to);
    lemma_filter_get(st.session_nick, |e: (Seq<char>, Seq<char>)| text::lowercase(e.1) != text::lowercase(old_nick), other);
    let rest = nick::renamed_fx(ConnectionView { nick: Some(n), ..c }, c.nick, n);
    assert(rest.contains(rest[1]));
    assert forall|i: int| 0 <= i < rest.len() implies !(#[trigger] rest[i] is Send) by {}
    assert(!rest.contains(EffectView::Send { to, line }));
}

/// USER sets the name of the user and their real name, and what client they use; where the
/// registration is not complete with it, nothing else changes.
pub proof fn law_user_is_noted(
    st: ServerStateView,
    c: ConnectionView,
    user: Seq<char>,
    realname: Seq<char>,
    guest: u32,
    now: u64,
)
    requires
        c.registered || c.cap_negotiating || c.sasl_in_progress || c.nick is None,
    ensures
        ({
            let (after, conn, fx) = nick::user_spec(st, c, user, realname, guest, now);
            &&& conn.user == Some(user)
            &&& conn.realname == Some(realname)
            &&& conn == (ConnectionView { user: conn.user, realname: conn.realname, client_info: conn.client_info, ..c })
            &&& conn.client_info is Some
            &&& after == (ServerStateView { session_client_info: after.session_client_info, ..st })
            &&& containers::map_get(after.session_client_info, c.id) == conn.client_info
            &&& fx.len() == 0
        }),
{
    reveal(registration::registration_spec);
}

// ── Registration ────────────────────────────────────────────────────

/// Registration is complete exactly where nothing is being negotiated and nick and user are known,
/// and it is complete once.
pub proof fn law_registration_is_complete_once(st: ServerStateView, c: ConnectionView, guest: u32, now: u64)
    ensures
        ({
            let (after, conn, fx) = registration::registration_spec(st, c, guest, now);
            let complete = !c.registered && !c.cap_negotiating && !c.sasl_in_progress && c.nick is Some && c.user is Some;
            &&& !complete ==> after == st && conn == c && fx.len() == 0
            &&& complete ==> conn.registered && conn.id == c.id && conn.authenticated_did == c.authenticated_did && conn.user == c.user
                && conn.ghost_channels is None && conn.nick is Some
            &&& complete ==> (c.iroh_endpoint_id matches Some(id) ==> containers::map_get(after.session_iroh_ids, c.id) == Some(id))
        }),
{
    reveal(registration::registration_spec);
    reveal(registration::ownership_spec);
    reveal(ServerStateView::nick_set);
    reveal(ServerStateView::nick_freed);
    let own = registration::ownership_spec(st, c, guest);
    lemma_attach_keeps_user(own.0, own.1);
}

proof fn lemma_attach_keeps_user(st: ServerStateView, c: ConnectionView)
    ensures
        ({
            let (after, conn, fx) = registration::attach_spec(st, c);
            &&& conn.id == c.id
            &&& conn.authenticated_did == c.authenticated_did
            &&& conn.user == c.user
            &&& conn.iroh_endpoint_id == c.iroh_endpoint_id
            &&& c.nick is Some ==> conn.nick is Some
            &&& after.server_name == st.server_name
            &&& after.motd == st.motd
            &&& after.boot_time == st.boot_time
            &&& after.session_iroh_ids == st.session_iroh_ids
        }),
{
    reveal(registration::attach_spec);
    reveal(ServerStateView::nick_set);
    reveal(ServerStateView::nick_freed);
    reveal(ServerStateView::session_unnamed);
}

/// Who has registered is welcomed with the four numerics, under the nick that they have now, and is
/// shown the message of the day, or that there is none; in the first five minutes after a start of
/// the server they are told of it.
pub proof fn law_registration_is_welcomed(st: ServerStateView, c: ConnectionView, guest: u32, now: u64)
    requires
        !c.registered && !c.cap_negotiating && !c.sasl_in_progress && c.nick is Some && c.user is Some,
    ensures
        ({
            let (after, conn, fx) = registration::registration_spec(st, c, guest, now);
            let nick = conn.nick->0;
            let s = st.server_name;
            let who = match c.authenticated_did {
                Some(did) => " (authenticated as "@ + did + ")"@,
                None => " (guest)"@,
            };
            &&& fx.contains(
                session_laws::reply(
                    c.id,
                    s,
                    "001"@,
                    seq![nick, "Welcome to "@ + s + ", "@ + nick + who],
                ),
            )
            &&& fx.contains(
                session_laws::reply(c.id, s, "002"@, seq![nick, "Your host is "@ + s + ", running freeq 0.1"@]),
            )
            &&& fx.contains(
                session_laws::reply(
                    c.id,
                    s,
                    "003"@,
                    seq![nick, "This server was started "@ + time::boot_time_text(st.boot_time)],
                ),
            )
            &&& fx.contains(session_laws::reply(c.id, s, "004"@, seq![nick, s, "freeq-0.1"@, "o"@, "o"@]))
            &&& st.motd is None ==> fx.contains(session_laws::reply(c.id, s, "422"@, seq![nick, "MOTD File is missing"@]))
            &&& st.motd matches Some(motd) ==> forall|i: int|
                0 <= i < text::lines_spec(motd).len() ==> fx.contains(
                    session_laws::reply(c.id, s, "372"@, seq![nick, "- "@ + #[trigger] text::lines_spec(motd)[i]]),
                )
        }),
{
    reveal(registration::registration_spec);
    reveal(registration::greeting_fx);
    reveal(registration::ownership_spec);
    reveal(ServerStateView::nick_set);
    reveal(ServerStateView::nick_freed);
    let own = registration::ownership_spec(st, c, guest);
    lemma_attach_keeps_user(own.0, own.1);
    let att = registration::attach_spec(own.0, own.1);
    let c2 = ConnectionView { registered: true, ..att.1 };
    let st2 = registration::with_iroh_id(att.0, c2);
    let w = registration::welcome_fx(st2, c2);
    let m = registration::motd_fx(st2, c2);
    assert(w.contains(w[0]) && w.contains(w[1]) && w.contains(w[2]) && w.contains(w[3]));
    let greeting = registration::greeting_fx(st2, c2, now);
    assert forall|e: EffectView| w.contains(e) || m.contains(e) implies #[trigger] greeting.contains(e) by {}
    let fx = registration::registration_spec(st, c, guest, now).2;
    assert forall|e: EffectView| #[trigger] greeting.contains(e) implies fx.contains(e) by {}
    assert(greeting.contains(w[0]) && greeting.contains(w[1]) && greeting.contains(w[2]) && greeting.contains(w[3]));
    let who = match c.authenticated_did {
        Some(did) => " (authenticated as "@ + did + ")"@,
        None => " (guest)"@,
    };
    assert(w[0] == session_laws::reply(
        c.id,
        st.server_name,
        "001"@,
        seq![c2.nick->0, "Welcome to "@ + st.server_name + ", "@ + c2.nick->0 + who],
    ));
    match st.motd {
        None => {
            assert(m.contains(m[0]));
            assert(greeting.contains(m[0]));
        },
        Some(motd) => {
            let lines = text::lines_spec(motd);
            assert forall|i: int| 0 <= i < lines.len() implies fx.contains(
                session_laws::reply(c.id, st.server_name, "372"@, seq![c2.nick->0, "- "@ + #[trigger] lines[i]]),
            ) by {
                assert(m[i + 1] == registration::motd_line(st2, c2, lines[i]));
                assert(m.contains(m[i + 1]));
                assert(greeting.contains(m[i + 1]));
            }
        },
    }
}

/// A session is told of a restart exactly in the first 300 seconds after it.
pub proof fn law_restart_is_told_for_five_minutes(st: ServerStateView, c: ConnectionView, now: u64)
    ensures
        now < st.boot_time + 300 ==> told::one_reply(registration::restart_fx(st, c, now), c.id),
        now >= st.boot_time + 300 ==> registration::restart_fx(st, c, now).len() == 0,
{
}

/// Who registers under a nick that is someone else's is renamed to a guest, and told so.
pub proof fn law_owned_nicks_are_taken_from_guests(st: ServerStateView, c: ConnectionView, n: Seq<char>, owner: Seq<char>, guest: u32)
    requires
        c.nick == Some(n),
        containers::map_get(st.nick_owners, text::lowercase(n)) == Some(owner),
    ensures
        ({
            let (after, conn, fx) = registration::ownership_spec(st, c, guest);
            let other = "Guest"@ + text::decimal_spec(guest as nat);
            &&& c.authenticated_did == Some(owner) ==> after == st && conn == c && fx.len() == 0
            &&& c.authenticated_did != Some(owner) ==> {
                &&& conn == (ConnectionView { nick: Some(other), ..c })
                &&& containers::map_get(after.nick_session, text::lowercase(other)) == Some(c.id)
                &&& containers::map_get(after.session_nick, c.id) == Some(other)
                &&& text::lowercase(other) != text::lowercase(n) ==> containers::map_get(after.nick_session, text::lowercase(n)) is None
                &&& told::one_reply(fx, c.id)
            }
        }),
{
    reveal(registration::ownership_spec);
    reveal(ServerStateView::nick_set);
    reveal(ServerStateView::nick_freed);
}

// ── Leaving ─────────────────────────────────────────────────────────

proof fn lemma_quit_fx(chs: Seq<(Seq<char>, ChannelStateView)>, s: Seq<char>, line: Seq<char>, e: EffectView)
    ensures
        departure::quit_fx(chs, s, line).contains(e) <==> (e matches EffectView::Send { to, line: l } && l == line && to != s && exists|
            i: int,
        |
            0 <= i < chs.len() && (#[trigger] chs[i]).1.members.contains(s) && chs[i].1.members.contains(to)),
    decreases chs.len(),
{
    if chs.len() > 0 {
        let t = chs.drop_last();
        lemma_quit_fx(t, s, line, e);
        if let EffectView::Send { to, line: l } = e {
            if exists|i: int| 0 <= i < chs.len() && (#[trigger] chs[i]).1.members.contains(s) && chs[i].1.members.contains(to) {
                let i = choose|i: int|
                    0 <= i < chs.len() && (#[trigger] chs[i]).1.members.contains(s) && chs[i].1.members.contains(to);
                if i < t.len() {
                    assert(t[i] == chs[i]);
                }
            }
            if exists|i: int| 0 <= i < t.len() && (#[trigger] t[i]).1.members.contains(s) && t[i].1.members.contains(to) {
                let i = choose|i: int|
                    0 <= i < t.len() && (#[trigger] t[i]).1.members.contains(s) && t[i].1.members.contains(to);
                assert(chs[i] == t[i]);
            }
            assert(chs[chs.len() - 1] == chs.last());
        }
    }
}

/// When a guest goes, exactly those who were in a channel with them are told, and the other servers
/// are.
pub proof fn law_quit_is_told(st: ServerStateView, c: ConnectionView, nick: Seq<char>, to: Seq<char>, line: Seq<char>)
    requires
        c.nick == Some(nick),
        c.authenticated_did is None,
    ensures
        ({
            let (after, fx, ghost_kept) = departure::disconnect_spec(st, c);
            &&& !ghost_kept
            &&& fx.contains(EffectView::Send { to, line }) <==> to != c.id && share_a_channel(st, c.id, to) && line == ":"@
                + c.hostmask() + " QUIT :Connection closed\r\n"@
            &&& fx.contains(EffectView::S2s(S2sEventView::Quit { nick, reason: "Connection closed"@ }))
        }),
{
    reveal(ServerStateView::nick_freed);
    lemma_quit_fx(st.channels, c.id, departure::quit_line(c.hostmask()), EffectView::Send { to, line });
}

/// A user who is still here with another session, or who may come back, goes without a word: the
/// first leaves the channels with this session alone, the second stays in them for a while.
pub proof fn law_users_go_quietly(st: ServerStateView, c: ConnectionView, did: Seq<char>, nick: Seq<char>, sessions: Seq<Seq<char>>)
    requires
        c.authenticated_did == Some(did),
        c.nick == Some(nick),
        containers::map_get(st.did_sessions, did) == Some(sessions),
    ensures
        ({
            let (after, fx, ghost_kept) = departure::disconnect_spec(st, c);
            let last = containers::set_remove(sessions, c.id).len() == 0;
            &&& fx.len() == 0
            &&& ghost_kept <==> last
            &&& last ==> after.channels == st.channels && containers::map_get(after.did_sessions, did) is None && containers::map_get(
                after.nick_session,
                text::lowercase(nick),
            ) == containers::map_get(st.nick_session, text::lowercase(nick)) && (containers::map_get(after.ghost_sessions, did)
                matches Some(g) && g.session_id == c.id && g.nick == nick && g.hostmask == c.hostmask())
            &&& !last ==> after.ghost_sessions == st.ghost_sessions && (containers::map_get(after.did_sessions, did) matches Some(rest)
                && forall|s: Seq<char>| #[trigger] rest.contains(s) <==> sessions.contains(s) && s != c.id)
        }),
{
}

proof fn lemma_channels_left_get(chs: Seq<(Seq<char>, ChannelStateView)>, s: Seq<char>, name: Seq<char>)
    requires
        containers::map_distinct(chs),
    ensures
        ({
            let left = departure::channels_left(chs, s);
            match containers::map_get(chs, name) {
                Some(a) => containers::map_get(left, name) == (if departure::worth_keeping(departure::channel_left(a, s)) {
                    Some(departure::channel_left(a, s))
                } else {
                    None
                }),
                None => containers::map_get(left, name) is None,
            }
        }),
    decreases chs.len(),
{
    if chs.len() > 0 {
        let t = chs.drop_last();
        let e = chs.last();
        assert(chs =~= t.push(e));
        assert forall|i: int, j: int| 0 <= i < j < t.len() implies (#[trigger] t[i]).0 != (#[trigger] t[j]).0 by {
            assert(chs[i] == t[i] && chs[j] == t[j]);
        }
        lemma_channels_left_get(t, s, name);
        lemma_push_get(t, e, name);
        lemma_push_get(departure::channels_left(t, s), (e.0, departure::channel_left(e.1, s)), name);
        containers::lemma_map_find(t, name);
        if let Some(i) = containers::map_find(t, name) {
            assert(chs[i].0 != chs[chs.len() - 1].0);
        }
    }
}

/// A session that leaves takes nobody with it: all others stay in every channel, with their status,
/// and a channel is forgotten only where nobody is left in it, nobody founded it, and it has neither
/// topic nor ban.
pub proof fn law_leaving_takes_out_one_session(st: ServerStateView, s: Seq<char>, name: Seq<char>, a: ChannelStateView, other: Seq<char>)
    requires
        containers::map_distinct(st.channels),
        containers::map_get(st.channels, name) == Some(a),
    ensures
        ({
            let after = departure::membership_cleaned(st, s);
            let b = containers::map_get(after.channels, name)->0;
            let kept = containers::map_get(after.channels, name) is Some;
            &&& after == (ServerStateView { channels: after.channels, ..st })
            &&& a.members.contains(other) && other != s ==> kept
            &&& a.remote_members.len() > 0 || a.founder_did is Some || a.topic is Some || a.bans.len() > 0 ==> kept
            &&& !kept ==> a.remote_members.len() == 0 && a.founder_did is None && a.topic is None && a.bans.len() == 0
            &&& kept ==> {
                &&& b == (ChannelStateView { members: b.members, ops: b.ops, halfops: b.halfops, voiced: b.voiced, ..a })
                &&& b.members.contains(other) <==> a.members.contains(other) && other != s
                &&& b.ops.contains(other) <==> a.ops.contains(other) && other != s
                &&& b.halfops.contains(other) <==> a.halfops.contains(other) && other != s
                &&& b.voiced.contains(other) <==> a.voiced.contains(other) && other != s
            }
        }),
{
    lemma_channels_left_get(st.channels, s, name);
    let left = departure::channel_left(a, s).members;
    assert(left.contains(other) ==> left.len() > 0);
}

/// Whoever goes leaves the channels in this way: a guest at once, and so does a session of a user who
/// has others.
pub proof fn law_gone_sessions_leave_the_channels(st: ServerStateView, c: ConnectionView)
    ensures
        !departure::disconnect_spec(st, c).2 ==> departure::disconnect_spec(st, c).0.channels == departure::membership_cleaned(
            st,
            c.id,
        ).channels,
{
    reveal(ServerStateView::nick_freed);
}

proof fn lemma_expiry_fx(chs: Seq<(Seq<char>, ChannelStateView)>, line: Seq<char>, e: EffectView)
    ensures
        departure::expiry_fx(chs, line).contains(e) <==> (e matches EffectView::Send { to, line: l } && l == line && exists|i: int|
            0 <= i < chs.len() && (#[trigger] chs[i]).1.members.contains(to)),
    decreases chs.len(),
{
    if chs.len() > 0 {
        let t = chs.drop_last();
        lemma_expiry_fx(t, line, e);
        if let EffectView::Send { to, line: l } = e {
            if exists|i: int| 0 <= i < chs.len() && (#[trigger] chs[i]).1.members.contains(to) {
                let i = choose|i: int| 0 <= i < chs.len() && (#[trigger] chs[i]).1.members.contains(to);
                if i < t.len() {
                    assert(t[i] == chs[i]);
                }
            }
            if exists|i: int| 0 <= i < t.len() && (#[trigger] t[i]).1.members.contains(to) {
                let i = choose|i: int| 0 <= i < t.len() && (#[trigger] t[i]).1.members.contains(to);
                assert(chs[i] == t[i]);
            }
            assert(chs[chs.len() - 1] == chs.last());
        }
    }
}

/// A user who has not come back in time leaves as a guest does, and this is told to everyone who is
/// in a channel; one who is back, or whose session was another, is left alone.
pub proof fn law_expiry_is_told(st: ServerStateView, did: Seq<char>, session: Seq<char>, g: GhostSessionView, to: Seq<char>, line: Seq<char>)
    requires
        containers::map_get(st.ghost_sessions, did) == Some(g),
    ensures
        ({
            let (after, fx) = departure::expiry_spec(st, did, session);
            &&& g.session_id != session ==> after == st && fx.len() == 0
            &&& g.session_id == session ==> {
                &&& fx.contains(EffectView::Send { to, line }) <==> line == ":"@ + g.hostmask + " QUIT :Connection closed\r\n"@
                    && exists|i: int| 0 <= i < st.channels.len() && (#[trigger] st.channels[i]).1.members.contains(to)
                &&& fx.contains(EffectView::S2s(S2sEventView::Quit { nick: g.nick, reason: "Connection closed"@ }))
                &&& after.channels == departure::membership_cleaned(st, session).channels
            }
        }),
{
    reveal(ServerStateView::nick_freed);
    lemma_expiry_fx(st.channels, departure::quit_line(g.hostmask), EffectView::Send { to, line });
}

} // verus!
