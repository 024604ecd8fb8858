//! What holds of PRIVMSG, NOTICE and TAGMSG: who hears a message, what is kept of it, and what edits
//! and deletions do.
use super::channel_laws;
use super::messaging;
use super::messaging::{LookupView, RouteView, VerdictView};
use super::told;
use super::ConnectionView;
use crate::containers;
use crate::crypto;
use crate::db;
use crate::db::{CoordinationEventRowView, MessageRowView};
use crate::irc;
use crate::irc::MessageView;
use crate::server::{
    ChannelStateView, EffectView, HistoryMessageView, PinnedMessageView, S2sEventView, ServerStateView, StoreOpView,
};
use crate::text;
use crate::time;
use vstd::prelude::*;

verus! {

broadcast use {
    vstd::string::group_string_axioms,
    told::group_told,
    containers::lemma_map_put_get,
    containers::lemma_map_del_get,
    containers::lemma_set_insert_contains,
    containers::lemma_set_remove_contains,
};

// ── What is heard ───────────────────────────────────────────────────

/// The line by which a session hears a message: without tags where it does not understand them, and
/// with the server time where it wants it.
pub open spec fn line_of(
    st: ServerStateView,
    to: Seq<char>,
    c: ConnectionView,
    command: Seq<char>,
    target: Seq<char>,
    body: Seq<char>,
    tags: Seq<(Seq<char>, Seq<char>)>,
    now: u64,
) -> Seq<char> {
    if !st.cap_message_tags.contains(to) {
        ":"@ + c.hostmask() + " "@ + command + " "@ + target + " :"@ + body + "\r\n"@
    } else {
        irc::wire(
            MessageView {
                tags: if st.cap_server_time.contains(to) {
                    containers::map_put(tags, "time"@, time::utc_text(now, "%Y-%m-%dT%H:%M:%S.000Z"@))
                } else {
                    tags
                },
                prefix: Some(c.hostmask()),
                command,
                params: seq![target, body],
            },
        )
    }
}

/// Whether the tags of a message are those that were sent with it, with its ID, and with the given
/// signature where its sender is authenticated.
pub open spec fn tags_kept(
    c: ConnectionView,
    sent: Seq<(Seq<char>, Seq<char>)>,
    msgid: Seq<char>,
    sig: Option<Seq<char>>,
    full: Seq<(Seq<char>, Seq<char>)>,
) -> bool {
    &&& containers::map_get(full, "msgid"@) == Some(msgid)
    &&& c.authenticated_did is Some ==> sig is Some && containers::map_get(full, "+freeq.at/sig"@) == sig
    &&& forall|k: Seq<char>|
        k != "msgid"@ && (c.authenticated_did is None || k != "+freeq.at/sig"@) ==> #[trigger] containers::map_get(full, k)
            == containers::map_get(sent, k)
}

/// The tags with which a message goes out.
spec fn full_tags(
    st: ServerStateView,
    c: ConnectionView,
    target: Seq<char>,
    body: Seq<char>,
    tags: Seq<(Seq<char>, Seq<char>)>,
    now: u64,
    msgid: Seq<char>,
) -> Seq<(Seq<char>, Seq<char>)> {
    messaging::signed_tags(
        tags,
        msgid,
        messaging::signature(st, c, target, body, now, containers::map_get(tags, "+freeq.at/sig"@)),
    )
}

/// The tags of a message are kept.
proof fn lemma_tags_kept(
    st: ServerStateView,
    c: ConnectionView,
    target: Seq<char>,
    body: Seq<char>,
    tags: Seq<(Seq<char>, Seq<char>)>,
    now: u64,
    msgid: Seq<char>,
)
    ensures
        tags_kept(
            c,
            tags,
            msgid,
            messaging::signature(st, c, target, body, now, containers::map_get(tags, "+freeq.at/sig"@)),
            full_tags(st, c, target, body, tags, now, msgid),
        ),
{
    reveal_strlit("msgid");
    reveal_strlit("+freeq.at/sig");
    assert("msgid"@.len() != "+freeq.at/sig"@.len());
}

/// Whoever is sent a message gets the line that suits them.
proof fn lemma_line(
    st: ServerStateView,
    to: Seq<char>,
    c: ConnectionView,
    command: Seq<char>,
    target: Seq<char>,
    body: Seq<char>,
    tags: Seq<(Seq<char>, Seq<char>)>,
    now: u64,
)
    ensures
        messaging::deliver_one(st, to, messaging::text_lines(tags, c, command, target, body, now)) == (EffectView::Send {
            to,
            line: line_of(st, to, c, command, target, body, tags, now),
        }),
{
}

/// Everyone of some sessions is sent the message, the sender only if it wants an echo, and nobody
/// else.
proof fn lemma_deliver(
    st: ServerStateView,
    sessions: Seq<Seq<char>>,
    sender: Seq<char>,
    l: messaging::LinesView,
    e: EffectView,
)
    ensures
        messaging::deliver_fx(st, sessions, sender, l).contains(e) <==> (e matches EffectView::Send { to, .. } && e
            == messaging::deliver_one(st, to, l) && sessions.contains(to) && (to != sender || st.cap_echo_message.contains(to))),
    decreases sessions.len(),
{
    if sessions.len() > 0 {
        let before = sessions.drop_last();
        lemma_deliver(st, before, sender, l, e);
        assert(sessions =~= before.push(sessions.last()));
        if let EffectView::Send { to, .. } = e {
            told::lemma_push_contains(before, sessions.last(), to);
        }
    }
}

/// Everyone of some sessions is sent the message, and nobody else.
proof fn lemma_deliver_all(st: ServerStateView, sessions: Seq<Seq<char>>, l: messaging::LinesView, e: EffectView)
    ensures
        messaging::deliver_all(st, sessions, l).contains(e) <==> (e matches EffectView::Send { to, .. } && e
            == messaging::deliver_one(st, to, l) && sessions.contains(to)),
{
    let fx = messaging::deliver_all(st, sessions, l);
    if fx.contains(e) {
        let i = choose|i: int| 0 <= i < fx.len() && fx[i] == e;
        assert(sessions[i] == e->to);
    }
    if let EffectView::Send { to, .. } = e {
        if e == messaging::deliver_one(st, to, l) && sessions.contains(to) {
            let i = choose|i: int| 0 <= i < sessions.len() && sessions[i] == to;
            assert(fx[i] == e);
        }
    }
}

/// What one element holds.
proof fn lemma_one<A>(y: A, x: A)
    ensures
        seq![y].contains(x) <==> x == y,
{
    assert(seq![y][0] == y);
}

// ── Messages to a channel ───────────────────────────────────────────

/// Whether nothing has changed but the count of a session's messages and one channel.
pub open spec fn only_counted(before: ServerStateView, after: ServerStateView, session: Seq<char>, channel: Seq<char>) -> bool {
    &&& after == (ServerStateView { channels: after.channels, msg_timestamps: after.msg_timestamps, ..before })
    &&& forall|other: Seq<char>| other != session ==> #[trigger] containers::map_get(after.msg_timestamps, other)
        == containers::map_get(before.msg_timestamps, other)
    &&& forall|other: Seq<char>| other != channel ==> #[trigger] containers::map_get(after.channels, other) == containers::map_get(
        before.channels,
        other,
    )
}

/// What a channel remembers once a message has come: the messages before it in their order and this
/// one last, the newest hundred of them.
pub open spec fn remembers(before: Seq<HistoryMessageView>, h: HistoryMessageView, after: Seq<HistoryMessageView>) -> bool {
    let all = before.push(h);
    &&& after.len() == (if all.len() <= 100 {
        all.len() as int
    } else {
        100
    })
    &&& forall|i: int| 0 <= i < after.len() ==> #[trigger] after[i] == all[all.len() - after.len() + i]
}

/// Whether a message to a channel may pass: its sender has not sent five messages within two
/// seconds, and is let speak there.
pub open spec fn may_speak(
    st: ServerStateView,
    c: ConnectionView,
    target: Seq<char>,
    a: ChannelStateView,
    tags: Seq<(Seq<char>, Seq<char>)>,
    now_ms: u64,
) -> bool {
    &&& containers::map_get(st.channels, target) == Some(a)
    &&& target.len() > 0 && (target[0] == '#' || target[0] == '&')
    &&& !(a.no_ext_msg && !a.members.contains(c.id))
    &&& !(a.moderated && !a.ops.contains(c.id) && !a.halfops.contains(c.id) && !a.voiced.contains(c.id))
    &&& !(a.encrypted_only && containers::map_get(tags, "+encrypted"@) is None)
    &&& sent_lately(st, c.id, now_ms) < 5
}

/// How many messages a session has sent within the last two seconds.
pub open spec fn sent_lately(st: ServerStateView, session: Seq<char>, now_ms: u64) -> nat {
    match containers::map_get(st.msg_timestamps, session) {
        Some(times) => times.filter(|t: u64| now_ms < t + 2000).len(),
        None => 0,
    }
}

/// The flood protection counts what was sent within two seconds.
proof fn lemma_floods(st: ServerStateView, session: Seq<char>, now_ms: u64)
    ensures
        messaging::floods(st, session, now_ms) == (sent_lately(st, session, now_ms) >= 5),
{
    let p = |t: u64| messaging::in_window(t, now_ms);
    let q = |t: u64| now_ms < t + 2000;
    assert(p =~= q);
    match containers::map_get(st.msg_timestamps, session) {
        Some(times) => {
            assert(messaging::recent(times, now_ms) == times.filter(q));
        },
        None => {
            reveal(Seq::filter);
            assert(messaging::recent(Seq::<u64>::empty(), now_ms).len() == 0);
        },
    }
}

/// A message counts once it has passed: the next one finds it among those that were sent lately. One
/// that is refused for flooding does not count.
pub proof fn law_messages_are_counted(st: ServerStateView, session: Seq<char>, now_ms: u64)
    ensures
        ({
            let after = messaging::counted(st, session, now_ms);
            &&& sent_lately(st, session, now_ms) < 5 ==> sent_lately(after, session, now_ms) == sent_lately(st, session, now_ms) + 1
            &&& sent_lately(st, session, now_ms) >= 5 ==> sent_lately(after, session, now_ms) == sent_lately(st, session, now_ms)
        }),
{
    lemma_floods(st, session, now_ms);
    let p = |t: u64| messaging::in_window(t, now_ms);
    let q = |t: u64| now_ms < t + 2000;
    assert(p =~= q);
    let times = messaging::sent_times(st, session);
    let kept = messaging::recent(times, now_ms);
    assert(kept == times.filter(q));
    lemma_filter_again(times, q);
    reveal(Seq::filter);
    assert(kept.push(now_ms).drop_last() =~= kept);
    assert(Seq::<u64>::empty().filter(q).len() == 0);
}

/// Filtering twice is filtering once.
proof fn lemma_filter_again(s: Seq<u64>, p: spec_fn(u64) -> bool)
    ensures
        s.filter(p).filter(p) == s.filter(p),
    decreases s.len(),
{
    reveal(Seq::filter);
    if s.len() > 0 {
        lemma_filter_again(s.drop_last(), p);
        let t = s.drop_last().filter(p);
        assert(t.push(s.last()).drop_last() =~= t);
    }
}

/// A message to a channel that may pass is heard by exactly the members, by its sender only if they
/// want an echo; each gets it with its text and its tags in the form that suits them. It becomes the
/// newest that the channel remembers, it is stored and relayed, and nothing else changes.
pub proof fn law_channel_message_is_heard(
    st: ServerStateView,
    c: ConnectionView,
    target: Seq<char>,
    body: Seq<char>,
    tags: Seq<(Seq<char>, Seq<char>)>,
    now: u64,
    now_ms: u64,
    msgid: Seq<char>,
    verdict: VerdictView,
    found: LookupView,
    route: RouteView,
    a: ChannelStateView,
    said: Seq<char>,
    to: Seq<char>,
)
    requires
        may_speak(st, c, target, a, tags, now_ms),
        containers::map_get(tags, "+draft/edit"@) is None,
        !verdict.suppress,
        said == (match verdict.rewrite_text {
            Some(t) => t,
            None => body,
        }),
    ensures
        ({
            let (after, fx) = messaging::privmsg_spec(
                st,
                c,
                "PRIVMSG"@,
                target,
                body,
                tags,
                now,
                now_ms,
                msgid,
                verdict,
                found,
                route,
            );
            let b = containers::map_get(after.channels, target)->0;
            let hears = a.members.contains(to) && (to != c.id || st.cap_echo_message.contains(to));
            let sig = messaging::signature(st, c, target, said, now, containers::map_get(tags, "+freeq.at/sig"@));
            exists|full: Seq<(Seq<char>, Seq<char>)>|
                {
                    &&& #[trigger] tags_kept(c, tags, msgid, sig, full)
                    &&& hears <==> fx.contains(
                        EffectView::Send { to, line: line_of(st, to, c, "PRIVMSG"@, target, said, full, now) },
                    )
                    &&& !hears ==> forall|line: Seq<char>| !#[trigger] fx.contains(EffectView::Send { to, line })
                    &&& containers::map_get(after.channels, target) is Some
                    &&& only_counted(st, after, c.id, target)
                    &&& b == (ChannelStateView { history: b.history, ..a })
                    &&& remembers(
                        a.history,
                        HistoryMessageView {
                            from: c.hostmask(),
                            text: said,
                            timestamp: now,
                            tags: full,
                            msgid: Some(msgid),
                        },
                        b.history,
                    )
                    &&& fx.contains(
                        EffectView::Store(
                            StoreOpView::InsertMessage {
                                channel: target,
                                sender: c.hostmask(),
                                text: said,
                                timestamp: now,
                                tags,
                                msgid: Some(msgid),
                                sender_did: c.authenticated_did,
                            },
                        ),
                    )
                    &&& st.max_messages_per_channel > 0 <==> fx.contains(
                        EffectView::Store(
                            StoreOpView::PruneMessages { channel: target, keep: st.max_messages_per_channel },
                        ),
                    )
                    &&& fx.contains(
                        EffectView::S2s(
                            S2sEventView::Privmsg {
                                from: c.nick_or_star(),
                                target,
                                text: said,
                                msgid: Some(msgid),
                                sig: containers::map_get(full, "+freeq.at/sig"@),
                            },
                        ),
                    )
                }
        }),
{
    lemma_floods(st, c.id, now_ms);
    let st1 = messaging::counted(st, c.id, now_ms);
    let full = full_tags(st1, c, target, said, tags, now, msgid);
    lemma_tags_kept(st1, c, target, said, tags, now, msgid);
    let (after, fx) = messaging::privmsg_spec(
        st,
        c,
        "PRIVMSG"@,
        target,
        body,
        tags,
        now,
        now_ms,
        msgid,
        verdict,
        found,
        route,
    );
    let lines = messaging::text_lines(full, c, "PRIVMSG"@, target, said, now);
    let stored = messaging::stored_fx(st1, c, target, said, tags, now, msgid);
    let sent = messaging::deliver_fx(after, a.members, c.id, lines);
    let event = EffectView::S2s(
        S2sEventView::Privmsg {
            from: c.nick_or_star(),
            target,
            text: said,
            msgid: Some(msgid),
            sig: containers::map_get(full, "+freeq.at/sig"@),
        },
    );
    assert(fx == stored + sent + seq![event]);
    lemma_line(after, to, c, "PRIVMSG"@, target, said, full, now);
    let mine = line_of(st, to, c, "PRIVMSG"@, target, said, full, now);
    assert forall|e: EffectView| #[trigger] sent.contains(e) <==> (e matches EffectView::Send { to, .. } && e
        == messaging::deliver_one(after, to, lines) && a.members.contains(to) && (to != c.id || after.cap_echo_message.contains(to))) by {
        lemma_deliver(after, a.members, c.id, lines, e);
    }
    assert forall|e: EffectView| #[trigger] seq![event].contains(e) <==> e == event by {
        lemma_one(event, e);
    }
    let insert = EffectView::Store(
        StoreOpView::InsertMessage {
            channel: target,
            sender: c.hostmask(),
            text: said,
            timestamp: now,
            tags,
            msgid: Some(msgid),
            sender_did: c.authenticated_did,
        },
    );
    let prune = EffectView::Store(StoreOpView::PruneMessages { channel: target, keep: st.max_messages_per_channel });
    assert forall|e: EffectView| #[trigger] stored.contains(e) <==> e == insert || (st.max_messages_per_channel > 0 && e == prune) by {
        lemma_one(insert, e);
        lemma_one(prune, e);
        assert(!Seq::<EffectView>::empty().contains(e));
    }
    assert(fx.contains(insert));
    assert(fx.contains(event));
    let sig = messaging::signature(st, c, target, said, now, containers::map_get(tags, "+freeq.at/sig"@));
    assert(tags_kept(c, tags, msgid, sig, full));
}

/// A NOTICE to a channel that may pass is heard by exactly the members, like any other message, but
/// it is neither remembered nor stored nor relayed.
pub proof fn law_channel_notice_is_heard(
    st: ServerStateView,
    c: ConnectionView,
    target: Seq<char>,
    body: Seq<char>,
    tags: Seq<(Seq<char>, Seq<char>)>,
    now: u64,
    now_ms: u64,
    msgid: Seq<char>,
    verdict: VerdictView,
    found: LookupView,
    route: RouteView,
    a: ChannelStateView,
    said: Seq<char>,
    to: Seq<char>,
)
    requires
        may_speak(st, c, target, a, tags, now_ms),
        containers::map_get(tags, "+draft/edit"@) is None,
        !verdict.suppress,
        said == (match verdict.rewrite_text {
            Some(t) => t,
            None => body,
        }),
    ensures
        ({
            let (after, fx) = messaging::privmsg_spec(
                st,
                c,
                "NOTICE"@,
                target,
                body,
                tags,
                now,
                now_ms,
                msgid,
                verdict,
                found,
                route,
            );
            let hears = a.members.contains(to) && (to != c.id || st.cap_echo_message.contains(to));
            let sig = messaging::signature(st, c, target, said, now, containers::map_get(tags, "+freeq.at/sig"@));
            exists|full: Seq<(Seq<char>, Seq<char>)>|
                {
                    &&& #[trigger] tags_kept(c, tags, msgid, sig, full)
                    &&& hears <==> fx.contains(
                        EffectView::Send { to, line: line_of(st, to, c, "NOTICE"@, target, said, full, now) },
                    )
                    &&& forall|e: EffectView| #[trigger] fx.contains(e) ==> e is Send
                    &&& only_counted(st, after, c.id, target)
                    &&& containers::map_get(after.channels, target) == Some(a)
                }
        }),
{
    lemma_floods(st, c.id, now_ms);
    reveal_strlit("NOTICE");
    reveal_strlit("PRIVMSG");
    assert("NOTICE"@.len() != "PRIVMSG"@.len());
    let st1 = messaging::counted(st, c.id, now_ms);
    let full = full_tags(st1, c, target, said, tags, now, msgid);
    lemma_tags_kept(st1, c, target, said, tags, now, msgid);
    let (after, fx) = messaging::privmsg_spec(
        st,
        c,
        "NOTICE"@,
        target,
        body,
        tags,
        now,
        now_ms,
        msgid,
        verdict,
        found,
        route,
    );
    let lines = messaging::text_lines(full, c, "NOTICE"@, target, said, now);
    assert(fx == messaging::deliver_fx(after, a.members, c.id, lines));
    lemma_line(after, to, c, "NOTICE"@, target, said, full, now);
    assert forall|e: EffectView| #[trigger] fx.contains(e) implies e is Send by {
        lemma_deliver(after, a.members, c.id, lines, e);
    }
    lemma_deliver(
        after,
        a.members,
        c.id,
        lines,
        EffectView::Send { to, line: line_of(st, to, c, "NOTICE"@, target, said, full, now) },
    );
    let sig = messaging::signature(st, c, target, said, now, containers::map_get(tags, "+freeq.at/sig"@));
    assert(tags_kept(c, tags, msgid, sig, full));
}

/// A message to a channel that may not pass is answered with one reply that says why, unless it is a
/// NOTICE; the channel does not change, and nobody else hears of it.
pub proof fn law_refused_channel_message_is_answered(
    st: ServerStateView,
    c: ConnectionView,
    command: Seq<char>,
    target: Seq<char>,
    body: Seq<char>,
    tags: Seq<(Seq<char>, Seq<char>)>,
    now: u64,
    now_ms: u64,
    msgid: Seq<char>,
    verdict: VerdictView,
    found: LookupView,
    route: RouteView,
    a: ChannelStateView,
)
    requires
        containers::map_get(st.channels, target) == Some(a),
        target.len() > 0 && (target[0] == '#' || target[0] == '&'),
        !may_speak(st, c, target, a, tags, now_ms),
        containers::map_get(tags, "+draft/edit"@) is None,
    ensures
        ({
            let (after, fx) = messaging::privmsg_spec(
                st,
                c,
                command,
                target,
                body,
                tags,
                now,
                now_ms,
                msgid,
                verdict,
                found,
                route,
            );
            &&& after.channels == st.channels
            &&& only_counted(st, after, c.id, target)
            &&& command == "NOTICE"@ ==> fx.len() == 0
            &&& command != "NOTICE"@ ==> told::one_reply(fx, c.id)
        }),
{
    lemma_floods(st, c.id, now_ms);
}

// ── Signatures ──────────────────────────────────────────────────────

/// A message of a guest is not signed. One of an authenticated user is signed over the user's DID,
/// the target, the text and the time: by the user's own signature where that is valid under the key
/// that the session has registered, else by the server.
pub proof fn law_signature_covers_the_message(
    st: ServerStateView,
    c: ConnectionView,
    target: Seq<char>,
    body: Seq<char>,
    ts: u64,
    client_sig: Option<Seq<char>>,
)
    ensures
        ({
            let r = messaging::signature(st, c, target, body, ts, client_sig);
            match c.authenticated_did {
                None => r is None,
                Some(did) => {
                    let signed = vstd::utf8::encode_utf8(
                        did + "\0"@ + target + "\0"@ + body + "\0"@ + text::decimal_spec(ts as nat),
                    );
                    let own = client_sig is Some && containers::map_get(st.session_msg_keys, c.id) is Some
                        && crypto::base64url_decoded(client_sig->0) is Some && crypto::base64url_decoded(client_sig->0)->0.len() == 64
                        && crypto::ed25519_valid(
                        containers::map_get(st.session_msg_keys, c.id)->0,
                        signed,
                        crypto::base64url_decoded(client_sig->0)->0,
                    );
                    r == Some(
                        if own {
                            client_sig->0
                        } else {
                            crypto::base64url_encoded(crypto::ed25519_signature(st.signing_key, signed))
                        },
                    )
                },
            }
        }),
{
}

// ── Private messages ────────────────────────────────────────────────

/// The sessions of the user who has a session: all with the same DID, or that one alone.
pub open spec fn sessions_with(st: ServerStateView, did: Option<Seq<char>>, session: Seq<char>) -> Seq<Seq<char>> {
    if did is Some && containers::map_get(st.did_sessions, did->0) is Some {
        containers::map_get(st.did_sessions, did->0)->0
    } else {
        seq![session]
    }
}

/// Whether a target is a nick and no channel.
pub open spec fn is_nick(target: Seq<char>) -> bool {
    !(target.len() > 0 && (target[0] == '#' || target[0] == '&'))
}

/// A private message to a user who is here is heard by every session of that user and by every
/// session of the sender, by the sending one only if it wants an echo, and by nobody else. Who is
/// away is told of to the sender. It is kept under the key of the two DIDs exactly where both sides
/// have one, and the server changes in nothing but the count.
pub proof fn law_private_message_is_heard(
    st: ServerStateView,
    c: ConnectionView,
    command: Seq<char>,
    target: Seq<char>,
    body: Seq<char>,
    tags: Seq<(Seq<char>, Seq<char>)>,
    now: u64,
    now_ms: u64,
    msgid: Seq<char>,
    verdict: VerdictView,
    found: LookupView,
    session: Seq<char>,
    to: Seq<char>,
)
    requires
        is_nick(target),
        sent_lately(st, c.id, now_ms) < 5,
        containers::map_get(tags, "+draft/edit"@) is None,
    ensures
        ({
            let (after, fx) = messaging::privmsg_spec(
                st,
                c,
                command,
                target,
                body,
                tags,
                now,
                now_ms,
                msgid,
                verdict,
                found,
                RouteView::Local(session),
            );
            let theirs = sessions_with(st, containers::map_get(st.session_dids, session), session);
            let mine = sessions_with(st, c.authenticated_did, c.id);
            let hears = theirs.contains(to) || (mine.contains(to) && (to != c.id || st.cap_echo_message.contains(to)));
            let sig = messaging::signature(st, c, target, body, now, containers::map_get(tags, "+freeq.at/sig"@));
            let owner = containers::map_get(st.nick_owners, text::lowercase(target));
            exists|full: Seq<(Seq<char>, Seq<char>)>|
                {
                    &&& #[trigger] tags_kept(c, tags, msgid, sig, full)
                    &&& hears ==> fx.contains(
                        EffectView::Send { to, line: line_of(st, to, c, command, target, body, full, now) },
                    )
                    &&& !hears && to != c.id ==> forall|line: Seq<char>| !#[trigger] fx.contains(EffectView::Send { to, line })
                    &&& containers::map_get(st.session_away, session) matches Some(away) ==> fx.contains(
                        EffectView::Send {
                            to: c.id,
                            line: irc::wire(
                                irc::server_msg(st.server_name, "301"@, seq![c.nick_or_star(), target, away]),
                            ),
                        },
                    )
                    &&& forall|op: StoreOpView| #[trigger]
                        fx.contains(EffectView::Store(op)) <==> c.authenticated_did is Some && owner is Some && op
                            == (StoreOpView::InsertMessage {
                            channel: db::dm_key(c.authenticated_did->0, owner->0),
                            sender: c.hostmask(),
                            text: body,
                            timestamp: now,
                            tags: full,
                            msgid: Some(msgid),
                            sender_did: c.authenticated_did,
                        })
                    &&& after.channels == st.channels
                    &&& only_counted(st, after, c.id, target)
                }
        }),
{
    lemma_floods(st, c.id, now_ms);
    let st1 = messaging::counted(st, c.id, now_ms);
    let full = full_tags(st1, c, target, body, tags, now, msgid);
    lemma_tags_kept(st1, c, target, body, tags, now, msgid);
    let (after, fx) = messaging::privmsg_spec(
        st,
        c,
        command,
        target,
        body,
        tags,
        now,
        now_ms,
        msgid,
        verdict,
        found,
        RouteView::Local(session),
    );
    let lines = messaging::text_lines(full, c, command, target, body, now);
    let theirs = sessions_with(st, containers::map_get(st.session_dids, session), session);
    let mine = sessions_with(st, c.authenticated_did, c.id);
    assert(theirs == messaging::user_sessions(st1, st1.did_of(session), session));
    assert(mine == messaging::user_sessions(st1, c.authenticated_did, c.id));
    let away_fx = match containers::map_get(st.session_away, session) {
        Some(away) => seq![
            EffectView::Send {
                to: c.id,
                line: irc::wire(irc::server_msg(st.server_name, "301"@, seq![c.nick_or_star(), target, away])),
            },
        ],
        None => Seq::empty(),
    };
    let kept = match messaging::conversation_key(st1, c, target) {
        Some(key) => seq![
            EffectView::Store(
                StoreOpView::InsertMessage {
                    channel: key,
                    sender: c.hostmask(),
                    text: body,
                    timestamp: now,
                    tags: full,
                    msgid: Some(msgid),
                    sender_did: c.authenticated_did,
                },
            ),
        ],
        None => Seq::empty(),
    };
    let one = messaging::deliver_all(st1, theirs, lines);
    let two = messaging::deliver_fx(st1, mine, c.id, lines);
    assert(fx == away_fx + one + two + kept);
    lemma_line(st1, to, c, command, target, body, full, now);
    assert forall|e: EffectView| #[trigger] one.contains(e) <==> (e matches EffectView::Send { to, .. } && e
        == messaging::deliver_one(st1, to, lines) && theirs.contains(to)) by {
        lemma_deliver_all(st1, theirs, lines, e);
    }
    assert forall|e: EffectView| #[trigger] two.contains(e) <==> (e matches EffectView::Send { to, .. } && e
        == messaging::deliver_one(st1, to, lines) && mine.contains(to) && (to != c.id || st1.cap_echo_message.contains(to))) by {
        lemma_deliver(st1, mine, c.id, lines, e);
    }
    assert forall|e: EffectView| #[trigger] away_fx.contains(e) <==> (away_fx.len() > 0 && e == away_fx[0]) by {
        if away_fx.len() > 0 {
            lemma_one(away_fx[0], e);
            assert(away_fx =~= seq![away_fx[0]]);
        }
    }
    assert forall|e: EffectView| #[trigger] kept.contains(e) <==> (kept.len() > 0 && e == kept[0]) by {
        if kept.len() > 0 {
            lemma_one(kept[0], e);
            assert(kept =~= seq![kept[0]]);
        }
    }
    let sig = messaging::signature(st, c, target, body, now, containers::map_get(tags, "+freeq.at/sig"@));
    assert(tags_kept(c, tags, msgid, sig, full));
}

/// A private message that is relayed is echoed to the sender if they want it; one to a nick that
/// nobody has is answered with one error, unless it is a NOTICE. Nobody else is sent anything.
pub proof fn law_private_message_elsewhere(
    st: ServerStateView,
    c: ConnectionView,
    command: Seq<char>,
    target: Seq<char>,
    body: Seq<char>,
    tags: Seq<(Seq<char>, Seq<char>)>,
    now: u64,
    now_ms: u64,
    msgid: Seq<char>,
    verdict: VerdictView,
    found: LookupView,
    route: RouteView,
    to: Seq<char>,
    line: Seq<char>,
)
    requires
        is_nick(target),
        sent_lately(st, c.id, now_ms) < 5,
        containers::map_get(tags, "+draft/edit"@) is None,
        route is Relayed || route is Unreachable,
    ensures
        ({
            let fx = messaging::privmsg_spec(
                st,
                c,
                command,
                target,
                body,
                tags,
                now,
                now_ms,
                msgid,
                verdict,
                found,
                route,
            ).1;
            let sig = messaging::signature(st, c, target, body, now, containers::map_get(tags, "+freeq.at/sig"@));
            exists|full: Seq<(Seq<char>, Seq<char>)>|
                {
                    &&& #[trigger] tags_kept(c, tags, msgid, sig, full)
                    &&& fx.contains(EffectView::Send { to, line }) <==> to == c.id && if route is Relayed {
                        st.cap_echo_message.contains(c.id) && line == line_of(st, c.id, c, command, target, body, full, now)
                    } else {
                        command != "NOTICE"@ && line == irc::wire(
                            irc::server_msg(
                                st.server_name,
                                "401"@,
                                seq![c.nick_or_star(), target, "No such nick/channel"@],
                            ),
                        )
                    }
                }
        }),
{
    lemma_floods(st, c.id, now_ms);
    let st1 = messaging::counted(st, c.id, now_ms);
    let full = full_tags(st1, c, target, body, tags, now, msgid);
    lemma_tags_kept(st1, c, target, body, tags, now, msgid);
    let lines = messaging::text_lines(full, c, command, target, body, now);
    lemma_line(st1, c.id, c, command, target, body, full, now);
    let fx = messaging::privmsg_spec(
        st,
        c,
        command,
        target,
        body,
        tags,
        now,
        now_ms,
        msgid,
        verdict,
        found,
        route,
    ).1;
    let head = messaging::private_fx(st1, c, target, lines, route, command == "NOTICE"@);
    let tail = fx.skip(head.len() as int);
    assert(fx =~= head + tail);
    assert(tail.len() <= 1 && (tail.len() == 1 ==> tail[0] is Store));
    let e = EffectView::Send { to, line };
    if head.len() > 0 {
        assert(head =~= seq![head[0]]);
        lemma_one(head[0], e);
    }
    if tail.len() > 0 {
        assert(tail =~= seq![tail[0]]);
        lemma_one(tail[0], e);
    }
    let sig = messaging::signature(st, c, target, body, now, containers::map_get(tags, "+freeq.at/sig"@));
    assert(tags_kept(c, tags, msgid, sig, full));
}

// ── Edits ───────────────────────────────────────────────────────────

/// Whether a history is as before but for the text of the first message with an ID.
pub open spec fn text_replaced(
    before: Seq<HistoryMessageView>,
    after: Seq<HistoryMessageView>,
    msgid: Seq<char>,
    body: Seq<char>,
) -> bool {
    &&& after.len() == before.len()
    &&& forall|i: int|
        0 <= i < before.len() ==> #[trigger] after[i] == (if before[i].msgid == Some(msgid) && (forall|j: int|
            0 <= j < i ==> (#[trigger] before[j]).msgid != Some(msgid)) {
            HistoryMessageView { text: body, ..before[i] }
        } else {
            before[i]
        })
}

/// Where a history holds a message.
proof fn lemma_history_find(h: Seq<HistoryMessageView>, msgid: Seq<char>)
    ensures
        match messaging::history_find(h, msgid) {
            Some(i) => 0 <= i < h.len() && h[i].msgid == Some(msgid) && forall|j: int|
                0 <= j < i ==> (#[trigger] h[j]).msgid != Some(msgid),
            None => forall|j: int| 0 <= j < h.len() ==> (#[trigger] h[j]).msgid != Some(msgid),
        },
    decreases h.len(),
{
    if h.len() > 0 {
        lemma_history_find(h.drop_last(), msgid);
        assert forall|j: int| 0 <= j < h.len() - 1 implies h.drop_last()[j] == #[trigger] h[j] by {}
    }
}

/// An edit replaces the text of the first message with that ID.
proof fn lemma_history_edited(h: Seq<HistoryMessageView>, msgid: Seq<char>, body: Seq<char>)
    ensures
        text_replaced(h, messaging::history_edited(h, msgid, body), msgid, body),
{
    lemma_history_find(h, msgid);
}

/// Whether the user wrote a message: by DID where the message has one, else by nick.
pub open spec fn wrote(row: MessageRowView, c: ConnectionView) -> bool {
    match row.sender_did {
        Some(did) => c.authenticated_did == Some(did),
        None => messaging::is_author(row, c),
    }
}

/// An edit in a channel of a message that is the user's own and not deleted is heard by exactly the
/// members, by the editor only if they want an echo, with the new text and the tags of the edit; the
/// channel remembers the new text in the old place, and the edit is stored next to the original and
/// relayed. Nothing else changes.
pub proof fn law_edit_is_heard(
    st: ServerStateView,
    c: ConnectionView,
    command: Seq<char>,
    target: Seq<char>,
    body: Seq<char>,
    original: Seq<char>,
    tags: Seq<(Seq<char>, Seq<char>)>,
    now: u64,
    now_ms: u64,
    msgid: Seq<char>,
    verdict: VerdictView,
    found: LookupView,
    route: RouteView,
    a: ChannelStateView,
    row: MessageRowView,
    to: Seq<char>,
)
    requires
        containers::map_get(st.channels, target) == Some(a),
        target.len() > 0 && (target[0] == '#' || target[0] == '&'),
        containers::map_get(tags, "+draft/edit"@) == Some(original),
        found.by_target == Some(row),
        wrote(row, c),
        row.deleted_at is None,
    ensures
        ({
            let (after, fx) = messaging::privmsg_spec(
                st,
                c,
                command,
                target,
                body,
                tags,
                now,
                now_ms,
                msgid,
                verdict,
                found,
                route,
            );
            let b = containers::map_get(after.channels, target)->0;
            let hears = a.members.contains(to) && (to != c.id || st.cap_echo_message.contains(to));
            let sig = messaging::signature(st, c, target, body, now, containers::map_get(tags, "+freeq.at/sig"@));
            exists|full: Seq<(Seq<char>, Seq<char>)>|
                {
                    &&& #[trigger] tags_kept(c, tags, msgid, sig, full)
                    &&& containers::map_get(full, "+draft/edit"@) == Some(original)
                    &&& hears <==> fx.contains(
                        EffectView::Send { to, line: line_of(st, to, c, "PRIVMSG"@, target, body, full, now) },
                    )
                    &&& !hears ==> forall|line: Seq<char>| !#[trigger] fx.contains(EffectView::Send { to, line })
                    &&& containers::map_get(after.channels, target) is Some
                    &&& channel_laws::only_channel_changed(st, after, target)
                    &&& b == (ChannelStateView { history: b.history, ..a })
                    &&& text_replaced(a.history, b.history, original, body)
                    &&& forall|op: StoreOpView| #[trigger]
                        fx.contains(EffectView::Store(op)) <==> op == (StoreOpView::InsertEdit {
                            channel: target,
                            sender: c.hostmask(),
                            text: body,
                            timestamp: now,
                            tags: containers::map_del(tags, "msgid"@),
                            msgid,
                            replaces: original,
                            sender_did: c.authenticated_did,
                        })
                    &&& fx.contains(
                        EffectView::S2s(
                            S2sEventView::Privmsg {
                                from: c.nick_or_star(),
                                target,
                                text: body,
                                msgid: Some(msgid),
                                sig: containers::map_get(full, "+freeq.at/sig"@),
                            },
                        ),
                    )
                }
        }),
{
    lemma_history_edited(a.history, original, body);
    let full = full_tags(st, c, target, body, tags, now, msgid);
    lemma_tags_kept(st, c, target, body, tags, now, msgid);
    reveal_strlit("+draft/edit");
    reveal_strlit("msgid");
    reveal_strlit("+freeq.at/sig");
    assert("+draft/edit"@.len() == 11 && "msgid"@.len() == 5 && "+freeq.at/sig"@.len() == 13);
    let (after, fx) = messaging::privmsg_spec(
        st,
        c,
        command,
        target,
        body,
        tags,
        now,
        now_ms,
        msgid,
        verdict,
        found,
        route,
    );
    let lines = messaging::text_lines(full, c, "PRIVMSG"@, target, body, now);
    let stored = EffectView::Store(
        StoreOpView::InsertEdit {
            channel: target,
            sender: c.hostmask(),
            text: body,
            timestamp: now,
            tags: containers::map_del(tags, "msgid"@),
            msgid,
            replaces: original,
            sender_did: c.authenticated_did,
        },
    );
    let sent = messaging::deliver_fx(after, a.members, c.id, lines);
    let event = EffectView::S2s(
        S2sEventView::Privmsg {
            from: c.nick_or_star(),
            target,
            text: body,
            msgid: Some(msgid),
            sig: containers::map_get(full, "+freeq.at/sig"@),
        },
    );
    assert(fx == seq![stored] + sent + seq![event]);
    lemma_line(after, to, c, "PRIVMSG"@, target, body, full, now);
    assert forall|e: EffectView| #[trigger] sent.contains(e) <==> (e matches EffectView::Send { to, .. } && e
        == messaging::deliver_one(after, to, lines) && a.members.contains(to) && (to != c.id || after.cap_echo_message.contains(to))) by {
        lemma_deliver(after, a.members, c.id, lines, e);
    }
    assert forall|e: EffectView| #[trigger] fx.contains(e) <==> e == stored || e == event || sent.contains(e) by {
        lemma_one(stored, e);
        lemma_one(event, e);
    }
    let sig = messaging::signature(st, c, target, body, now, containers::map_get(tags, "+freeq.at/sig"@));
    assert(tags_kept(c, tags, msgid, sig, full));
}

/// An edit of a private message that is the user's own and not deleted is heard by every session of
/// the user it goes to, and by the editor only if they want an echo; it is stored where the
/// conversation is kept, and the server does not change.
pub proof fn law_private_edit_is_heard(
    st: ServerStateView,
    c: ConnectionView,
    command: Seq<char>,
    target: Seq<char>,
    body: Seq<char>,
    original: Seq<char>,
    tags: Seq<(Seq<char>, Seq<char>)>,
    now: u64,
    now_ms: u64,
    msgid: Seq<char>,
    verdict: VerdictView,
    found: LookupView,
    session: Seq<char>,
    row: MessageRowView,
    to: Seq<char>,
)
    requires
        is_nick(target),
        containers::map_get(tags, "+draft/edit"@) == Some(original),
        messaging::edited_message(st, c, target, found) == Some(row),
        wrote(row, c),
        row.deleted_at is None,
    ensures
        ({
            let (after, fx) = messaging::privmsg_spec(
                st,
                c,
                command,
                target,
                body,
                tags,
                now,
                now_ms,
                msgid,
                verdict,
                found,
                RouteView::Local(session),
            );
            let theirs = sessions_with(st, containers::map_get(st.session_dids, session), session);
            let hears = theirs.contains(to) || (to == c.id && st.cap_echo_message.contains(to));
            let sig = messaging::signature(st, c, target, body, now, containers::map_get(tags, "+freeq.at/sig"@));
            let owner = containers::map_get(st.nick_owners, text::lowercase(target));
            let key = if c.authenticated_did is Some && owner is Some {
                db::dm_key(c.authenticated_did->0, owner->0)
            } else {
                target
            };
            exists|full: Seq<(Seq<char>, Seq<char>)>|
                {
                    &&& #[trigger] tags_kept(c, tags, msgid, sig, full)
                    &&& hears <==> fx.contains(
                        EffectView::Send { to, line: line_of(st, to, c, "PRIVMSG"@, target, body, full, now) },
                    )
                    &&& !hears ==> forall|line: Seq<char>| !#[trigger] fx.contains(EffectView::Send { to, line })
                    &&& after == st
                    &&& forall|op: StoreOpView| #[trigger]
                        fx.contains(EffectView::Store(op)) <==> op == (StoreOpView::InsertEdit {
                            channel: key,
                            sender: c.hostmask(),
                            text: body,
                            timestamp: now,
                            tags: containers::map_del(tags, "msgid"@),
                            msgid,
                            replaces: original,
                            sender_did: c.authenticated_did,
                        })
                }
        }),
{
    let full = full_tags(st, c, target, body, tags, now, msgid);
    lemma_tags_kept(st, c, target, body, tags, now, msgid);
    let (after, fx) = messaging::privmsg_spec(
        st,
        c,
        command,
        target,
        body,
        tags,
        now,
        now_ms,
        msgid,
        verdict,
        found,
        RouteView::Local(session),
    );
    let lines = messaging::text_lines(full, c, "PRIVMSG"@, target, body, now);
    let theirs = sessions_with(st, containers::map_get(st.session_dids, session), session);
    assert(theirs == messaging::user_sessions(st, st.did_of(session), session));
    let stored = fx[0];
    let one = messaging::deliver_all(st, theirs, lines);
    let two = messaging::echo_fx(st, c.id, lines);
    assert(fx =~= seq![stored] + (one + two));
    lemma_line(st, to, c, "PRIVMSG"@, target, body, full, now);
    assert forall|e: EffectView| #[trigger] one.contains(e) <==> (e matches EffectView::Send { to, .. } && e
        == messaging::deliver_one(st, to, lines) && theirs.contains(to)) by {
        lemma_deliver_all(st, theirs, lines, e);
    }
    assert forall|e: EffectView| #[trigger] two.contains(e) <==> (st.cap_echo_message.contains(c.id) && e
        == messaging::deliver_one(st, c.id, lines)) by {
        lemma_one(messaging::deliver_one(st, c.id, lines), e);
        assert(!Seq::<EffectView>::empty().contains(e));
    }
    assert forall|e: EffectView| #[trigger] fx.contains(e) <==> e == stored || one.contains(e) || two.contains(e) by {
        lemma_one(stored, e);
    }
    let sig = messaging::signature(st, c, target, body, now, containers::map_get(tags, "+freeq.at/sig"@));
    assert(tags_kept(c, tags, msgid, sig, full));
}

/// A message that is deleted can no longer be edited: the edit has no effect at all.
pub proof fn law_deleted_messages_stay_deleted(
    st: ServerStateView,
    c: ConnectionView,
    target: Seq<char>,
    body: Seq<char>,
    original: Seq<char>,
    tags: Seq<(Seq<char>, Seq<char>)>,
    now: u64,
    msgid: Seq<char>,
    found: LookupView,
    route: RouteView,
    is_notice: bool,
    row: MessageRowView,
)
    requires
        wrote(row, c),
        row.deleted_at is Some,
    ensures
        messaging::edited_message(st, c, target, found) == Some(row) ==> messaging::edit_spec(
            st,
            c,
            target,
            body,
            original,
            tags,
            now,
            msgid,
            found,
            route,
            is_notice,
        ) == (st, Seq::<EffectView>::empty()),
        messaging::delete_spec(st, c, target, original, Some(row)) == (st, Seq::<EffectView>::empty()),
{
}

/// A message without a DID is that of whoever has the nick it was sent under, case aside.
pub proof fn law_guests_are_authors_by_nick(row: MessageRowView, c: ConnectionView, nick: Seq<char>, rest: Seq<char>)
    requires
        row.sender_did is None,
        row.sender == nick + "!"@ + rest,
        !nick.contains('!'),
    ensures
        messaging::is_author(row, c) <==> text::ascii_lower(nick) == text::ascii_lower(c.nick_or_star()),
{
    reveal_strlit("!");
    let s = row.sender;
    assert(s[nick.len() as int] == '!');
    s.index_of_first_ensures('!');
    assert(s.contains('!'));
    let i = s.index_of_first('!')->0;
    if i < nick.len() {
        assert(nick[i] == '!');
        assert(nick.contains('!'));
    }
    assert(s.subrange(0, nick.len() as int) =~= nick);
}

// ── Deletions ───────────────────────────────────────────────────────

/// Everyone of some sessions who understands tags is told, but for the one that is skipped.
proof fn lemma_tell_tagged(
    st: ServerStateView,
    sessions: Seq<Seq<char>>,
    skipped: Option<Seq<char>>,
    line: Seq<char>,
    e: EffectView,
)
    ensures
        messaging::tell_tagged(st, sessions, skipped, line).contains(e) <==> (e matches EffectView::Send { to, line: l } && l
            == line && sessions.contains(to) && skipped != Some(to) && st.cap_message_tags.contains(to)),
    decreases sessions.len(),
{
    if sessions.len() > 0 {
        let before = sessions.drop_last();
        lemma_tell_tagged(st, before, skipped, line, e);
        assert(sessions =~= before.push(sessions.last()));
        if let EffectView::Send { to, .. } = e {
            told::lemma_push_contains(before, sessions.last(), to);
        }
    }
}

/// A deletion in a channel, by the author of the message or by an operator, takes the message, and
/// no other, out of what the channel remembers and has pinned; it is stored, and every other member
/// who understands tags, and nobody else, is told which message is gone.
pub proof fn law_deletion_takes_out_one_message(
    st: ServerStateView,
    c: ConnectionView,
    target: Seq<char>,
    msgid: Seq<char>,
    row: MessageRowView,
    a: ChannelStateView,
    to: Seq<char>,
    h: HistoryMessageView,
    p: PinnedMessageView,
)
    requires
        containers::map_get(st.channels, target) == Some(a),
        target.len() > 0 && (target[0] == '#' || target[0] == '&'),
        wrote(row, c) || a.ops.contains(c.id),
        row.deleted_at is None,
    ensures
        ({
            let (after, fx) = messaging::delete_spec(st, c, target, msgid, Some(row));
            let b = containers::map_get(after.channels, target)->0;
            let line = irc::wire(
                MessageView {
                    tags: seq![("+draft/delete"@, msgid)],
                    prefix: Some(c.hostmask()),
                    command: "TAGMSG"@,
                    params: seq![target],
                },
            );
            &&& containers::map_get(after.channels, target) is Some
            &&& channel_laws::only_channel_changed(st, after, target)
            &&& b == (ChannelStateView { history: b.history, pins: b.pins, ..a })
            &&& b.history.contains(h) == (a.history.contains(h) && h.msgid != Some(msgid))
            &&& b.pins.contains(p) == (a.pins.contains(p) && p.msgid != msgid)
            &&& fx.contains(EffectView::Send { to, line }) <==> a.members.contains(to) && to != c.id
                && st.cap_message_tags.contains(to)
            &&& forall|op: StoreOpView| #[trigger]
                fx.contains(EffectView::Store(op)) <==> op == (StoreOpView::SoftDelete { channel: target, msgid })
            &&& forall|e: EffectView| #[trigger] fx.contains(e) ==> (e is Store || (e matches EffectView::Send { line: l, .. } && l == line))
        }),
{
    let (after, fx) = messaging::delete_spec(st, c, target, msgid, Some(row));
    told::lemma_filter_contains(a.history, |x: HistoryMessageView| x.msgid != Some(msgid), h);
    told::lemma_filter_contains(a.pins, |x: PinnedMessageView| x.msgid != msgid, p);
    let line = messaging::tagged_line(messaging::delete_tags(msgid), c, "TAGMSG"@, seq![target]);
    let stored = EffectView::Store(StoreOpView::SoftDelete { channel: target, msgid });
    let sent = messaging::tell_tagged(after, a.members, Some(c.id), line);
    assert(fx == seq![stored] + sent);
    assert forall|e: EffectView| #[trigger] fx.contains(e) <==> e == stored || (e matches EffectView::Send { to, line: l } && l
        == line && a.members.contains(to) && to != c.id && st.cap_message_tags.contains(to)) by {
        lemma_one(stored, e);
        lemma_tell_tagged(after, a.members, Some(c.id), line, e);
    }
}

/// A deletion of a private message tells every session of the other side that understands tags, and
/// nobody else.
pub proof fn law_private_deletion_is_told(
    st: ServerStateView,
    c: ConnectionView,
    target: Seq<char>,
    msgid: Seq<char>,
    row: MessageRowView,
    session: Seq<char>,
    to: Seq<char>,
    line: Seq<char>,
)
    requires
        is_nick(target),
        wrote(row, c),
        row.deleted_at is None,
        containers::map_get(st.nick_session, text::lowercase(target)) == Some(session),
    ensures
        ({
            let (after, fx) = messaging::delete_spec(st, c, target, msgid, Some(row));
            let theirs = sessions_with(st, containers::map_get(st.session_dids, session), session);
            &&& after == st
            &&& fx.contains(EffectView::Send { to, line }) <==> theirs.contains(to) && st.cap_message_tags.contains(to) && line
                == irc::wire(
                MessageView {
                    tags: seq![("+draft/delete"@, msgid)],
                    prefix: Some(c.hostmask()),
                    command: "TAGMSG"@,
                    params: seq![target],
                },
            )
        }),
{
    let (after, fx) = messaging::delete_spec(st, c, target, msgid, Some(row));
    let theirs = sessions_with(st, containers::map_get(st.session_dids, session), session);
    assert(theirs == messaging::user_sessions(st, st.did_of(session), session));
    let gone = messaging::tagged_line(messaging::delete_tags(msgid), c, "TAGMSG"@, seq![target]);
    let sent = messaging::tell_tagged(st, theirs, None, gone);
    assert(fx == seq![fx[0]] + sent);
    let e = EffectView::Send { to, line };
    lemma_one(fx[0], e);
    lemma_tell_tagged(st, theirs, None, gone, e);
}

// ── TAGMSG ──────────────────────────────────────────────────────────

/// The line by which a session hears a TAGMSG: its tags where it understands them, a text in their
/// place for a reaction where it does not, and nothing else.
pub open spec fn tag_line_of(
    st: ServerStateView,
    to: Seq<char>,
    c: ConnectionView,
    target: Seq<char>,
    tags: Seq<(Seq<char>, Seq<char>)>,
    now: u64,
) -> Option<Seq<char>> {
    if st.cap_message_tags.contains(to) {
        Some(
            irc::wire(
                MessageView {
                    tags: if st.cap_server_time.contains(to) {
                        containers::map_put(tags, "time"@, time::utc_text(now, "%Y-%m-%dT%H:%M:%S.000Z"@))
                    } else {
                        tags
                    },
                    prefix: Some(c.hostmask()),
                    command: "TAGMSG"@,
                    params: seq![target],
                },
            ),
        )
    } else {
        match containers::map_get(tags, "+react"@) {
            Some(emoji) => Some(
                ":"@ + c.hostmask() + " PRIVMSG "@ + target + " :\u{1}ACTION reacted with "@ + emoji + "\u{1}\r\n"@,
            ),
            None => None,
        }
    }
}

/// Everyone of some sessions is sent what they understand of the tags, the sender only if it wants
/// an echo.
proof fn lemma_deliver_tags(
    st: ServerStateView,
    sessions: Seq<Seq<char>>,
    sender: Seq<char>,
    c: ConnectionView,
    target: Seq<char>,
    tags: Seq<(Seq<char>, Seq<char>)>,
    now: u64,
    e: EffectView,
)
    ensures
        messaging::deliver_tags(st, sessions, sender, messaging::tag_lines(tags, c, target, now)).contains(e) <==> (e matches EffectView::Send {
            to,
            line,
        } && sessions.contains(to) && (to != sender || st.cap_echo_message.contains(to)) && tag_line_of(
            st,
            to,
            c,
            target,
            tags,
            now,
        ) == Some(line)),
    decreases sessions.len(),
{
    if sessions.len() > 0 {
        let before = sessions.drop_last();
        let s = sessions.last();
        lemma_deliver_tags(st, before, sender, c, target, tags, now, e);
        assert(sessions =~= before.push(s));
        lemma_deliver_tag(st, s, c, target, tags, now, e);
        if let EffectView::Send { to, .. } = e {
            told::lemma_push_contains(before, s, to);
        }
    }
}

/// One session is sent what it understands of the tags.
proof fn lemma_deliver_tag(
    st: ServerStateView,
    s: Seq<char>,
    c: ConnectionView,
    target: Seq<char>,
    tags: Seq<(Seq<char>, Seq<char>)>,
    now: u64,
    e: EffectView,
)
    ensures
        messaging::deliver_tag(st, s, messaging::tag_lines(tags, c, target, now)).contains(e) <==> (e matches EffectView::Send {
            to,
            line,
        } && to == s && tag_line_of(st, to, c, target, tags, now) == Some(line)),
{
    let fx = messaging::deliver_tag(st, s, messaging::tag_lines(tags, c, target, now));
    if fx.len() > 0 {
        assert(fx =~= seq![fx[0]]);
        lemma_one(fx[0], e);
    }
}

/// A TAGMSG to a channel that lets its sender speak is heard by exactly the members, by the sender
/// only if they want an echo, each in the form that they understand; it changes nothing.
pub proof fn law_tags_are_heard(
    st: ServerStateView,
    c: ConnectionView,
    target: Seq<char>,
    tags: Seq<(Seq<char>, Seq<char>)>,
    now: u64,
    event_time: i64,
    fresh_id: Seq<char>,
    found: Option<MessageRowView>,
    route: RouteView,
    a: ChannelStateView,
    to: Seq<char>,
    line: Seq<char>,
)
    requires
        tags.len() > 0,
        containers::map_get(tags, "+draft/delete"@) is None,
        containers::map_get(st.channels, target) == Some(a),
        target.len() > 0 && (target[0] == '#' || target[0] == '&'),
        !(a.no_ext_msg && !a.members.contains(c.id)),
        !(a.moderated && !a.ops.contains(c.id) && !a.halfops.contains(c.id) && !a.voiced.contains(c.id)),
    ensures
        ({
            let (after, fx) = messaging::tagmsg_spec(st, c, target, tags, now, event_time, fresh_id, found, route);
            &&& after == st
            &&& fx.contains(EffectView::Send { to, line }) <==> a.members.contains(to) && (to != c.id
                || st.cap_echo_message.contains(to)) && tag_line_of(st, to, c, target, tags, now) == Some(line)
        }),
{
    let fx = messaging::tagmsg_spec(st, c, target, tags, now, event_time, fresh_id, found, route).1;
    let sent = messaging::deliver_tags(st, a.members, c.id, messaging::tag_lines(tags, c, target, now));
    let e = EffectView::Send { to, line };
    lemma_deliver_tags(st, a.members, c.id, c, target, tags, now, e);
    lemma_event_first(c, target, tags, event_time, fresh_id, fx, sent, e);
}

/// An event that is stored comes before what is sent.
proof fn lemma_event_first(
    c: ConnectionView,
    target: Seq<char>,
    tags: Seq<(Seq<char>, Seq<char>)>,
    event_time: i64,
    fresh_id: Seq<char>,
    fx: Seq<EffectView>,
    sent: Seq<EffectView>,
    e: EffectView,
)
    requires
        fx == (match messaging::coordination_event(c, target, tags, event_time, fresh_id) {
            Some(row) => seq![EffectView::Store(StoreOpView::CoordinationEvent(row))],
            None => Seq::empty(),
        }) + sent,
        e is Send,
    ensures
        fx.contains(e) <==> sent.contains(e),
{
    match messaging::coordination_event(c, target, tags, event_time, fresh_id) {
        Some(row) => {
            lemma_one(EffectView::Store(StoreOpView::CoordinationEvent(row)), e);
        },
        None => {
            assert(fx =~= sent);
        },
    }
}

/// A TAGMSG to a user who is here is heard by that session alone, in the form that it understands;
/// one that goes elsewhere is sent to nobody here.
pub proof fn law_private_tags_are_heard(
    st: ServerStateView,
    c: ConnectionView,
    target: Seq<char>,
    tags: Seq<(Seq<char>, Seq<char>)>,
    now: u64,
    event_time: i64,
    fresh_id: Seq<char>,
    found: Option<MessageRowView>,
    route: RouteView,
    to: Seq<char>,
    line: Seq<char>,
)
    requires
        tags.len() > 0,
        containers::map_get(tags, "+draft/delete"@) is None,
        is_nick(target),
    ensures
        ({
            let (after, fx) = messaging::tagmsg_spec(st, c, target, tags, now, event_time, fresh_id, found, route);
            &&& after == st
            &&& fx.contains(EffectView::Send { to, line }) <==> route == RouteView::Local(to) && tag_line_of(
                st,
                to,
                c,
                target,
                tags,
                now,
            ) == Some(line)
        }),
{
    let fx = messaging::tagmsg_spec(st, c, target, tags, now, event_time, fresh_id, found, route).1;
    let sent = messaging::tag_delivery(st, c, target, messaging::tag_lines(tags, c, target, now), route);
    let e = EffectView::Send { to, line };
    if let RouteView::Local(session) = route {
        lemma_deliver_tag(st, session, c, target, tags, now, e);
    } else {
        assert(!Seq::<EffectView>::empty().contains(e));
    }
    lemma_event_first(c, target, tags, event_time, fresh_id, fx, sent, e);
}

/// A coordination event is stored exactly where an authenticated user sends one, with what its tags
/// say: its type, what it refers to, its payload and its signature.
pub proof fn law_events_are_stored_as_tagged(
    st: ServerStateView,
    c: ConnectionView,
    target: Seq<char>,
    tags: Seq<(Seq<char>, Seq<char>)>,
    now: u64,
    event_time: i64,
    fresh_id: Seq<char>,
    found: Option<MessageRowView>,
    route: RouteView,
    row: CoordinationEventRowView,
)
    requires
        tags.len() > 0,
        containers::map_get(tags, "+draft/delete"@) is None,
    ensures
        ({
            let fx = messaging::tagmsg_spec(st, c, target, tags, now, event_time, fresh_id, found, route).1;
            fx.contains(EffectView::Store(StoreOpView::CoordinationEvent(row))) <==> {
                &&& c.authenticated_did == Some(row.actor_did)
                &&& containers::map_get(tags, "+freeq.at/event"@) == Some(row.event_type)
                &&& row.channel == target
                &&& row.timestamp == event_time
                &&& row.event_id == (match containers::map_get(tags, "msgid"@) {
                    Some(id) => id,
                    None => fresh_id,
                })
                &&& row.ref_id == (match containers::map_get(tags, "+freeq.at/ref"@) {
                    Some(r) => Some(r),
                    None => containers::map_get(tags, "+freeq.at/task-id"@),
                })
                &&& row.payload_json == (match containers::map_get(tags, "+freeq.at/payload"@) {
                    Some(p) => match crypto::percent_decoded(p) {
                        Some(d) => d,
                        None => p,
                    },
                    None => "{}"@,
                })
                &&& row.signature == containers::map_get(tags, "+freeq.at/sig"@)
            }
        }),
{
    let fx = messaging::tagmsg_spec(st, c, target, tags, now, event_time, fresh_id, found, route).1;
    let sent = messaging::tag_delivery(st, c, target, messaging::tag_lines(tags, c, target, now), route);
    let e = EffectView::Store(StoreOpView::CoordinationEvent(row));
    assert(!sent.contains(e)) by {
        match st.channel(target) {
            Some(ch) => {
                lemma_deliver_tags(st, ch.members, c.id, c, target, tags, now, e);
            },
            None => {
                lemma_deliver_tags(st, Seq::empty(), c.id, c, target, tags, now, e);
            },
        }
        if let RouteView::Local(session) = route {
            lemma_deliver_tag(st, session, c, target, tags, now, e);
        }
        if messaging::is_channel_name(target) {
            if let Some(reason) = messaging::channel_refusal(st, c, target, true) {
                lemma_one(messaging::refusal_fx(st, c, target, reason, false)[0], e);
            }
        }
    }
    match messaging::coordination_event(c, target, tags, event_time, fresh_id) {
        Some(r) => {
            lemma_one(EffectView::Store(StoreOpView::CoordinationEvent(r)), e);
        },
        None => {
            assert(fx =~= sent);
        },
    }
}

/// The router is asked for a TAGMSG exactly where it goes to a nick, holds a tag, and deletes nothing.
pub proof fn law_tags_to_nicks_are_relayed(c: ConnectionView, target: Seq<char>, tags: Seq<(Seq<char>, Seq<char>)>)
    ensures
        messaging::tag_relay(c, target, tags) is Some <==> tags.len() > 0 && containers::map_get(tags, "+draft/delete"@) is None && !(
        target.len() > 0 && (target[0] == '#' || target[0] == '&')),
{
}

/// For a message that is sent, and not refused, the router is asked where it goes to a nick, and the
/// plugins where it goes to a channel.
pub proof fn law_messages_go_past_plugins_or_router(
    st: ServerStateView,
    c: ConnectionView,
    target: Seq<char>,
    tags: Seq<(Seq<char>, Seq<char>)>,
    now_ms: u64,
    found: LookupView,
)
    requires
        containers::map_get(tags, "+draft/edit"@) is None,
        !messaging::floods(st, c.id, now_ms),
    ensures
        ({
            let r = messaging::consulted(st, c, target, tags, now_ms, found);
            let to_channel = target.len() > 0 && (target[0] == '#' || target[0] == '&');
            let refused = messaging::channel_refusal(st, c, target, containers::map_has(tags, "+encrypted"@)) is Some;
            &&& !to_channel ==> r is Router
            &&& to_channel && !refused ==> r is Plugins
            &&& to_channel && refused ==> r is Nobody
        }),
{
}

} // verus!
