//! What holds of JOIN: who may enter a channel, as what, and who is told.
use super::channel;
use super::channel_laws;
use super::join;
use super::join::{MembershipView, PolicyView};
use super::session_laws;
use super::told;
use super::ConnectionView;
use crate::containers;
use crate::server::{ChannelStateView, EffectView, HistoryMessageView, PluginEventView, S2sEventView, ServerStateView, StoreOpView};
use crate::text;
use vstd::prelude::*;

verus! {

broadcast use {
    vstd::string::group_string_axioms,
    told::group_told,
    containers::lemma_map_put_get,
    containers::lemma_set_insert_contains,
    containers::lemma_set_remove_contains,
};

/// In how many channels a session is.
pub open spec fn channels_of(st: ServerStateView, session: Seq<char>) -> nat {
    st.channels.filter(|e: (Seq<char>, ChannelStateView)| e.1.members.contains(session)).len()
}

proof fn lemma_joined_count(chs: Seq<(Seq<char>, ChannelStateView)>, session: Seq<char>)
    ensures
        join::joined_count(chs, session) == chs.filter(
            |e: (Seq<char>, ChannelStateView)| e.1.members.contains(session),
        ).len(),
    decreases chs.len(),
{
    reveal(Seq::filter);
    if chs.len() > 0 {
        lemma_joined_count(chs.drop_last(), session);
    }
}

/// Whether somebody has made a channel theirs.
pub open spec fn in_use(a: ChannelStateView) -> bool {
    a.members.len() > 0 || a.remote_members.len() > 0 || a.founder_did is Some || a.topic is Some || a.ops.len() > 0
}

/// The nick of a connection, empty where it has none.
pub open spec fn nick_of(c: ConnectionView) -> Seq<char> {
    match c.nick {
        Some(n) => n,
        None => ""@,
    }
}

/// Whether a user was invited: by session, by DID or by nick.
pub open spec fn has_invitation(a: ChannelStateView, c: ConnectionView) -> bool {
    a.invites.contains(c.id) || (c.authenticated_did is Some && a.invites.contains(c.authenticated_did->0)) || a.invites.contains(
        "nick:"@ + nick_of(c),
    )
}

/// Whether a name is at most 64 bytes long and the user has a place left, of a hundred.
pub open spec fn has_place(st: ServerStateView, c: ConnectionView, channel: Seq<char>) -> bool {
    vstd::utf8::encode_utf8(channel).len() <= 64 && (c.is_oper || channels_of(st, c.id) < 100)
}

/// Whether a user outside a channel may come in.
pub open spec fn door_is_open(a: ChannelStateView, c: ConnectionView, key: Option<Seq<char>>, banned: bool) -> bool {
    &&& a.key is Some ==> key == a.key
    &&& !banned
    &&& a.invite_only ==> has_invitation(a, c)
}

/// The reply to a JOIN that is refused.
pub open spec fn refused(
    st: ServerStateView,
    c: ConnectionView,
    channel: Seq<char>,
    numeric: Seq<char>,
    reason: Seq<char>,
) -> Seq<EffectView> {
    seq![session_laws::reply(c.id, st.server_name, numeric, seq![nick_of(c), channel, reason])]
}

/// JOIN is refused with the reason for it: a name that is too long, a hundred channels already, a
/// wrong key, a ban, a missing invitation. To join a channel again does nothing.
pub proof fn law_join_is_refused_for_a_reason(
    st: ServerStateView,
    c: ConnectionView,
    channel: Seq<char>,
    key: Option<Seq<char>>,
    banned: bool,
    policy: Option<PolicyView>,
    now: u64,
    fresh_id: Seq<char>,
)
    ensures
        ({
            let (after, fx) = join::join_spec(st, c, channel, key, banned, policy, now, fresh_id);
            let long = vstd::utf8::encode_utf8(channel).len() > 64;
            let many = !c.is_oper && channels_of(st, c.id) >= 100;
            &&& long ==> after == st && fx == refused(st, c, channel, "479"@, "Channel name too long (max 64 characters)"@)
            &&& !long && many ==> after == st && fx == refused(st, c, channel, "405"@, "You have joined too many channels"@)
            &&& !long && !many ==> (containers::map_get(st.channels, channel) matches Some(a) ==> {
                &&& a.members.contains(c.id) ==> after == st && fx.len() == 0
                &&& in_use(a) && !a.members.contains(c.id) ==> {
                    let wrong_key = a.key is Some && key != a.key;
                    &&& wrong_key ==> after == st && fx == refused(st, c, channel, "475"@, "Cannot join channel (+k)"@)
                    &&& !wrong_key && banned ==> after == st && fx == refused(st, c, channel, "474"@, "Cannot join channel (+b)"@)
                    &&& !wrong_key && !banned && a.invite_only && !has_invitation(a, c) ==> after == st && fx == refused(
                        st,
                        c,
                        channel,
                        "473"@,
                        "Cannot join channel (+i)"@,
                    )
                }
            })
        }),
{
    lemma_joined_count(st.channels, c.id);
}

/// Where nothing stands against it and the channel has no policy, JOIN puts the user into the
/// channel and changes nothing else: the user becomes operator by DID, or where nobody at all is
/// left, and an invitation is used up.
pub proof fn law_join_enters_the_channel(
    st: ServerStateView,
    c: ConnectionView,
    channel: Seq<char>,
    key: Option<Seq<char>>,
    banned: bool,
    now: u64,
    fresh_id: Seq<char>,
    a: ChannelStateView,
)
    requires
        containers::map_get(st.channels, channel) == Some(a),
        in_use(a),
        has_place(st, c, channel),
        !a.members.contains(c.id),
        door_is_open(a, c, key, banned),
    ensures
        ({
            let (after, fx) = join::join_spec(st, c, channel, key, banned, None, now, fresh_id);
            let b = containers::map_get(after.channels, channel)->0;
            let by_did = c.authenticated_did is Some && (a.founder_did == c.authenticated_did || a.did_ops.contains(
                c.authenticated_did->0,
            ));
            let alone = a.members.len() == 0 && a.remote_members.len() == 0 && a.ops.len() == 0;
            &&& channel_laws::only_channel_changed(st, after, channel)
            &&& containers::map_get(after.channels, channel) is Some
            &&& b == (ChannelStateView { members: b.members, ops: b.ops, invites: b.invites, ..a })
            &&& forall|s: Seq<char>| #[trigger] b.members.contains(s) <==> a.members.contains(s) || s == c.id
            &&& forall|s: Seq<char>| #[trigger]
                b.ops.contains(s) <==> a.ops.contains(s) || (s == c.id && (by_did || alone))
            &&& !a.invite_only ==> b.invites == a.invites
            &&& a.invite_only ==> !has_invitation(b, c) && forall|i: Seq<char>| #[trigger]
                b.invites.contains(i) <==> a.invites.contains(i) && i != c.id && Some(i) != c.authenticated_did && i != "nick:"@
                    + nick_of(c)
        }),
{
    lemma_joined_count(st.channels, c.id);
    let after = join::join_spec(st, c, channel, key, banned, None, now, fresh_id).0;
    let b = containers::map_get(after.channels, channel)->0;
    let a1 = if a.invite_only {
        join::without_invite(a, c)
    } else {
        a
    };
    assert(join::past_door(st, c, channel).channel(channel) == Some(a1));
    let members = containers::set_insert(a.members, c.id);
    assert(members.len() == a.members.len() + 1);
    assert(!join::remote_op(a.remote_members) || a.remote_members.len() > 0);
    assert(b == join::entered(a1, c, false));
}

/// A channel that nobody has made theirs starts anew with who joins it: operator and, if
/// authenticated, founder, with +nt. Nothing else of it, and no other channel, changes.
pub proof fn law_join_creates_the_channel(
    st: ServerStateView,
    c: ConnectionView,
    channel: Seq<char>,
    key: Option<Seq<char>>,
    banned: bool,
    now: u64,
    fresh_id: Seq<char>,
)
    requires
        containers::map_get(st.channels, channel) matches Some(a) ==> !in_use(a),
        has_place(st, c, channel),
    ensures
        ({
            let (after, fx) = join::join_spec(st, c, channel, key, banned, None, now, fresh_id);
            let b = containers::map_get(after.channels, channel)->0;
            &&& channel_laws::only_channel_changed(st, after, channel)
            &&& containers::map_get(after.channels, channel) is Some
            &&& forall|s: Seq<char>| #[trigger] b.members.contains(s) <==> s == c.id
            &&& forall|s: Seq<char>| #[trigger] b.ops.contains(s) <==> s == c.id
            &&& b.founder_did == c.authenticated_did
            &&& c.authenticated_did matches Some(d) ==> b.did_ops.contains(d)
            &&& b.no_ext_msg && b.topic_locked
            &&& b.created_at == now
            &&& b.topic is None
            &&& b.remote_members.len() == 0
            &&& containers::map_get(st.channels, channel) is None ==> {
                &&& b.halfops.len() == 0 && b.voiced.len() == 0 && b.bans.len() == 0 && b.invites.len() == 0 && b.history.len()
                    == 0 && b.pins.len() == 0
                &&& !b.invite_only && !b.moderated && !b.encrypted_only
                &&& b.key is None
                &&& forall|d: Seq<char>| #[trigger] b.did_ops.contains(d) <==> c.authenticated_did == Some(d)
            }
            &&& containers::map_get(st.channels, channel) matches Some(a) ==> b == (ChannelStateView {
                members: b.members,
                ops: b.ops,
                created_at: now,
                founder_did: b.founder_did,
                did_ops: b.did_ops,
                no_ext_msg: true,
                topic_locked: true,
                ..a
            })
            &&& fx.contains(
                EffectView::S2s(
                    S2sEventView::ChannelCreated {
                        channel,
                        founder_did: c.authenticated_did,
                        did_ops: b.did_ops,
                        created_at: now,
                    },
                ),
            )
            &&& fx.contains(EffectView::Store(StoreOpView::SaveChannel { channel, state: b }))
        }),
{
    lemma_joined_count(st.channels, c.id);
    let (after, fx) = join::join_spec(st, c, channel, key, banned, None, now, fresh_id);
    let b = containers::map_get(after.channels, channel)->0;
    let base = join::base_channel(st, channel);
    assert(base.members.len() == 0 && base.ops.len() == 0);
    assert(b == join::created(base, c, now));
    let kept = join::join_kept(c, channel, b, true);
    let made = EffectView::S2s(
        S2sEventView::ChannelCreated { channel, founder_did: b.founder_did, did_ops: b.did_ops, created_at: b.created_at },
    );
    assert(kept[0] == made);
    assert(kept.contains(made));
}

/// What a member is told of who joins: with the account and the real name, and with the kind of
/// user, where the member wants them.
pub open spec fn join_line(st: ServerStateView, c: ConnectionView, channel: Seq<char>, to: Seq<char>) -> Seq<char> {
    let plain = ":"@ + c.hostmask() + " JOIN "@ + channel;
    let account = match c.authenticated_did {
        Some(d) => d,
        None => "*"@,
    };
    let full_name = match c.realname {
        Some(r) => r,
        None => nick_of(c),
    };
    if !st.cap_extended_join.contains(to) {
        plain + "\r\n"@
    } else if !st.cap_message_tags.contains(to) {
        plain + " "@ + account + " :"@ + full_name + "\r\n"@
    } else {
        "@+freeq.at/actor-class="@ + super::actor_class_name(c.actor_class) + " "@ + (plain + " "@ + account + " :"@ + full_name
            + "\r\n"@)
    }
}

/// What is said when a user has entered a channel.
pub open spec fn announced(
    st: ServerStateView,
    c: ConnectionView,
    channel: Seq<char>,
    b: ChannelStateView,
    fx: Seq<EffectView>,
    to: Seq<char>,
    line: Seq<char>,
) -> bool {
    &&& b.members.contains(to) ==> fx.contains(EffectView::Send { to, line: join_line(st, c, channel, to) })
    &&& !b.members.contains(to) ==> !fx.contains(EffectView::Send { to, line })
    &&& fx.contains(
        EffectView::S2s(
            S2sEventView::Join {
                nick: nick_of(c),
                channel,
                did: c.authenticated_did,
                handle: containers::map_get(st.session_handles, c.id),
                is_op: b.ops.contains(c.id),
            },
        ),
    )
    &&& c.authenticated_did matches Some(did) ==> fx.contains(EffectView::Store(StoreOpView::AddUserChannel { did, channel }))
    &&& b.ops.contains(c.id) && b.members.contains(to) ==> fx.contains(
        EffectView::Send { to, line: ":"@ + st.server_name + " MODE "@ + channel + " +o "@ + nick_of(c) + "\r\n"@ },
    )
    &&& b.topic matches Some(t) ==> fx.contains(
        session_laws::reply(c.id, st.server_name, "332"@, seq![nick_of(c), channel, t.text]),
    )
    &&& fx.contains(session_laws::reply(c.id, st.server_name, "366"@, seq![nick_of(c), channel, "End of /NAMES list"@]))
}

proof fn lemma_kept(c: ConnectionView, channel: Seq<char>, b: ChannelStateView, new: bool, to: Seq<char>, line: Seq<char>)
    ensures
        !join::join_kept(c, channel, b, new).contains(EffectView::Send { to, line }),
        c.authenticated_did matches Some(did) ==> join::join_kept(c, channel, b, new).contains(
            EffectView::Store(StoreOpView::AddUserChannel { did, channel }),
        ),
{
    let kept = join::join_kept(c, channel, b, new);
    if let Some(did) = c.authenticated_did {
        assert(kept[kept.len() - 1] == EffectView::Store(StoreOpView::AddUserChannel { did, channel }));
    }
    assert forall|i: int| 0 <= i < kept.len() implies !(#[trigger] kept[i] is Send) by {}
}

proof fn lemma_news(
    st: ServerStateView,
    c: ConnectionView,
    channel: Seq<char>,
    b: ChannelStateView,
    new: bool,
    to: Seq<char>,
    line: Seq<char>,
)
    ensures
        ({
            let fx = join::join_news(st, c, channel, b, new);
            &&& b.members.contains(to) ==> fx.contains(EffectView::Send { to, line: join_line(st, c, channel, to) })
            &&& !b.members.contains(to) ==> !fx.contains(EffectView::Send { to, line })
            &&& fx.contains(
                EffectView::S2s(
                    S2sEventView::Join {
                        nick: nick_of(c),
                        channel,
                        did: c.authenticated_did,
                        handle: containers::map_get(st.session_handles, c.id),
                        is_op: b.ops.contains(c.id),
                    },
                ),
            )
            &&& c.authenticated_did matches Some(did) ==> fx.contains(
                EffectView::Store(StoreOpView::AddUserChannel { did, channel }),
            )
            &&& b.ops.contains(c.id) && b.members.contains(to) ==> fx.contains(
                EffectView::Send {
                    to,
                    line: ":"@ + st.server_name + " MODE "@ + channel + " "@ + "+o"@ + " "@ + nick_of(c) + "\r\n"@,
                },
            )
        }),
{
    let modes = join::auto_mode_fx(st, c, channel, b);
    let lines = join::join_lines(st, c, channel, b.members);
    let kept = join::join_kept(c, channel, b, new);
    lemma_lines(st, c, channel, b.members, to, line);
    lemma_kept(c, channel, b, new, to, line);
    let noted = seq![
        EffectView::Plugin(
            PluginEventView::Join { nick: nick_of(c), channel, did: c.authenticated_did, session_id: c.id, is_new_channel: new },
        ),
    ];
    let event = EffectView::S2s(
        S2sEventView::Join {
            nick: nick_of(c),
            channel,
            did: c.authenticated_did,
            handle: containers::map_get(st.session_handles, c.id),
            is_op: b.ops.contains(c.id),
        },
    );
    let sent = seq![event];
    assert(sent[0] == event);
    assert(sent.contains(event));
    assert(join::join_news(st, c, channel, b, new) == modes + noted + lines + sent + kept);
}

proof fn lemma_welcome(
    st: ServerStateView,
    c: ConnectionView,
    channel: Seq<char>,
    b: ChannelStateView,
    batch: Seq<char>,
    to: Seq<char>,
    line: Seq<char>,
)
    ensures
        ({
            let fx = join::join_welcome(st, c, channel, b, batch);
            &&& to != c.id ==> !fx.contains(EffectView::Send { to, line })
            &&& b.topic matches Some(t) ==> fx.contains(
                session_laws::reply(c.id, st.server_name, "332"@, seq![nick_of(c), channel, t.text]),
            )
            &&& fx.contains(
                session_laws::reply(c.id, st.server_name, "366"@, seq![nick_of(c), channel, "End of /NAMES list"@]),
            )
        }),
{
    lemma_replay(st, c.id, channel, batch, b.history, to, line);
    let names = channel::names_fx(st, c.id, nick_of(c), channel, false);
    assert(names[0] is Send && names[0]->to == c.id && names[1] is Send && names[1]->to == c.id);
    assert(names.contains(names[1]));
    if let Some(t) = b.topic {
        let topics = channel::topic_replies(st, c.id, nick_of(c), channel, t);
        assert(topics.contains(topics[0]));
        assert(topics[0] is Send && topics[0]->to == c.id && topics[1] is Send && topics[1]->to == c.id);
    }
}

proof fn lemma_announced(
    st: ServerStateView,
    c: ConnectionView,
    channel: Seq<char>,
    b: ChannelStateView,
    new: bool,
    batch: Seq<char>,
    to: Seq<char>,
    line: Seq<char>,
)
    requires
        b.members.contains(c.id),
    ensures
        announced(st, c, channel, b, join::join_told(st, c, channel, b, new, batch), to, line),
{
    lemma_news(st, c, channel, b, new, to, line);
    lemma_welcome(st, c, channel, b, batch, to, line);
    let said = ":"@ + st.server_name + " MODE "@ + channel;
    assert(said + " "@ + "+o"@ + " "@ + nick_of(c) + "\r\n"@ =~= said + " +o "@ + nick_of(c) + "\r\n"@) by {
        reveal_strlit(" ");
        reveal_strlit("+o");
        reveal_strlit(" +o ");
    }
}

/// Whoever enters a channel is announced: every member is told, the one who enters among them, each
/// in the words that they want, and nobody outside hears anything. The other servers are told, and
/// the channel is noted among those of the user.
pub proof fn law_join_is_told(
    st: ServerStateView,
    c: ConnectionView,
    channel: Seq<char>,
    key: Option<Seq<char>>,
    banned: bool,
    policy: Option<PolicyView>,
    now: u64,
    fresh_id: Seq<char>,
    to: Seq<char>,
    line: Seq<char>,
)
    requires
        !st.is_member(channel, c.id),
        join::join_spec(st, c, channel, key, banned, policy, now, fresh_id).0.is_member(channel, c.id),
    ensures
        ({
            let (after, fx) = join::join_spec(st, c, channel, key, banned, policy, now, fresh_id);
            announced(st, c, channel, containers::map_get(after.channels, channel)->0, fx, to, line)
        }),
{
    let st1 = join::past_door(st, c, channel);
    let new = join::is_new(st, channel);
    let role = join::policy_gate(st1, c, channel, policy)->Ok_0;
    let (after, fx) = join::join_spec(st, c, channel, key, banned, policy, now, fresh_id);
    let b = containers::map_get(after.channels, channel)->0;
    let ch1 = join::seated(st1, c, channel, policy, now);
    assert(join::entry_gate(st, c, channel, key, banned) is Pass);
    assert(join::policy_gate(st1, c, channel, policy) is Ok);
    assert(b == join::with_role(ch1, c, role));
    lemma_announced(after, c, channel, b, new, "hist"@ + fresh_id, to, line);
    let made = if new {
        join::creation_fx(c, channel, ch1)
    } else {
        Seq::empty()
    };
    assert forall|i: int| 0 <= i < made.len() implies !(#[trigger] made[i] is Send) by {}
    assert(!made.contains(EffectView::Send { to, line }));
    assert(fx == made + join::join_told(after, c, channel, b, new, "hist"@ + fresh_id));
}

proof fn lemma_lines(
    st: ServerStateView,
    c: ConnectionView,
    channel: Seq<char>,
    members: Seq<Seq<char>>,
    to: Seq<char>,
    line: Seq<char>,
)
    ensures
        ({
            let fx = join::join_lines(st, c, channel, members);
            &&& members.contains(to) ==> fx.contains(EffectView::Send { to, line: join_line(st, c, channel, to) })
            &&& !members.contains(to) ==> !fx.contains(EffectView::Send { to, line })
        }),
{
    let fx = join::join_lines(st, c, channel, members);
    if members.contains(to) {
        let i = choose|i: int| 0 <= i < members.len() && members[i] == to;
        assert(fx[i] == EffectView::Send { to, line: join_line(st, c, channel, to) });
    }
    if fx.contains(EffectView::Send { to, line }) {
        let i = choose|i: int| 0 <= i < fx.len() && fx[i] == EffectView::Send { to, line };
        assert(members[i] == to);
    }
}

proof fn lemma_replay(
    st: ServerStateView,
    session: Seq<char>,
    channel: Seq<char>,
    batch: Seq<char>,
    history: Seq<HistoryMessageView>,
    to: Seq<char>,
    line: Seq<char>,
)
    ensures
        to != session ==> !join::replay_fx(st, session, channel, batch, history).contains(EffectView::Send { to, line }),
{
    let fx = join::replay_fx(st, session, channel, batch, history);
    if fx.contains(EffectView::Send { to, line }) {
        let i = choose|i: int| 0 <= i < fx.len() && fx[i] == EffectView::Send { to, line };
        let all = history.map_values(|h: HistoryMessageView| join::history_fx(st, session, channel, batch, h));
        if st.cap_batch.contains(session) {
            if 0 < i < fx.len() - 1 {
                assert(fx[i] == all[i - 1]);
            }
        } else {
            assert(fx[i] == all[i]);
        }
    }
}

/// Where a channel has a policy, a guest stays outside, and so does who holds no attestation, unless
/// they founded it or are operator for good; who holds one comes in with its role, and a policy that
/// cannot be asked keeps nobody out.
pub proof fn law_policies_decide_who_enters(
    st: ServerStateView,
    c: ConnectionView,
    channel: Seq<char>,
    key: Option<Seq<char>>,
    banned: bool,
    policy: PolicyView,
    now: u64,
    fresh_id: Seq<char>,
    a: ChannelStateView,
)
    requires
        containers::map_get(st.channels, channel) == Some(a),
        text::ascii_lower(channel) == channel,
        in_use(a),
        has_place(st, c, channel),
        !a.members.contains(c.id),
        door_is_open(a, c, key, banned),
    ensures
        ({
            let (after, fx) = join::join_spec(st, c, channel, key, banned, Some(policy), now, fresh_id);
            let b = containers::map_get(after.channels, channel)->0;
            let by_did = c.authenticated_did is Some && (a.founder_did == c.authenticated_did || a.did_ops.contains(
                c.authenticated_did->0,
            ));
            let inside = after.is_member(channel, c.id);
            &&& inside <==> c.authenticated_did is Some && (by_did || !(policy.membership is Missing))
            &&& !inside ==> told::one_reply(fx, c.id)
            &&& by_did ==> b.ops.contains(c.id)
            &&& !by_did && inside ==> (policy.membership matches MembershipView::Attested(r) ==> {
                &&& r == "op"@ || r == "admin"@ || r == "owner"@ ==> b.ops.contains(c.id) && b.did_ops.contains(
                    c.authenticated_did->0,
                )
                &&& r == "moderator"@ || r == "halfop"@ ==> b.halfops.contains(c.id)
                &&& r == "voice"@ || r == "voiced"@ || r == "speaker"@ ==> b.voiced.contains(c.id)
                &&& b.halfops.contains(c.id) && !a.halfops.contains(c.id) ==> r == "moderator"@ || r == "halfop"@
                &&& b.voiced.contains(c.id) && !a.voiced.contains(c.id) ==> r == "voice"@ || r == "voiced"@ || r == "speaker"@
                &&& b.ops.contains(c.id) && a.members.len() > 0 && !a.ops.contains(c.id) ==> r == "op"@ || r == "admin"@ || r
                    == "owner"@
                &&& b.did_ops.contains(c.authenticated_did->0) ==> r == "op"@ || r == "admin"@ || r == "owner"@
            })
        }),
{
    lemma_joined_count(st.channels, c.id);
    let a1 = if a.invite_only {
        join::without_invite(a, c)
    } else {
        a
    };
    assert(join::past_door(st, c, channel).channel(channel) == Some(a1));
    assert(containers::set_insert(a.members, c.id).len() == a.members.len() + 1);
    lemma_role_names();
}

/// The names of roles are all different.
proof fn lemma_role_names()
    ensures
        "op"@ != "moderator"@ && "op"@ != "halfop"@ && "op"@ != "voice"@ && "op"@ != "voiced"@ && "op"@ != "speaker"@,
        "admin"@ != "moderator"@ && "admin"@ != "halfop"@ && "admin"@ != "voice"@ && "admin"@ != "voiced"@ && "admin"@
            != "speaker"@,
        "owner"@ != "moderator"@ && "owner"@ != "halfop"@ && "owner"@ != "voice"@ && "owner"@ != "voiced"@ && "owner"@
            != "speaker"@,
        "moderator"@ != "voice"@ && "moderator"@ != "voiced"@ && "moderator"@ != "speaker"@,
        "halfop"@ != "voice"@ && "halfop"@ != "voiced"@ && "halfop"@ != "speaker"@,
{
    reveal_strlit("op");
    reveal_strlit("admin");
    reveal_strlit("owner");
    reveal_strlit("moderator");
    reveal_strlit("halfop");
    reveal_strlit("voice");
    reveal_strlit("voiced");
    reveal_strlit("speaker");
    assert("op"@.len() == 2 && "admin"@.len() == 5 && "owner"@.len() == 5 && "moderator"@.len() == 9 && "halfop"@.len() == 6);
    assert("voice"@.len() == 5 && "voiced"@.len() == 6 && "speaker"@.len() == 7);
    assert("admin"@[0] == 'a' && "owner"@[0] == 'o' && "voice"@[0] == 'v' && "halfop"@[0] == 'h' && "voiced"@[0] == 'v');
}

} // verus!
