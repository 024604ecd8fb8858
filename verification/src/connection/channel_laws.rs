//! What holds of MODE, PART, KICK, INVITE, TOPIC, NAMES and LIST.
use super::channel;
use super::ConnectionView;
use super::told;
use crate::containers;
use crate::server::{
    BanEntryView, ChannelStateView, CrdtOpView, EffectView, RemoteMemberView, S2sEventView, ServerStateView, StoreOpView,
    TopicInfoView,
};
use crate::text;
use vstd::prelude::*;

verus! {

broadcast use {
    vstd::string::group_string_axioms,
    told::group_told,
    containers::lemma_map_put_get,
    containers::lemma_set_insert_contains,
    containers::lemma_set_remove_contains,
};

/// Whether nothing but one channel has changed.
pub open spec fn only_channel_changed(before: ServerStateView, after: ServerStateView, channel: Seq<char>) -> bool {
    &&& after == (ServerStateView { channels: after.channels, ..before })
    &&& forall|other: Seq<char>| other != channel ==> #[trigger] containers::map_get(after.channels, other) == containers::map_get(
        before.channels,
        other,
    )
}

// ── MODE ────────────────────────────────────────────────────────────

/// The value of a flag after a mode string: the sign before its last occurrence decides.
pub open spec fn flag_after(modes: Seq<char>, adding: bool, m: char, before: bool) -> bool
    decreases modes.len(),
{
    if modes.len() == 0 {
        before
    } else if modes[0] == '+' {
        flag_after(modes.skip(1), true, m, before)
    } else if modes[0] == '-' {
        flag_after(modes.skip(1), false, m, before)
    } else {
        flag_after(
            modes.skip(1),
            adding,
            m,
            if modes[0] == m {
                adding
            } else {
                before
            },
        )
    }
}

/// Whether a mode string holds nothing but signs and the flags i, t, n, m and E.
pub open spec fn only_flags(modes: Seq<char>) -> bool {
    forall|i: int|
        0 <= i < modes.len() ==> {
            let m = #[trigger] modes[i];
            m == '+' || m == '-' || m == 'i' || m == 't' || m == 'n' || m == 'm' || m == 'E'
        }
}

/// What a channel and what one with other flags have in common.
pub open spec fn but_for_flags(a: ChannelStateView, b: ChannelStateView) -> bool {
    b == (ChannelStateView {
        invite_only: b.invite_only,
        invites: b.invites,
        topic_locked: b.topic_locked,
        no_ext_msg: b.no_ext_msg,
        moderated: b.moderated,
        encrypted_only: b.encrypted_only,
        ..a
    })
}

proof fn lemma_flags(
    st: ServerStateView,
    c: ConnectionView,
    channel: Seq<char>,
    modes: Seq<char>,
    adding: bool,
    arg: Option<Seq<char>>,
    now: u64,
)
    requires
        containers::map_get(st.channels, channel) is Some,
        only_flags(modes),
    ensures
        ({
            let after = channel::mode_run(st, c, channel, modes, adding, arg, now).0;
            let a = containers::map_get(st.channels, channel)->0;
            let b = containers::map_get(after.channels, channel)->0;
            &&& containers::map_get(after.channels, channel) is Some
            &&& only_channel_changed(st, after, channel)
            &&& but_for_flags(a, b)
            &&& b.invite_only == flag_after(modes, adding, 'i', a.invite_only)
            &&& b.topic_locked == flag_after(modes, adding, 't', a.topic_locked)
            &&& b.no_ext_msg == flag_after(modes, adding, 'n', a.no_ext_msg)
            &&& b.moderated == flag_after(modes, adding, 'm', a.moderated)
            &&& b.encrypted_only == flag_after(modes, adding, 'E', a.encrypted_only)
        }),
    decreases modes.len(),
{
    if modes.len() > 0 {
        let rest = modes.skip(1);
        assert forall|i: int| 0 <= i < rest.len() implies ({
            let m = #[trigger] rest[i];
            m == '+' || m == '-' || m == 'i' || m == 't' || m == 'n' || m == 'm' || m == 'E'
        }) by {
            assert(rest[i] == modes[i + 1]);
        }
        let m = modes[0];
        if m == '+' || m == '-' {
            lemma_flags(st, c, channel, rest, m == '+', arg, now);
        } else {
            let step = channel::mode_step(st, c, channel, m, adding, arg, now);
            assert(!step.stop);
            lemma_flags(step.state, c, channel, rest, adding, arg, now);
        }
    }
}

/// A MODE of an operator with a string of signs and flags sets each of i, t, n, m and E as the sign
/// before its last occurrence says, and leaves everything else of the server as it is; who is
/// invited is forgotten only where `i` is.
pub proof fn law_flags_are_as_the_sign_says(
    st: ServerStateView,
    c: ConnectionView,
    channel: Seq<char>,
    modes: Seq<char>,
    arg: Option<Seq<char>>,
    now: u64,
    a: ChannelStateView,
)
    requires
        containers::map_get(st.channels, channel) == Some(a),
        a.members.contains(c.id),
        a.ops.contains(c.id) || st.server_opers.contains(c.id),
        only_flags(modes),
    ensures
        ({
            let after = channel::mode_spec(st, c, channel, Some(modes), arg, now).0;
            let b = containers::map_get(after.channels, channel)->0;
            &&& containers::map_get(after.channels, channel) is Some
            &&& only_channel_changed(st, after, channel)
            &&& but_for_flags(a, b)
            &&& b.invite_only == flag_after(modes, true, 'i', a.invite_only)
            &&& b.topic_locked == flag_after(modes, true, 't', a.topic_locked)
            &&& b.no_ext_msg == flag_after(modes, true, 'n', a.no_ext_msg)
            &&& b.moderated == flag_after(modes, true, 'm', a.moderated)
            &&& b.encrypted_only == flag_after(modes, true, 'E', a.encrypted_only)
        }),
{
    lemma_flags(st, c, channel, modes, true, arg, now);
}

/// After a MODE of an operator with a sign and one flag, that flag is set exactly where the sign was
/// `+`, the other flags are as before, the channel is saved so, and each member, and nobody else,
/// is told the change.
pub proof fn law_flag_is_set_and_told(
    st: ServerStateView,
    c: ConnectionView,
    channel: Seq<char>,
    sign: char,
    m: char,
    arg: Option<Seq<char>>,
    now: u64,
    a: ChannelStateView,
    session: Seq<char>,
)
    requires
        containers::map_get(st.channels, channel) == Some(a),
        a.members.contains(c.id),
        a.ops.contains(c.id) || st.server_opers.contains(c.id),
        sign == '+' || sign == '-',
        m == 'i' || m == 't' || m == 'n' || m == 'm' || m == 'E',
    ensures
        ({
            let (after, fx) = channel::mode_spec(st, c, channel, Some(seq![sign, m]), arg, now);
            let b = containers::map_get(after.channels, channel)->0;
            let line = ":"@ + c.hostmask() + " MODE "@ + channel + " "@ + seq![sign, m] + "\r\n"@;
            &&& only_channel_changed(st, after, channel)
            &&& but_for_flags(a, b)
            &&& b.invite_only == (if m == 'i' { sign == '+' } else { a.invite_only })
            &&& b.topic_locked == (if m == 't' { sign == '+' } else { a.topic_locked })
            &&& b.no_ext_msg == (if m == 'n' { sign == '+' } else { a.no_ext_msg })
            &&& b.moderated == (if m == 'm' { sign == '+' } else { a.moderated })
            &&& b.encrypted_only == (if m == 'E' { sign == '+' } else { a.encrypted_only })
            &&& !(m == 'i' && sign == '-') ==> b.invites == a.invites
            &&& m == 'i' && sign == '-' ==> b.invites.len() == 0
            &&& a.members.contains(session) <==> fx.contains(EffectView::Send { to: session, line })
            &&& fx.contains(EffectView::Store(StoreOpView::SaveChannel { channel, state: b }))
            &&& fx.contains(
                EffectView::S2s(
                    S2sEventView::Mode { channel, mode: seq![sign, m], arg: None, set_by: c.nick_or_star() },
                ),
            )
        }),
{
    let modes = seq![sign, m];
    assert(modes.skip(1) =~= seq![m]);
    assert(seq![m].skip(1) =~= Seq::<char>::empty());
    let adding = sign == '+';
    reveal_strlit("+");
    reveal_strlit("-");
    assert(channel::mode_text(adding, m) =~= modes);
    let step = channel::mode_step(st, c, channel, m, adding, arg, now);
    assert(channel::mode_run(step.state, c, channel, seq![m].skip(1), adding, arg, now).1 =~= Seq::empty());
    assert(channel::mode_run(st, c, channel, seq![m], adding, arg, now).1 =~= step.fx);
    assert(channel::mode_spec(st, c, channel, Some(modes), arg, now) == channel::mode_run(st, c, channel, modes, true, arg, now));
}

/// MODE +o, -o, +h, -h, +v and -v of an operator on a local member give and take exactly that
/// status of that session: nobody else's status changes, and no other status of theirs. Only the
/// founder keeps `o`. Each member, and nobody else, is told.
pub proof fn law_status_is_as_the_sign_says(
    st: ServerStateView,
    c: ConnectionView,
    channel: Seq<char>,
    sign: char,
    m: char,
    nick: Seq<char>,
    now: u64,
    a: ChannelStateView,
    target: Seq<char>,
    session: Seq<char>,
)
    requires
        containers::map_get(st.channels, channel) == Some(a),
        a.members.contains(c.id),
        a.ops.contains(c.id) || st.server_opers.contains(c.id),
        sign == '+' || sign == '-',
        m == 'o' || m == 'h' || m == 'v',
        containers::map_get(st.nick_session, text::lowercase(nick)) == Some(target),
        a.members.contains(target),
        !(m == 'o' && sign == '-' && containers::map_get(st.session_dids, target) is Some && a.founder_did
            == containers::map_get(st.session_dids, target)),
    ensures
        ({
            let (after, fx) = channel::mode_spec(st, c, channel, Some(seq![sign, m]), Some(nick), now);
            let b = containers::map_get(after.channels, channel)->0;
            let line = ":"@ + c.hostmask() + " MODE "@ + channel + " "@ + seq![sign, m] + " "@ + nick + "\r\n"@;
            let did = containers::map_get(st.session_dids, target);
            &&& containers::map_get(after.channels, channel) is Some
            &&& only_channel_changed(st, after, channel)
            &&& b == (ChannelStateView { ops: b.ops, halfops: b.halfops, voiced: b.voiced, did_ops: b.did_ops, ..a })
            &&& b.ops.contains(session) == (if m == 'o' && session == target { sign == '+' } else { a.ops.contains(session) })
            &&& b.halfops.contains(session) == (if m == 'h' && session == target { sign == '+' } else { a.halfops.contains(session) })
            &&& b.voiced.contains(session) == (if m == 'v' && session == target { sign == '+' } else { a.voiced.contains(session) })
            &&& b.did_ops.contains(session) == (if m == 'o' && did == Some(session) { sign == '+' } else { a.did_ops.contains(session) })
            &&& a.members.contains(session) <==> fx.contains(EffectView::Send { to: session, line })
            &&& fx.contains(
                EffectView::S2s(
                    S2sEventView::Mode { channel, mode: seq![sign, m], arg: Some(nick), set_by: c.nick_or_star() },
                ),
            )
            &&& m == 'o' && did is Some ==> fx.contains(EffectView::Store(StoreOpView::SaveChannel { channel, state: b }))
            &&& m == 'o' && sign == '+' && did is Some ==> fx.contains(
                EffectView::Crdt(
                    CrdtOpView::GrantOp { channel, did: did->0, granted_by: containers::map_get(st.session_dids, c.id) },
                ),
            )
            &&& m == 'o' && sign == '-' && did is Some ==> fx.contains(
                EffectView::Crdt(CrdtOpView::RevokeOp { channel, did: did->0 }),
            )
        }),
{
    lemma_one_mode(st, c, channel, sign, m, Some(nick), now);
    let did = containers::map_get(st.session_dids, target);
    if m == 'o' && did is Some {
        let crdt = channel::crdt_op_change(st, c, channel, did->0, sign == '+');
        assert(crdt.contains(crdt[0]));
        let saved = containers::map_get(channel::mode_spec(st, c, channel, Some(seq![sign, m]), Some(nick), now).0.channels, channel)->0;
        let store = seq![EffectView::Store(StoreOpView::SaveChannel { channel, state: saved })];
        assert(store.contains(store[0]));
    }
}

/// A mode string of a sign and one character is one step.
proof fn lemma_one_mode(
    st: ServerStateView,
    c: ConnectionView,
    channel: Seq<char>,
    sign: char,
    m: char,
    arg: Option<Seq<char>>,
    now: u64,
)
    requires
        containers::map_get(st.channels, channel) is Some,
        st.is_member(channel, c.id),
        st.is_op(channel, c.id) || st.server_opers.contains(c.id),
        sign == '+' || sign == '-',
        m != '+' && m != '-',
    ensures
        ({
            let step = channel::mode_step(st, c, channel, m, sign == '+', arg, now);
            let r = channel::mode_spec(st, c, channel, Some(seq![sign, m]), arg, now);
            &&& r.0 == step.state
            &&& r.1 == step.fx
            &&& channel::mode_text(sign == '+', m) == seq![sign, m]
        }),
{
    let modes = seq![sign, m];
    assert(modes.skip(1) =~= seq![m]);
    assert(seq![m].skip(1) =~= Seq::<char>::empty());
    let adding = sign == '+';
    reveal_strlit("+");
    reveal_strlit("-");
    assert(channel::mode_text(adding, m) =~= modes);
    let step = channel::mode_step(st, c, channel, m, adding, arg, now);
    assert(channel::mode_run(step.state, c, channel, seq![m].skip(1), adding, arg, now).1 =~= Seq::empty());
    assert(channel::mode_run(st, c, channel, seq![m], adding, arg, now).1 =~= step.fx);
    assert(channel::mode_spec(st, c, channel, Some(modes), arg, now) == channel::mode_run(st, c, channel, modes, true, arg, now));
}

/// The founder keeps `o`: a MODE -o on them changes nothing and tells nobody.
pub proof fn law_founder_is_not_touched(
    st: ServerStateView,
    c: ConnectionView,
    channel: Seq<char>,
    nick: Seq<char>,
    now: u64,
    a: ChannelStateView,
    target: Seq<char>,
)
    requires
        containers::map_get(st.channels, channel) == Some(a),
        a.members.contains(c.id),
        a.ops.contains(c.id) || st.server_opers.contains(c.id),
        containers::map_get(st.nick_session, text::lowercase(nick)) == Some(target),
        a.members.contains(target),
        containers::map_get(st.session_dids, target) is Some,
        a.founder_did == containers::map_get(st.session_dids, target),
    ensures
        channel::mode_spec(st, c, channel, Some(seq!['-', 'o']), Some(nick), now).0 == st,
        channel::mode_spec(st, c, channel, Some(seq!['-', 'o']), Some(nick), now).1.len() == 0,
{
    lemma_one_mode(st, c, channel, '-', 'o', Some(nick), now);
}

/// MODE +k sets the key that is given, MODE -k takes it away, whatever is given; nothing else of the
/// server changes.
pub proof fn law_key_is_as_the_sign_says(
    st: ServerStateView,
    c: ConnectionView,
    channel: Seq<char>,
    sign: char,
    arg: Option<Seq<char>>,
    now: u64,
    a: ChannelStateView,
    session: Seq<char>,
)
    requires
        containers::map_get(st.channels, channel) == Some(a),
        a.members.contains(c.id),
        a.ops.contains(c.id) || st.server_opers.contains(c.id),
        sign == '-' || (sign == '+' && arg is Some),
    ensures
        ({
            let (after, fx) = channel::mode_spec(st, c, channel, Some(seq![sign, 'k']), arg, now);
            let b = containers::map_get(after.channels, channel)->0;
            let shown = if sign == '+' {
                arg
            } else {
                a.key
            };
            let line = ":"@ + c.hostmask() + " MODE "@ + channel + " "@ + seq![sign, 'k'] + " "@ + shown->0 + "\r\n"@;
            &&& containers::map_get(after.channels, channel) is Some
            &&& only_channel_changed(st, after, channel)
            &&& b == (ChannelStateView { key: b.key, ..a })
            &&& sign == '+' ==> b.key == arg
            &&& sign == '-' ==> b.key is None
            &&& fx.contains(EffectView::Store(StoreOpView::SaveChannel { channel, state: b }))
            &&& shown is Some ==> (a.members.contains(session) <==> fx.contains(EffectView::Send { to: session, line }))
            &&& shown is Some ==> fx.contains(
                EffectView::S2s(
                    S2sEventView::Mode { channel, mode: seq![sign, 'k'], arg: shown, set_by: c.nick_or_star() },
                ),
            )
        }),
{
    lemma_one_mode(st, c, channel, sign, 'k', arg, now);
    let saved = containers::map_get(channel::mode_spec(st, c, channel, Some(seq![sign, 'k']), arg, now).0.channels, channel)->0;
    let store = seq![EffectView::Store(StoreOpView::SaveChannel { channel, state: saved })];
    assert(store.contains(store[0]));
}

/// Whether a mask is among the bans.
pub open spec fn bans_hold(bans: Seq<BanEntryView>, mask: Seq<char>) -> bool {
    exists|i: int| 0 <= i < bans.len() && (#[trigger] bans[i]).mask == mask
}

/// MODE +b bans the mask that is given and keeps every other ban, MODE -b lifts every ban on it and
/// no other; either is stored, and each member and the other servers are told.
pub proof fn law_bans_are_as_the_sign_says(
    st: ServerStateView,
    c: ConnectionView,
    channel: Seq<char>,
    sign: char,
    arg: Seq<char>,
    now: u64,
    a: ChannelStateView,
    session: Seq<char>,
    other: Seq<char>,
)
    requires
        containers::map_get(st.channels, channel) == Some(a),
        a.members.contains(c.id),
        a.ops.contains(c.id) || st.server_opers.contains(c.id),
        sign == '+' || sign == '-',
        text::trim_spec(arg).len() > 0,
    ensures
        ({
            let mask = text::trim_spec(arg);
            let (after, fx) = channel::mode_spec(st, c, channel, Some(seq![sign, 'b']), Some(arg), now);
            let b = containers::map_get(after.channels, channel)->0;
            let line = ":"@ + c.hostmask() + " MODE "@ + channel + " "@ + seq![sign, 'b'] + " "@ + mask + "\r\n"@;
            let entry = BanEntryView { mask, set_by: c.hostmask(), set_at: now };
            &&& containers::map_get(after.channels, channel) is Some
            &&& only_channel_changed(st, after, channel)
            &&& b == (ChannelStateView { bans: b.bans, ..a })
            &&& bans_hold(b.bans, mask) == (sign == '+')
            &&& other != mask ==> bans_hold(b.bans, other) == bans_hold(a.bans, other)
            &&& sign == '+' && bans_hold(a.bans, mask) ==> b.bans == a.bans
            &&& sign == '+' && !bans_hold(a.bans, mask) ==> b.bans == a.bans.push(entry) && fx.contains(
                EffectView::Store(StoreOpView::AddBan { channel, ban: entry }),
            )
            &&& sign == '-' ==> fx.contains(EffectView::Store(StoreOpView::RemoveBan { channel, mask }))
            &&& a.members.contains(session) <==> fx.contains(EffectView::Send { to: session, line })
            &&& fx.contains(
                EffectView::S2s(S2sEventView::Ban { channel, mask, set_by: c.nick_or_star(), adding: sign == '+' }),
            )
        }),
{
    let mask = text::trim_spec(arg);
    lemma_one_mode(st, c, channel, sign, 'b', Some(arg), now);
    let entry = BanEntryView { mask, set_by: c.hostmask(), set_at: now };
    let b = containers::map_get(channel::mode_spec(st, c, channel, Some(seq![sign, 'b']), Some(arg), now).0.channels, channel)->0;
    assert(bans_hold(a.bans, mask) == channel::ban_listed(a.bans, mask));
    let add = seq![EffectView::Store(StoreOpView::AddBan { channel, ban: entry })];
    assert(add.contains(add[0]));
    let rem = seq![EffectView::Store(StoreOpView::RemoveBan { channel, mask })];
    assert(rem.contains(rem[0]));
    if sign == '+' {
        if !bans_hold(a.bans, mask) {
            assert(b.bans[a.bans.len() as int] == entry);
            if bans_hold(a.bans, other) {
                let i = choose|i: int| 0 <= i < a.bans.len() && (#[trigger] a.bans[i]).mask == other;
                assert(b.bans[i].mask == other);
            }
            if bans_hold(b.bans, other) && other != mask {
                let i = choose|i: int| 0 <= i < b.bans.len() && (#[trigger] b.bans[i]).mask == other;
                assert(a.bans[i].mask == other);
            }
        }
    } else {
        let keep = |e: BanEntryView| e.mask != mask;
        assert(b.bans == a.bans.filter(keep));
        if bans_hold(b.bans, mask) {
            let i = choose|i: int| 0 <= i < b.bans.len() && (#[trigger] b.bans[i]).mask == mask;
            told::lemma_filter_contains(a.bans, keep, b.bans[i]);
            assert(b.bans.contains(b.bans[i]));
        }
        if other != mask {
            if bans_hold(a.bans, other) {
                let i = choose|i: int| 0 <= i < a.bans.len() && (#[trigger] a.bans[i]).mask == other;
                told::lemma_filter_contains(a.bans, keep, a.bans[i]);
                assert(b.bans.contains(a.bans[i]));
                let j = choose|j: int| 0 <= j < b.bans.len() && b.bans[j] == a.bans[i];
                assert(b.bans[j].mask == other);
            }
            if bans_hold(b.bans, other) {
                let i = choose|i: int| 0 <= i < b.bans.len() && (#[trigger] b.bans[i]).mask == other;
                told::lemma_filter_contains(a.bans, keep, b.bans[i]);
                assert(b.bans.contains(b.bans[i]));
                let j = choose|j: int| 0 <= j < a.bans.len() && a.bans[j] == b.bans[i];
                assert(a.bans[j].mask == other);
            }
        }
    }
}

/// MODE without a mode string shows a letter exactly where that mode is set, and changes nothing.
pub proof fn law_modes_shown_are_those_that_are_set(ch: ChannelStateView)
    ensures
        ({
            let shown = channel::modes_shown(ch);
            &&& shown.len() > 0 && shown[0] == '+'
            &&& shown.contains('n') == ch.no_ext_msg
            &&& shown.contains('t') == ch.topic_locked
            &&& shown.contains('i') == ch.invite_only
            &&& shown.contains('m') == ch.moderated
            &&& shown.contains('E') == ch.encrypted_only
            &&& shown.contains('k') == (ch.key is Some)
        }),
{
    reveal_strlit("+");
    assert("+"@ =~= seq!['+']);
    assert(forall|x: char| seq!['+'].contains(x) <==> x == '+') by {
        assert(seq!['+'][0] == '+');
    }
}

// ── PART ────────────────────────────────────────────────────────────

/// After PART by a member that session is not in the channel, and everyone else is in it exactly
/// where they were before; nothing else of the server changes. Each member, the one who leaves
/// among them, and nobody else, is told; so are the other servers, and the channel is not rejoined.
pub proof fn law_part_takes_out_one_session(
    st: ServerStateView,
    c: ConnectionView,
    channel: Seq<char>,
    a: ChannelStateView,
    session: Seq<char>,
)
    requires
        containers::map_get(st.channels, channel) == Some(a),
        a.members.contains(c.id),
    ensures
        ({
            let (after, fx) = channel::part_spec(st, c, channel);
            let b = containers::map_get(after.channels, channel)->0;
            let line = ":"@ + c.hostmask() + " PART "@ + channel + "\r\n"@;
            &&& containers::map_get(after.channels, channel) is Some
            &&& only_channel_changed(st, after, channel)
            &&& b == (ChannelStateView { members: b.members, ..a })
            &&& !b.members.contains(c.id)
            &&& session != c.id ==> b.members.contains(session) == a.members.contains(session)
            &&& a.members.contains(session) <==> fx.contains(EffectView::Send { to: session, line })
            &&& fx.contains(EffectView::S2s(S2sEventView::Part { nick: c.nick_or_star(), channel }))
            &&& c.authenticated_did matches Some(did) ==> fx.contains(
                EffectView::Store(StoreOpView::RemoveUserChannel { did, channel }),
            )
        }),
{
    let event = seq![EffectView::S2s(S2sEventView::Part { nick: c.nick_or_star(), channel })];
    assert(event.contains(event[0]));
    if let Some(did) = c.authenticated_did {
        let gone = seq![EffectView::Store(StoreOpView::RemoveUserChannel { did, channel })];
        assert(gone.contains(gone[0]));
    }
}

/// Whoever is not in a channel cannot PART, KICK, INVITE, change its TOPIC or its MODE: nothing
/// changes, and all that follows is one reply to them.
pub proof fn law_outsiders_change_nothing(
    st: ServerStateView,
    c: ConnectionView,
    channel: Seq<char>,
    x: Seq<char>,
    y: Seq<char>,
    o: Option<Seq<char>>,
    p: Option<Seq<char>>,
    now: u64,
)
    requires
        containers::map_get(st.channels, channel) matches Some(a) ==> !a.members.contains(c.id),
    ensures
        ({
            let parts = channel::part_spec(st, c, channel);
            let kick = channel::kick_spec(st, c, channel, x, y);
            let invite = channel::invite_spec(st, c, x, channel);
            let topic = channel::topic_spec(st, c, channel, o, now);
            let mode = channel::mode_spec(st, c, channel, o, p, now);
            &&& parts.0 == st && told::one_reply(parts.1, c.id)
            &&& kick.0 == st && told::one_reply(kick.1, c.id)
            &&& invite.0 == st && told::one_reply(invite.1, c.id)
            &&& topic.0 == st && told::one_reply(topic.1, c.id)
            &&& mode.0 == st && told::one_reply(mode.1, c.id)
        }),
{
}

// ── KICK ────────────────────────────────────────────────────────────

/// A KICK of an operator tells each member, the one who is kicked among them, and nobody else; it
/// leaves nothing of the channel changed but who is in it and their status, and nothing else of the
/// server at all.
pub proof fn law_kick_is_told(
    st: ServerStateView,
    c: ConnectionView,
    channel: Seq<char>,
    nick: Seq<char>,
    reason: Seq<char>,
    a: ChannelStateView,
    target: Seq<char>,
    session: Seq<char>,
)
    requires
        containers::map_get(st.channels, channel) == Some(a),
        a.members.contains(c.id),
        a.ops.contains(c.id) || st.server_opers.contains(c.id),
        containers::map_get(st.nick_session, text::lowercase(nick)) == Some(target),
        a.members.contains(target),
    ensures
        ({
            let (after, fx) = channel::kick_spec(st, c, channel, nick, reason);
            let b = containers::map_get(after.channels, channel)->0;
            let line = ":"@ + c.hostmask() + " KICK "@ + channel + " "@ + nick + " :"@ + reason + "\r\n"@;
            &&& containers::map_get(after.channels, channel) is Some
            &&& only_channel_changed(st, after, channel)
            &&& b == (ChannelStateView { members: b.members, ops: b.ops, halfops: b.halfops, voiced: b.voiced, ..a })
            &&& b.members.contains(session) == (session != target && a.members.contains(session))
            &&& b.ops.contains(session) == (session != target && a.ops.contains(session))
            &&& b.halfops.contains(session) == (session != target && a.halfops.contains(session))
            &&& b.voiced.contains(session) == (session != target && a.voiced.contains(session))
            &&& a.members.contains(session) <==> fx.contains(EffectView::Send { to: session, line })
        }),
{
}

/// A KICK of a remote member takes out that nick and no other, tells each member, and asks the other
/// servers to enforce it.
pub proof fn law_remote_kick_is_passed_on(
    st: ServerStateView,
    c: ConnectionView,
    channel: Seq<char>,
    nick: Seq<char>,
    reason: Seq<char>,
    a: ChannelStateView,
    e: (Seq<char>, RemoteMemberView),
    session: Seq<char>,
)
    requires
        containers::map_get(st.channels, channel) == Some(a),
        a.members.contains(c.id),
        a.ops.contains(c.id) || st.server_opers.contains(c.id),
        containers::map_get(st.nick_session, text::lowercase(nick)) matches Some(s) ==> !a.members.contains(s),
        st.channel_target(channel, nick) is Remote,
    ensures
        ({
            let (after, fx) = channel::kick_spec(st, c, channel, nick, reason);
            let b = containers::map_get(after.channels, channel)->0;
            let line = ":"@ + c.hostmask() + " KICK "@ + channel + " "@ + nick + " :"@ + reason + "\r\n"@;
            &&& containers::map_get(after.channels, channel) is Some
            &&& only_channel_changed(st, after, channel)
            &&& b == (ChannelStateView { remote_members: b.remote_members, ..a })
            &&& b.remote_members.contains(e) == (a.remote_members.contains(e) && text::lowercase(e.0) != text::lowercase(nick))
            &&& a.members.contains(session) <==> fx.contains(EffectView::Send { to: session, line })
            &&& fx.contains(EffectView::S2s(S2sEventView::Kick { nick, channel, by: c.nick_or_star(), reason }))
        }),
{
    let keep = |x: (Seq<char>, RemoteMemberView)| text::lowercase(x.0) != text::lowercase(nick);
    told::lemma_filter_contains(a.remote_members, keep, e);
    let b = containers::map_get(channel::kick_spec(st, c, channel, nick, reason).0.channels, channel)->0;
    assert(b.remote_members == a.remote_members.filter(keep));
}

// ── INVITE ──────────────────────────────────────────────────────────

/// An INVITE of a local user adds the session, and the DID where there is one, to those invited, and
/// nobody else; it tells both sides, and the other servers.
pub proof fn law_invite_adds_one_user(
    st: ServerStateView,
    c: ConnectionView,
    channel: Seq<char>,
    nick: Seq<char>,
    a: ChannelStateView,
    target: Seq<char>,
    x: Seq<char>,
)
    requires
        containers::map_get(st.channels, channel) == Some(a),
        a.members.contains(c.id),
        !a.invite_only || a.ops.contains(c.id) || st.server_opers.contains(c.id),
        containers::map_get(st.nick_session, text::lowercase(nick)) == Some(target),
    ensures
        ({
            let (after, fx) = channel::invite_spec(st, c, nick, channel);
            let b = containers::map_get(after.channels, channel)->0;
            let did = containers::map_get(st.session_dids, target);
            &&& containers::map_get(after.channels, channel) is Some
            &&& only_channel_changed(st, after, channel)
            &&& b == (ChannelStateView { invites: b.invites, ..a })
            &&& b.invites.contains(x) == (a.invites.contains(x) || x == target || did == Some(x))
            &&& fx.contains(
                EffectView::Send {
                    to: target,
                    line: ":"@ + c.hostmask() + " INVITE "@ + nick + " "@ + channel + "\r\n"@,
                },
            )
            &&& exists|line: Seq<char>| fx.contains(EffectView::Send { to: c.id, line })
            &&& fx.contains(
                EffectView::S2s(
                    S2sEventView::Invite {
                        channel,
                        invitee: match did {
                            Some(d) => d,
                            None => "nick:"@ + nick,
                        },
                        invited_by: c.nick_or_star(),
                    },
                ),
            )
        }),
{
    let fx = channel::invite_spec(st, c, nick, channel).1;
    assert(fx.contains(fx[0]) && fx.contains(fx[1]) && fx.contains(fx[2]));
    assert(fx[0] == EffectView::Send { to: c.id, line: fx[0]->line });
    assert(fx.contains(EffectView::Send { to: c.id, line: fx[0]->line }));
}

/// An INVITE of a user on another server adds their nick, and their DID where it is known, to those
/// invited, and nobody else.
pub proof fn law_remote_invite_adds_one_user(
    st: ServerStateView,
    c: ConnectionView,
    channel: Seq<char>,
    nick: Seq<char>,
    a: ChannelStateView,
    rm: RemoteMemberView,
    x: Seq<char>,
)
    requires
        containers::map_get(st.channels, channel) == Some(a),
        a.members.contains(c.id),
        !a.invite_only || a.ops.contains(c.id) || st.server_opers.contains(c.id),
        st.network_target(nick) == crate::server::ChannelTargetView::Remote(rm),
    ensures
        ({
            let (after, fx) = channel::invite_spec(st, c, nick, channel);
            let b = containers::map_get(after.channels, channel)->0;
            &&& containers::map_get(after.channels, channel) is Some
            &&& only_channel_changed(st, after, channel)
            &&& b == (ChannelStateView { invites: b.invites, ..a })
            &&& b.invites.contains(x) == (a.invites.contains(x) || x == "nick:"@ + nick || rm.did == Some(x))
            &&& fx.contains(
                EffectView::S2s(
                    S2sEventView::Invite {
                        channel,
                        invitee: match rm.did {
                            Some(d) => d,
                            None => "nick:"@ + nick,
                        },
                        invited_by: c.nick_or_star(),
                    },
                ),
            )
        }),
{
    let fx = channel::invite_spec(st, c, nick, channel).1;
    assert(fx.contains(fx[1]));
}

// ── TOPIC ───────────────────────────────────────────────────────────

/// A TOPIC that is allowed sets the text that is given, with who set it and when, and changes
/// nothing else; it is stored, replicated, and told to each member and nobody else.
pub proof fn law_topic_is_set(
    st: ServerStateView,
    c: ConnectionView,
    channel: Seq<char>,
    topic: Seq<char>,
    now: u64,
    a: ChannelStateView,
    session: Seq<char>,
)
    requires
        containers::map_get(st.channels, channel) == Some(a),
        a.members.contains(c.id),
        !a.topic_locked || a.ops.contains(c.id) || st.server_opers.contains(c.id),
        vstd::utf8::encode_utf8(topic).len() <= 512,
    ensures
        ({
            let (after, fx) = channel::topic_spec(st, c, channel, Some(topic), now);
            let b = ChannelStateView {
                topic: Some(TopicInfoView { text: topic, set_by: c.hostmask(), set_at: now }),
                ..a
            };
            let line = ":"@ + c.hostmask() + " TOPIC "@ + channel + " :"@ + topic + "\r\n"@;
            &&& containers::map_get(after.channels, channel) == Some(b)
            &&& only_channel_changed(st, after, channel)
            &&& a.members.contains(session) <==> fx.contains(EffectView::Send { to: session, line })
            &&& fx.contains(EffectView::Store(StoreOpView::SaveChannel { channel, state: b }))
            &&& fx.contains(EffectView::S2s(S2sEventView::Topic { channel, topic, set_by: c.nick_or_star() }))
            &&& fx.contains(
                EffectView::Crdt(
                    CrdtOpView::SetTopic {
                        channel,
                        text: topic,
                        nick: c.nick_or_star(),
                        did: containers::map_get(st.session_dids, c.id),
                    },
                ),
            )
        }),
{
    let fx = channel::topic_spec(st, c, channel, Some(topic), now).1;
    assert(fx[0] is Crdt && fx[1] is Store);
    assert(fx.contains(fx[0]) && fx.contains(fx[1]));
    let event = seq![EffectView::S2s(S2sEventView::Topic { channel, topic, set_by: c.nick_or_star() })];
    assert(event.contains(event[0]));
}

/// TOPIC without a text shows a member the topic that is set, and changes nothing.
pub proof fn law_topic_is_shown(
    st: ServerStateView,
    c: ConnectionView,
    channel: Seq<char>,
    now: u64,
    a: ChannelStateView,
)
    requires
        containers::map_get(st.channels, channel) == Some(a),
        a.members.contains(c.id),
    ensures
        channel::topic_spec(st, c, channel, None, now).0 == st,
        ({
            let fx = channel::topic_spec(st, c, channel, None, now).1;
            let line = |command: Seq<char>, params: Seq<Seq<char>>| EffectView::Send {
                to: c.id,
                line: crate::irc::wire(crate::irc::server_msg(st.server_name, command, params)),
            };
            match a.topic {
                Some(t) => fx == seq![
                    line("332"@, seq![c.nick_or_star(), channel, t.text]),
                    line("333"@, seq![c.nick_or_star(), channel, t.set_by, text::decimal_spec(t.set_at as nat)]),
                ],
                None => fx == seq![line("331"@, seq![c.nick_or_star(), channel, "No topic is set"@])],
            }
        }),
{
}

// ── NAMES and LIST ──────────────────────────────────────────────────

/// LIST has one line for each channel, in their order, with the number of those who are in it, here
/// and elsewhere, and its topic, and a last line; all go to who asked.
pub proof fn law_list_has_every_channel(st: ServerStateView, c: ConnectionView, i: int)
    requires
        0 <= i < st.channels.len(),
    ensures
        channel::list_fx(st, c).len() == st.channels.len() + 1,
        ({
            let ch = st.channels[i].1;
            let topic = match ch.topic {
                Some(t) => t.text,
                None => ""@,
            };
            channel::list_fx(st, c)[i] == EffectView::Send {
                to: c.id,
                line: crate::irc::wire(
                    crate::irc::server_msg(
                        st.server_name,
                        "322"@,
                        seq![
                            c.nick_or_star(),
                            st.channels[i].0,
                            text::decimal_spec((ch.members.len() + ch.remote_members.len()) as nat),
                            topic,
                        ],
                    ),
                ),
            }
        }),
        channel::list_fx(st, c)[st.channels.len() as int] matches EffectView::Send { to, .. } && to == c.id,
{
    let e = st.channels[i];
    assert(channel::list_fx(st, c)[i] == channel::list_entry(st, c, e));
    let ch = e.1;
    let topic = match ch.topic {
        Some(t) => t.text,
        None => ""@,
    };
    assert(channel::topic_text(ch) == topic);
    assert(channel::list_entry(st, c, e) == EffectView::Send {
        to: c.id,
        line: crate::irc::wire(
            crate::irc::server_msg(
                st.server_name,
                "322"@,
                seq![c.nick_or_star(), e.0, text::decimal_spec((ch.members.len() + ch.remote_members.len()) as nat), topic],
            ),
        ),
    });
}

// ── NAMES ───────────────────────────────────────────────────────────

/// Every nick of a channel is named once, an operator with an at sign and one with voice with a plus;
/// who has both is shown with both to a client that wants that, else as an operator.
pub proof fn law_names_are_marked(
    st: ServerStateView,
    ch: ChannelStateView,
    sessions: Seq<Seq<char>>,
    s: Seq<char>,
    n: Seq<char>,
    multi: bool,
)
    ensures
        ({
            let before = channel::local_names(st, ch, sessions, multi);
            let after = channel::local_names(st, ch, sessions.push(s), multi);
            let op = ch.ops.contains(s);
            let voice = ch.voiced.contains(s);
            let nick = containers::map_get(st.session_nick, s);
            let new = nick == Some(n) && !before.1.contains(text::lowercase(n));
            &&& nick is None ==> after == before
            &&& nick == Some(n) && before.1.contains(text::lowercase(n)) ==> after == before
            &&& new ==> after.1 == before.1.push(text::lowercase(n))
            &&& new && op && !(voice && multi) ==> after.0 == before.0.push("@"@ + n)
            &&& new && op && voice && multi ==> after.0 == before.0.push("@"@ + "+"@ + n)
            &&& new && !op && voice ==> after.0 == before.0.push("+"@ + n)
            &&& new && !op && !voice ==> after.0 == before.0.push(n)
        }),
{
    assert(sessions.push(s).drop_last() =~= sessions);
    reveal_strlit("");
    assert("@"@ + ""@ =~= "@"@);
    assert(""@ + "+"@ =~= "+"@);
    assert(""@ + ""@ =~= ""@);
    assert(""@ + n =~= n);
}

/// Those who are in a channel from other servers are named behind the others, an operator with an at
/// sign: one at home, the founder, and an operator for good.
pub proof fn law_remote_names_are_marked(
    st: ServerStateView,
    channel: Seq<char>,
    ch: ChannelStateView,
    multi: bool,
    i: int,
)
    requires
        containers::map_get(st.channels, channel) == Some(ch),
        0 <= i < ch.remote_members.len(),
    ensures
        ({
            let local = channel::local_names(st, ch, ch.members, multi).0;
            let all = channel::names_list(st, channel, multi);
            let r = ch.remote_members[i];
            let op = r.1.is_op || (r.1.did is Some && (ch.founder_did == r.1.did || ch.did_ops.contains(r.1.did->0)));
            &&& all.len() == local.len() + ch.remote_members.len()
            &&& all.take(local.len() as int) == local
            &&& op ==> all[local.len() + i] == "@"@ + r.0
            &&& !op ==> all[local.len() + i] == r.0
        }),
{
    reveal_strlit("");
    assert(""@ + ch.remote_members[i].0 =~= ch.remote_members[i].0);
    let local = channel::local_names(st, ch, ch.members, multi).0;
    assert(channel::names_list(st, channel, multi).take(local.len() as int) =~= local);
}

/// Whether a mode is not a moderator's to set.
pub open spec fn beyond_moderators(m: char, has_arg: bool) -> bool {
    m == 'o' || m == 'h' || m == 'm' || m == 't' || m == 'i' || m == 'k' || m == 'n' || m == 'E' || (m == 'b' && has_arg)
}

/// A moderator who is not an operator sets voice, and lists the bans; a mode string that holds
/// anything for operators is refused whole. An operator is never refused for that.
pub proof fn law_moderators_set_voice(
    st: ServerStateView,
    c: ConnectionView,
    channel: Seq<char>,
    modes: Seq<char>,
    arg: Option<Seq<char>>,
    now: u64,
    a: ChannelStateView,
    i: int,
)
    requires
        containers::map_get(st.channels, channel) == Some(a),
        a.members.contains(c.id),
        a.halfops.contains(c.id) || a.ops.contains(c.id) || st.server_opers.contains(c.id),
    ensures
        ({
            let r = channel::mode_spec(st, c, channel, Some(modes), arg, now);
            let chief = a.ops.contains(c.id) || st.server_opers.contains(c.id);
            &&& !chief && 0 <= i < modes.len() && beyond_moderators(modes[i], arg is Some) ==> r.0 == st && told::one_reply(r.1, c.id)
            &&& chief || (forall|j: int| 0 <= j < modes.len() ==> !beyond_moderators(#[trigger] modes[j], arg is Some)) ==> r
                == channel::mode_run(st, c, channel, modes, true, arg, now)
        }),
{
    if 0 <= i < modes.len() && beyond_moderators(modes[i], arg is Some) {
        assert(channel::is_op_only_mode(modes[i], arg is Some));
    }
    if exists|j: int| 0 <= j < modes.len() && #[trigger] channel::is_op_only_mode(modes[j], arg is Some) {
        let j = choose|j: int| 0 <= j < modes.len() && #[trigger] channel::is_op_only_mode(modes[j], arg is Some);
        assert(beyond_moderators(modes[j], arg is Some));
    }
}

} // verus!
