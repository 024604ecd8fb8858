//! What holds of every command: who keeps which status, what stays within its bounds, and what a
//! session leaves behind.
use super::cap;
use super::channel;
use super::commands;
use super::departure;
use super::join;
use super::join::PolicyView;
use super::messaging;
use super::messaging::{LookupView, RouteView, VerdictView};
use super::nick;
use super::registration;
use super::requests;
use super::requests::RequestView;
use super::ConnectionView;
use crate::containers;
use crate::db::MessageRowView;
use crate::irc::MessageView;
use crate::server::{
    BanEntryView, ChannelStateView, ChannelTargetView, EffectView, GhostChannelView,
    HistoryMessageView, PinnedMessageView, ServerStateView, StoreOpView,
};
use vstd::prelude::*;

verus! {

// ── MODE ────────────────────────────────────────────────────────────

/// Whether a step of MODE leaves the state as it is, or changes one channel and nobody in it.
spec fn only_status(st: ServerStateView, channel: Seq<char>, after: ServerStateView) -> bool {
    after == st || exists|ch: ChannelStateView|
        {
            &&& after == #[trigger] st.with_channel(channel, ch)
            &&& ch.members == st.channel(channel)->0.members
            &&& ch.founder_did == st.channel(channel)->0.founder_did
        }
}

/// A change of status changes nobody in the channel.
proof fn lemma_status_mode_only(st: ServerStateView, c: ConnectionView, channel: Seq<char>, m: char, adding: bool, arg: Option<Seq<char>>)
    requires
        st.channel(channel) is Some,
    ensures
        only_status(st, channel, channel::status_mode(st, c, channel, m, adding, arg).state),
{
    let ch = st.channel(channel)->0;
    if let Some(target) = arg {
        match st.channel_target(channel, target) {
            ChannelTargetView::Local { session_id } => {
                let did = st.did_of(session_id);
                let ch1 = channel::with_status(ch, m, session_id, adding);
                let ch2 = ChannelStateView { did_ops: channel::set_to(ch1.did_ops, did->0, adding), ..ch1 };
                let after = channel::local_status_mode(st, c, channel, m, adding, target, session_id).state;
                assert(after == st || after == st.with_channel(channel, ch1) || after == st.with_channel(channel, ch2));
            },
            ChannelTargetView::Remote(rm) => {
                let ch1 = channel::with_remote_op(ch, m, target, adding);
                let ch2 = ChannelStateView { did_ops: channel::set_to(ch1.did_ops, rm.did->0, adding), ..ch1 };
                let after = channel::remote_status_mode(st, c, channel, m, adding, target, rm.did).state;
                assert(after == st || after == st.with_channel(channel, ch1) || after == st.with_channel(channel, ch2));
            },
            ChannelTargetView::NotPresent => {},
        }
    }
}

/// A ban changes nobody in the channel.
proof fn lemma_ban_mode_only(st: ServerStateView, c: ConnectionView, channel: Seq<char>, adding: bool, arg: Option<Seq<char>>, now: u64)
    requires
        st.channel(channel) is Some,
    ensures
        only_status(st, channel, channel::ban_mode(st, c, channel, adding, arg, now).state),
{
    let ch = st.channel(channel)->0;
    if let Some(a) = arg {
        let mask = crate::text::trim_spec(a);
        let entry = BanEntryView { mask, set_by: c.hostmask(), set_at: now };
        let more = ChannelStateView { bans: ch.bans.push(entry), ..ch };
        let fewer = ChannelStateView { bans: channel::bans_without(ch.bans, mask), ..ch };
        let after = channel::ban_mode(st, c, channel, adding, arg, now).state;
        assert(after == st || after == st.with_channel(channel, more) || after == st.with_channel(channel, fewer));
    }
}

/// A mode character leaves everyone in the channel, and every other channel as it is.
proof fn lemma_mode_step_keeps_members(
    st: ServerStateView,
    c: ConnectionView,
    channel: Seq<char>,
    m: char,
    adding: bool,
    arg: Option<Seq<char>>,
    now: u64,
    other: Seq<char>,
)
    requires
        st.channel(channel) is Some,
    ensures
        ({
            let after = channel::mode_step(st, c, channel, m, adding, arg, now).state;
            &&& after.channel(channel) is Some
            &&& after.members(channel) == st.members(channel)
            &&& other != channel ==> after.channel(other) == st.channel(other)
        }),
{
    let after = channel::mode_step(st, c, channel, m, adding, arg, now).state;
    assert(only_status(st, channel, after)) by {
        if m == 'o' || m == 'h' || m == 'v' {
            lemma_status_mode_only(st, c, channel, m, adding, arg);
        } else if m == 'b' {
            lemma_ban_mode_only(st, c, channel, adding, arg, now);
        } else if m == 'k' {
            let ch = st.channel(channel)->0;
            let ch1 = ChannelStateView {
                key: if adding {
                    arg
                } else {
                    None
                },
                ..ch
            };
            assert(after == st || after == st.with_channel(channel, ch1));
        } else if channel::is_flag_mode(m) {
            let ch1 = channel::with_flag(st.channel(channel)->0, m, adding);
            assert(after == st.with_channel(channel, ch1));
        }
    }
    if after != st {
        let ch = choose|ch: ChannelStateView|
            {
                &&& after == #[trigger] st.with_channel(channel, ch)
                &&& ch.members == st.channel(channel)->0.members
                &&& ch.founder_did == st.channel(channel)->0.founder_did
            };
        containers::lemma_map_put_get(st.channels, channel, ch, channel);
        containers::lemma_map_put_get(st.channels, channel, ch, other);
    }
}

/// A mode string leaves everyone in the channel, and every other channel as it is.
proof fn lemma_mode_run_keeps_members(
    st: ServerStateView,
    c: ConnectionView,
    channel: Seq<char>,
    modes: Seq<char>,
    adding: bool,
    arg: Option<Seq<char>>,
    now: u64,
    other: Seq<char>,
)
    requires
        st.channel(channel) is Some,
    ensures
        ({
            let after = channel::mode_run(st, c, channel, modes, adding, arg, now).0;
            &&& after.members(channel) == st.members(channel)
            &&& other != channel ==> after.channel(other) == st.channel(other)
        }),
    decreases modes.len(),
{
    if modes.len() > 0 {
        if modes[0] == '+' || modes[0] == '-' {
            lemma_mode_run_keeps_members(st, c, channel, modes.skip(1), modes[0] == '+', arg, now, other);
        } else {
            lemma_mode_step_keeps_members(st, c, channel, modes[0], adding, arg, now, other);
            let step = channel::mode_step(st, c, channel, modes[0], adding, arg, now);
            if !step.stop {
                lemma_mode_run_keeps_members(step.state, c, channel, modes.skip(1), adding, arg, now, other);
            }
        }
    }
}

/// MODE lets nobody in and puts nobody out, and it does not touch any other channel.
pub proof fn law_mode_keeps_members(
    st: ServerStateView,
    c: ConnectionView,
    channel: Seq<char>,
    mode_str: Option<Seq<char>>,
    arg: Option<Seq<char>>,
    now: u64,
    other: Seq<char>,
)
    ensures
        ({
            let after = channel::mode_spec(st, c, channel, mode_str, arg, now).0;
            &&& after.members(channel) == st.members(channel)
            &&& other != channel ==> after.channel(other) == st.channel(other)
        }),
{
    if st.channel(channel) is Some && mode_str is Some {
        lemma_mode_run_keeps_members(st, c, channel, mode_str->0, true, arg, now, other);
    }
}

/// Whether a channel is as before, but for who has voice in it.
pub open spec fn but_for_voice(before: ServerStateView, after: ServerStateView, channel: Seq<char>) -> bool {
    (before.channel(channel), after.channel(channel)) matches (Some(a), Some(b)) && b == (ChannelStateView {
        voiced: b.voiced,
        ..a
    })
}

/// A mode character that a moderator may send changes at most who has voice.
proof fn lemma_voice_step(
    st: ServerStateView,
    c: ConnectionView,
    channel: Seq<char>,
    m: char,
    adding: bool,
    arg: Option<Seq<char>>,
    now: u64,
)
    requires
        st.channel(channel) is Some,
        !channel::is_op_only_mode(m, arg is Some),
    ensures
        but_for_voice(st, channel::mode_step(st, c, channel, m, adding, arg, now).state, channel),
{
    broadcast use crate::containers::lemma_map_put_get;

}

/// A mode string that a moderator may send changes at most who has voice.
proof fn lemma_voice_run(
    st: ServerStateView,
    c: ConnectionView,
    channel: Seq<char>,
    modes: Seq<char>,
    adding: bool,
    arg: Option<Seq<char>>,
    now: u64,
)
    requires
        st.channel(channel) is Some,
        forall|i: int| 0 <= i < modes.len() ==> !#[trigger] channel::is_op_only_mode(modes[i], arg is Some),
    ensures
        but_for_voice(st, channel::mode_run(st, c, channel, modes, adding, arg, now).0, channel),
    decreases modes.len(),
{
    if modes.len() > 0 {
        assert forall|i: int| 0 <= i < modes.skip(1).len() implies !#[trigger] channel::is_op_only_mode(
            modes.skip(1)[i],
            arg is Some,
        ) by {
            assert(modes.skip(1)[i] == modes[i + 1]);
            assert(!channel::is_op_only_mode(modes[i + 1], arg is Some));
        }
        assert(!channel::is_op_only_mode(modes[0], arg is Some));
        if modes[0] == '+' || modes[0] == '-' {
            lemma_voice_run(st, c, channel, modes.skip(1), modes[0] == '+', arg, now);
        } else {
            lemma_voice_step(st, c, channel, modes[0], adding, arg, now);
            let step = channel::mode_step(st, c, channel, modes[0], adding, arg, now);
            if !step.stop {
                lemma_voice_run(step.state, c, channel, modes.skip(1), adding, arg, now);
            }
        }
    }
}

/// Moderators can only set and take voice: whatever MODE they send, nothing else of the channel
/// changes. And they kick no operators and no other moderators.
pub proof fn law_moderators_only_moderate(
    st: ServerStateView,
    c: ConnectionView,
    channel: Seq<char>,
    mode_str: Option<Seq<char>>,
    arg: Option<Seq<char>>,
    now: u64,
    target: Seq<char>,
    reason: Seq<char>,
)
    requires
        st.channel(channel) is Some,
        st.is_halfop(channel, c.id),
        !st.is_op(channel, c.id),
        !st.server_opers.contains(c.id),
    ensures
        but_for_voice(st, channel::mode_spec(st, c, channel, mode_str, arg, now).0, channel),
        channel::is_protected(st, channel, target) ==> channel::kick_spec(st, c, channel, target, reason).0 == st,
{
    if let Some(modes) = mode_str {
        if forall|i: int| 0 <= i < modes.len() ==> !#[trigger] channel::is_op_only_mode(modes[i], arg is Some) {
            lemma_voice_run(st, c, channel, modes, true, arg, now);
        }
    }
}

/// Whether a session of the founder is an operator, by session and by DID.
pub open spec fn founder_has_ops(st: ServerStateView, channel: Seq<char>, session: Seq<char>) -> bool {
    st.channel(channel) matches Some(ch) && st.did_of(session) is Some && ch.founder_did == st.did_of(session)
        && ch.ops.contains(session) && ch.did_ops.contains(st.did_of(session)->0)
}

/// A mode character does not take the founder's status.
proof fn lemma_mode_step_keeps_founder(
    st: ServerStateView,
    c: ConnectionView,
    channel: Seq<char>,
    m: char,
    adding: bool,
    arg: Option<Seq<char>>,
    now: u64,
    session: Seq<char>,
)
    requires
        founder_has_ops(st, channel, session),
    ensures
        founder_has_ops(channel::mode_step(st, c, channel, m, adding, arg, now).state, channel, session),
{
    broadcast use
        crate::containers::lemma_map_put_get,
        crate::containers::lemma_set_insert_contains,
        crate::containers::lemma_set_remove_contains,
    ;

}

/// A mode string does not take the founder's status.
proof fn lemma_mode_run_keeps_founder(
    st: ServerStateView,
    c: ConnectionView,
    channel: Seq<char>,
    modes: Seq<char>,
    adding: bool,
    arg: Option<Seq<char>>,
    now: u64,
    session: Seq<char>,
)
    requires
        founder_has_ops(st, channel, session),
    ensures
        founder_has_ops(channel::mode_run(st, c, channel, modes, adding, arg, now).0, channel, session),
    decreases modes.len(),
{
    if modes.len() > 0 {
        if modes[0] == '+' || modes[0] == '-' {
            lemma_mode_run_keeps_founder(st, c, channel, modes.skip(1), modes[0] == '+', arg, now, session);
        } else {
            lemma_mode_step_keeps_founder(st, c, channel, modes[0], adding, arg, now, session);
            let step = channel::mode_step(st, c, channel, modes[0], adding, arg, now);
            if !step.stop {
                lemma_mode_run_keeps_founder(step.state, c, channel, modes.skip(1), adding, arg, now, session);
            }
        }
    }
}

/// The founder of a channel cannot be de-opped: whoever sends whichever MODE, the founder is an
/// operator after it.
pub proof fn law_founder_keeps_ops(
    st: ServerStateView,
    c: ConnectionView,
    channel: Seq<char>,
    mode_str: Option<Seq<char>>,
    arg: Option<Seq<char>>,
    now: u64,
    session: Seq<char>,
)
    requires
        founder_has_ops(st, channel, session),
    ensures
        founder_has_ops(channel::mode_spec(st, c, channel, mode_str, arg, now).0, channel, session),
{
    if mode_str is Some {
        lemma_mode_run_keeps_founder(st, c, channel, mode_str->0, true, arg, now, session);
    }
}

/// Whether no mask is banned twice.
pub open spec fn masks_distinct(bans: Seq<BanEntryView>) -> bool {
    forall|i: int, j: int| 0 <= i < j < bans.len() ==> (#[trigger] bans[i]).mask != (#[trigger] bans[j]).mask
}

/// Whether no mask is banned twice in a channel.
pub open spec fn bans_distinct(st: ServerStateView, channel: Seq<char>) -> bool {
    st.channel(channel) matches Some(ch) ==> masks_distinct(ch.bans)
}

/// Fewer bans hold no mask twice either.
proof fn lemma_bans_without_distinct(bans: Seq<BanEntryView>, mask: Seq<char>)
    requires
        masks_distinct(bans),
    ensures
        masks_distinct(channel::bans_without(bans, mask)),
        forall|b: BanEntryView| #[trigger] channel::bans_without(bans, mask).contains(b) ==> bans.contains(b),
    decreases bans.len(),
{
    reveal(Seq::filter);
    if bans.len() > 0 {
        let before = bans.drop_last();
        assert(masks_distinct(before)) by {
            assert forall|i: int, j: int| 0 <= i < j < before.len() implies (#[trigger] before[i]).mask != (#[trigger] before[j]).mask by {
                assert(before[i] == bans[i]);
                assert(before[j] == bans[j]);
            }
        }
        lemma_bans_without_distinct(before, mask);
        let kept = channel::bans_without(before, mask);
        let all = channel::bans_without(bans, mask);
        assert(bans =~= before.push(bans.last()));
        assert forall|b: BanEntryView| #[trigger] all.contains(b) implies bans.contains(b) by {
            let k = choose|k: int| 0 <= k < all.len() && all[k] == b;
            if k < kept.len() {
                assert(kept[k] == b);
                assert(kept.contains(b));
                let n = choose|n: int| 0 <= n < before.len() && before[n] == b;
                assert(bans[n] == b);
            } else {
                assert(bans[bans.len() - 1] == b);
            }
        }
        assert forall|i: int, j: int| 0 <= i < j < all.len() implies (#[trigger] all[i]).mask != (#[trigger] all[j]).mask by {
            assert(all[i] == kept[i]);
            assert(kept.contains(kept[i]));
            if j < kept.len() {
                assert(all[j] == kept[j]);
            } else {
                let n = choose|n: int| 0 <= n < before.len() && before[n] == kept[i];
                assert(bans[n].mask != bans[bans.len() - 1].mask);
            }
        }
    }
}

/// A mode character bans no mask twice.
proof fn lemma_mode_step_bans_distinct(
    st: ServerStateView,
    c: ConnectionView,
    channel: Seq<char>,
    m: char,
    adding: bool,
    arg: Option<Seq<char>>,
    now: u64,
)
    requires
        st.channel(channel) is Some,
        bans_distinct(st, channel),
    ensures
        bans_distinct(channel::mode_step(st, c, channel, m, adding, arg, now).state, channel),
{
    broadcast use crate::containers::lemma_map_put_get;

    let ch = st.channel(channel)->0;
    if m == 'b' && arg is Some {
        let mask = crate::text::trim_spec(arg->0);
        lemma_bans_without_distinct(ch.bans, mask);
        let entry = BanEntryView { mask, set_by: c.hostmask(), set_at: now };
        if !channel::ban_listed(ch.bans, mask) {
            let more = ch.bans.push(entry);
            assert forall|i: int, j: int| 0 <= i < j < more.len() implies (#[trigger] more[i]).mask != (#[trigger] more[j]).mask by {
                assert(more[i] == ch.bans[i]);
                if j < ch.bans.len() {
                    assert(more[j] == ch.bans[j]);
                }
            }
        }
    }
}

/// A mode string bans no mask twice.
proof fn lemma_mode_run_bans_distinct(
    st: ServerStateView,
    c: ConnectionView,
    channel: Seq<char>,
    modes: Seq<char>,
    adding: bool,
    arg: Option<Seq<char>>,
    now: u64,
)
    requires
        st.channel(channel) is Some,
        bans_distinct(st, channel),
    ensures
        bans_distinct(channel::mode_run(st, c, channel, modes, adding, arg, now).0, channel),
    decreases modes.len(),
{
    if modes.len() > 0 {
        if modes[0] == '+' || modes[0] == '-' {
            lemma_mode_run_bans_distinct(st, c, channel, modes.skip(1), modes[0] == '+', arg, now);
        } else {
            lemma_mode_step_bans_distinct(st, c, channel, modes[0], adding, arg, now);
            lemma_mode_step_keeps_members(st, c, channel, modes[0], adding, arg, now, channel);
            let step = channel::mode_step(st, c, channel, modes[0], adding, arg, now);
            if !step.stop {
                lemma_mode_run_bans_distinct(step.state, c, channel, modes.skip(1), adding, arg, now);
            }
        }
    }
}

/// MODE never lists a ban mask twice.
pub proof fn law_ban_masks_stay_distinct(
    st: ServerStateView,
    c: ConnectionView,
    channel: Seq<char>,
    mode_str: Option<Seq<char>>,
    arg: Option<Seq<char>>,
    now: u64,
)
    requires
        bans_distinct(st, channel),
    ensures
        bans_distinct(channel::mode_spec(st, c, channel, mode_str, arg, now).0, channel),
{
    if st.channel(channel) is Some && mode_str is Some {
        lemma_mode_run_bans_distinct(st, c, channel, mode_str->0, true, arg, now);
    }
}

/// Who is neither operator nor moderator of a channel nor server operator changes nothing with
/// MODE or KICK.
pub proof fn law_members_without_status_change_nothing(
    st: ServerStateView,
    c: ConnectionView,
    channel: Seq<char>,
    mode_str: Option<Seq<char>>,
    arg: Option<Seq<char>>,
    target: Seq<char>,
    reason: Seq<char>,
    now: u64,
)
    requires
        !st.is_op(channel, c.id),
        !st.is_halfop(channel, c.id),
        !st.server_opers.contains(c.id),
    ensures
        channel::mode_spec(st, c, channel, mode_str, arg, now).0 == st,
        channel::kick_spec(st, c, channel, target, reason).0 == st,
{
}

// ── KICK ────────────────────────────────────────────────────────────

/// Who is kicked is out of the channel and has no status in it any more; everyone else stays.
pub proof fn law_kicked_session_is_out(
    st: ServerStateView,
    c: ConnectionView,
    channel: Seq<char>,
    target: Seq<char>,
    reason: Seq<char>,
    session: Seq<char>,
    other: Seq<char>,
)
    requires
        st.is_member(channel, c.id),
        st.is_op(channel, c.id) || st.server_opers.contains(c.id),
        st.channel_target(channel, target) == (ChannelTargetView::Local { session_id: session }),
    ensures
        ({
            let after = channel::kick_spec(st, c, channel, target, reason).0;
            &&& after.channel(channel) matches Some(ch) && !ch.members.contains(session) && !ch.ops.contains(session)
                && !ch.halfops.contains(session) && !ch.voiced.contains(session)
            &&& other != session ==> after.is_member(channel, other) == st.is_member(channel, other)
        }),
{
    broadcast use crate::containers::lemma_map_put_get, crate::containers::lemma_set_remove_contains;

}

// ── JOIN ────────────────────────────────────────────────────────────

/// Who creates a channel is in it and operator of it, as its founder if authenticated, and the
/// channel starts with +nt.
pub proof fn law_creator_is_operator(
    st: ServerStateView,
    c: ConnectionView,
    channel: Seq<char>,
    key: Option<Seq<char>>,
    banned: bool,
    now: u64,
    batch: Seq<char>,
)
    requires
        join::is_new(st, channel),
        join::entry_gate(st, c, channel, key, banned) is Pass,
    ensures
        join::join_spec(st, c, channel, key, banned, None, now, batch).0.channel(channel) matches Some(ch) && {
            &&& ch.members.contains(c.id)
            &&& ch.ops.contains(c.id)
            &&& ch.no_ext_msg
            &&& ch.topic_locked
            &&& ch.created_at == now
            &&& c.authenticated_did matches Some(d) ==> ch.founder_did == Some(d) && ch.did_ops.contains(d)
        },
{
    broadcast use crate::containers::lemma_map_put_get, crate::containers::lemma_set_insert_contains;

}

/// JOIN puts nobody out; it lets in the one who joins, and nobody else.
pub proof fn law_join_adds_only_the_joiner(
    st: ServerStateView,
    c: ConnectionView,
    channel: Seq<char>,
    key: Option<Seq<char>>,
    banned: bool,
    policy: Option<PolicyView>,
    now: u64,
    batch: Seq<char>,
    name: Seq<char>,
    session: Seq<char>,
)
    ensures
        ({
            let after = join::join_spec(st, c, channel, key, banned, policy, now, batch).0;
            &&& st.is_member(name, session) ==> after.is_member(name, session)
            &&& after.is_member(name, session) && !st.is_member(name, session) ==> session == c.id && name == channel
        }),
{
    broadcast use crate::containers::lemma_map_put_get, crate::containers::lemma_set_insert_contains;

}

/// A JOIN that a key, a ban, a missing invitation or a limit stands against changes nothing.
pub proof fn law_refused_join_changes_nothing(
    st: ServerStateView,
    c: ConnectionView,
    channel: Seq<char>,
    key: Option<Seq<char>>,
    banned: bool,
    policy: Option<PolicyView>,
    now: u64,
    batch: Seq<char>,
)
    requires
        !(join::entry_gate(st, c, channel, key, banned) is Pass),
    ensures
        join::join_spec(st, c, channel, key, banned, policy, now, batch).0 == st,
{
}

/// A founder and a persistent operator are operators once they are in the channel again.
pub proof fn law_persistent_operators_regain_ops(
    st: ServerStateView,
    c: ConnectionView,
    channel: Seq<char>,
    key: Option<Seq<char>>,
    banned: bool,
    policy: Option<PolicyView>,
    now: u64,
    batch: Seq<char>,
)
    requires
        st.channel(channel) is Some,
        c.authenticated_did is Some,
        channel::did_has_ops(st.channel(channel)->0, c.authenticated_did->0),
        crate::text::ascii_lower(channel) == channel,
        join::entry_gate(st, c, channel, key, banned) is Pass,
    ensures
        join::join_spec(st, c, channel, key, banned, policy, now, batch).0.is_member(channel, c.id),
        join::join_spec(st, c, channel, key, banned, policy, now, batch).0.is_op(channel, c.id),
{
    broadcast use crate::containers::lemma_map_put_get, crate::containers::lemma_set_insert_contains;

}

/// On an invite-only channel an invitation lets in once: it is used up.
pub proof fn law_invitation_is_used_up(
    st: ServerStateView,
    c: ConnectionView,
    channel: Seq<char>,
    key: Option<Seq<char>>,
    banned: bool,
    policy: Option<PolicyView>,
    now: u64,
    batch: Seq<char>,
)
    requires
        !join::is_new(st, channel),
        st.channel(channel)->0.invite_only,
        join::entry_gate(st, c, channel, key, banned) is Pass,
    ensures
        join::join_spec(st, c, channel, key, banned, policy, now, batch).0.channel(channel) matches Some(ch) && !join::invited(ch, c),
{
    broadcast use
        crate::containers::lemma_map_put_get,
        crate::containers::lemma_set_insert_contains,
        crate::containers::lemma_set_remove_contains,
    ;

}

// ── Messages ────────────────────────────────────────────────────────

/// Whether a channel keeps no more than so many messages and pins.
pub open spec fn is_bounded(ch: Option<ChannelStateView>) -> bool {
    match ch {
        Some(ch) => ch.history.len() <= crate::server::MAX_HISTORY && ch.pins.len() <= crate::server::MAX_PINS,
        None => true,
    }
}

/// Whether every channel keeps no more than so many messages and pins.
pub open spec fn channels_bounded(st: ServerStateView) -> bool {
    forall|name: Seq<char>| is_bounded(#[trigger] st.channel(name))
}

/// A selection is no longer than what it was made from.
proof fn lemma_filter_is_shorter<T>(s: Seq<T>, p: spec_fn(T) -> bool)
    ensures
        s.filter(p).len() <= s.len(),
    decreases s.len(),
{
    reveal(Seq::filter);
    if s.len() > 0 {
        lemma_filter_is_shorter(s.drop_last(), p);
    }
}

/// A change of one channel that stays within the bounds keeps them everywhere.
proof fn lemma_bounded_with_channel(st: ServerStateView, name: Seq<char>, ch: ChannelStateView)
    requires
        channels_bounded(st),
        ch.history.len() <= crate::server::MAX_HISTORY,
        ch.pins.len() <= crate::server::MAX_PINS,
    ensures
        channels_bounded(st.with_channel(name, ch)),
{
    assert forall|other: Seq<char>| is_bounded(#[trigger] st.with_channel(name, ch).channel(other)) by {
        containers::lemma_map_put_get(st.channels, name, ch, other);
        assert(is_bounded(st.channel(other)));
    }
}

/// What is found in a history is in it.
proof fn lemma_history_find_in_range(h: Seq<HistoryMessageView>, msgid: Seq<char>)
    ensures
        messaging::history_find(h, msgid) matches Some(i) ==> 0 <= i < h.len(),
    decreases h.len(),
{
    if h.len() > 0 {
        lemma_history_find_in_range(h.drop_last(), msgid);
    }
}

/// No message and no edit makes a channel keep more messages than it may.
pub proof fn law_history_is_bounded(
    st: ServerStateView,
    c: ConnectionView,
    command: Seq<char>,
    target: Seq<char>,
    body: Seq<char>,
    tags: Seq<(Seq<char>, Seq<char>)>,
    now: u64,
    now_ms: u64,
    msgid: Seq<char>,
    verdict: VerdictView,
    found: LookupView,
    route: RouteView,
)
    requires
        channels_bounded(st),
    ensures
        channels_bounded(
            messaging::privmsg_spec(st, c, command, target, body, tags, now, now_ms, msgid, verdict, found, route).0,
        ),
{
    let st1 = messaging::counted(st, c.id, now_ms);
    assert(channels_bounded(st1)) by {
        assert forall|name: Seq<char>| is_bounded(#[trigger] st1.channel(name)) by {
            assert(st1.channel(name) == st.channel(name));
        }
    }
    match containers::map_get(tags, "+draft/edit"@) {
        Some(original) => {
            if let Some(ch) = st.channel(target) {
                assert(is_bounded(st.channel(target)));
                lemma_history_find_in_range(ch.history, original);
                lemma_bounded_with_channel(
                    st,
                    target,
                    ChannelStateView { history: messaging::history_edited(ch.history, original, body), ..ch },
                );
            }
        },
        None => {
            let text = crate::text::or_default(verdict.rewrite_text, body);
            let sig = messaging::signature(st1, c, target, text, now, containers::map_get(tags, "+freeq.at/sig"@));
            let h = HistoryMessageView {
                from: c.hostmask(),
                text,
                timestamp: now,
                tags: messaging::signed_tags(tags, msgid, sig),
                msgid: Some(msgid),
            };
            if let Some(ch) = st1.channel(target) {
                lemma_bounded_with_channel(
                    st1,
                    target,
                    ChannelStateView { history: messaging::capped(ch.history.push(h)), ..ch },
                );
            }
        },
    }
}

/// No deletion, no PIN and no UNPIN makes a channel keep more than it may.
pub proof fn law_pins_are_bounded(
    st: ServerStateView,
    c: ConnectionView,
    channel: Seq<char>,
    msgid: Seq<char>,
    found: Option<MessageRowView>,
    pin: bool,
    now: u64,
)
    requires
        channels_bounded(st),
    ensures
        channels_bounded(messaging::delete_spec(st, c, channel, msgid, found).0),
        channels_bounded(commands::pin_spec(st, c, channel, msgid, pin, now).0),
{
    if let Some(ch) = st.channel(channel) {
        lemma_filter_is_shorter(ch.history, |h: HistoryMessageView| h.msgid != Some(msgid));
        lemma_filter_is_shorter(ch.pins, |p: PinnedMessageView| p.msgid != msgid);
        lemma_bounded_with_channel(st, channel, messaging::without_message(ch, msgid));
        let p = PinnedMessageView { msgid, pinned_by: c.nick_or_star(), pinned_at: now };
        lemma_bounded_with_channel(st, channel, ChannelStateView { pins: commands::with_pin(ch.pins, p), ..ch });
        lemma_bounded_with_channel(st, channel, ChannelStateView { pins: commands::without_pin(ch.pins, msgid), ..ch });
    }
}

/// A pinned message is among the pins, as the newest; one that is unpinned is not.
pub proof fn law_pin_and_unpin(st: ServerStateView, c: ConnectionView, channel: Seq<char>, msgid: Seq<char>, now: u64)
    requires
        st.is_op(channel, c.id) || st.server_opers.contains(c.id),
        st.channel(channel) is Some,
    ensures
        commands::has_pin(commands::pin_spec(st, c, channel, msgid, true, now).0.channel(channel)->0.pins, msgid),
        !commands::has_pin(commands::pin_spec(st, c, channel, msgid, false, now).0.channel(channel)->0.pins, msgid),
{
    broadcast use crate::containers::lemma_map_put_get, vstd::seq_lib::group_filter_ensures;

    let ch = st.channel(channel)->0;
    let p = PinnedMessageView { msgid, pinned_by: c.nick_or_star(), pinned_at: now };
    assert(commands::with_pin(ch.pins, p)[0] == p);
    assert(commands::has_pin(commands::with_pin(ch.pins, p), msgid));
    let left = commands::without_pin(ch.pins, msgid);
    assert(!commands::has_pin(left, msgid)) by {
        assert forall|i: int| 0 <= i < left.len() implies (#[trigger] left[i]).msgid != msgid by {
            assert(left.contains(left[i]));
        }
    }
}

/// Only the author of a message edits it: an edit by anyone else changes nothing, and all that
/// follows is one reply, or nothing where it came as a NOTICE.
pub proof fn law_only_the_author_edits(
    st: ServerStateView,
    c: ConnectionView,
    target: Seq<char>,
    body: Seq<char>,
    original: Seq<char>,
    tags: Seq<(Seq<char>, Seq<char>)>,
    now: u64,
    msgid: Seq<char>,
    found: LookupView,
    route: RouteView,
    is_notice: bool,
)
    requires
        messaging::edited_message(st, c, target, found) matches Some(row) ==> !messaging::is_author(row, c),
    ensures
        messaging::edit_spec(st, c, target, body, original, tags, now, msgid, found, route, is_notice).0 == st,
        messaging::edit_spec(st, c, target, body, original, tags, now, msgid, found, route, is_notice).1.len() == (if is_notice {
            0int
        } else {
            1int
        }),
        !is_notice ==> (messaging::edit_spec(st, c, target, body, original, tags, now, msgid, found, route, is_notice).1[0] matches EffectView::Send { to, .. } && to == c.id),
{
}

/// Only the author of a message and the operators of its channel delete it: a deletion by anyone
/// else changes nothing, and all that follows is one reply.
pub proof fn law_only_author_and_operators_delete(
    st: ServerStateView,
    c: ConnectionView,
    target: Seq<char>,
    msgid: Seq<char>,
    found: Option<MessageRowView>,
)
    requires
        found matches Some(row) ==> !messaging::is_author(row, c),
        !(messaging::is_channel_name(target) && st.is_op(target, c.id)),
    ensures
        messaging::delete_spec(st, c, target, msgid, found).0 == st,
        messaging::delete_spec(st, c, target, msgid, found).1.len() == 1,
        messaging::delete_spec(st, c, target, msgid, found).1[0] matches EffectView::Send { to, .. } && to == c.id,
{
}

/// A private message is deleted where it is kept: what its author deletes of a conversation is
/// stored under the key under which the messages of that conversation are.
pub proof fn law_private_messages_are_deleted_where_they_are_kept(
    st: ServerStateView,
    c: ConnectionView,
    command: Seq<char>,
    target: Seq<char>,
    key: Seq<char>,
    body: Seq<char>,
    tags: Seq<(Seq<char>, Seq<char>)>,
    now: u64,
    id: Seq<char>,
    route: RouteView,
    row: MessageRowView,
)
    requires
        !messaging::is_channel_name(target),
        messaging::conversation_key(st, c, target) == Some(key),
        messaging::is_author(row, c),
        row.deleted_at is None,
    ensures
        messaging::private_message(st, c, command, target, body, tags, now, id, route).last() matches EffectView::Store(
            StoreOpView::InsertMessage { channel, msgid, .. },
        ) && channel == key && msgid == Some(id),
        messaging::delete_spec(st, c, target, id, Some(row)).1[0] == EffectView::Store(
            StoreOpView::SoftDelete { channel: key, msgid: id },
        ),
{
}

/// A NOTICE never brings an error reply: one that is sent too fast or that the channel refuses has
/// no effect but on the count, one to a nick that nobody has is sent to nobody, and so is an edit
/// that is refused.
pub proof fn law_notice_brings_no_error_reply(
    st: ServerStateView,
    c: ConnectionView,
    target: Seq<char>,
    body: Seq<char>,
    tags: Seq<(Seq<char>, Seq<char>)>,
    now: u64,
    now_ms: u64,
    msgid: Seq<char>,
    verdict: VerdictView,
    found: LookupView,
    route: RouteView,
)
    ensures
        ({
            let fx = messaging::privmsg_spec(
                st,
                c,
                "NOTICE"@,
                target,
                body,
                tags,
                now,
                now_ms,
                msgid,
                verdict,
                found,
                route,
            ).1;
            let edits = containers::map_has(tags, "+draft/edit"@);
            let counted = messaging::counted(st, c.id, now_ms);
            let private = !messaging::is_channel_name(target);
            &&& !edits && messaging::floods(st, c.id, now_ms) ==> fx.len() == 0
            &&& !edits && !private && messaging::channel_refusal(
                counted,
                c,
                target,
                containers::map_has(tags, "+encrypted"@),
            ) is Some ==> fx.len() == 0
            &&& edits && messaging::edited_message(st, c, target, found) is None ==> fx.len() == 0
            &&& edits && (messaging::edited_message(st, c, target, found) matches Some(row) && !messaging::is_author(
                row,
                c,
            )) ==> fx.len() == 0
            &&& private && route is Unreachable ==> forall|i: int| 0 <= i < fx.len() ==> #[trigger] fx[i] is Store
        }),
{
}

/// A message that was sent by an authenticated user belongs to that DID alone: no nick makes
/// anyone else its author.
pub proof fn law_authorship_goes_by_did(row: MessageRowView, c: ConnectionView)
    requires
        row.sender_did is Some,
    ensures
        messaging::is_author(row, c) <==> c.authenticated_did == row.sender_did,
{
}

/// A message that a channel refuses, or that comes too fast, is neither kept nor delivered: no
/// channel changes, and all that follows is at most one reply to its sender, none to a NOTICE.
pub proof fn law_refused_message_goes_nowhere(
    st: ServerStateView,
    c: ConnectionView,
    command: Seq<char>,
    target: Seq<char>,
    body: Seq<char>,
    tags: Seq<(Seq<char>, Seq<char>)>,
    now: u64,
    now_ms: u64,
    msgid: Seq<char>,
    verdict: VerdictView,
    route: RouteView,
)
    requires
        messaging::floods(st, c.id, now_ms) || (messaging::is_channel_name(target) && messaging::channel_refusal(
            st,
            c,
            target,
            containers::map_has(tags, "+encrypted"@),
        ) is Some),
    ensures
        ({
            let after = messaging::message_spec(st, c, command, target, body, tags, now, now_ms, msgid, verdict, route);
            &&& after.0.channels == st.channels
            &&& after.1.len() <= 1
            &&& after.1.len() == 1 ==> (after.1[0] matches EffectView::Send { to, .. } && to == c.id)
            &&& command == "NOTICE"@ ==> after.1.len() == 0
        }),
{
    let st1 = messaging::counted(st, c.id, now_ms);
    assert(st1.channel(target) == st.channel(target));
}

/// Who is not in a channel with +n, or has no status in one with +m, or sends plain text to one
/// with +E, is refused.
pub proof fn law_channel_modes_hold(st: ServerStateView, c: ConnectionView, target: Seq<char>, encrypted: bool)
    requires
        st.channel(target) is Some,
    ensures
        messaging::channel_refusal(st, c, target, encrypted) is None <==> {
            let ch = st.channel(target)->0;
            &&& ch.no_ext_msg ==> ch.members.contains(c.id)
            &&& ch.moderated ==> ch.ops.contains(c.id) || ch.halfops.contains(c.id) || ch.voiced.contains(c.id)
            &&& ch.encrypted_only ==> encrypted
        },
{
}

// ── The end of a session ────────────────────────────────────────────

/// No channel holds the session once it has left.
proof fn lemma_channels_left(chs: Seq<(Seq<char>, ChannelStateView)>, s: Seq<char>)
    ensures
        forall|i: int|
            #![trigger departure::channels_left(chs, s)[i]]
            0 <= i < departure::channels_left(chs, s).len() ==> {
                let ch = departure::channels_left(chs, s)[i].1;
                !ch.members.contains(s) && !ch.ops.contains(s) && !ch.halfops.contains(s) && !ch.voiced.contains(s)
            },
    decreases chs.len(),
{
    broadcast use crate::containers::lemma_set_remove_contains;

    if chs.len() > 0 {
        lemma_channels_left(chs.drop_last(), s);
        let before = departure::channels_left(chs.drop_last(), s);
        let all = departure::channels_left(chs, s);
        assert forall|i: int| #![trigger all[i]] 0 <= i < all.len() implies {
            let ch = all[i].1;
            !ch.members.contains(s) && !ch.ops.contains(s) && !ch.halfops.contains(s) && !ch.voiced.contains(s)
        } by {
            if i < before.len() {
                assert(all[i] == before[i]);
            }
        }
    }
}

/// Whether nothing is kept for a session, its channels and its nick apart.
pub open spec fn forgotten(st: ServerStateView, s: Seq<char>) -> bool {
    &&& !st.connections.contains(s)
    &&& st.did_of(s) is None
    &&& containers::map_get(st.session_handles, s) is None
    &&& containers::map_get(st.session_iroh_ids, s) is None
    &&& containers::map_get(st.session_away, s) is None
    &&& containers::map_get(st.msg_timestamps, s) is None
    &&& containers::map_get(st.session_msg_keys, s) is None
    &&& containers::map_get(st.session_client_info, s) is None
    &&& containers::map_get(st.session_actor_class, s) is None
    &&& containers::map_get(st.agent_presence, s) is None
    &&& containers::map_get(st.agent_heartbeats, s) is None
    &&& !st.server_opers.contains(s)
    &&& !st.cap_message_tags.contains(s)
    &&& !st.cap_multi_prefix.contains(s)
    &&& !st.cap_echo_message.contains(s)
    &&& !st.cap_server_time.contains(s)
    &&& !st.cap_batch.contains(s)
    &&& !st.cap_account_notify.contains(s)
    &&& !st.cap_extended_join.contains(s)
    &&& !st.cap_away_notify.contains(s)
}

/// A session that is cleaned up is forgotten.
proof fn lemma_cleaned_is_forgotten(st: ServerStateView, s: Seq<char>)
    ensures
        forgotten(departure::session_cleaned(st, s), s),
{
    broadcast use crate::containers::lemma_map_del_get, crate::containers::lemma_set_remove_contains;

}

/// When a connection ends, nothing is kept for its session; unless the user is held for a while,
/// no channel has it any more either.
pub proof fn law_ended_session_leaves_no_trace(st: ServerStateView, c: ConnectionView)
    ensures
        forgotten(departure::disconnect_spec(st, c).0, c.id),
        !departure::disconnect_spec(st, c).2 ==> forall|i: int|
            #![trigger departure::disconnect_spec(st, c).0.channels[i]]
            0 <= i < departure::disconnect_spec(st, c).0.channels.len() ==> {
                let ch = departure::disconnect_spec(st, c).0.channels[i].1;
                !ch.members.contains(c.id) && !ch.ops.contains(c.id) && !ch.halfops.contains(c.id) && !ch.voiced.contains(c.id)
            },
        departure::disconnect_spec(st, c).2 <==> c.nick is Some && c.authenticated_did is Some && departure::sessions_left(st, c).len() == 0,
{
    let ended = departure::did_session_ended(st, c);
    lemma_cleaned_is_forgotten(ended, c.id);
    lemma_channels_left(ended.channels, c.id);
    if let Some(nick) = c.nick {
        reveal(ServerStateView::nick_freed);
        let freed = ended.nick_freed(nick);
        lemma_cleaned_is_forgotten(freed, c.id);
        lemma_channels_left(freed.channels, c.id);
    }
}

/// The nick of a guest who has gone is free.
pub proof fn law_guest_nick_is_freed(st: ServerStateView, c: ConnectionView)
    requires
        c.nick is Some,
        c.authenticated_did is None,
    ensures
        departure::disconnect_spec(st, c).0.session_of(c.nick->0) is None,
{
    broadcast use crate::containers::lemma_map_del_get;

    reveal(ServerStateView::nick_freed);
}

/// The nick of a user who has not come back in time is free, and no channel has their session any
/// more.
pub proof fn law_expired_nick_is_freed(st: ServerStateView, did: Seq<char>, session: Seq<char>)
    requires
        containers::map_get(st.ghost_sessions, did) matches Some(g) && g.session_id == session,
    ensures
        departure::expiry_spec(st, did, session).0.session_of(containers::map_get(st.ghost_sessions, did)->0.nick) is None,
        containers::map_get(departure::expiry_spec(st, did, session).0.ghost_sessions, did) is None,
        forall|i: int|
            #![trigger departure::expiry_spec(st, did, session).0.channels[i]]
            0 <= i < departure::expiry_spec(st, did, session).0.channels.len() ==> {
                let ch = departure::expiry_spec(st, did, session).0.channels[i].1;
                !ch.members.contains(session) && !ch.ops.contains(session) && !ch.halfops.contains(session)
                    && !ch.voiced.contains(session)
            },
{
    broadcast use crate::containers::lemma_map_del_get;

    reveal(ServerStateView::nick_freed);
    lemma_channels_left(st.channels, session);
}

// ── Coming back ─────────────────────────────────────────────────────

/// What is held of a session in one channel.
spec fn held_entry(ch: ChannelStateView, s: Seq<char>, name: Seq<char>) -> GhostChannelView {
    GhostChannelView {
        name,
        was_op: ch.ops.contains(s),
        was_voiced: ch.voiced.contains(s),
        was_halfop: ch.halfops.contains(s),
    }
}

/// What is held of a session: one entry for each channel it is in, with its status there.
proof fn lemma_held(chs: Seq<(Seq<char>, ChannelStateView)>, s: Seq<char>, name: Seq<char>)
    requires
        containers::map_distinct(chs),
    ensures
        ({
            let held = departure::held_channels(chs, s);
            &&& forall|i: int, j: int| 0 <= i < j < held.len() ==> (#[trigger] held[i]).name != (#[trigger] held[j]).name
            &&& forall|i: int| 0 <= i < held.len() ==> exists|k: int| 0 <= k < chs.len() && #[trigger] chs[k].0 == (#[trigger] held[i]).name
            &&& containers::map_get(chs, name) matches Some(ch) ==> (ch.members.contains(s) ==> exists|i: int|
                0 <= i < held.len() && #[trigger] held[i] == held_entry(ch, s, name))
        }),
    decreases chs.len(),
{
    let held = departure::held_channels(chs, s);
    if chs.len() > 0 {
        let before = chs.drop_last();
        let last = chs.last();
        assert(containers::map_distinct(before)) by {
            assert forall|i: int, j: int| 0 <= i < j < before.len() implies (#[trigger] before[i]).0 != (#[trigger] before[j]).0 by {
                assert(before[i] == chs[i]);
                assert(before[j] == chs[j]);
            }
        }
        lemma_held(before, s, name);
        let kept = departure::held_channels(before, s);
        assert forall|i: int| 0 <= i < held.len() implies exists|k: int| 0 <= k < chs.len() && #[trigger] chs[k].0 == (#[trigger] held[i]).name by {
            if i < kept.len() {
                assert(held[i] == kept[i]);
                let k = choose|k: int| 0 <= k < before.len() && #[trigger] before[k].0 == kept[i].name;
                assert(chs[k].0 == held[i].name);
            } else {
                assert(chs[chs.len() - 1].0 == held[i].name);
            }
        }
        assert forall|i: int, j: int| 0 <= i < j < held.len() implies (#[trigger] held[i]).name != (#[trigger] held[j]).name by {
            assert(held[i] == kept[i]);
            if j < kept.len() {
                assert(held[j] == kept[j]);
            } else {
                let k = choose|k: int| 0 <= k < before.len() && #[trigger] before[k].0 == kept[i].name;
                assert(chs[k].0 != chs[chs.len() - 1].0);
            }
        }
        containers::lemma_map_find(chs, name);
        containers::lemma_map_find(before, name);
        if let Some(ch) = containers::map_get(chs, name) {
            if ch.members.contains(s) {
                let want = held_entry(ch, s, name);
                if containers::map_get(before, name) is Some {
                    assert(containers::map_get(before, name) == Some(ch));
                    let i = choose|i: int| 0 <= i < kept.len() && #[trigger] kept[i] == want;
                    assert(held[i] == want);
                } else {
                    assert(last.0 == name);
                    assert(last.1 == ch);
                    assert(held[held.len() - 1] == want);
                }
            }
        }
    }
}

/// A channel that is not among the held ones stays as it is; one that is has the returning session
/// in place of the lost one.
proof fn lemma_reclaim_all(
    chs: Seq<(Seq<char>, ChannelStateView)>,
    held: Seq<GhostChannelView>,
    lost: Seq<char>,
    session: Seq<char>,
    did: Seq<char>,
    name: Seq<char>,
)
    requires
        forall|i: int, j: int| 0 <= i < j < held.len() ==> (#[trigger] held[i]).name != (#[trigger] held[j]).name,
        forall|i: int| 0 <= i < held.len() ==> crate::text::lowercase((#[trigger] held[i]).name) == held[i].name,
    ensures
        ({
            let after = registration::reclaim_all(chs, held, lost, session, did);
            &&& (forall|i: int| 0 <= i < held.len() ==> (#[trigger] held[i]).name != name) ==> containers::map_get(after, name) == containers::map_get(chs, name)
            &&& forall|i: int| 0 <= i < held.len() && (#[trigger] held[i]).name == name && containers::map_get(chs, name) is Some
                ==> containers::map_get(after, name) == Some(registration::reclaimed(containers::map_get(chs, name)->0, held[i], lost, session, did))
        }),
    decreases held.len(),
{
    broadcast use crate::containers::lemma_map_put_get;

    if held.len() > 0 {
        let before = held.drop_last();
        assert forall|i: int, j: int| 0 <= i < j < before.len() implies (#[trigger] before[i]).name != (#[trigger] before[j]).name by {
            assert(before[i] == held[i]);
            assert(before[j] == held[j]);
        }
        assert forall|i: int| 0 <= i < before.len() implies crate::text::lowercase((#[trigger] before[i]).name) == before[i].name by {
            assert(before[i] == held[i]);
        }
        lemma_reclaim_all(chs, before, lost, session, did, name);
        let last = held.len() - 1;
        assert(held[last] == held.last());
        if held.last().name == name {
            assert forall|i: int| 0 <= i < before.len() implies (#[trigger] before[i]).name != name by {
                assert(before[i] == held[i]);
                assert(held[i].name != held[last].name);
            }
            assert forall|i: int| 0 <= i < held.len() && (#[trigger] held[i]).name == name implies i == last by {
                if i < last {
                    assert(held[i].name != held[last].name);
                }
            }
        } else {
            assert forall|i: int| 0 <= i < before.len() implies #[trigger] before[i] == held[i] by {}
            assert forall|i: int| 0 <= i < held.len() && (#[trigger] held[i]).name == name implies i < before.len() && before[i] == held[i] by {}
            if forall|i: int| 0 <= i < held.len() ==> (#[trigger] held[i]).name != name {
                assert forall|i: int| 0 <= i < before.len() implies (#[trigger] before[i]).name != name by {
                    assert(before[i] == held[i]);
                }
            }
        }
    }
}

/// What leads to another value than the one that is taken out still does.
proof fn lemma_without_value(m: Seq<(Seq<char>, Seq<char>)>, value: Seq<char>, k: Seq<char>)
    requires
        containers::map_get(m, k) is Some,
        containers::map_get(m, k) != Some(value),
    ensures
        containers::map_get(crate::server::without_value(m, value), k) == containers::map_get(m, k),
    decreases m.len(),
{
    reveal(Seq::filter);
    containers::lemma_map_find(m, k);
    if m.len() > 0 {
        let before = m.drop_last();
        containers::lemma_map_find(before, k);
        let kept = crate::server::without_value(before, value);
        let all = crate::server::without_value(m, value);
        if containers::map_find(before, k) is Some {
            assert(containers::map_get(before, k) == containers::map_get(m, k));
            lemma_without_value(before, value, k);
            containers::lemma_map_find(kept, k);
            if all != kept {
                assert(all.drop_last() =~= kept);
                containers::lemma_map_find(all, k);
            }
        } else {
            lemma_without_value_none(before, value, k);
            assert(all.drop_last() =~= kept);
            assert(all.last() == m.last());
            containers::lemma_map_find(all, k);
        }
    }
}

/// What leads nowhere still does.
proof fn lemma_without_value_none(m: Seq<(Seq<char>, Seq<char>)>, value: Seq<char>, k: Seq<char>)
    requires
        containers::map_find(m, k) is None,
    ensures
        containers::map_find(crate::server::without_value(m, value), k) is None,
    decreases m.len(),
{
    reveal(Seq::filter);
    if m.len() > 0 {
        let before = m.drop_last();
        assert(containers::map_find(before, k) is None);
        lemma_without_value_none(before, value, k);
        let kept = crate::server::without_value(before, value);
        let all = crate::server::without_value(m, value);
        if all != kept {
            assert(all.drop_last() =~= kept);
            assert(all.last() == m.last());
        }
    }
}

/// A user whose last session has ended and who comes back in time has its nick again and is, in
/// every channel the session was in, a member with the status the session had.
pub proof fn law_returning_user_is_as_before(
    st: ServerStateView,
    c: ConnectionView,
    back: ConnectionView,
    did: Seq<char>,
    nick: Seq<char>,
    name: Seq<char>,
)
    requires
        c.nick == Some(nick),
        c.authenticated_did == Some(did),
        departure::sessions_left(st, c).len() == 0,
        containers::map_distinct(st.channels),
        forall|i: int| 0 <= i < st.channels.len() ==> crate::text::lowercase((#[trigger] st.channels[i]).0) == st.channels[i].0,
        st.is_member(name, c.id),
        back.id != c.id,
    ensures
        ({
            let gone = departure::disconnect_spec(st, c).0;
            let g = containers::map_get(gone.ghost_sessions, did)->0;
            let after = registration::return_spec(gone, back, did, g).0;
            &&& containers::map_get(gone.ghost_sessions, did) is Some
            &&& after.session_of(nick) == Some(back.id)
            &&& after.is_member(name, back.id)
            &&& !after.is_member(name, c.id)
            &&& st.is_op(name, c.id) ==> after.is_op(name, back.id)
            &&& st.is_halfop(name, c.id) ==> after.is_halfop(name, back.id)
            &&& st.channel(name)->0.voiced.contains(c.id) ==> after.channel(name)->0.voiced.contains(back.id)
        }),
{
    broadcast use
        crate::containers::lemma_map_put_get,
        crate::containers::lemma_map_del_get,
        crate::containers::lemma_set_insert_contains,
        crate::containers::lemma_set_remove_contains,
    ;

    reveal(ServerStateView::nick_set);
    reveal(ServerStateView::nick_freed);
    reveal(ServerStateView::session_unnamed);
    let ended = departure::did_session_ended(st, c);
    let gone = departure::disconnect_spec(st, c).0;
    let g = departure::ghost_of(ended, c, nick);
    assert(containers::map_get(gone.ghost_sessions, did) == Some(g));
    assert(gone.channels == st.channels);
    assert(g.channels == departure::held_channels(st.channels, c.id));
    lemma_held(st.channels, c.id, name);
    let held = g.channels;
    assert forall|i: int| 0 <= i < held.len() implies crate::text::lowercase((#[trigger] held[i]).name) == held[i].name by {
        let k = choose|k: int| 0 <= k < st.channels.len() && #[trigger] st.channels[k].0 == held[i].name;
        assert(st.channels[k].0 == held[i].name);
    }
    lemma_reclaim_all(st.channels, held, c.id, back.id, did, name);
    let ch = st.channel(name)->0;
    let i = choose|i: int|
        0 <= i < held.len() && #[trigger] held[i] == held_entry(ch, c.id, name);
    let after = registration::return_spec(gone, back, did, g).0;
    let adopted = registration::nick_adopted(registration::without_ghost(gone, did), back, nick);
    assert(adopted.session_of(nick) == Some(back.id));
    lemma_without_value(adopted.nick_session, c.id, crate::text::lowercase(nick));
    assert(after.channels == registration::reclaim_all(st.channels, held, c.id, back.id, did));
    assert(after.channel(name) == Some(registration::reclaimed(ch, held[i], c.id, back.id, did)));
}

// ── Before registration ─────────────────────────────────────────────

/// Who has not registered gets nothing done but to register, to authenticate, to answer and to
/// leave.
pub proof fn law_unregistered_users_are_kept_out(c: ConnectionView, m: MessageView)
    requires
        !c.registered,
    ensures
        match requests::request_spec(c, m) {
            RequestView::Cap => true,
            RequestView::Authenticate { .. } => true,
            RequestView::Nick { .. } => true,
            RequestView::User { .. } => true,
            RequestView::Ping { .. } => true,
            RequestView::Pong => true,
            RequestView::Quit => true,
            RequestView::NotRegistered => true,
            RequestView::Ignored => true,
            _ => false,
        },
{
}

/// Who has failed to authenticate too often cannot try again; the failure that makes it too often
/// closes the connection.
pub proof fn law_failures_end_authentication(st: ServerStateView, c: ConnectionView, param: Seq<char>, reason: Seq<char>)
    requires
        c.sasl_failures <= cap::MAX_SASL_FAILURES,
    ensures
        c.sasl_failures == cap::MAX_SASL_FAILURES ==> cap::authenticate_spec(st, c, param) == (
            c,
            Seq::<EffectView>::empty(),
            cap::AuthAction::Nothing,
        ),
        c.sasl_failures < cap::MAX_SASL_FAILURES ==> cap::failure_spec(st, c, reason).1.sasl_failures == c.sasl_failures + 1,
        c.sasl_failures + 1 == cap::MAX_SASL_FAILURES ==> {
            &&& cap::failure_spec(st, c, reason).2.contains(EffectView::Close { session: c.id })
            &&& !cap::failure_spec(st, c, reason).0.connections.contains(c.id)
        },
{
    broadcast use crate::containers::lemma_set_remove_contains;

    let fx = cap::failure_spec(st, c, reason).2;
    if c.sasl_failures + 1 == cap::MAX_SASL_FAILURES {
        assert(fx.last() == (EffectView::Close { session: c.id }));
        assert(fx[fx.len() - 1] == fx.last());
    }
}

// ── Identity ────────────────────────────────────────────────────────

/// A nick that a DID owns is refused to everyone else, once nothing is being negotiated any more:
/// nothing changes, and all that follows is one reply. (A session of one's own that has the nick
/// already is another matter.)
pub proof fn law_owned_nick_is_refused(
    st: ServerStateView,
    c: ConnectionView,
    nick: Seq<char>,
    owner: Seq<char>,
    guest: u32,
    now: u64,
)
    requires
        containers::map_get(st.nick_owners, crate::text::lowercase(nick)) == Some(owner),
        c.authenticated_did != Some(owner),
        !nick::negotiating(c),
        st.session_of(nick) matches Some(s) ==> !nick::same_did(st, c, s),
    ensures
        nick::nick_spec(st, c, nick, guest, now).0 == st,
        nick::nick_spec(st, c, nick, guest, now).1 == c,
        nick::nick_spec(st, c, nick, guest, now).2.len() == 1,
        nick::nick_spec(st, c, nick, guest, now).2[0] matches EffectView::Send { to, .. } && to == c.id,
{
}

/// A guest does not register under a nick that a DID owns, provided that nobody owns the guest name
/// that is given out instead.
pub proof fn law_guest_registers_under_no_owned_nick(st: ServerStateView, c: ConnectionView, guest: u32, now: u64)
    requires
        registration::ready(c),
        c.authenticated_did is None,
        containers::map_get(st.nick_owners, crate::text::lowercase(registration::guest_nick(guest))) is None,
    ensures
        ({
            let after = registration::registration_spec(st, c, guest, now);
            &&& after.1.registered
            &&& after.1.nick is Some
            &&& containers::map_get(after.0.nick_owners, crate::text::lowercase(after.1.nick->0)) is None
        }),
{
    reveal(registration::registration_spec);
    reveal(registration::ownership_spec);
    reveal(registration::attach_spec);
    reveal(ServerStateView::nick_freed);
    reveal(ServerStateView::nick_set);
}

/// Who is made an operator and is authenticated is one by DID as well, and so gets the status back
/// on entering the channel again.
pub proof fn law_opped_did_is_recorded(
    st: ServerStateView,
    c: ConnectionView,
    channel: Seq<char>,
    target: Seq<char>,
    session: Seq<char>,
    did: Seq<char>,
    now: u64,
)
    requires
        st.channel_target(channel, target) == (ChannelTargetView::Local { session_id: session }),
        st.did_of(session) == Some(did),
    ensures
        ({
            let after = channel::mode_step(st, c, channel, 'o', true, Some(target), now).state;
            &&& after.is_op(channel, session)
            &&& after.channel(channel) matches Some(ch) && channel::did_has_ops(ch, did)
        }),
{
    broadcast use crate::containers::lemma_map_put_get, crate::containers::lemma_set_insert_contains;

}

/// The invitation of an authenticated user is one of the DID: it holds for every later connection
/// of that DID, whatever its session and its nick.
pub proof fn law_invitation_goes_by_did(
    st: ServerStateView,
    c: ConnectionView,
    target: Seq<char>,
    channel: Seq<char>,
    session: Seq<char>,
    back: ConnectionView,
)
    requires
        st.is_member(channel, c.id),
        st.channel(channel)->0.invite_only ==> st.is_op(channel, c.id) || st.server_opers.contains(c.id),
        st.session_of(target) == Some(session),
        st.did_of(session) is Some,
        back.authenticated_did == st.did_of(session),
    ensures
        channel::invite_spec(st, c, target, channel).0.channel(channel) matches Some(ch) && join::invited(ch, back),
{
    broadcast use crate::containers::lemma_map_put_get, crate::containers::lemma_set_insert_contains;

}

/// A further session of a user is in every channel that another session of that user is in, as an
/// operator where the other is one.
pub proof fn law_sessions_of_a_user_share_channels(
    st: ServerStateView,
    c: ConnectionView,
    did: Seq<char>,
    other: Seq<char>,
    name: Seq<char>,
)
    requires
        c.authenticated_did == Some(did),
        containers::map_get(st.ghost_sessions, did) is None,
        registration::other_sessions(st.session_dids, did, c.id).contains(other),
        st.is_member(name, other),
    ensures
        registration::attach_spec(st, c).0.is_member(name, c.id),
        st.is_op(name, other) ==> registration::attach_spec(st, c).0.is_op(name, c.id),
{
    broadcast use crate::containers::lemma_set_insert_contains;

    reveal(registration::attach_spec);
    reveal(ServerStateView::nick_set);
    reveal(ServerStateView::session_unnamed);
    let others = registration::other_sessions(st.session_dids, did, c.id);
    let i = choose|i: int| 0 <= i < others.len() && others[i] == other;
    let chs = st.channels;
    let after = registration::share_all(chs, others, c.id, did);
    lemma_share_all_get(chs, others, c.id, did, name);
    let ch = st.channel(name)->0;
    assert(ch.members.contains(others[i]));
    assert(registration::any_in(others, ch.members));
    if st.is_op(name, other) {
        assert(ch.ops.contains(others[i]));
        assert(registration::any_in(others, ch.ops));
    }
    assert(registration::attach_spec(st, c).0.channels == after);
}

/// A session with the DID is one of the user's others.
proof fn lemma_other_sessions(dids: Seq<(Seq<char>, Seq<char>)>, did: Seq<char>, session: Seq<char>, other: Seq<char>)
    requires
        other != session,
        dids.contains((other, did)),
    ensures
        registration::other_sessions(dids, did, session).len() > 0,
    decreases dids.len(),
{
    let i = choose|i: int| 0 <= i < dids.len() && dids[i] == (other, did);
    if i < dids.len() - 1 {
        assert(dids.drop_last()[i] == (other, did));
        lemma_other_sessions(dids.drop_last(), did, session, other);
    }
}

/// Where another session of the user has a name, the nick that the user goes by is that of such a
/// session.
proof fn lemma_canonical_nick(
    named: Seq<(Seq<char>, Seq<char>)>,
    dids: Seq<(Seq<char>, Seq<char>)>,
    did: Seq<char>,
    session: Seq<char>,
)
    ensures
        ({
            let canon = registration::canonical_nick(named, dids, did, session);
            &&& canon is Some ==> exists|k: int| #[trigger] names_user(named, dids, did, session, k) && named[k].1 == canon->0
            &&& canon is None ==> forall|k: int| !#[trigger] names_user(named, dids, did, session, k)
        }),
    decreases named.len(),
{
    if named.len() > 0 {
        let before = named.drop_last();
        lemma_canonical_nick(before, dids, did, session);
        let canon = registration::canonical_nick(before, dids, did, session);
        if canon is Some {
            let k = choose|k: int| #[trigger] names_user(before, dids, did, session, k) && before[k].1 == canon->0;
            assert(names_user(named, dids, did, session, k) && named[k].1 == canon->0);
        } else {
            assert forall|k: int| #[trigger] names_user(named, dids, did, session, k) implies k == named.len() - 1 by {
                assert(!names_user(before, dids, did, session, k));
            }
            assert(names_user(named, dids, did, session, named.len() - 1) <==> registration::canonical_nick(
                named,
                dids,
                did,
                session,
            ) is Some);
        }
    }
}

/// Whether an entry names a session of the user other than the given one.
pub open spec fn names_user(
    named: Seq<(Seq<char>, Seq<char>)>,
    dids: Seq<(Seq<char>, Seq<char>)>,
    did: Seq<char>,
    session: Seq<char>,
    k: int,
) -> bool {
    0 <= k < named.len() && named[k].0 != session && containers::map_get(dids, named[k].0) == Some(did)
}

/// A further session of a user goes by the nick of a session that the user has already, whatever
/// nick it has asked for.
pub proof fn law_sessions_of_a_user_share_the_nick(
    st: ServerStateView,
    c: ConnectionView,
    did: Seq<char>,
    i: int,
)
    requires
        c.authenticated_did == Some(did),
        containers::map_get(st.ghost_sessions, did) is None,
        names_user(st.session_nick, st.session_dids, did, c.id, i),
    ensures
        exists|k: int| #[trigger]
            names_user(st.session_nick, st.session_dids, did, c.id, k) && registration::same_nick(
                registration::attach_spec(st, c).1.nick,
                st.session_nick[k].1,
            ),
{
    reveal(registration::attach_spec);
    let other = st.session_nick[i].0;
    containers::lemma_map_find(st.session_dids, other);
    let j = containers::map_find(st.session_dids, other)->0;
    assert(st.session_dids[j] == (other, did));
    lemma_other_sessions(st.session_dids, did, c.id, other);
    lemma_canonical_nick(st.session_nick, st.session_dids, did, c.id);
    let canon = registration::canonical_nick(st.session_nick, st.session_dids, did, c.id);
    let k = choose|k: int| #[trigger] names_user(st.session_nick, st.session_dids, did, c.id, k) && st.session_nick[k].1 == canon->0;
    assert(registration::same_nick(registration::attach_spec(st, c).1.nick, st.session_nick[k].1));
}

/// Sharing changes the channels in their places.
proof fn lemma_share_all_get(
    chs: Seq<(Seq<char>, ChannelStateView)>,
    others: Seq<Seq<char>>,
    session: Seq<char>,
    did: Seq<char>,
    name: Seq<char>,
)
    ensures
        containers::map_get(registration::share_all(chs, others, session, did), name) == match containers::map_get(chs, name) {
            Some(ch) => Some(
                if registration::any_in(others, ch.members) {
                    registration::shared(ch, others, session, did)
                } else {
                    ch
                },
            ),
            None => None,
        },
{
    let after = registration::share_all(chs, others, session, did);
    containers::lemma_map_find(chs, name);
    match containers::map_find(chs, name) {
        Some(i) => {
            assert(after[i].0 == name);
            assert forall|j: int| 0 <= j < i implies (#[trigger] after[j]).0 != name by {
                assert(chs[j].0 != name);
            }
            containers::lemma_map_find_is(after, name, i);
        },
        None => {
            assert forall|j: int| 0 <= j < after.len() implies (#[trigger] after[j]).0 != name by {
                assert(chs[j].0 != name);
            }
            containers::lemma_map_find_none(after, name);
        },
    }
}

// ── Delivery ────────────────────────────────────────────────────────

/// Everyone but the sender gets the message.
proof fn lemma_delivered(st: ServerStateView, sessions: Seq<Seq<char>>, sender: Seq<char>, l: messaging::LinesView, to: Seq<char>)
    requires
        sessions.contains(to),
        to != sender,
    ensures
        messaging::deliver_fx(st, sessions, sender, l).contains(messaging::deliver_one(st, to, l)),
    decreases sessions.len(),
{
    let fx = messaging::deliver_fx(st, sessions, sender, l);
    let rest = messaging::deliver_fx(st, sessions.drop_last(), sender, l);
    let e = messaging::deliver_one(st, to, l);
    let i = choose|i: int| 0 <= i < sessions.len() && sessions[i] == to;
    if i == sessions.len() - 1 {
        assert(fx[fx.len() - 1] == e);
    } else {
        assert(sessions.drop_last()[i] == to);
        lemma_delivered(st, sessions.drop_last(), sender, l, to);
        let k = choose|k: int| 0 <= k < rest.len() && rest[k] == e;
        assert(fx[k] == e);
    }
}

/// A message to a channel that nothing stands against is the newest of the channel's history, is
/// delivered to every other member with its text as it was sent (or as a plugin rewrote it), and is
/// relayed to the other servers.
pub proof fn law_message_reaches_the_channel(
    st: ServerStateView,
    c: ConnectionView,
    target: Seq<char>,
    body: Seq<char>,
    tags: Seq<(Seq<char>, Seq<char>)>,
    now: u64,
    now_ms: u64,
    msgid: Seq<char>,
    verdict: VerdictView,
    route: RouteView,
    to: Seq<char>,
)
    requires
        messaging::is_channel_name(target),
        st.channel(target) is Some,
        !messaging::floods(st, c.id, now_ms),
        messaging::channel_refusal(st, c, target, containers::map_has(tags, "+encrypted"@)) is None,
        !verdict.suppress,
        st.is_member(target, to),
        to != c.id,
    ensures
        ({
            let text = crate::text::or_default(verdict.rewrite_text, body);
            let after = messaging::message_spec(st, c, "PRIVMSG"@, target, body, tags, now, now_ms, msgid, verdict, route);
            let kept = after.0.channel(target)->0.history;
            &&& after.0.channel(target) is Some
            &&& kept.len() > 0
            &&& kept.last().text == text
            &&& kept.last().from == c.hostmask()
            &&& kept.last().msgid == Some(msgid)
            &&& exists|tags: Seq<(Seq<char>, Seq<char>)>| #[trigger]
                after.1.contains(
                    messaging::deliver_one(after.0, to, messaging::text_lines(tags, c, "PRIVMSG"@, target, text, now)),
                )
            &&& exists|sig: Option<Seq<char>>|
                after.1.contains(#[trigger] relayed(c, target, text, msgid, sig))
        }),
{
    broadcast use crate::containers::lemma_map_put_get;

    reveal_strlit("PRIVMSG");
    reveal_strlit("NOTICE");
    assert("PRIVMSG"@.len() == 7);
    assert("NOTICE"@.len() == 6);
    let st1 = messaging::counted(st, c.id, now_ms);
    assert(st1.channel(target) == st.channel(target));
    let text = crate::text::or_default(verdict.rewrite_text, body);
    let sig = messaging::signature(st1, c, target, text, now, containers::map_get(tags, "+freeq.at/sig"@));
    let full = messaging::signed_tags(tags, msgid, sig);
    let l = messaging::text_lines(full, c, "PRIVMSG"@, target, text, now);
    let after = messaging::message_spec(st, c, "PRIVMSG"@, target, body, tags, now, now_ms, msgid, verdict, route);
    let st2 = after.0;
    assert(st2.members(target) == st.members(target));
    lemma_delivered(st2, st2.members(target), c.id, l, to);
    let stored = messaging::stored_fx(st1, c, target, text, tags, now, msgid);
    let sent = messaging::deliver_fx(st2, st2.members(target), c.id, l);
    let e = messaging::deliver_one(st2, to, l);
    let k = choose|k: int| 0 <= k < sent.len() && sent[k] == e;
    let last = relayed(c, target, text, msgid, containers::map_get(full, "+freeq.at/sig"@));
    assert(after.1 == stored + sent + seq![last]);
    assert(after.1[stored.len() + k] == e);
    assert(after.1.contains(e));
    assert(after.1[after.1.len() - 1] == last);
    assert(after.1.contains(last));
}

/// A channel message as the other servers get it.
pub open spec fn relayed(c: ConnectionView, target: Seq<char>, text: Seq<char>, msgid: Seq<char>, sig: Option<Seq<char>>) -> EffectView {
    EffectView::S2s(
        crate::server::S2sEventView::Privmsg { from: c.nick_or_star(), target, text, msgid: Some(msgid), sig },
    )
}

/// A topic that is set is the channel's, every member is told, and so are the other servers.
pub proof fn law_topic_reaches_the_channel(
    st: ServerStateView,
    c: ConnectionView,
    channel: Seq<char>,
    topic: Seq<char>,
    now: u64,
    to: Seq<char>,
)
    requires
        st.is_member(channel, c.id),
        vstd::utf8::encode_utf8(topic).len() <= 512,
        st.channel(channel)->0.topic_locked ==> st.is_op(channel, c.id) || st.server_opers.contains(c.id),
        st.is_member(channel, to),
    ensures
        ({
            let after = channel::topic_spec(st, c, channel, Some(topic), now);
            &&& after.0.channel(channel) matches Some(ch) && ch.topic == Some(
                crate::server::TopicInfoView { text: topic, set_by: c.hostmask(), set_at: now },
            )
            &&& after.1.contains(
                super::helpers::send_fx(to, ":"@ + c.hostmask() + " TOPIC "@ + channel + " :"@ + topic + "\r\n"@),
            )
            &&& after.1.contains(
                EffectView::S2s(crate::server::S2sEventView::Topic { channel, topic, set_by: c.nick_or_star() }),
            )
        }),
{
    broadcast use crate::containers::lemma_map_put_get;

    let fx = channel::topic_spec(st, c, channel, Some(topic), now).1;
    let members = st.members(channel);
    let i = choose|i: int| 0 <= i < members.len() && members[i] == to;
    assert(fx[2 + i] == super::helpers::send_fx(to, ":"@ + c.hostmask() + " TOPIC "@ + channel + " :"@ + topic + "\r\n"@));
    assert(fx[fx.len() - 1] == EffectView::S2s(
        crate::server::S2sEventView::Topic { channel, topic, set_by: c.nick_or_star() },
    ));
}

/// NAMES shows every local nick once, however many sessions its user has, and leaves nobody out.
pub proof fn law_names_show_each_nick_once(st: ServerStateView, ch: ChannelStateView, sessions: Seq<Seq<char>>, multi: bool)
    ensures
        ({
            let (names, seen) = channel::local_names(st, ch, sessions, multi);
            &&& names.len() == seen.len()
            &&& seen.no_duplicates()
            &&& forall|i: int| 0 <= i < sessions.len() ==> (st.nick_of(#[trigger] sessions[i]) matches Some(n) ==> seen.contains(crate::text::lowercase(n)))
        }),
    decreases sessions.len(),
{
    if sessions.len() > 0 {
        law_names_show_each_nick_once(st, ch, sessions.drop_last(), multi);
        let before = channel::local_names(st, ch, sessions.drop_last(), multi).1;
        let seen = channel::local_names(st, ch, sessions, multi).1;
        assert forall|i: int| 0 <= i < sessions.len() && st.nick_of(#[trigger] sessions[i]) is Some implies seen.contains(
            crate::text::lowercase(st.nick_of(sessions[i])->0),
        ) by {
            let n = crate::text::lowercase(st.nick_of(sessions[i])->0);
            if i < sessions.len() - 1 {
                assert(sessions.drop_last()[i] == sessions[i]);
                assert(before.contains(n));
                let k = choose|k: int| 0 <= k < before.len() && before[k] == n;
                assert(seen[k] == n);
            } else if before.contains(n) {
                let k = choose|k: int| 0 <= k < before.len() && before[k] == n;
                assert(seen[k] == n);
            } else {
                assert(seen[seen.len() - 1] == n);
            }
        }
    }
}

/// The rate limit does not hold before registration.
pub proof fn law_registration_is_not_limited(st: ServerStateView, c: ConnectionView, command: Seq<char>, l: requests::RateLimit, now: u64)
    requires
        !c.registered,
    ensures
        requests::screen_spec(st, c, command, l, now) == (l, Seq::<EffectView>::empty(), true),
{
}

/// A channel with a key, a ban on the user, or open to the invited alone is closed to whoever has
/// not the key, is banned, or is not invited: nothing changes, and the user stays outside.
pub proof fn law_closed_channels_stay_closed(
    st: ServerStateView,
    c: ConnectionView,
    channel: Seq<char>,
    key: Option<Seq<char>>,
    banned: bool,
    policy: Option<PolicyView>,
    now: u64,
    fresh_id: Seq<char>,
)
    requires
        !join::is_new(st, channel),
        !st.is_member(channel, c.id),
        ({
            let ch = st.channel(channel)->0;
            (ch.key is Some && key != ch.key) || banned || (ch.invite_only && !join::invited(ch, c))
        }),
    ensures
        join::join_spec(st, c, channel, key, banned, policy, now, fresh_id).0 == st,
        !join::join_spec(st, c, channel, key, banned, policy, now, fresh_id).0.is_member(channel, c.id),
{
}

/// Who enters a channel is shown its history: every message that the channel keeps.
pub proof fn law_history_is_replayed(
    st: ServerStateView,
    c: ConnectionView,
    channel: Seq<char>,
    key: Option<Seq<char>>,
    banned: bool,
    policy: Option<PolicyView>,
    now: u64,
    fresh_id: Seq<char>,
    i: int,
)
    requires
        join::entry_gate(st, c, channel, key, banned) is Pass,
        join::policy_gate(join::past_door(st, c, channel), c, channel, policy) is Ok,
        st.channel(channel) is Some,
        0 <= i < st.channel(channel)->0.history.len(),
    ensures
        ({
            let after = join::join_spec(st, c, channel, key, banned, policy, now, fresh_id);
            after.1.contains(
                join::history_fx(
                    after.0,
                    c.id,
                    channel,
                    "hist"@ + fresh_id,
                    st.channel(channel)->0.history[i],
                ),
            )
        }),
{
    broadcast use crate::containers::lemma_map_put_get;

    let after = join::join_spec(st, c, channel, key, banned, policy, now, fresh_id);
    let new = join::is_new(st, channel);
    let st1 = join::past_door(st, c, channel);
    let role = join::policy_gate(st1, c, channel, policy)->Ok_0;
    let ch1 = join::seated(st1, c, channel, policy, now);
    let ch2 = join::with_role(ch1, c, role);
    let st2 = st1.with_channel(channel, ch2);
    let batch = "hist"@ + fresh_id;
    let history = st.channel(channel)->0.history;
    assert(ch2.history == history);
    let one = join::history_fx(st2, c.id, channel, batch, history[i]);
    let shown = history.map_values(|h: HistoryMessageView| join::history_fx(st2, c.id, channel, batch, h));
    assert(shown[i] == one);
    let replay = join::replay_fx(st2, c.id, channel, batch, history);
    assert(replay.contains(one)) by {
        if st2.cap_batch.contains(c.id) {
            assert(replay[i + 1] == one);
        } else {
            assert(replay[i] == one);
        }
    }
    let topic = match ch2.topic {
        Some(t) => channel::topic_replies(st2, c.id, crate::text::or_default(c.nick, ""@), channel, t),
        None => Seq::empty(),
    };
    let names = channel::names_fx(st2, c.id, crate::text::or_default(c.nick, ""@), channel, false);
    let welcome = join::join_welcome(st2, c, channel, ch2, batch);
    assert(welcome == topic + replay + names);
    lemma_middle_contains(topic, replay, names, one);
    let news = join::join_news(st2, c, channel, ch2, new);
    lemma_middle_contains(news, welcome, Seq::empty(), one);
    assert(news + welcome + Seq::<EffectView>::empty() =~= news + welcome);
    let told = join::join_told(st2, c, channel, ch2, new, batch);
    let first = if new {
        join::creation_fx(c, channel, ch1)
    } else {
        Seq::empty()
    };
    lemma_middle_contains(first, told, Seq::empty(), one);
    assert(first + told + Seq::<EffectView>::empty() =~= first + told);
}

/// What the middle part of a list holds, the list holds.
proof fn lemma_middle_contains(a: Seq<EffectView>, b: Seq<EffectView>, z: Seq<EffectView>, e: EffectView)
    requires
        b.contains(e),
    ensures
        (a + b + z).contains(e),
{
    let i = choose|i: int| 0 <= i < b.len() && b[i] == e;
    assert((a + b + z)[a.len() + i] == e);
}

/// On a channel with +t a member who is no operator cannot change the topic.
pub proof fn law_locked_topic_is_for_operators(
    st: ServerStateView,
    c: ConnectionView,
    channel: Seq<char>,
    topic: Seq<char>,
    now: u64,
)
    requires
        st.channel(channel) matches Some(ch) && ch.topic_locked,
        !st.is_op(channel, c.id),
        !st.server_opers.contains(c.id),
    ensures
        channel::topic_spec(st, c, channel, Some(topic), now).0 == st,
{
}

/// NAMES shows the members on other servers beside the local ones.
pub proof fn law_remote_members_are_named(st: ServerStateView, channel: Seq<char>, multi: bool, i: int)
    requires
        st.channel(channel) is Some,
        0 <= i < st.channel(channel)->0.remote_members.len(),
    ensures
        channel::names_list(st, channel, multi).contains(
            channel::remote_name(st.channel(channel)->0, st.channel(channel)->0.remote_members[i]),
        ),
{
    let ch = st.channel(channel)->0;
    let local = channel::local_names(st, ch, ch.members, multi).0;
    let all = channel::names_list(st, channel, multi);
    assert(all[local.len() + i] == channel::remote_name(ch, ch.remote_members[i]));
}

/// A message comes in two representations: a client without message tags gets the text alone, in a
/// plain line, whatever the tags; one with them gets the tags as well.
pub proof fn law_plain_clients_get_the_text(
    st: ServerStateView,
    session: Seq<char>,
    tags: Seq<(Seq<char>, Seq<char>)>,
    c: ConnectionView,
    command: Seq<char>,
    target: Seq<char>,
    body: Seq<char>,
    ts: u64,
)
    ensures
        ({
            let line = messaging::line_for(st, session, messaging::text_lines(tags, c, command, target, body, ts));
            let params = seq![target, body];
            if st.cap_message_tags.contains(session) {
                exists|all: Seq<(Seq<char>, Seq<char>)>|
                    {
                        &&& line == #[trigger] messaging::tagged_line(all, c, command, params)
                        &&& forall|k: Seq<char>|
                            k != "time"@ ==> containers::map_get(all, k) == containers::map_get(tags, k)
                    }
            } else {
                line == ":"@ + c.hostmask() + " "@ + command + " "@ + target + " :"@ + body + "\r\n"@
            }
        }),
{
    broadcast use crate::containers::lemma_map_put_get;

    let timed = containers::map_put(tags, "time"@, crate::time::time_tag(ts));
    assert(messaging::tagged_line(tags, c, command, seq![target, body])
        == messaging::text_lines(tags, c, command, target, body, ts).tagged);
    assert(messaging::tagged_line(timed, c, command, seq![target, body])
        == messaging::text_lines(tags, c, command, target, body, ts).timed);
}

} // verus!
