//! What holds of calls: who is in one, who may come in, when it ends.
use crate::av;
use crate::av::{AvParticipantView, AvSessionManagerView, AvSessionStateView, AvSessionView, ParticipantRole};
use crate::connection::told;
use crate::containers;
use crate::text;
use vstd::prelude::*;

verus! {

broadcast use {
    vstd::string::group_string_axioms,
    containers::lemma_map_put_get,
    containers::lemma_map_del_get,
};

/// Those who have not left are counted, and nobody else.
pub proof fn law_count_is_of_those_who_are_here(ps: Seq<(Seq<char>, AvParticipantView)>)
    ensures
        av::active_count(ps) == ps.filter(|e: (Seq<char>, AvParticipantView)| e.1.left_at is None).len(),
    decreases ps.len(),
{
    reveal(Seq::filter);
    if ps.len() > 0 {
        law_count_is_of_those_who_are_here(ps.drop_last());
    }
}

/// A new session is going on, with its creator in it as host and nobody else, and with what it was
/// created with.
pub proof fn law_new_sessions_have_their_host(
    id: Seq<char>,
    channel: Option<Seq<char>>,
    did: Seq<char>,
    nick: Seq<char>,
    title: Option<Seq<char>>,
    ticket: Option<Seq<char>>,
    now: i64,
    other: Seq<char>,
)
    ensures
        ({
            let s = av::new_session(id, channel, did, nick, title, ticket, now);
            &&& s.id == id
            &&& s.channel == channel
            &&& s.created_by == did
            &&& s.created_by_nick == nick
            &&& s.created_at == now
            &&& s.state is Active
            &&& s.title == title
            &&& s.iroh_ticket == ticket
            &&& !s.recording_enabled
            &&& s.max_participants is None
            &&& av::active_count(s.participants) == 1
            &&& containers::map_get(s.participants, did) matches Some(p) && p.did == did && p.nick == nick && p.joined_at == now
                && p.left_at is None && p.role == ParticipantRole::Host && p.tracks.len() == 0
            &&& other != did ==> containers::map_get(s.participants, other) is None
        }),
{
    let s = av::new_session(id, channel, did, nick, title, ticket, now);
    containers::lemma_map_find(s.participants, did);
    containers::lemma_map_find(s.participants, other);
    assert(s.participants[0].0 == did);
    assert(s.participants.drop_last() =~= Seq::empty());
    reveal_with_fuel(av::active_count, 2);
}

/// A session can be joined exactly where there is one, it has not ended, and it is not full.
pub proof fn law_joining_is_refused_for_a_reason(m: AvSessionManagerView, id: Seq<char>)
    ensures
        m.session(id) is None <==> m.join_refusal(id) == Some("Session "@ + id + " not found"@),
        m.session(id) matches Some(s) ==> {
            &&& s.state is Ended ==> m.join_refusal(id) == Some("Session has ended"@)
            &&& s.state is Active ==> (m.join_refusal(id) is Some <==> s.max_participants is Some && av::active_count(s.participants)
                >= s.max_participants->0)
            &&& s.state is Active && m.join_refusal(id) is Some ==> m.join_refusal(id) == Some("Session is full"@)
        },
{
    reveal_strlit("Session ");
    reveal_strlit(" not found");
    reveal_strlit("Session has ended");
    reveal_strlit("Session is full");
    let missing = "Session "@ + id + " not found"@;
    assert(missing[missing.len() - 1] == 'd');
    assert(missing[missing.len() - 5] == 'f');
    assert("Session has ended"@[12] == 'e' && "Session has ended"@.len() == 17);
    assert("Session is full"@[14] == 'l' && "Session is full"@.len() == 15);
}

/// Who joins is in the session from now on, a newcomer as a speaker, one who comes back in the role
/// and under the nick they had; everyone else, and every other session, is as before.
pub proof fn law_joining_adds_one_participant(
    m: AvSessionManagerView,
    id: Seq<char>,
    s: AvSessionView,
    did: Seq<char>,
    nick: Seq<char>,
    now: i64,
    other: Seq<char>,
)
    requires
        m.session(id) == Some(s),
    ensures
        ({
            let after = m.joined(id, did, nick, now);
            let t = containers::map_get(after.sessions, id)->0;
            let p = containers::map_get(t.participants, did)->0;
            &&& containers::map_get(after.sessions, id) is Some
            &&& t == (AvSessionView { participants: t.participants, ..s })
            &&& containers::map_get(t.participants, did) is Some
            &&& p.left_at is None && p.joined_at == now
            &&& containers::map_get(s.participants, did) is None ==> p.did == did && p.nick == nick && p.role
                == ParticipantRole::Speaker && p.tracks.len() == 0
            &&& containers::map_get(s.participants, did) matches Some(q) ==> p.did == q.did && p.nick == q.nick && p.role == q.role
                && p.tracks == q.tracks
            &&& other != did ==> containers::map_get(t.participants, other) == containers::map_get(s.participants, other)
            &&& other != id ==> containers::map_get(after.sessions, other) == containers::map_get(m.sessions, other)
            &&& after.channel_sessions == m.channel_sessions
        }),
{
}

/// Who leaves has left now and is kept in the list; everyone else, and every other session, is as
/// before. The session goes on while somebody is in it.
pub proof fn law_leaving_marks_one_participant(
    m: AvSessionManagerView,
    id: Seq<char>,
    s: AvSessionView,
    did: Seq<char>,
    q: AvParticipantView,
    now: i64,
    other: Seq<char>,
)
    requires
        m.session(id) == Some(s),
        containers::map_get(s.participants, did) == Some(q),
    ensures
        ({
            let after = m.departed(id, did, now);
            let t = containers::map_get(after.sessions, id)->0;
            &&& containers::map_get(after.sessions, id) is Some
            &&& t == (AvSessionView { participants: t.participants, ..s })
            &&& containers::map_get(t.participants, did) == Some(AvParticipantView { left_at: Some(now), ..q })
            &&& other != did ==> containers::map_get(t.participants, other) == containers::map_get(s.participants, other)
            &&& other != id ==> containers::map_get(after.sessions, other) == containers::map_get(m.sessions, other)
            &&& after.channel_sessions == m.channel_sessions
            &&& av::active_count(t.participants) > 0 ==> m.abandoned(id, did, now) == after
            &&& av::active_count(t.participants) == 0 ==> m.abandoned(id, did, now) == after.ended(id, Some(did), now)
        }),
{
}

/// The end of a session says when it was and who brought it about; everyone who was in it has left
/// now, and who had left before keeps their time. Every other session is as before.
pub proof fn law_ending_closes_one_session(
    m: AvSessionManagerView,
    id: Seq<char>,
    s: AvSessionView,
    by: Option<Seq<char>>,
    now: i64,
    i: int,
    other: Seq<char>,
)
    requires
        m.session(id) == Some(s),
        0 <= i < s.participants.len(),
    ensures
        ({
            let after = m.ended(id, by, now);
            let t = containers::map_get(after.sessions, id)->0;
            let p = s.participants[i].1;
            &&& containers::map_get(after.sessions, id) is Some
            &&& t == (AvSessionView { state: t.state, participants: t.participants, ..s })
            &&& t.state == (AvSessionStateView::Ended { ended_at: now, ended_by: by })
            &&& t.participants.len() == s.participants.len()
            &&& t.participants[i].0 == s.participants[i].0
            &&& t.participants[i].1 == (AvParticipantView { left_at: t.participants[i].1.left_at, ..p })
            &&& p.left_at is None ==> t.participants[i].1.left_at == Some(now)
            &&& p.left_at is Some ==> t.participants[i].1.left_at == p.left_at
            &&& other != id ==> containers::map_get(after.sessions, other) == containers::map_get(m.sessions, other)
            &&& s.channel is None ==> after.channel_sessions == m.channel_sessions
            &&& s.channel matches Some(ch) ==> (other != text::lowercase(ch) ==> containers::map_get(after.channel_sessions, other)
                == containers::map_get(m.channel_sessions, other))
        }),
{
}

/// Of the sessions those that are going on, and those that ended less than the given time ago, are
/// kept, and no others.
pub proof fn law_old_sessions_are_dropped(
    m: AvSessionManagerView,
    max_age_secs: i64,
    now: i64,
    e: (Seq<char>, AvSessionView),
)
    ensures
        m.pruned(max_age_secs, now).sessions.contains(e) <==> m.sessions.contains(e) && (e.1.state matches AvSessionStateView::Ended {
            ended_at,
            ..
        } ==> now - ended_at < max_age_secs),
        m.pruned(max_age_secs, now).channel_sessions == m.channel_sessions,
{
    told::lemma_filter_contains(
        m.sessions,
        |e: (Seq<char>, AvSessionView)| av::recent(e.1, max_age_secs, now),
        e,
    );
}

/// Of the sessions exactly those that are going on are listed, in their order.
pub proof fn law_active_sessions_are_listed(sessions: Seq<(Seq<char>, AvSessionView)>, id: Seq<char>, s: AvSessionView)
    ensures
        av::going_on(sessions.push((id, s))) == (if s.state is Active {
            av::going_on(sessions).push(s)
        } else {
            av::going_on(sessions)
        }),
        av::going_on(Seq::empty()).len() == 0,
        av::ids_with(sessions.push((id, s)), s.created_by) == (if s.state is Active && (containers::map_get(
            s.participants,
            s.created_by,
        ) matches Some(p) && p.left_at is None) {
            av::ids_with(sessions, s.created_by).push(id)
        } else {
            av::ids_with(sessions, s.created_by)
        }),
{
    assert(sessions.push((id, s)).drop_last() =~= sessions);
}

/// Who leaves all sessions leaves each of those they are in, and is told of each: its ID, its channel,
/// their nick in it, and whether it ended with that.
pub proof fn law_leaving_all_tells_of_each(m: AvSessionManagerView, ids: Seq<Seq<char>>, id: Seq<char>, did: Seq<char>, now: i64)
    ensures
        ({
            let before = m.abandoned_all(ids, did, now);
            let after = m.abandoned_all(ids.push(id), did, now);
            match before.0.session(id) {
                Some(s) => {
                    &&& after.0 == before.0.abandoned(id, did, now)
                    &&& after.1.len() == before.1.len() + 1
                    &&& after.1.last().0 == id
                    &&& after.1.last().1 == s.channel
                    &&& after.1.last().3 == (av::active_count(
                        containers::map_get(before.0.departed(id, did, now).sessions, id)->0.participants,
                    ) == 0)
                    &&& containers::map_get(s.participants, did) matches Some(p) ==> after.1.last().2 == p.nick
                },
                None => after == before,
            }
        }),
        m.abandoned_all(Seq::empty(), did, now) == (m, Seq::<(Seq<char>, Option<Seq<char>>, Seq<char>, bool)>::empty()),
{
    assert(ids.push(id).drop_last() =~= ids);
}

} // verus!
