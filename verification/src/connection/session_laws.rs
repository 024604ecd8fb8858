//! What holds of signing in, nicks, and stored history.
use super::cap;
use super::cap::{AuthAction, SaslOutcomeView};
use super::history;
use super::history::{ConversationView, HistoryPlanView, HistoryQueryView};
use super::join;
use super::registration;
use super::told;
use super::ConnectionView;
use crate::containers;
use crate::db;
use crate::db::MessageRowView;
use crate::irc;
use crate::irc::MessageView;
use crate::server::{ChannelStateView, CrdtOpView, EffectView, HistoryMessageView, PluginEventView, ServerStateView, StoreOpView};
use crate::text;
use crate::time;
use vstd::prelude::*;

verus! {

broadcast use {
    vstd::string::group_string_axioms,
    told::group_told,
    containers::lemma_map_put_get,
    containers::lemma_map_del_get,
    containers::lemma_set_insert_contains,
    containers::lemma_set_remove_contains,
};

/// A reply of the server to a session.
pub open spec fn reply(to: Seq<char>, server: Seq<char>, command: Seq<char>, params: Seq<Seq<char>>) -> EffectView {
    EffectView::Send { to, line: irc::wire(irc::server_msg(server, command, params)) }
}

/// The reply to an authentication that failed.
pub open spec fn failed(to: Seq<char>, server: Seq<char>, nick: Seq<char>, reason: Seq<char>) -> EffectView {
    reply(to, server, "904"@, seq![nick, reason])
}

// ── Signing in ──────────────────────────────────────────────────────

/// An age at which a web token is still good.
pub open spec fn is_fresh(age: u64) -> bool {
    age < 300
}

/// A web token that the server issued signs its user in, under the DID it was issued for, exactly
/// where it is less than 300 seconds old, and is rejected otherwise; a token that is not known is
/// rejected too.
pub proof fn law_web_tokens_last_five_minutes(did: Seq<char>, age: u64)
    ensures
        age < 300 <==> cap::response_spec(Some(Some("web-token"@)), Some((did, age)), true) == Some(
            SaslOutcomeView::Verified(did),
        ),
        age >= 300 <==> (cap::response_spec(Some(Some("web-token"@)), Some((did, age)), true) matches Some(o) && o is Rejected),
        cap::response_spec(Some(Some("web-token"@)), None, true) matches Some(o) && o is Rejected,
{
}

/// Nobody signs in without an answer that can be read to a challenge that was sent; an answer by any
/// other method than a web token is left to its proof.
pub proof fn law_sign_in_answers_a_challenge(
    response: Option<Option<Seq<char>>>,
    token: Option<(Seq<char>, u64)>,
    challenged: bool,
)
    ensures
        ({
            let r = cap::response_spec(response, token, challenged);
            &&& response is None <==> r == Some(SaslOutcomeView::BadResponse)
            &&& response is Some && !challenged <==> r == Some(SaslOutcomeView::NoChallenge)
            &&& r is None <==> response is Some && challenged && response->0 != Some("web-token"@)
            &&& r matches Some(SaslOutcomeView::Verified(did)) ==> response == Some(Some("web-token"@)) && challenged && exists|age: u64|
                token == Some((did, age)) && #[trigger] is_fresh(age)
        }),
{
    if let Some(t) = token {
        assert(is_fresh(t.1) == (t.1 < 300));
    }
}

/// AUTHENTICATE with the mechanism, in whichever case, asks for a challenge; what follows is taken
/// for the answer; `*` gives up. Without the mechanism, or after three failures, nothing is begun.
pub proof fn law_authentication_goes_step_by_step(st: ServerStateView, c: ConnectionView, param: Seq<char>)
    ensures
        ({
            let (after, fx, action) = cap::authenticate_spec(st, c, param);
            let named = text::ascii_lower(param) == text::ascii_lower("ATPROTO-CHALLENGE"@);
            &&& after == (ConnectionView {
                sasl_in_progress: after.sasl_in_progress,
                dpop_retries: after.dpop_retries,
                ..c
            })
            &&& action == AuthAction::Challenge <==> c.sasl_failures < 3 && param != "*"@ && named
            &&& action == AuthAction::Check <==> c.sasl_failures < 3 && param != "*"@ && !named && c.sasl_in_progress
            &&& action == AuthAction::Challenge ==> after.sasl_in_progress && after.dpop_retries == 0 && fx.len() == 0
            &&& action == AuthAction::Check ==> after == c && fx.len() == 0
            &&& c.sasl_failures >= 3 ==> after == c && fx.len() == 0
            &&& c.sasl_failures < 3 && param == "*"@ ==> !after.sasl_in_progress && fx == seq![
                reply(c.id, st.server_name, "904"@, seq![c.nick_or_star(), "SASL authentication aborted"@]),
            ]
            &&& c.sasl_failures < 3 && param != "*"@ && !named && !c.sasl_in_progress ==> after == c && fx == seq![
                reply(c.id, st.server_name, "904"@, seq![c.nick_or_star(), "Unsupported SASL mechanism"@]),
            ]
        }),
{
}

/// Attaching a session leaves its name, its user and what is known of all users as it is.
proof fn lemma_attach_keeps(st: ServerStateView, c: ConnectionView)
    ensures
        ({
            let (after, conn, fx) = registration::attach_spec(st, c);
            &&& conn.id == c.id
            &&& conn.authenticated_did == c.authenticated_did
            &&& conn.is_oper == c.is_oper
            &&& conn.registered == c.registered
            &&& conn.sasl_in_progress == c.sasl_in_progress
            &&& conn.cap_negotiating == c.cap_negotiating
            &&& conn.user == c.user
            &&& conn.iroh_endpoint_id == c.iroh_endpoint_id
            &&& c.nick is Some ==> conn.nick is Some
            &&& after.session_dids == st.session_dids
            &&& after.server_name == st.server_name
            &&& after.oper_dids == st.oper_dids
            &&& after.server_opers == st.server_opers
            &&& after.nick_owners == st.nick_owners
            &&& after.did_nicks == st.did_nicks
            &&& after.motd == st.motd
            &&& after.boot_time == st.boot_time
            &&& c.authenticated_did is Some ==> containers::map_get(after.did_sessions, c.authenticated_did->0) is Some
                && containers::map_get(after.did_sessions, c.authenticated_did->0)->0.contains(c.id)
        }),
{
    reveal(registration::attach_spec);
    reveal(ServerStateView::nick_set);
    reveal(ServerStateView::nick_freed);
    reveal(ServerStateView::session_unnamed);
}

/// Who is verified is signed in: the connection and the server know the DID, the session counts
/// among those of the user, the user is told so, and the nick belongs to the DID from now on. A
/// configured operator becomes one, and nobody else does.
pub proof fn law_verified_users_are_signed_in(st: ServerStateView, c: ConnectionView, did: Seq<char>)
    ensures
        ({
            let (after, conn, fx, action) = cap::outcome_spec(st, c, SaslOutcomeView::Verified(did));
            &&& conn.id == c.id
            &&& conn.authenticated_did == Some(did)
            &&& !conn.sasl_in_progress
            &&& action == AuthAction::Nothing
            &&& containers::map_get(after.session_dids, c.id) == Some(did)
            &&& containers::map_get(after.did_sessions, did) is Some && containers::map_get(after.did_sessions, did)->0.contains(c.id)
            &&& conn.is_oper <==> c.is_oper || st.oper_dids.contains(did)
            &&& after.server_opers.contains(c.id) <==> st.server_opers.contains(c.id) || st.oper_dids.contains(did)
            &&& conn.nick matches Some(nick) ==> {
                let lower = text::lowercase(nick);
                &&& containers::map_get(after.nick_owners, lower) == Some(did)
                &&& containers::map_get(after.did_nicks, did) == Some(lower)
                &&& fx.contains(EffectView::Store(StoreOpView::SaveIdentity { did, nick: lower }))
                &&& fx.contains(EffectView::Crdt(CrdtOpView::SetNickOwner { nick: lower, did }))
            }
            &&& fx.contains(
                reply(
                    c.id,
                    st.server_name,
                    "900"@,
                    seq![conn.nick_or_star(), conn.hostmask(), did, "You are now logged in as "@ + did],
                ),
            )
            &&& fx.contains(
                reply(c.id, st.server_name, "903"@, seq![conn.nick_or_star(), "SASL authentication successful"@]),
            )
            &&& fx.contains(EffectView::AccountNotify { session: c.id, nick: conn.nick_or_star(), did })
            &&& fx.contains(
                EffectView::ResolveHandle {
                    did,
                    session: c.id,
                    nick: match conn.nick {
                        Some(n) => n,
                        None => ""@,
                    },
                },
            )
        }),
{
    let st0 = ServerStateView { session_dids: containers::map_put(st.session_dids, c.id, did), ..st };
    let c0 = ConnectionView { authenticated_did: Some(did), sasl_in_progress: false, ..c };
    lemma_attach_keeps(st0, c0);
    let att = registration::attach_spec(st0, c0);
    let bound = cap::nick_bound(att.0, att.1, did);
    let oper = cap::oper_spec(bound.0, att.1, did);
    let logged = cap::logged_in_fx(oper.0, oper.1, did);
    assert(logged.contains(logged[0]) && logged.contains(logged[1]) && logged.contains(logged[2]));
    if att.1.nick is Some {
        assert(bound.1.contains(bound.1[0]) && bound.1.contains(bound.1[1]));
    }
    let resolve = EffectView::ResolveHandle { did, session: att.1.id, nick: text::or_default(att.1.nick, ""@) };
    assert(seq![resolve][0] == resolve);
    assert(seq![resolve].contains(resolve));
}

/// Who is not verified is not signed in: the user stays who they were, is told 904, and every
/// rejection counts, while an answer that cannot be read, or that answers no challenge, does not. A
/// rejection that asks for a fresh nonce is tried again, three times at most.
pub proof fn law_rejected_users_stay_out(st: ServerStateView, c: ConnectionView, o: SaslOutcomeView)
    requires
        !(o is Verified),
        c.sasl_failures < 3,
        c.dpop_retries < 255,
    ensures
        ({
            let (after, conn, fx, action) = cap::outcome_spec(st, c, o);
            let again = o matches SaslOutcomeView::Rejected(reason) && text::has_prefix(reason, "DPOP_NONCE:"@) && c.dpop_retries < 3;
            &&& conn.authenticated_did == c.authenticated_did
            &&& conn.nick == c.nick
            &&& after == (ServerStateView { connections: after.connections, ..st })
            &&& action == AuthAction::Retry <==> again
            &&& again ==> after == st && conn.sasl_failures == c.sasl_failures && conn.sasl_in_progress == c.sasl_in_progress
                && conn.dpop_retries == c.dpop_retries + 1
            &&& !again ==> !conn.sasl_in_progress && fx.len() > 0 && exists|reason: Seq<char>| #[trigger]
                failed(c.id, st.server_name, c.nick_or_star(), reason) == fx[0]
            &&& o is Rejected && !again ==> conn.sasl_failures == c.sasl_failures + 1
            &&& !(o is Rejected) ==> conn.sasl_failures == c.sasl_failures && after == st && fx.len() == 1
            &&& fx.contains(EffectView::Close { session: c.id }) <==> o is Rejected && !again && c.sasl_failures == 2
        }),
{
    let (after, conn, fx, action) = cap::outcome_spec(st, c, o);
    let reason = match o {
        SaslOutcomeView::BadResponse => "SASL authentication failed (bad response)"@,
        SaslOutcomeView::NoChallenge => "SASL authentication failed (no challenge)"@,
        SaslOutcomeView::Rejected(r) => if text::has_prefix(r, "DPOP_NONCE:"@) {
            "SASL authentication failed (DPoP nonce retry limit exceeded)"@
        } else {
            "SASL authentication failed"@
        },
        _ => ""@,
    };
    let first = failed(c.id, st.server_name, c.nick_or_star(), reason);
    let again = o matches SaslOutcomeView::Rejected(r) && text::has_prefix(r, "DPOP_NONCE:"@) && c.dpop_retries < 3;
    if !again {
        assert(fx[0] == first);
        if o is Rejected && c.sasl_failures == 2 {
            assert(fx[2] == EffectView::Close { session: c.id });
        } else {
            assert(fx =~= seq![first]);
        }
    }
}

/// The handle of a user is the first of their names that is one, without its mark.
pub proof fn law_handle_is_the_first_of_the_names(names: Seq<Seq<char>>, i: int, h: Seq<char>)
    requires
        0 <= i < names.len(),
        names[i] == "at://"@ + h,
        forall|j: int| 0 <= j < i ==> !text::has_prefix(#[trigger] names[j], "at://"@),
    ensures
        cap::first_handle(names) == Some(h),
    decreases names.len(),
{
    if i == 0 {
        assert(names[0].subrange(0, "at://"@.len() as int) =~= "at://"@);
        assert(names[0].subrange("at://"@.len() as int, names[0].len() as int) =~= h);
    } else {
        assert(!text::has_prefix(names[0], "at://"@));
        assert forall|j: int| 0 <= j < i - 1 implies !text::has_prefix(#[trigger] names.skip(1)[j], "at://"@) by {
            assert(names.skip(1)[j] == names[j + 1]);
        }
        law_handle_is_the_first_of_the_names(names.skip(1), i - 1, h);
    }
}

// ── Stored history ──────────────────────────────────────────────────

/// A parameter that names a time.
pub open spec fn names_time(param: Seq<char>, t: u64) -> bool {
    exists|s: Seq<char>|
        #![trigger time::rfc3339_seconds(s)]
        param == "timestamp="@ + s && time::rfc3339_seconds(s) is Some && time::rfc3339_seconds(s)->0 as u64 == t
}

/// What a parameter that names a time is read as.
proof fn lemma_time(param: Seq<char>, t: u64, d: u64)
    requires
        names_time(param, t),
    ensures
        history::time_or(param, d) == t,
{
    let s = choose|s: Seq<char>|
        #![trigger time::rfc3339_seconds(s)]
        param == "timestamp="@ + s && time::rfc3339_seconds(s) is Some && time::rfc3339_seconds(s)->0 as u64 == t;
    assert(param.subrange(0, "timestamp="@.len() as int) =~= "timestamp="@);
    assert(param.subrange("timestamp="@.len() as int, param.len() as int) =~= s);
}

/// A member of a channel who pages through its history gets that channel's messages: with BEFORE the
/// newest before the given time, with AFTER those after it, with LATEST the newest of all, with
/// BETWEEN those between the two times; as many as were asked for, 500 at most.
pub proof fn law_history_is_bounded_as_asked(
    st: ServerStateView,
    c: ConnectionView,
    params: Seq<Seq<char>>,
    a: ChannelStateView,
    t: u64,
    u: u64,
    n: nat,
)
    requires
        params.len() >= 3,
        params[1].len() > 0 && (params[1][0] == '#' || params[1][0] == '&'),
        containers::map_get(st.channels, text::lowercase(params[1])) == Some(a),
        a.members.contains(c.id),
    ensures
        ({
            let plan = history::history_plan(st, c, params);
            let sub = text::uppercase(params[0]);
            let limit = if n < 500 {
                n as u64
            } else {
                500u64
            };
            let four = params.len() >= 4 && text::number_spec(params[3], usize::MAX as nat) == Some(n);
            &&& sub != "TARGETS"@ ==> plan is Messages && plan->key == text::lowercase(params[1]) && plan->target == text::lowercase(
                params[1],
            )
            &&& sub == "BEFORE"@ && four && names_time(params[2], t) ==> plan->query == (HistoryQueryView::Latest {
                before: Some(t),
                limit,
            })
            &&& sub == "AFTER"@ && four && names_time(params[2], t) ==> plan->query == (HistoryQueryView::After { ts: t, limit })
            &&& sub == "LATEST"@ && four && params[2] == "*"@ ==> plan->query == (HistoryQueryView::Latest { before: None, limit })
            &&& sub == "LATEST"@ && four && params[2] != "*"@ && names_time(params[2], t) ==> plan->query
                == (HistoryQueryView::After { ts: t, limit })
            &&& sub == "BETWEEN"@ && params.len() >= 5 && text::number_spec(params[4], usize::MAX as nat) == Some(n)
                && names_time(params[2], t) && names_time(params[3], u) ==> plan->query == (HistoryQueryView::Between {
                start: t,
                end: u,
                limit,
            })
        }),
{
    reveal_strlit("BEFORE");
    reveal_strlit("AFTER");
    reveal_strlit("LATEST");
    reveal_strlit("BETWEEN");
    reveal_strlit("TARGETS");
    assert("BEFORE"@.len() == 6 && "AFTER"@.len() == 5 && "LATEST"@.len() == 6 && "BETWEEN"@.len() == 7 && "TARGETS"@.len() == 7);
    assert("BEFORE"@[0] == 'B' && "LATEST"@[0] == 'L' && "BETWEEN"@[0] == 'B' && "TARGETS"@[0] == 'T');
    if names_time(params[2], t) {
        lemma_time(params[2], t, 0);
        lemma_time(params[2], t, u64::MAX);
    }
    if params.len() >= 4 && names_time(params[3], u) {
        lemma_time(params[3], u, u64::MAX);
    }
}

/// Where a time cannot be read, BEFORE is bounded by nothing, AFTER begins at the beginning; a number
/// that cannot be read is fifty.
pub proof fn law_unreadable_bounds_are_open(param: Seq<char>, d: u64)
    ensures
        time::rfc3339_seconds(
            match text::strip_prefix_spec(param, "timestamp="@) {
                Some(s) => s,
                None => param,
            },
        ) is None ==> history::time_or(param, d) == d,
        text::number_spec(param, usize::MAX as nat) is None ==> history::limit_of(param) == 50,
        history::limit_of(param) <= 500,
{
}

/// History is for those who take part: who is not in a channel gets nothing of it, a guest gets no
/// conversation, and an authenticated user only those of which their own DID is one half.
pub proof fn law_history_is_for_those_who_take_part(st: ServerStateView, c: ConnectionView, params: Seq<Seq<char>>)
    ensures
        history::history_plan(st, c, params) matches HistoryPlanView::Messages { key, .. } ==> (st.is_member(key, c.id) && key
            == text::lowercase(params[1])) || (c.authenticated_did matches Some(mine) && exists|theirs: Seq<char>| key
            == #[trigger] db::dm_key(mine, theirs) && (params[1] == theirs || containers::map_get(
            st.nick_owners,
            text::lowercase(params[1]),
        ) == Some(theirs))),
        history::history_plan(st, c, params) matches HistoryPlanView::Targets { did, .. } ==> c.authenticated_did == Some(did),
        params.len() < 3 ==> history::history_plan(st, c, params) is Refuse,
{
    if params.len() >= 3 {
        let plan = history::history_plan(st, c, params);
        if plan is Messages && !(params[1].len() > 0 && (params[1][0] == '#' || params[1][0] == '&')) {
            let mine = c.authenticated_did->0;
            let theirs = history::target_did(st, params[1])->0;
            assert(plan->key == db::dm_key(mine, theirs));
        }
    }
}

/// An authenticated user who asks for the history with a nick that has an owner, or with a DID, gets
/// the conversation with that DID.
pub proof fn law_conversations_can_be_read(
    st: ServerStateView,
    c: ConnectionView,
    params: Seq<Seq<char>>,
    mine: Seq<char>,
    theirs: Seq<char>,
)
    requires
        params.len() >= 3,
        text::uppercase(params[0]) != "TARGETS"@,
        !(params[1].len() > 0 && (params[1][0] == '#' || params[1][0] == '&')),
        c.authenticated_did == Some(mine),
        (text::has_prefix(params[1], "did:"@) && theirs == params[1]) || (!text::has_prefix(params[1], "did:"@) && containers::map_get(
            st.nick_owners,
            text::lowercase(params[1]),
        ) == Some(theirs)),
    ensures
        history::history_plan(st, c, params) matches HistoryPlanView::Messages { key, target, .. } && key == db::dm_key(mine, theirs)
            && target == params[1],
{
}

/// TARGETS lists the conversations of the user between the two times, fifty where no number is
/// given.
pub proof fn law_targets_are_those_of_the_user(
    st: ServerStateView,
    c: ConnectionView,
    params: Seq<Seq<char>>,
    did: Seq<char>,
    t: u64,
    u: u64,
)
    requires
        params.len() >= 3,
        text::uppercase(params[0]) == "TARGETS"@,
        c.authenticated_did == Some(did),
        names_time(params[1], t),
        names_time(params[2], u),
    ensures
        history::history_plan(st, c, params) matches HistoryPlanView::Targets { did: d, from_ts, to_ts, limit } && {
            &&& d == did
            &&& from_ts == t
            &&& to_ts == u
            &&& params.len() == 3 ==> limit == 50
            &&& params.len() > 3 ==> limit == history::limit_of(params[3])
        },
{
    lemma_time(params[1], t, 0);
    lemma_time(params[2], u, u64::MAX);
}

/// What a session is sent of a stored message: the text alone where it does not understand tags, else
/// the tags with which it was stored, its ID, what it replaces, and the time and the batch where the
/// session wants them.
pub open spec fn shows_row(
    st: ServerStateView,
    session: Seq<char>,
    target: Seq<char>,
    batch: Seq<char>,
    row: MessageRowView,
    line: Seq<char>,
) -> bool {
    if !st.cap_message_tags.contains(session) {
        line == ":"@ + row.sender + " PRIVMSG "@ + target + " :"@ + row.text + "\r\n"@
    } else {
        exists|tags: Seq<(Seq<char>, Seq<char>)>|
            {
                &&& #[trigger] row_tags(st, session, batch, row, tags)
                &&& line == (if tags.len() > 0 {
                    irc::wire(
                        MessageView { tags, prefix: Some(row.sender), command: "PRIVMSG"@, params: seq![target, row.text] },
                    )
                } else {
                    ":"@ + row.sender + " PRIVMSG "@ + target + " :"@ + row.text + "\r\n"@
                })
            }
    }
}

/// The tags of a stored message, as a session gets them.
pub open spec fn row_tags(
    st: ServerStateView,
    session: Seq<char>,
    batch: Seq<char>,
    row: MessageRowView,
    tags: Seq<(Seq<char>, Seq<char>)>,
) -> bool {
    &&& row.msgid is Some ==> containers::map_get(tags, "msgid"@) == row.msgid
    &&& row.replaces_msgid is Some ==> containers::map_get(tags, "+draft/edit"@) == (match containers::map_get(row.tags, "+draft/edit"@) {
        Some(e) => Some(e),
        None => row.replaces_msgid,
    })
    &&& st.cap_server_time.contains(session) ==> containers::map_get(tags, "time"@) == Some(
        time::utc_text(row.timestamp, "%Y-%m-%dT%H:%M:%S.000Z"@),
    )
    &&& st.cap_batch.contains(session) ==> containers::map_get(tags, "batch"@) == Some(batch)
    &&& forall|k: Seq<char>|
        k != "msgid"@ && k != "+draft/edit"@ && k != "time"@ && k != "batch"@ ==> #[trigger] containers::map_get(tags, k)
            == containers::map_get(row.tags, k)
}

/// Stored messages are shown one by one in their order, and to nobody but who asked, between the two
/// lines of a batch where the session wants one.
pub proof fn law_stored_messages_are_shown_in_order(
    st: ServerStateView,
    session: Seq<char>,
    target: Seq<char>,
    batch: Seq<char>,
    rows: Seq<MessageRowView>,
    i: int,
)
    requires
        0 <= i < rows.len(),
    ensures
        ({
            let fx = history::messages_fx(st, session, target, batch, rows);
            let at = if st.cap_batch.contains(session) {
                1int
            } else {
                0int
            };
            &&& fx.len() == rows.len() + 2 * at
            &&& fx[i + at] matches EffectView::Send { to, line } && to == session && shows_row(
                st,
                session,
                target,
                batch,
                rows[i],
                line,
            )
            &&& at == 1 ==> fx[0] == (EffectView::Send {
                to: session,
                line: ":"@ + st.server_name + " BATCH +"@ + batch + " "@ + ("chathistory "@ + target) + "\r\n"@,
            }) && fx[fx.len() - 1] == (EffectView::Send {
                to: session,
                line: ":"@ + st.server_name + " BATCH -"@ + batch + "\r\n"@,
            })
        }),
{
    let row = rows[i];
    let has_tags = st.cap_message_tags.contains(session);
    let tags = join::replay_tags(
        row.tags,
        row.msgid,
        row.replaces_msgid,
        row.timestamp,
        has_tags,
        st.cap_server_time.contains(session),
        st.cap_batch.contains(session),
        batch,
    );
    let all = rows.map_values(|r: MessageRowView| history::row_fx(st, session, target, batch, r));
    assert(all[i] == history::row_fx(st, session, target, batch, row));
    let at = if st.cap_batch.contains(session) {
        1int
    } else {
        0int
    };
    assert(history::messages_fx(st, session, target, batch, rows)[i + at] == all[i]);
    reveal_strlit("msgid");
    reveal_strlit("+draft/edit");
    reveal_strlit("time");
    reveal_strlit("batch");
    assert("msgid"@.len() == 5 && "+draft/edit"@.len() == 11 && "time"@.len() == 4 && "batch"@.len() == 5);
    assert("msgid"@[0] == 'm' && "batch"@[0] == 'b');
    if has_tags {
        let t1 = if row.msgid is Some {
            containers::map_put(row.tags, "msgid"@, row.msgid->0)
        } else {
            row.tags
        };
        assert(containers::map_get(t1, "+draft/edit"@) == containers::map_get(row.tags, "+draft/edit"@));
        assert(containers::map_has(t1, "+draft/edit"@) == (containers::map_get(t1, "+draft/edit"@) is Some));
        assert(row_tags(st, session, batch, row, tags));
    }
}

/// A conversation is listed exactly where its latest message lies between the two times and its key
/// names the other side, by the nick of the other side where that is known.
pub proof fn law_targets_are_listed(
    st: ServerStateView,
    session: Seq<char>,
    did: Seq<char>,
    from_ts: u64,
    to_ts: u64,
    batch: Seq<char>,
    conv: ConversationView,
    other: Seq<char>,
)
    requires
        conv.key == db::dm_key(did, other),
        !did.contains(','),
        !other.contains(','),
    ensures
        ({
            let fx = history::target_fx(st, session, did, from_ts, to_ts, batch, conv);
            let shown = match containers::map_get(st.did_nicks, other) {
                Some(nick) => nick,
                None => other,
            };
            &&& from_ts <= conv.last_ts <= to_ts ==> told::one_reply(fx, session)
            &&& !(from_ts <= conv.last_ts <= to_ts) ==> fx.len() == 0
            &&& from_ts <= conv.last_ts <= to_ts && !st.cap_batch.contains(session) && !st.cap_server_time.contains(session) ==> fx
                == seq![
                EffectView::Send {
                    to: session,
                    line: ":"@ + st.server_name + " CHATHISTORY TARGETS "@ + shown + "\r\n"@,
                },
            ]
        }),
{
    history::law_partner_of_key(did, other);
    let t0: Seq<(Seq<char>, Seq<char>)> = Seq::empty();
    assert(t0.len() == 0);
}

/// The list of conversations is that of each, one after the other.
pub proof fn law_target_lists_add_up(
    st: ServerStateView,
    session: Seq<char>,
    did: Seq<char>,
    from_ts: u64,
    to_ts: u64,
    batch: Seq<char>,
    convs: Seq<ConversationView>,
    conv: ConversationView,
)
    ensures
        history::target_list_fx(st, session, did, from_ts, to_ts, batch, convs.push(conv)) == history::target_list_fx(
            st,
            session,
            did,
            from_ts,
            to_ts,
            batch,
            convs,
        ) + history::target_fx(st, session, did, from_ts, to_ts, batch, conv),
        history::target_list_fx(st, session, did, from_ts, to_ts, batch, Seq::empty()).len() == 0,
{
    assert(convs.push(conv).drop_last() =~= convs);
}

// ── Capabilities and names ──────────────────────────────────────────

/// CAP LS, in whichever case, offers what there is, and registration waits from then on.
pub proof fn law_capabilities_are_offered(st: ServerStateView, c: ConnectionView, params: Seq<Seq<char>>, guest: u32, now: u64)
    requires
        params.len() > 0,
        text::ascii_upper(params[0]) == "LS"@,
    ensures
        ({
            let (after, conn, fx) = cap::cap_spec(st, c, params, guest, now);
            let all = "sasl message-tags multi-prefix echo-message server-time batch draft/chathistory account-notify extended-join away-notify"@;
            let offered = match st.iroh_id {
                Some(id) => all + " iroh="@ + id,
                None => all,
            };
            &&& after == st
            &&& conn == (ConnectionView { cap_negotiating: true, ..c })
            &&& fx == seq![reply(c.id, st.server_name, "CAP"@, seq![c.nick_or_star(), "LS"@, offered])]
        }),
{
}

/// CAP END ends the negotiation and lets the registration go on.
pub proof fn law_negotiation_ends(st: ServerStateView, c: ConnectionView, params: Seq<Seq<char>>, guest: u32, now: u64)
    requires
        params.len() > 0,
        text::ascii_upper(params[0]) == "END"@,
    ensures
        cap::cap_spec(st, c, params, guest, now) == registration::registration_spec(
            st,
            ConnectionView { cap_negotiating: false, ..c },
            guest,
            now,
        ),
{
    reveal_strlit("END");
    reveal_strlit("LS");
    reveal_strlit("REQ");
    assert("END"@.len() == 3 && "LS"@.len() == 2 && "END"@[0] == 'E' && "REQ"@[0] == 'R');
}

/// The capabilities that a client can have.
pub open spec fn can_be_had(name: Seq<char>) -> bool {
    name == "sasl"@ || name == "message-tags"@ || name == "multi-prefix"@ || name == "echo-message"@ || name == "server-time"@ || name
        == "batch"@ || name == "draft/chathistory"@ || name == "account-notify"@ || name == "extended-join"@ || name
        == "away-notify"@
}

/// Whether a name is in a list, whatever its case.
pub open spec fn is_named(names: Seq<Seq<char>>, name: Seq<char>) -> bool {
    exists|i: int| 0 <= i < names.len() && text::ascii_lower(#[trigger] names[i]) == name
}

proof fn lemma_named(names: Seq<Seq<char>>, name: Seq<char>)
    requires
        names.len() > 0,
    ensures
        is_named(names, name) <==> is_named(names.drop_last(), name) || text::ascii_lower(names.last()) == name,
{
    let t = names.drop_last();
    if is_named(names, name) {
        let i = choose|i: int| 0 <= i < names.len() && text::ascii_lower(#[trigger] names[i]) == name;
        if i < t.len() {
            assert(t[i] == names[i]);
        }
    }
    if is_named(t, name) {
        let i = choose|i: int| 0 <= i < t.len() && text::ascii_lower(#[trigger] t[i]) == name;
        assert(names[i] == t[i]);
    }
    assert(names[names.len() - 1] == names.last());
}

/// What the server and the connection know after capabilities were granted: exactly those that were
/// named, for this session, and those that were there before.
pub open spec fn granted(
    st: ServerStateView,
    c: ConnectionView,
    names: Seq<Seq<char>>,
    after: ServerStateView,
    conn: ConnectionView,
    s: Seq<char>,
    name: Seq<char>,
) -> bool {
    &&& conn == (ConnectionView { caps: conn.caps, ..c })
    &&& after == (ServerStateView {
        cap_message_tags: after.cap_message_tags,
        cap_multi_prefix: after.cap_multi_prefix,
        cap_echo_message: after.cap_echo_message,
        cap_server_time: after.cap_server_time,
        cap_batch: after.cap_batch,
        cap_account_notify: after.cap_account_notify,
        cap_extended_join: after.cap_extended_join,
        cap_away_notify: after.cap_away_notify,
        ..st
    })
    &&& conn.caps.contains(name) <==> c.caps.contains(name) || (can_be_had(name) && is_named(names, name))
    &&& after.cap_message_tags.contains(s) <==> st.cap_message_tags.contains(s) || (s == c.id && is_named(names, "message-tags"@))
    &&& after.cap_multi_prefix.contains(s) <==> st.cap_multi_prefix.contains(s) || (s == c.id && is_named(names, "multi-prefix"@))
    &&& after.cap_echo_message.contains(s) <==> st.cap_echo_message.contains(s) || (s == c.id && is_named(names, "echo-message"@))
    &&& after.cap_server_time.contains(s) <==> st.cap_server_time.contains(s) || (s == c.id && is_named(names, "server-time"@))
    &&& after.cap_batch.contains(s) <==> st.cap_batch.contains(s) || (s == c.id && is_named(names, "batch"@))
    &&& after.cap_account_notify.contains(s) <==> st.cap_account_notify.contains(s) || (s == c.id && is_named(
        names,
        "account-notify"@,
    ))
    &&& after.cap_extended_join.contains(s) <==> st.cap_extended_join.contains(s) || (s == c.id && is_named(names, "extended-join"@))
    &&& after.cap_away_notify.contains(s) <==> st.cap_away_notify.contains(s) || (s == c.id && is_named(names, "away-notify"@))
}

proof fn lemma_granted(st: ServerStateView, c: ConnectionView, names: Seq<Seq<char>>, s: Seq<char>, name: Seq<char>)
    ensures
        granted(st, c, names, cap::caps_granted(st, c, names).0, cap::caps_granted(st, c, names).1, s, name),
    decreases names.len(),
{
    if names.len() > 0 {
        lemma_granted(st, c, names.drop_last(), s, name);
        lemma_named(names, name);
        lemma_named(names, "message-tags"@);
        lemma_named(names, "multi-prefix"@);
        lemma_named(names, "echo-message"@);
        lemma_named(names, "server-time"@);
        lemma_named(names, "batch"@);
        lemma_named(names, "account-notify"@);
        lemma_named(names, "extended-join"@);
        lemma_named(names, "away-notify"@);
    }
}

proof fn lemma_known(names: Seq<Seq<char>>)
    ensures
        cap::known_caps(names).len() <= names.len(),
        cap::known_caps(names).len() == names.len() <==> forall|i: int|
            0 <= i < names.len() ==> can_be_had(text::ascii_lower(#[trigger] names[i])),
    decreases names.len(),
{
    if names.len() > 0 {
        let t = names.drop_last();
        lemma_known(t);
        assert forall|i: int| 0 <= i < t.len() implies #[trigger] t[i] == names[i] by {}
        assert(names[names.len() - 1] == names.last());
        if forall|i: int| 0 <= i < t.len() ==> can_be_had(text::ascii_lower(#[trigger] t[i])) {
            if can_be_had(text::ascii_lower(names.last())) {
                assert forall|i: int| 0 <= i < names.len() implies can_be_had(text::ascii_lower(#[trigger] names[i])) by {
                    if i < t.len() {
                        assert(can_be_had(text::ascii_lower(t[i])));
                    }
                }
            }
        } else {
            let i = choose|i: int| 0 <= i < t.len() && !can_be_had(text::ascii_lower(#[trigger] t[i]));
            assert(!can_be_had(text::ascii_lower(names[i])));
        }
    }
}

/// CAP REQ grants all that was asked for, where there is anything and all of it can be had, to the
/// session that asks and to no other; else it grants nothing.
pub proof fn law_capabilities_are_granted(
    st: ServerStateView,
    c: ConnectionView,
    params: Seq<Seq<char>>,
    guest: u32,
    now: u64,
    s: Seq<char>,
    name: Seq<char>,
)
    requires
        params.len() > 1,
        text::ascii_upper(params[0]) == "REQ"@,
    ensures
        ({
            let (after, conn, fx) = cap::cap_spec(st, c, params, guest, now);
            let names = text::words_spec(params[1]);
            let all = names.len() > 0 && forall|i: int|
                0 <= i < names.len() ==> can_be_had(text::ascii_lower(#[trigger] names[i]));
            &&& all ==> granted(st, c, names, after, conn, s, name)
            &&& !all ==> after == st && conn == c && fx == seq![
                reply(c.id, st.server_name, "CAP"@, seq![c.nick_or_star(), "NAK"@, params[1]]),
            ]
            &&& told::one_reply(fx, c.id)
        }),
{
    reveal_strlit("LS");
    reveal_strlit("REQ");
    assert("REQ"@.len() == 3 && "LS"@.len() == 2);
    lemma_known(text::words_spec(params[1]));
    lemma_granted(st, c, text::words_spec(params[1]), s, name);
}

/// The host of a user is made of the method of their DID and the first eight bytes of what follows;
/// all guests have one host.
pub proof fn law_hosts_are_cloaked(method: Seq<char>, id: Seq<char>)
    requires
        !method.contains(':'),
    ensures
        super::cloak(Some("did:"@ + method + ":"@ + id)) == "freeq/"@ + method + "/"@ + text::byte_prefix(id, 8),
        super::cloak(None) == "freeq/guest"@,
{
    let d = "did:"@ + method + ":"@ + id;
    reveal_strlit(":");
    assert(d.subrange(0, "did:"@.len() as int) =~= "did:"@);
    let rest = d.subrange("did:"@.len() as int, d.len() as int);
    assert(rest =~= method + seq![':'] + id);
    crate::text_laws::law_texts_are_parted_at_the_first_sign(method, ':', id);
}

/// The name under which a user is seen is the nick, the user and the cloaked host.
pub proof fn law_hostmask_names_the_user(c: ConnectionView)
    ensures
        c.nick is Some && c.user is Some ==> c.hostmask() == c.nick->0 + "!"@ + c.user->0 + "@"@ + super::cloak(c.authenticated_did),
        c.nick is Some ==> c.nick_or_star() == c.nick->0,
        c.nick is None ==> c.nick_or_star() == "*"@,
{
}

/// What is resolved of a user is kept for their session, and the plugins are told.
pub proof fn law_handles_are_kept(
    st: ServerStateView,
    did: Seq<char>,
    session: Seq<char>,
    nick: Seq<char>,
    names: Seq<Seq<char>>,
    other: Seq<char>,
)
    ensures
        ({
            let (after, fx) = cap::handle_spec(st, did, session, nick, names);
            let handle = cap::first_handle(names);
            &&& after == (ServerStateView { session_handles: after.session_handles, ..st })
            &&& handle is Some ==> containers::map_get(after.session_handles, session) == handle
            &&& handle is None || other != session ==> containers::map_get(after.session_handles, other) == containers::map_get(
                st.session_handles,
                other,
            )
            &&& fx == seq![EffectView::Plugin(PluginEventView::Auth { nick, did, handle, session_id: session })]
        }),
{
}

/// A plugin that overrides who a session is changes that of this session alone.
pub proof fn law_overrides_hold_for_one_session(
    st: ServerStateView,
    session: Seq<char>,
    did: Option<Seq<char>>,
    handle: Option<Seq<char>>,
    other: Seq<char>,
)
    ensures
        ({
            let after = cap::override_spec(st, session, did, handle);
            &&& after == (ServerStateView { session_dids: after.session_dids, session_handles: after.session_handles, ..st })
            &&& did is Some ==> containers::map_get(after.session_dids, session) == did
            &&& handle is Some ==> containers::map_get(after.session_handles, session) == handle
            &&& did is None || other != session ==> containers::map_get(after.session_dids, other) == containers::map_get(
                st.session_dids,
                other,
            )
            &&& handle is None || other != session ==> containers::map_get(after.session_handles, other) == containers::map_get(
                st.session_handles,
                other,
            )
        }),
{
}

proof fn lemma_joined_names(chs: Seq<(Seq<char>, ChannelStateView)>, session: Seq<char>, lower: Seq<char>)
    ensures
        registration::joined_names(chs, session).contains(lower) <==> exists|i: int|
            0 <= i < chs.len() && (#[trigger] chs[i]).1.members.contains(session) && text::lowercase(chs[i].0) == lower,
    decreases chs.len(),
{
    if chs.len() > 0 {
        let t = chs.drop_last();
        lemma_joined_names(t, session, lower);
        if exists|i: int|
            0 <= i < chs.len() && (#[trigger] chs[i]).1.members.contains(session) && text::lowercase(chs[i].0) == lower {
            let i = choose|i: int|
                0 <= i < chs.len() && (#[trigger] chs[i]).1.members.contains(session) && text::lowercase(chs[i].0) == lower;
            if i < t.len() {
                assert(t[i] == chs[i]);
            }
        }
        if exists|i: int| 0 <= i < t.len() && (#[trigger] t[i]).1.members.contains(session) && text::lowercase(t[i].0) == lower {
            let i = choose|i: int|
                0 <= i < t.len() && (#[trigger] t[i]).1.members.contains(session) && text::lowercase(t[i].0) == lower;
            assert(chs[i] == t[i]);
        }
        assert(chs[chs.len() - 1] == chs.last());
    }
}

/// A user who signs in joins again the channels that they had, but for those in which the session is
/// already.
pub proof fn law_channels_are_joined_again(st: ServerStateView, session: Seq<char>, saved: Seq<Seq<char>>, name: Seq<char>)
    ensures
        registration::rejoin_spec(st, session, saved).contains(name) <==> saved.contains(name) && !(exists|i: int|
            0 <= i < st.channels.len() && (#[trigger] st.channels[i]).1.members.contains(session) && text::lowercase(st.channels[i].0)
                == text::lowercase(name)),
{
    lemma_joined_names(st.channels, session, text::lowercase(name));
    lemma_rejoin(st, session, saved, name);
}

proof fn lemma_rejoin(st: ServerStateView, session: Seq<char>, saved: Seq<Seq<char>>, name: Seq<char>)
    ensures
        registration::rejoin_spec(st, session, saved).contains(name) <==> saved.contains(name) && !registration::joined_names(
            st.channels,
            session,
        ).contains(text::lowercase(name)),
    decreases saved.len(),
{
    reveal(Seq::filter);
    if saved.len() > 0 {
        lemma_rejoin(st, session, saved.drop_last(), name);
        assert(saved =~= saved.drop_last().push(saved.last()));
    }
}

/// The first session of a user holds the nick that it chose, if nobody has it; with underscores at
/// its end, and the nick without them free, it gets that one.
pub proof fn law_first_session_gets_its_nick(st: ServerStateView, c: ConnectionView, n: Seq<char>)
    requires
        c.nick == Some(n),
        containers::map_get(st.nick_session, text::lowercase(n)) is None,
    ensures
        ({
            let (after, conn) = registration::first_session_spec(st, c);
            let short = text::trim_end_char_spec(n, '_');
            let free = containers::map_get(st.nick_session, text::lowercase(short)) is None && text::lowercase(short)
                != text::lowercase(n);
            &&& n.len() > 0 && n.last() == '_' && free ==> conn == (ConnectionView { nick: Some(short), ..c }) && containers::map_get(
                after.nick_session,
                text::lowercase(short),
            ) == Some(c.id) && containers::map_get(after.session_nick, c.id) == Some(short) && containers::map_get(
                after.nick_session,
                text::lowercase(n),
            ) is None
            &&& n.len() == 0 || n.last() != '_' || containers::map_get(st.nick_session, text::lowercase(short)) is Some ==> conn == c
                && containers::map_get(after.nick_session, text::lowercase(n)) == Some(c.id) && containers::map_get(
                after.session_nick,
                c.id,
            ) == Some(n)
        }),
{
    reveal(ServerStateView::nick_set);
    reveal(ServerStateView::nick_freed);
}

// ── History at JOIN ─────────────────────────────────────────────────

/// What a channel remembers is shown to who enters as a stored message is: from whom it was, with its
/// text, its ID and its tags, and with its time and the batch where they are wanted.
pub proof fn law_remembered_messages_are_shown(
    st: ServerStateView,
    session: Seq<char>,
    channel: Seq<char>,
    batch: Seq<char>,
    h: HistoryMessageView,
)
    ensures
        ({
            let row = MessageRowView {
                id: 0,
                channel,
                sender: h.from,
                text: h.text,
                timestamp: h.timestamp,
                tags: h.tags,
                msgid: h.msgid,
                replaces_msgid: None,
                deleted_at: None,
                sender_did: None,
            };
            join::history_fx(st, session, channel, batch, h) matches EffectView::Send { to, line } && to == session && shows_row(
                st,
                session,
                channel,
                batch,
                row,
                line,
            )
        }),
{
    let row = MessageRowView {
        id: 0,
        channel,
        sender: h.from,
        text: h.text,
        timestamp: h.timestamp,
        tags: h.tags,
        msgid: h.msgid,
        replaces_msgid: None,
        deleted_at: None,
        sender_did: None,
    };
    let rows = seq![row];
    law_stored_messages_are_shown_in_order(st, session, channel, batch, rows, 0);
    assert(rows[0] == row);
    assert(rows.map_values(|r: MessageRowView| history::row_fx(st, session, channel, batch, r))[0] == history::row_fx(
        st,
        session,
        channel,
        batch,
        row,
    ));
    assert(history::row_fx(st, session, channel, batch, row) == join::history_fx(st, session, channel, batch, h));
}

} // verus!
