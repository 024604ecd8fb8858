//! CHATHISTORY: what is asked for, and how it is shown.
//!
//! A request is first turned into a [`HistoryPlan`]; once the stored messages are there,
//! [`push_messages`] and [`push_targets`] send them.
use super::helpers;
use super::helpers::push_send;
use super::join;
use super::join::{line_for_replay, push_batch_end, push_batch_start, tags_for_replay};
use super::messaging;
use super::{Connection, ConnectionView};
use crate::containers;
use crate::containers::StrMap;
use crate::db;
use crate::db::{canonical_dm_key, MessageRow, MessageRowView};
use crate::irc;
use crate::irc::{Message, MessageView};
use crate::server::{Effect, EffectView, ServerState, ServerStateView};
use crate::text;
use crate::text::{parse_number, starts_with_str, str_eq, strip_prefix, to_lowercase, to_uppercase, Line};
use crate::time;
use crate::time::{format_time_tag, parse_rfc3339};
use vstd::prelude::*;

verus! {

broadcast use vstd::string::group_string_axioms;

/// The mathematical content of a [`HistoryQuery`].
pub enum HistoryQueryView {
    Nothing,
    Latest { before: Option<u64>, limit: u64 },
    After { ts: u64, limit: u64 },
    Between { start: u64, end: u64, limit: u64 },
}

/// Which stored messages are asked for.
pub enum HistoryQuery {
    /// None.
    Nothing,
    /// The newest, up to a time if one is given.
    Latest { before: Option<u64>, limit: u64 },
    /// The oldest after a time.
    After { ts: u64, limit: u64 },
    /// Those between two times.
    Between { start: u64, end: u64, limit: u64 },
}

impl DeepView for HistoryQuery {
    type V = HistoryQueryView;

    open spec fn deep_view(&self) -> HistoryQueryView {
        match self {
            HistoryQuery::Nothing => HistoryQueryView::Nothing,
            HistoryQuery::Latest { before, limit } => HistoryQueryView::Latest {
                before: before.deep_view(),
                limit: limit.deep_view(),
            },
            HistoryQuery::After { ts, limit } => HistoryQueryView::After {
                ts: ts.deep_view(),
                limit: limit.deep_view(),
            },
            HistoryQuery::Between { start, end, limit } => HistoryQueryView::Between {
                start: start.deep_view(),
                end: end.deep_view(),
                limit: limit.deep_view(),
            },
        }
    }
}

/// The mathematical content of a [`HistoryPlan`].
pub enum HistoryPlanView {
    Refuse { params: Seq<Seq<char>> },
    Messages { key: Seq<char>, target: Seq<char>, query: HistoryQueryView },
    Targets { did: Seq<char>, from_ts: u64, to_ts: u64, limit: u64 },
}

/// What CHATHISTORY comes to.
pub enum HistoryPlan {
    /// A FAIL reply with these parameters.
    Refuse { params: Vec<String> },
    /// Messages stored under a key, shown as those of a target.
    Messages { key: String, target: String, query: HistoryQuery },
    /// The conversations of a DID with the latest message in a span of time.
    Targets { did: String, from_ts: u64, to_ts: u64, limit: u64 },
}

impl DeepView for HistoryPlan {
    type V = HistoryPlanView;

    open spec fn deep_view(&self) -> HistoryPlanView {
        match self {
            HistoryPlan::Refuse { params } => HistoryPlanView::Refuse {
                params: params.deep_view(),
            },
            HistoryPlan::Messages { key, target, query } => HistoryPlanView::Messages {
                key: key.deep_view(),
                target: target.deep_view(),
                query: query.deep_view(),
            },
            HistoryPlan::Targets { did, from_ts, to_ts, limit } => HistoryPlanView::Targets {
                did: did.deep_view(),
                from_ts: from_ts.deep_view(),
                to_ts: to_ts.deep_view(),
                limit: limit.deep_view(),
            },
        }
    }
}

/// The mathematical content of a [`Conversation`].
pub struct ConversationView {
    pub key: Seq<char>,
    pub last_ts: u64,
}

/// A stored conversation and the time of its latest message.
pub struct Conversation {
    pub key: String,
    pub last_ts: u64,
}

impl DeepView for Conversation {
    type V = ConversationView;

    open spec fn deep_view(&self) -> ConversationView {
        ConversationView {
            key: self.key.deep_view(),
            last_ts: self.last_ts.deep_view(),
        }
    }
}

/// How many messages one request gives at most.
pub const MAX_HISTORY_LIMIT: u64 = 500;

/// How many messages a request gives that names no number.
pub const DEFAULT_HISTORY_LIMIT: u64 = 50;

// ── The request ─────────────────────────────────────────────────────

/// The Unix time of a `timestamp=` parameter.
pub open spec fn timestamp_param(s: Seq<char>) -> Option<u64> {
    match time::rfc3339_seconds(text::or_default(text::strip_prefix_spec(s, "timestamp="@), s)) {
        Some(t) => Some(t as u64),
        None => None,
    }
}

/// The time of a parameter, or a default.
pub open spec fn time_or(s: Seq<char>, d: u64) -> u64 {
    match timestamp_param(s) {
        Some(t) => t,
        None => d,
    }
}

/// The limit of a parameter.
pub open spec fn limit_of(s: Seq<char>) -> u64 {
    match text::number_spec(s, usize::MAX as nat) {
        Some(n) => if n < MAX_HISTORY_LIMIT {
            n as u64
        } else {
            MAX_HISTORY_LIMIT
        },
        None => DEFAULT_HISTORY_LIMIT,
    }
}

/// The query of a subcommand with its parameters; too few of them ask for nothing.
pub open spec fn history_query(subcmd: Seq<char>, params: Seq<Seq<char>>) -> HistoryQueryView {
    if subcmd == "BEFORE"@ && params.len() >= 4 {
        HistoryQueryView::Latest {
            before: Some(time_or(params[2], u64::MAX)),
            limit: limit_of(params[3]),
        }
    } else if subcmd == "AFTER"@ && params.len() >= 4 {
        HistoryQueryView::After { ts: time_or(params[2], 0), limit: limit_of(params[3]) }
    } else if subcmd == "LATEST"@ && params.len() >= 4 {
        if params[2] == "*"@ {
            HistoryQueryView::Latest { before: None, limit: limit_of(params[3]) }
        } else {
            HistoryQueryView::After { ts: time_or(params[2], 0), limit: limit_of(params[3]) }
        }
    } else if subcmd == "BETWEEN"@ && params.len() >= 5 {
        HistoryQueryView::Between {
            start: time_or(params[2], 0),
            end: time_or(params[3], u64::MAX),
            limit: limit_of(params[4]),
        }
    } else {
        HistoryQueryView::Nothing
    }
}

/// The plan for the conversations of a user.
pub open spec fn targets_plan(c: ConnectionView, params: Seq<Seq<char>>) -> HistoryPlanView {
    match c.authenticated_did {
        None => HistoryPlanView::Refuse {
            params: seq![
                "CHATHISTORY"@,
                "ACCOUNT_REQUIRED"@,
                "*"@,
                "You must be authenticated to list DM targets"@,
            ],
        },
        Some(did) => HistoryPlanView::Targets {
            did,
            from_ts: time_or(params[1], 0),
            to_ts: time_or(params[2], u64::MAX),
            limit: if params.len() > 3 {
                limit_of(params[3])
            } else {
                DEFAULT_HISTORY_LIMIT
            },
        },
    }
}

/// The DID behind a target that is no channel: itself, or the owner of the nick.
pub open spec fn target_did(st: ServerStateView, target: Seq<char>) -> Option<Seq<char>> {
    if text::has_prefix(target, "did:"@) {
        Some(target)
    } else {
        containers::map_get(st.nick_owners, text::lowercase(target))
    }
}

/// The plan for a channel: only its members may read its history.
pub open spec fn channel_plan(
    st: ServerStateView,
    c: ConnectionView,
    target: Seq<char>,
    query: HistoryQueryView,
) -> HistoryPlanView {
    match st.channel(target) {
        None => HistoryPlanView::Refuse {
            params: seq!["CHATHISTORY"@, "INVALID_TARGET"@, target, "No such channel"@],
        },
        Some(ch) => if !ch.members.contains(c.id) {
            HistoryPlanView::Refuse {
                params: seq![
                    "CHATHISTORY"@,
                    "INVALID_TARGET"@,
                    target,
                    "You are not in that channel"@,
                ],
            }
        } else {
            HistoryPlanView::Messages { key: target, target, query }
        },
    }
}

/// The plan for a conversation: only for authenticated users, with someone who has a DID.
pub open spec fn conversation_plan(
    st: ServerStateView,
    c: ConnectionView,
    target: Seq<char>,
    query: HistoryQueryView,
) -> HistoryPlanView {
    match c.authenticated_did {
        None => HistoryPlanView::Refuse {
            params: seq![
                "CHATHISTORY"@,
                "ACCOUNT_REQUIRED"@,
                target,
                "You must be authenticated to access DM history"@,
            ],
        },
        Some(mine) => match target_did(st, target) {
            None => HistoryPlanView::Refuse {
                params: seq!["CHATHISTORY"@, "INVALID_TARGET"@, target, "Unknown target"@],
            },
            Some(theirs) => HistoryPlanView::Messages {
                key: db::dm_key(mine, theirs),
                target,
                query,
            },
        },
    }
}

/// What `CHATHISTORY <subcommand> <target> [<param1> [<param2>]] <limit>` comes to.
pub open spec fn history_plan(
    st: ServerStateView,
    c: ConnectionView,
    params: Seq<Seq<char>>,
) -> HistoryPlanView {
    if params.len() < 3 {
        HistoryPlanView::Refuse {
            params: seq!["CHATHISTORY"@, "NEED_MORE_PARAMS"@, "Insufficient parameters"@],
        }
    } else {
        let subcmd = text::uppercase(params[0]);
        let query = history_query(subcmd, params);
        if subcmd == "TARGETS"@ {
            targets_plan(c, params)
        } else if messaging::is_channel_name(params[1]) {
            channel_plan(st, c, crate::server::channel_key(params[1]), query)
        } else {
            conversation_plan(st, c, params[1], query)
        }
    }
}

/// The time of a parameter, or a default.
fn param_time_or(s: &str, d: u64) -> (r: u64)
    ensures
        r == time_or(s@, d),
{
    let rest = match strip_prefix(s, "timestamp=") {
        Some(t) => t,
        None => s.to_owned(),
    };
    match parse_rfc3339(rest.as_str()) {
        Some(t) => #[verifier::truncate] (t as u64),
        None => d,
    }
}

/// The limit of a parameter.
fn param_limit(s: &str) -> (r: u64)
    ensures
        r == limit_of(s@),
{
    match parse_number(s, usize::MAX as u64) {
        Some(n) => if n < MAX_HISTORY_LIMIT {
            n
        } else {
            MAX_HISTORY_LIMIT
        },
        None => DEFAULT_HISTORY_LIMIT,
    }
}

/// The query of a subcommand with its parameters.
fn make_query(subcmd: &str, params: &Vec<String>) -> (r: HistoryQuery)
    ensures
        r.deep_view() == history_query(subcmd@, params.deep_view()),
{
    if str_eq(subcmd, "BEFORE") && params.len() >= 4 {
        HistoryQuery::Latest {
            before: Some(param_time_or(params[2].as_str(), u64::MAX)),
            limit: param_limit(params[3].as_str()),
        }
    } else if str_eq(subcmd, "AFTER") && params.len() >= 4 {
        HistoryQuery::After {
            ts: param_time_or(params[2].as_str(), 0),
            limit: param_limit(params[3].as_str()),
        }
    } else if str_eq(subcmd, "LATEST") && params.len() >= 4 {
        if str_eq(params[2].as_str(), "*") {
            HistoryQuery::Latest { before: None, limit: param_limit(params[3].as_str()) }
        } else {
            HistoryQuery::After {
                ts: param_time_or(params[2].as_str(), 0),
                limit: param_limit(params[3].as_str()),
            }
        }
    } else if str_eq(subcmd, "BETWEEN") && params.len() >= 5 {
        HistoryQuery::Between {
            start: param_time_or(params[2].as_str(), 0),
            end: param_time_or(params[3].as_str(), u64::MAX),
            limit: param_limit(params[4].as_str()),
        }
    } else {
        HistoryQuery::Nothing
    }
}

/// A refusal with four parameters.
fn refuse4(code: &str, target: &str, reason: &str) -> (r: HistoryPlan)
    ensures
        r.deep_view() == (HistoryPlanView::Refuse {
            params: seq!["CHATHISTORY"@, code@, target@, reason@],
        }),
{
    let mut params: Vec<String> = Vec::new();
    params.push("CHATHISTORY".to_owned());
    params.push(code.to_owned());
    params.push(target.to_owned());
    params.push(reason.to_owned());
    assert(params.deep_view() =~= seq!["CHATHISTORY"@, code@, target@, reason@]);
    HistoryPlan::Refuse { params }
}

/// The plan for a channel.
fn plan_channel(
    conn: &Connection,
    target: String,
    query: HistoryQuery,
    state: &ServerState,
) -> (r: HistoryPlan)
    ensures
        r.deep_view() == channel_plan(
            state.deep_view(),
            conn.deep_view(),
            target@,
            query.deep_view(),
        ),
{
    match state.channels.get(target.as_str()) {
        None => refuse4("INVALID_TARGET", target.as_str(), "No such channel"),
        Some(ch) => if !ch.members.contains(conn.id.as_str()) {
            refuse4("INVALID_TARGET", target.as_str(), "You are not in that channel")
        } else {
            HistoryPlan::Messages { key: target.clone(), target, query }
        },
    }
}

/// The plan for a conversation.
fn plan_conversation(
    conn: &Connection,
    target: &str,
    query: HistoryQuery,
    state: &ServerState,
) -> (r: HistoryPlan)
    ensures
        r.deep_view() == conversation_plan(
            state.deep_view(),
            conn.deep_view(),
            target@,
            query.deep_view(),
        ),
{
    let mine = match &conn.authenticated_did {
        Some(d) => d,
        None => {
            return refuse4(
                "ACCOUNT_REQUIRED",
                target,
                "You must be authenticated to access DM history",
            );
        },
    };
    let theirs = if starts_with_str(target, "did:") {
        target.to_owned()
    } else {
        match state.nick_owners.get(to_lowercase(target).as_str()) {
            Some(d) => d.clone(),
            None => {
                return refuse4("INVALID_TARGET", target, "Unknown target");
            },
        }
    };
    HistoryPlan::Messages {
        key: canonical_dm_key(mine.as_str(), theirs.as_str()),
        target: target.to_owned(),
        query,
    }
}

/// The plan for the conversations of a user.
fn plan_targets(conn: &Connection, params: &Vec<String>) -> (r: HistoryPlan)
    requires
        params@.len() >= 3,
    ensures
        r.deep_view() == targets_plan(conn.deep_view(), params.deep_view()),
{
    match &conn.authenticated_did {
        None => refuse4(
            "ACCOUNT_REQUIRED",
            "*",
            "You must be authenticated to list DM targets",
        ),
        Some(did) => HistoryPlan::Targets {
            did: did.clone(),
            from_ts: param_time_or(params[1].as_str(), 0),
            to_ts: param_time_or(params[2].as_str(), u64::MAX),
            limit: if params.len() > 3 {
                param_limit(params[3].as_str())
            } else {
                DEFAULT_HISTORY_LIMIT
            },
        },
    }
}

/// Handle CHATHISTORY command: works out what is asked for.
pub fn handle_chathistory(conn: &Connection, params: &Vec<String>, state: &ServerState) -> (r:
    HistoryPlan)
    ensures
        r.deep_view() == history_plan(state.deep_view(), conn.deep_view(), params.deep_view()),
{
    if params.len() < 3 {
        let mut fail: Vec<String> = Vec::new();
        fail.push("CHATHISTORY".to_owned());
        fail.push("NEED_MORE_PARAMS".to_owned());
        fail.push("Insufficient parameters".to_owned());
        assert(fail.deep_view() =~= seq![
            "CHATHISTORY"@,
            "NEED_MORE_PARAMS"@,
            "Insufficient parameters"@,
        ]);
        return HistoryPlan::Refuse { params: fail };
    }
    let subcmd = to_uppercase(params[0].as_str());
    if str_eq(subcmd.as_str(), "TARGETS") {
        return plan_targets(conn, params);
    }
    let query = make_query(subcmd.as_str(), params);
    let target = params[1].as_str();
    if messaging::is_channel(target) {
        plan_channel(conn, crate::server::normalize_channel(target), query, state)
    } else {
        plan_conversation(conn, target, query, state)
    }
}

// ── The answer ──────────────────────────────────────────────────────

/// One stored message, for one session.
pub open spec fn row_fx(
    st: ServerStateView,
    session: Seq<char>,
    target: Seq<char>,
    batch: Seq<char>,
    row: MessageRowView,
) -> EffectView {
    let has_tags = st.cap_message_tags.contains(session);
    helpers::send_fx(
        session,
        join::replay_line(
            join::replay_tags(
                row.tags,
                row.msgid,
                row.replaces_msgid,
                row.timestamp,
                has_tags,
                st.cap_server_time.contains(session),
                st.cap_batch.contains(session),
                batch,
            ),
            has_tags,
            row.sender,
            target,
            row.text,
        ),
    )
}

/// The stored messages as a session is shown them.
pub open spec fn messages_fx(
    st: ServerStateView,
    session: Seq<char>,
    target: Seq<char>,
    batch: Seq<char>,
    rows: Seq<MessageRowView>,
) -> Seq<EffectView> {
    join::batched(
        st,
        session,
        batch,
        "chathistory "@ + target,
        rows.map_values(|r: MessageRowView| row_fx(st, session, target, batch, r)),
    )
}

/// The other side of a conversation, from its key.
pub open spec fn partner(key: Seq<char>, did: Seq<char>) -> Option<Seq<char>> {
    match text::strip_prefix_spec(key, "dm:"@) {
        Some(rest) => match text::split_once_spec(rest, ',') {
            Some((a, b)) => Some(
                if a == did {
                    b
                } else {
                    a
                },
            ),
            None => None,
        },
        None => None,
    }
}

/// One conversation, for one session; nothing if its latest message is out of the span.
pub open spec fn target_fx(
    st: ServerStateView,
    session: Seq<char>,
    did: Seq<char>,
    from_ts: u64,
    to_ts: u64,
    batch: Seq<char>,
    conv: ConversationView,
) -> Seq<EffectView> {
    let who = partner(conv.key, did);
    if conv.last_ts < from_ts || conv.last_ts > to_ts || who is None {
        Seq::empty()
    } else {
        let shown = match containers::map_get(st.did_nicks, who->0) {
            Some(nick) => nick,
            None => who->0,
        };
        let t0: Seq<(Seq<char>, Seq<char>)> = Seq::empty();
        let t1 = if st.cap_batch.contains(session) {
            containers::map_put(t0, "batch"@, batch)
        } else {
            t0
        };
        let t2 = if st.cap_server_time.contains(session) {
            containers::map_put(t1, "time"@, time::time_tag(conv.last_ts))
        } else {
            t1
        };
        seq![
            helpers::send_fx(
                session,
                if t2.len() > 0 {
                    irc::wire(
                        MessageView {
                            tags: t2,
                            prefix: Some(st.server_name),
                            command: "CHATHISTORY"@,
                            params: seq!["TARGETS"@, shown],
                        },
                    )
                } else {
                    ":"@ + st.server_name + " CHATHISTORY TARGETS "@ + shown + "\r\n"@
                },
            ),
        ]
    }
}

/// The conversations, in their order.
pub open spec fn target_list_fx(
    st: ServerStateView,
    session: Seq<char>,
    did: Seq<char>,
    from_ts: u64,
    to_ts: u64,
    batch: Seq<char>,
    convs: Seq<ConversationView>,
) -> Seq<EffectView>
    decreases convs.len(),
{
    if convs.len() == 0 {
        Seq::empty()
    } else {
        target_list_fx(st, session, did, from_ts, to_ts, batch, convs.drop_last()) + target_fx(
            st,
            session,
            did,
            from_ts,
            to_ts,
            batch,
            convs.last(),
        )
    }
}

/// Shows the stored messages to a session; `fresh_id` is for the name of the batch.
pub fn push_messages(
    fx: &mut Vec<Effect>,
    state: &ServerState,
    session: &str,
    target: &str,
    fresh_id: &str,
    rows: &Vec<MessageRow>,
)
    ensures
        final(fx).deep_view() == old(fx).deep_view() + messages_fx(
            state.deep_view(),
            session@,
            target@,
            "ch"@ + fresh_id@,
            rows.deep_view(),
        ),
{
    let name = Line::new("ch").add(fresh_id).done();
    let batch = name.as_str();
    let has_tags = state.cap_message_tags.contains(session);
    let has_time = state.cap_server_time.contains(session);
    let has_batch = state.cap_batch.contains(session);
    let ghost start = fx.deep_view();
    let what = Line::new("chathistory ").add(target).done();
    push_batch_start(fx, state, session, batch, what.as_str());
    let ghost st = state.deep_view();
    let ghost f = |r: MessageRowView| row_fx(st, session@, target@, batch@, r);
    let ghost before = fx.deep_view();
    let ghost all = rows.deep_view();
    let mut i: usize = 0;
    assert(before + all.take(0).map_values(f) =~= before);
    while i < rows.len()
        invariant
            i <= all.len(),
            all == rows.deep_view(),
            rows@.len() == all.len(),
            st == state.deep_view(),
            has_tags == st.cap_message_tags.contains(session@),
            has_time == st.cap_server_time.contains(session@),
            has_batch == st.cap_batch.contains(session@),
            f == (|r: MessageRowView| row_fx(st, session@, target@, batch@, r)),
            fx.deep_view() == before + all.take(i as int).map_values(f),
        decreases all.len() - i,
    {
        let ghost prev = fx.deep_view();
        let row = &rows[i];
        assert(all[i as int] == row.deep_view());
        let tags = tags_for_replay(
            &row.tags,
            &row.msgid,
            &row.replaces_msgid,
            row.timestamp,
            has_tags,
            has_time,
            has_batch,
            batch,
        );
        let line = line_for_replay(tags, has_tags, row.sender.as_str(), target, row.text.as_str());
        push_send(fx, session, line);
        assert(fx.deep_view() == prev.push(f(all[i as int])));
        i = i + 1;
        assert(fx.deep_view() =~= before + all.take(i as int).map_values(f));
    }
    assert(all.take(i as int) =~= all);
    push_batch_end(fx, state, session, batch);
    assert(fx.deep_view() =~= start + messages_fx(st, session@, target@, batch@, all));
}

/// The other side of a conversation, from its key.
pub fn partner_of(key: &str, did: &str) -> (r: Option<String>)
    ensures
        r.deep_view() == partner(key@, did@),
{
    match strip_prefix(key, "dm:") {
        Some(rest) => match text::split_once(rest.as_str(), ',') {
            Some((a, b)) => if str_eq(a.as_str(), did) {
                Some(b)
            } else {
                Some(a)
            },
            None => None,
        },
        None => None,
    }
}

/// Shows one conversation to a session.
fn push_target(
    fx: &mut Vec<Effect>,
    state: &ServerState,
    session: &str,
    did: &str,
    from_ts: u64,
    to_ts: u64,
    batch: &str,
    conv: &Conversation,
)
    ensures
        final(fx).deep_view() == old(fx).deep_view() + target_fx(
            state.deep_view(),
            session@,
            did@,
            from_ts,
            to_ts,
            batch@,
            conv.deep_view(),
        ),
{
    assert(fx.deep_view() + Seq::<EffectView>::empty() =~= fx.deep_view());
    if conv.last_ts < from_ts || conv.last_ts > to_ts {
        return;
    }
    let who = match partner_of(conv.key.as_str(), did) {
        Some(p) => p,
        None => {
            return;
        },
    };
    let shown = match state.did_nicks.get(who.as_str()) {
        Some(nick) => nick.clone(),
        None => who,
    };
    let mut tags: StrMap<String> = StrMap::new();
    if state.cap_batch.contains(session) {
        tags.insert("batch".to_owned(), batch.to_owned());
    }
    if state.cap_server_time.contains(session) {
        tags.insert("time".to_owned(), format_time_tag(conv.last_ts));
    }
    let line = if !tags.is_empty() {
        let mut params: Vec<String> = Vec::new();
        params.push("TARGETS".to_owned());
        params.push(shown.clone());
        assert(params.deep_view() =~= seq!["TARGETS"@, shown@]);
        let m = Message {
            tags,
            prefix: Some(state.server_name.clone()),
            command: "CHATHISTORY".to_owned(),
            params,
        };
        m.to_wire()
    } else {
        Line::new(":").add(state.server_name.as_str()).add(" CHATHISTORY TARGETS ").add(
            shown.as_str(),
        ).add("\r\n").done()
    };
    push_send(fx, session, line);
}

/// Shows the conversations of a user to a session; `fresh_id` is for the name of the batch.
pub fn push_targets(
    fx: &mut Vec<Effect>,
    state: &ServerState,
    session: &str,
    did: &str,
    from_ts: u64,
    to_ts: u64,
    fresh_id: &str,
    convs: &Vec<Conversation>,
)
    ensures
        final(fx).deep_view() == old(fx).deep_view() + join::batched(
            state.deep_view(),
            session@,
            "cht"@ + fresh_id@,
            "draft/chathistory-targets"@,
            target_list_fx(
                state.deep_view(),
                session@,
                did@,
                from_ts,
                to_ts,
                "cht"@ + fresh_id@,
                convs.deep_view(),
            ),
        ),
{
    let name = Line::new("cht").add(fresh_id).done();
    let batch = name.as_str();
    let ghost start = fx.deep_view();
    push_batch_start(fx, state, session, batch, "draft/chathistory-targets");
    let ghost st = state.deep_view();
    let ghost before = fx.deep_view();
    let ghost all = convs.deep_view();
    let mut i: usize = 0;
    assert(before + target_list_fx(st, session@, did@, from_ts, to_ts, batch@, all.take(0))
        =~= before);
    while i < convs.len()
        invariant
            i <= all.len(),
            all == convs.deep_view(),
            convs@.len() == all.len(),
            st == state.deep_view(),
            fx.deep_view() == before + target_list_fx(
                st,
                session@,
                did@,
                from_ts,
                to_ts,
                batch@,
                all.take(i as int),
            ),
        decreases all.len() - i,
    {
        assert(all.take(i + 1).drop_last() =~= all.take(i as int));
        assert(all[i as int] == convs@[i as int].deep_view());
        push_target(fx, state, session, did, from_ts, to_ts, batch, &convs[i]);
        i = i + 1;
        assert(fx.deep_view() =~= before + target_list_fx(
            st,
            session@,
            did@,
            from_ts,
            to_ts,
            batch@,
            all.take(i as int),
        ));
    }
    assert(all.take(i as int) =~= all);
    push_batch_end(fx, state, session, batch);
    assert(fx.deep_view() =~= start + join::batched(
        st,
        session@,
        batch@,
        "draft/chathistory-targets"@,
        target_list_fx(st, session@, did@, from_ts, to_ts, batch@, all),
    ));
}

/// The key of a conversation tells each side who the other is, as long as the DID that comes
/// first in it holds no comma.
pub proof fn law_partner_of_key(a: Seq<char>, b: Seq<char>)
    requires
        !(if db::str_le(a, b) {
            a
        } else {
            b
        }).contains(','),
    ensures
        partner(db::dm_key(a, b), a) == Some(b),
        partner(db::dm_key(a, b), b) == Some(a),
{
    reveal_strlit("dm:");
    reveal_strlit(",");
    let (x, y) = if db::str_le(a, b) {
        (a, b)
    } else {
        (b, a)
    };
    let key = db::dm_key(a, b);
    let rest = x + ","@ + y;
    assert(key =~= "dm:"@ + rest);
    assert(key.subrange(0, 3) =~= "dm:"@);
    assert(key.subrange(3, key.len() as int) =~= rest);
    rest.index_of_first_ensures(',');
    assert(rest[x.len() as int] == ',');
    assert(rest.contains(','));
    let i = rest.index_of_first(',')->0;
    if i < x.len() {
        assert(x[i] == rest[i]);
        assert(x.contains(','));
    }
    assert(rest.subrange(0, x.len() as int) =~= x);
    assert(rest.subrange(x.len() as int + 1, rest.len() as int) =~= y);
}

} // verus!
