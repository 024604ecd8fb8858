//! Agents: class, provenance, presence, and signs of life.
use super::commands;
use super::commands::push_notice;
use super::helpers;
use super::helpers::{push_multicast, push_send};
use super::{
    ActorClass, AgentPresence, AgentPresenceView, Connection, ConnectionView,
    PresenceState,
};
use crate::containers;
use crate::containers::{Dup, StrSet};
use crate::crypto;
use crate::crypto::base64url_decode;
use crate::json;
use crate::json::{json_from_bytes, json_from_text, to_json_string};
use crate::server::{
    ChannelStateView, Effect, EffectView, Heartbeat, HeartbeatView, ServerState, ServerStateView,
};
use crate::text;
use crate::text::{
    parse_number, split, split_once, str_eq, strip_prefix, to_signed_decimal,
    to_uppercase, trim, Line,
};
use vstd::prelude::*;

verus! {

broadcast use vstd::string::group_string_axioms;

// ── AGENT ───────────────────────────────────────────────────────────

/// The actor class of a name.
pub open spec fn actor_class_of(s: Seq<char>) -> Option<ActorClass> {
    if s == "human"@ {
        Some(ActorClass::Human)
    } else if s == "agent"@ {
        Some(ActorClass::Agent)
    } else if s == "external_agent"@ {
        Some(ActorClass::ExternalAgent)
    } else {
        None
    }
}

impl ActorClass {
    /// The class of a name.
    pub fn parse(s: &str) -> (r: Option<ActorClass>)
        ensures
            r == actor_class_of(s@),
    {
        if str_eq(s, "human") {
            Some(ActorClass::Human)
        } else if str_eq(s, "agent") {
            Some(ActorClass::Agent)
        } else if str_eq(s, "external_agent") {
            Some(ActorClass::ExternalAgent)
        } else {
            None
        }
    }
}

/// Every class has a name of its own: the name of a class is read back as that class.
pub proof fn law_actor_class_name_reads_back(a: ActorClass)
    ensures
        actor_class_of(super::actor_class_name(a)) == Some(a),
{
    reveal_strlit("human");
    reveal_strlit("agent");
    reveal_strlit("external_agent");
    assert("human"@[0] != "agent"@[0]);
}

/// The name of the class that an AGENT REGISTER command asks for.
pub open spec fn asked_class(arg: Option<Seq<char>>) -> Seq<char> {
    match arg {
        Some(a) => text::or_default(text::strip_prefix_spec(a, "class="@), "agent"@),
        None => "agent"@,
    }
}

/// What a channel is told of a new agent.
pub open spec fn agent_line(
    class: Seq<char>,
    hostmask: Seq<char>,
    channel: Seq<char>,
) -> Seq<char> {
    "@+freeq.at/actor-class="@ + class + " :"@ + hostmask + " NOTICE "@ + channel
        + " :registered as "@ + class + "\r\n"@
}

/// What the channels of a new agent are told.
pub open spec fn agent_told(
    chs: Seq<(Seq<char>, ChannelStateView)>,
    session: Seq<char>,
    class: Seq<char>,
    hostmask: Seq<char>,
) -> Seq<EffectView>
    decreases chs.len(),
{
    if chs.len() == 0 {
        Seq::empty()
    } else {
        let before = agent_told(chs.drop_last(), session, class, hostmask);
        let members = chs.last().1.members;
        if members.contains(session) {
            before + helpers::multicast_fx(
                containers::set_remove(members, session),
                agent_line(class, hostmask, chs.last().0),
            )
        } else {
            before
        }
    }
}

/// What an AGENT REGISTER command does.
pub open spec fn register_spec(st: ServerStateView, c: ConnectionView, arg: Option<Seq<char>>) -> (
    ServerStateView,
    ConnectionView,
    Seq<EffectView>,
) {
    let name = asked_class(arg);
    match actor_class_of(name) {
        Some(class) => (
            ServerStateView {
                session_actor_class: containers::map_put(st.session_actor_class, c.id, class),
                ..st
            },
            ConnectionView { actor_class: class, ..c },
            commands::notice_fx(st, c, "Agent registered as "@ + name) + (if c.caps.contains(
                "message-tags"@,
            ) {
                agent_told(st.channels, c.id, name, c.hostmask())
            } else {
                Seq::empty()
            }),
        ),
        None => (
            st,
            c,
            commands::notice_fx(
                st,
                c,
                "Invalid actor class: "@ + "Unknown actor class: "@ + name,
            ),
        ),
    }
}

/// Tells the channels of a new agent.
fn push_agent_told(
    fx: &mut Vec<Effect>,
    state: &ServerState,
    session: &str,
    class: &str,
    hostmask: &str,
)
    ensures
        final(fx).deep_view() == old(fx).deep_view() + agent_told(
            state.deep_view().channels,
            session@,
            class@,
            hostmask@,
        ),
{
    let ghost chs = state.channels@;
    let ghost before = fx.deep_view();
    let mut i: usize = 0;
    assert(before + agent_told(chs.take(0), session@, class@, hostmask@) =~= before);
    while i < state.channels.len()
        invariant
            i <= chs.len(),
            chs == state.channels@,
            fx.deep_view() == before + agent_told(
                chs.take(i as int),
                session@,
                class@,
                hostmask@,
            ),
        decreases chs.len() - i,
    {
        assert(chs.take(i + 1).drop_last() =~= chs.take(i as int));
        let ghost prev = agent_told(chs.take(i as int), session@, class@, hostmask@);
        let ch = state.channels.value_at(i);
        if ch.members.contains(session) {
            let line = Line::new("@+freeq.at/actor-class=").add(class).add(" :").add(
                hostmask,
            ).add(" NOTICE ").add(state.channels.key_at(i).as_str()).add(
                " :registered as ",
            ).add(class).add("\r\n").done();
            let mut others = ch.members.dup();
            others.remove(session);
            push_multicast(fx, &others, line.as_str());
            assert(fx.deep_view() =~= before + (prev + helpers::multicast_fx(others@, line@)));
        }
        i = i + 1;
    }
    assert(chs.take(i as int) =~= chs);
}

/// The name of the class that an AGENT REGISTER command asks for.
fn read_class(arg: Option<&str>) -> (r: String)
    ensures
        r@ == asked_class(arg.deep_view()),
{
    match arg {
        Some(a) => match strip_prefix(a, "class=") {
            Some(c) => c,
            None => "agent".to_owned(),
        },
        None => "agent".to_owned(),
    }
}

/// Handles an AGENT REGISTER command.
pub fn handle_register(
    conn: &mut Connection,
    arg: Option<&str>,
    state: &mut ServerState,
    fx: &mut Vec<Effect>,
)
    ensures
        ({
            let r = register_spec(
                old(state).deep_view(),
                old(conn).deep_view(),
                arg.deep_view(),
            );
            &&& final(state).deep_view() == r.0
            &&& final(conn).deep_view() == r.1
            &&& final(fx).deep_view() == old(fx).deep_view() + r.2
        }),
{
    broadcast use helpers::lemma_push_after, helpers::lemma_add_after;

    let name = read_class(arg);
    match ActorClass::parse(name.as_str()) {
        Some(class) => {
            let note = Line::new("Agent registered as ").add(name.as_str()).done();
            push_notice(fx, state, conn, note.as_str());
            if conn.caps.contains("message-tags") {
                let hostmask = conn.hostmask();
                push_agent_told(fx, state, conn.id.as_str(), name.as_str(), hostmask.as_str());
            } else {
                assert(fx.deep_view() + Seq::<EffectView>::empty() =~= fx.deep_view());
            }
            state.session_actor_class.insert(conn.id.clone(), class);
            conn.actor_class = class;
        },
        None => {
            let note = Line::new("Invalid actor class: ").add("Unknown actor class: ").add(
                name.as_str(),
            ).done();
            push_notice(fx, state, conn, note.as_str());
        },
    }
}

/// What an AGENT command with a subcommand does.
pub open spec fn agent_spec(
    st: ServerStateView,
    c: ConnectionView,
    sub: Seq<char>,
    arg: Option<Seq<char>>,
) -> (ServerStateView, ConnectionView, Seq<EffectView>) {
    let upper = text::uppercase(sub);
    if upper == "REGISTER"@ {
        register_spec(st, c, arg)
    } else {
        (
            st,
            c,
            commands::notice_fx(
                st,
                c,
                "Unknown AGENT subcommand: "@ + upper + ". Use: AGENT REGISTER"@,
            ),
        )
    }
}

/// Handles an AGENT command with a subcommand.
pub fn handle_agent(
    conn: &mut Connection,
    sub: &str,
    arg: Option<&str>,
    state: &mut ServerState,
    fx: &mut Vec<Effect>,
)
    ensures
        ({
            let r = agent_spec(
                old(state).deep_view(),
                old(conn).deep_view(),
                sub@,
                arg.deep_view(),
            );
            &&& final(state).deep_view() == r.0
            &&& final(conn).deep_view() == r.1
            &&& final(fx).deep_view() == old(fx).deep_view() + r.2
        }),
{
    let upper = to_uppercase(sub);
    if str_eq(upper.as_str(), "REGISTER") {
        handle_register(conn, arg, state, fx);
    } else {
        let note = Line::new("Unknown AGENT subcommand: ").add(upper.as_str()).add(
            ". Use: AGENT REGISTER",
        ).done();
        push_notice(fx, state, conn, note.as_str());
    }
}

// ── PROVENANCE ──────────────────────────────────────────────────────

/// The document of a declaration: what its base64url text stands for, or else the text itself, as
/// far as these are JSON.
pub open spec fn declared(encoded: Seq<char>) -> Option<Seq<char>> {
    match crypto::base64url_decoded(encoded) {
        Some(bytes) => match json::json_of_bytes(bytes) {
            Some(j) => Some(j),
            None => json::json_of_text(encoded),
        },
        None => json::json_of_text(encoded),
    }
}

/// What a PROVENANCE command does, given the document that it declares.
pub open spec fn provenance_spec(
    st: ServerStateView,
    c: ConnectionView,
    document: Option<Seq<char>>,
) -> (ServerStateView, Seq<EffectView>) {
    match document {
        Some(json) => match c.authenticated_did {
            Some(did) => (
                ServerStateView {
                    provenance_declarations: containers::map_put(
                        st.provenance_declarations,
                        did,
                        json,
                    ),
                    ..st
                },
                commands::notice_fx(st, c, "Provenance declaration stored"@),
            ),
            None => (
                st,
                commands::notice_fx(st, c, "Must be authenticated to submit provenance"@),
            ),
        },
        None => (
            st,
            commands::notice_fx(
                st,
                c,
                "Invalid provenance format (expected base64url-encoded JSON or raw JSON)"@,
            ),
        ),
    }
}

/// The document of a declaration.
fn read_declaration(encoded: &str) -> (r: Option<String>)
    ensures
        r.deep_view() == declared(encoded@),
{
    match base64url_decode(encoded) {
        Some(bytes) => {
            assert(bytes.deep_view() =~= bytes@);
            match json_from_bytes(&bytes) {
                Some(j) => Some(j),
                None => json_from_text(encoded),
            }
        },
        None => json_from_text(encoded),
    }
}

/// Stores a declaration.
pub fn store_declaration(
    conn: &Connection,
    document: Option<String>,
    state: &mut ServerState,
    fx: &mut Vec<Effect>,
)
    ensures
        ({
            let r = provenance_spec(
                old(state).deep_view(),
                conn.deep_view(),
                document.deep_view(),
            );
            &&& final(state).deep_view() == r.0
            &&& final(fx).deep_view() == old(fx).deep_view() + r.1
        }),
{
    match document {
        Some(json) => match &conn.authenticated_did {
            Some(did) => {
                push_notice(fx, state, conn, "Provenance declaration stored");
                state.provenance_declarations.insert(did.clone(), json);
            },
            None => {
                push_notice(fx, state, conn, "Must be authenticated to submit provenance");
            },
        },
        None => {
            push_notice(
                fx,
                state,
                conn,
                "Invalid provenance format (expected base64url-encoded JSON or raw JSON)",
            );
        },
    }
}

/// Handles a PROVENANCE command with a declaration.
pub fn handle_provenance(
    conn: &Connection,
    encoded: &str,
    state: &mut ServerState,
    fx: &mut Vec<Effect>,
)
    ensures
        ({
            let r = provenance_spec(
                old(state).deep_view(),
                conn.deep_view(),
                declared(encoded@),
            );
            &&& final(state).deep_view() == r.0
            &&& final(fx).deep_view() == old(fx).deep_view() + r.1
        }),
{
    let document = read_declaration(encoded);
    store_declaration(conn, document, state, fx);
}

// ── PRESENCE ────────────────────────────────────────────────────────

/// The name of an operational state in the protocol.
pub open spec fn presence_name(p: PresenceState) -> Seq<char> {
    match p {
        PresenceState::Online => "online"@,
        PresenceState::Idle => "idle"@,
        PresenceState::Active => "active"@,
        PresenceState::Executing => "executing"@,
        PresenceState::WaitingForInput => "waiting_for_input"@,
        PresenceState::BlockedOnPermission => "blocked_on_permission"@,
        PresenceState::BlockedOnBudget => "blocked_on_budget"@,
        PresenceState::Degraded => "degraded"@,
        PresenceState::Paused => "paused"@,
        PresenceState::Sandboxed => "sandboxed"@,
        PresenceState::RateLimited => "rate_limited"@,
        PresenceState::Revoked => "revoked"@,
        PresenceState::Offline => "offline"@,
    }
}

/// The operational state of a name.
pub open spec fn presence_of(s: Seq<char>) -> Option<PresenceState> {
    if s == "online"@ {
        Some(PresenceState::Online)
    } else if s == "idle"@ {
        Some(PresenceState::Idle)
    } else if s == "active"@ {
        Some(PresenceState::Active)
    } else if s == "executing"@ {
        Some(PresenceState::Executing)
    } else if s == "waiting_for_input"@ {
        Some(PresenceState::WaitingForInput)
    } else if s == "blocked_on_permission"@ {
        Some(PresenceState::BlockedOnPermission)
    } else if s == "blocked_on_budget"@ {
        Some(PresenceState::BlockedOnBudget)
    } else if s == "degraded"@ {
        Some(PresenceState::Degraded)
    } else if s == "paused"@ {
        Some(PresenceState::Paused)
    } else if s == "sandboxed"@ {
        Some(PresenceState::Sandboxed)
    } else if s == "rate_limited"@ {
        Some(PresenceState::RateLimited)
    } else if s == "revoked"@ {
        Some(PresenceState::Revoked)
    } else if s == "offline"@ {
        Some(PresenceState::Offline)
    } else {
        None
    }
}

impl PresenceState {
    /// The name of the state in the protocol.
    pub fn as_str(&self) -> (r: &'static str)
        ensures
            r@ == presence_name(*self),
    {
        match self {
            PresenceState::Online => "online",
            PresenceState::Idle => "idle",
            PresenceState::Active => "active",
            PresenceState::Executing => "executing",
            PresenceState::WaitingForInput => "waiting_for_input",
            PresenceState::BlockedOnPermission => "blocked_on_permission",
            PresenceState::BlockedOnBudget => "blocked_on_budget",
            PresenceState::Degraded => "degraded",
            PresenceState::Paused => "paused",
            PresenceState::Sandboxed => "sandboxed",
            PresenceState::RateLimited => "rate_limited",
            PresenceState::Revoked => "revoked",
            PresenceState::Offline => "offline",
        }
    }

    /// The state of a name.
    pub fn parse(s: &str) -> (r: Option<PresenceState>)
        ensures
            r == presence_of(s@),
    {
        if str_eq(s, "online") {
            Some(PresenceState::Online)
        } else if str_eq(s, "idle") {
            Some(PresenceState::Idle)
        } else if str_eq(s, "active") {
            Some(PresenceState::Active)
        } else if str_eq(s, "executing") {
            Some(PresenceState::Executing)
        } else if str_eq(s, "waiting_for_input") {
            Some(PresenceState::WaitingForInput)
        } else if str_eq(s, "blocked_on_permission") {
            Some(PresenceState::BlockedOnPermission)
        } else if str_eq(s, "blocked_on_budget") {
            Some(PresenceState::BlockedOnBudget)
        } else if str_eq(s, "degraded") {
            Some(PresenceState::Degraded)
        } else if str_eq(s, "paused") {
            Some(PresenceState::Paused)
        } else if str_eq(s, "sandboxed") {
            Some(PresenceState::Sandboxed)
        } else if str_eq(s, "rate_limited") {
            Some(PresenceState::RateLimited)
        } else if str_eq(s, "revoked") {
            Some(PresenceState::Revoked)
        } else if str_eq(s, "offline") {
            Some(PresenceState::Offline)
        } else {
            None
        }
    }
}

/// Every state has a name of its own: the name of a state is read back as that state.
pub proof fn law_presence_name_reads_back(p: PresenceState)
    ensures
        presence_of(presence_name(p)) == Some(p),
{
    reveal_strlit("online");
    reveal_strlit("idle");
    reveal_strlit("active");
    reveal_strlit("executing");
    reveal_strlit("waiting_for_input");
    reveal_strlit("blocked_on_permission");
    reveal_strlit("blocked_on_budget");
    reveal_strlit("degraded");
    reveal_strlit("paused");
    reveal_strlit("sandboxed");
    reveal_strlit("rate_limited");
    reveal_strlit("revoked");
    reveal_strlit("offline");
    assert("online"@.len() == 6);
    assert("idle"@.len() == 4);
    assert("active"@.len() == 6);
    assert("executing"@.len() == 9);
    assert("waiting_for_input"@.len() == 17);
    assert("blocked_on_permission"@.len() == 21);
    assert("blocked_on_budget"@.len() == 17);
    assert("degraded"@.len() == 8);
    assert("paused"@.len() == 6);
    assert("sandboxed"@.len() == 9);
    assert("rate_limited"@.len() == 12);
    assert("revoked"@.len() == 7);
    assert("offline"@.len() == 7);
    assert("online"@[0] != "active"@[0]);
    assert("online"@[0] != "paused"@[0]);
    assert("active"@[0] != "paused"@[0]);
    assert("executing"@[0] != "sandboxed"@[0]);
    assert("waiting_for_input"@[0] != "blocked_on_budget"@[0]);
    assert("revoked"@[0] != "offline"@[0]);
}

/// A key and a value around the first `=`, without the white space around each.
pub open spec fn setting(part: Seq<char>) -> Option<(Seq<char>, Seq<char>)> {
    match text::split_once_spec(part, '=') {
        Some((k, v)) => Some((text::trim_spec(k), text::trim_spec(v))),
        None => None,
    }
}

/// The settings of a text, separated by `;`.
pub open spec fn settings(parts: Seq<Seq<char>>) -> Seq<(Seq<char>, Seq<char>)>
    decreases parts.len(),
{
    if parts.len() == 0 {
        Seq::empty()
    } else {
        let before = settings(parts.drop_last());
        match setting(parts.last()) {
            Some(s) => before.push(s),
            None => before,
        }
    }
}

/// The settings of a text, separated by `;`.
fn read_settings(raw: &str) -> (r: Vec<(String, String)>)
    ensures
        r.deep_view() == settings(text::split_spec(raw@, ';')),
{
    let parts = split(raw, ';');
    let ghost all = parts.deep_view();
    let mut out: Vec<(String, String)> = Vec::new();
    let mut i: usize = 0;
    assert(out.deep_view() =~= settings(all.take(0)));
    while i < parts.len()
        invariant
            i <= all.len(),
            all == parts.deep_view(),
            parts@.len() == all.len(),
            out.deep_view() == settings(all.take(i as int)),
        decreases all.len() - i,
    {
        assert(all.take(i + 1).drop_last() =~= all.take(i as int));
        let ghost before = out.deep_view();
        if let Some((k, v)) = split_once(parts[i].as_str(), '=') {
            let e = (trim(k.as_str()), trim(v.as_str()));
            out.push(e);
            assert(out.deep_view() =~= before.push((e.0@, e.1@)));
        }
        i = i + 1;
    }
    assert(all.take(i as int) =~= all);
    out
}

/// The value of the last setting under a key.
pub open spec fn last_setting(s: Seq<(Seq<char>, Seq<char>)>, key: Seq<char>) -> Option<Seq<char>>
    decreases s.len(),
{
    if s.len() == 0 {
        None
    } else if s.last().0 == key {
        Some(s.last().1)
    } else {
        last_setting(s.drop_last(), key)
    }
}

/// The value of the last setting under a key.
fn find_setting(s: &Vec<(String, String)>, key: &str) -> (r: Option<String>)
    ensures
        r.deep_view() == last_setting(s.deep_view(), key@),
{
    let ghost all = s.deep_view();
    let mut found: Option<String> = None;
    let mut i: usize = 0;
    assert(last_setting(all.take(0), key@) is None);
    while i < s.len()
        invariant
            i <= all.len(),
            all == s.deep_view(),
            s@.len() == all.len(),
            found.deep_view() == last_setting(all.take(i as int), key@),
        decreases all.len() - i,
    {
        assert(all.take(i + 1).drop_last() =~= all.take(i as int));
        assert(all[i as int] == s@[i as int].deep_view());
        if str_eq(s[i].0.as_str(), key) {
            found = Some(s[i].1.clone());
        }
        i = i + 1;
    }
    assert(all.take(i as int) =~= all);
    found
}

/// The presence that a PRESENCE command declares. A state that is missing or unknown is `online`.
pub open spec fn declared_presence(raw: Seq<char>, now: i64) -> AgentPresenceView {
    let s = settings(text::split_spec(raw, ';'));
    AgentPresenceView {
        state: match last_setting(s, "state"@) {
            Some(name) => match presence_of(name) {
                Some(p) => p,
                None => PresenceState::Online,
            },
            None => PresenceState::Online,
        },
        status: last_setting(s, "status"@),
        task: last_setting(s, "task"@),
        updated_at: now,
    }
}

/// The presence that a PRESENCE command declares.
pub fn read_presence(raw: &str, now: i64) -> (r: AgentPresence)
    ensures
        r.deep_view() == declared_presence(raw@, now),
{
    let s = read_settings(raw);
    let state = match find_setting(&s, "state") {
        Some(name) => match PresenceState::parse(name.as_str()) {
            Some(p) => p,
            None => PresenceState::Online,
        },
        None => PresenceState::Online,
    };
    AgentPresence {
        state,
        status: find_setting(&s, "status"),
        task: find_setting(&s, "task"),
        updated_at: now,
    }
}

/// A presence as a JSON object; what is not there is left out.
pub open spec fn presence_json(p: AgentPresenceView) -> Seq<char> {
    "{\"state\":"@ + json::json_string(presence_name(p.state)) + json_member(",\"status\":"@, p.status)
        + json_member(",\"task\":"@, p.task) + ",\"updated_at\":"@ + text::signed_decimal(p.updated_at)
        + "}"@
}

/// A member of a JSON object that may be missing.
pub open spec fn json_member(key: Seq<char>, value: Option<Seq<char>>) -> Seq<char> {
    match value {
        Some(v) => key + json::json_string(v),
        None => ""@,
    }
}

/// A member of a JSON object that may be missing.
fn write_member(key: &str, value: &Option<String>) -> (r: String)
    ensures
        r@ == json_member(key@, value.deep_view()),
{
    match value {
        Some(v) => Line::new(key).add(to_json_string(v.as_str()).as_str()).done(),
        None => "".to_owned(),
    }
}

/// A presence as a JSON object.
pub fn write_presence(p: &AgentPresence) -> (r: String)
    ensures
        r@ == presence_json(p.deep_view()),
{
    Line::new("{\"state\":").add(to_json_string(p.state.as_str()).as_str()).add(
        write_member(",\"status\":", &p.status).as_str(),
    ).add(write_member(",\"task\":", &p.task).as_str()).add(",\"updated_at\":").add(
        to_signed_decimal(p.updated_at).as_str(),
    ).add("}").done()
}

/// Whether an agent in this state counts as being there.
pub open spec fn is_present(p: PresenceState) -> bool {
    p == PresenceState::Online || p == PresenceState::Active || p == PresenceState::Idle
}

/// The state with the presence of a session.
pub open spec fn presence_noted(
    st: ServerStateView,
    session: Seq<char>,
    p: AgentPresenceView,
) -> ServerStateView {
    ServerStateView {
        agent_presence: containers::map_put(st.agent_presence, session, p),
        session_away: if is_present(p.state) {
            containers::map_del(st.session_away, session)
        } else {
            containers::map_put(
                st.session_away,
                session,
                text::or_default(p.status, presence_name(p.state)),
            )
        },
        ..st
    }
}

/// Who of a channel is told that a session is away.
pub open spec fn away_listeners(
    st: ServerStateView,
    members: Seq<Seq<char>>,
    session: Seq<char>,
) -> Seq<Seq<char>> {
    members.filter(|m: Seq<char>| m != session && st.cap_away_notify.contains(m))
}

/// What the channels of a session are told of its presence.
pub open spec fn away_told(
    st: ServerStateView,
    chs: Seq<(Seq<char>, ChannelStateView)>,
    session: Seq<char>,
    line: Seq<char>,
) -> Seq<EffectView>
    decreases chs.len(),
{
    if chs.len() == 0 {
        Seq::empty()
    } else {
        let before = away_told(st, chs.drop_last(), session, line);
        let members = chs.last().1.members;
        if members.contains(session) {
            before + helpers::multicast_fx(away_listeners(st, members, session), line)
        } else {
            before
        }
    }
}

/// What a PRESENCE command does, given the presence that it declares.
pub open spec fn presence_spec(st: ServerStateView, c: ConnectionView, p: AgentPresenceView) -> (
    ServerStateView,
    Seq<EffectView>,
) {
    let noted = presence_noted(st, c.id, p);
    (
        noted,
        away_told(
            noted,
            noted.channels,
            c.id,
            ":"@ + c.hostmask() + " AWAY :"@ + presence_json(p) + "\r\n"@,
        ) + commands::notice_fx(noted, c, "Presence updated: "@ + presence_name(p.state)),
    )
}

/// Notes the presence of a session.
fn note_presence(state: &mut ServerState, session: &str, p: &AgentPresence)
    ensures
        final(state).deep_view() == presence_noted(
            old(state).deep_view(),
            session@,
            p.deep_view(),
        ),
{
    state.agent_presence.insert(session.to_owned(), p.dup());
    if p.state == PresenceState::Online || p.state == PresenceState::Active || p.state
        == PresenceState::Idle {
        state.session_away.remove(session);
    } else {
        let note = match &p.status {
            Some(s) => s.clone(),
            None => p.state.as_str().to_owned(),
        };
        state.session_away.insert(session.to_owned(), note);
    }
}

/// Sends a line to those of a channel who are told that a session is away.
fn push_away(
    fx: &mut Vec<Effect>,
    state: &ServerState,
    members: &StrSet,
    session: &str,
    line: &str,
)
    ensures
        final(fx).deep_view() == old(fx).deep_view() + helpers::multicast_fx(
            away_listeners(state.deep_view(), members@, session@),
            line@,
        ),
{
    let ghost st = state.deep_view();
    let ghost all = members@;
    let ghost p = |m: Seq<char>| m != session@ && st.cap_away_notify.contains(m);
    let ghost before = fx.deep_view();
    let mut i: usize = 0;
    assert(before + helpers::multicast_fx(all.take(0).filter(p), line@) =~= before) by {
        reveal(Seq::filter);
    }
    while i < members.len()
        invariant
            i <= all.len(),
            all == members@,
            st == state.deep_view(),
            p == (|m: Seq<char>| m != session@ && st.cap_away_notify.contains(m)),
            fx.deep_view() == before + helpers::multicast_fx(all.take(i as int).filter(p), line@),
        decreases all.len() - i,
    {
        assert(all.take(i + 1).drop_last() =~= all.take(i as int));
        reveal(Seq::filter);
        let m = members.at(i);
        let ghost prev = all.take(i as int).filter(p);
        if !str_eq(m.as_str(), session) && state.cap_away_notify.contains(m.as_str()) {
            push_send(fx, m.as_str(), line.to_owned());
            assert(fx.deep_view() =~= before + helpers::multicast_fx(prev.push(m@), line@));
        }
        i = i + 1;
    }
    assert(all.take(i as int) =~= all);
}

/// Tells the channels of a session of its presence.
fn push_away_told(fx: &mut Vec<Effect>, state: &ServerState, session: &str, line: &str)
    ensures
        final(fx).deep_view() == old(fx).deep_view() + away_told(
            state.deep_view(),
            state.deep_view().channels,
            session@,
            line@,
        ),
{
    let ghost st = state.deep_view();
    let ghost chs = state.channels@;
    let ghost before = fx.deep_view();
    let mut i: usize = 0;
    assert(before + away_told(st, chs.take(0), session@, line@) =~= before);
    while i < state.channels.len()
        invariant
            i <= chs.len(),
            chs == state.channels@,
            st == state.deep_view(),
            fx.deep_view() == before + away_told(st, chs.take(i as int), session@, line@),
        decreases chs.len() - i,
    {
        assert(chs.take(i + 1).drop_last() =~= chs.take(i as int));
        let ghost prev = away_told(st, chs.take(i as int), session@, line@);
        let ch = state.channels.value_at(i);
        if ch.members.contains(session) {
            push_away(fx, state, &ch.members, session, line);
            assert(fx.deep_view() =~= before + (prev + helpers::multicast_fx(
                away_listeners(st, chs[i as int].1.members, session@),
                line@,
            )));
        }
        i = i + 1;
    }
    assert(chs.take(i as int) =~= chs);
}

/// Handles a PRESENCE command, given the presence that it declares.
pub fn declare_presence(
    conn: &Connection,
    p: &AgentPresence,
    state: &mut ServerState,
    fx: &mut Vec<Effect>,
)
    ensures
        ({
            let r = presence_spec(old(state).deep_view(), conn.deep_view(), p.deep_view());
            &&& final(state).deep_view() == r.0
            &&& final(fx).deep_view() == old(fx).deep_view() + r.1
        }),
{
    broadcast use helpers::lemma_push_after, helpers::lemma_add_after;

    note_presence(state, conn.id.as_str(), p);
    let line = Line::new(":").add(conn.hostmask().as_str()).add(" AWAY :").add(
        write_presence(p).as_str(),
    ).add("\r\n").done();
    push_away_told(fx, state, conn.id.as_str(), line.as_str());
    let note = Line::new("Presence updated: ").add(p.state.as_str()).done();
    push_notice(fx, state, conn, note.as_str());
}

/// Handles a PRESENCE command at the Unix time `now`.
pub fn handle_presence(
    conn: &Connection,
    raw: &str,
    now: i64,
    state: &mut ServerState,
    fx: &mut Vec<Effect>,
)
    ensures
        ({
            let r = presence_spec(
                old(state).deep_view(),
                conn.deep_view(),
                declared_presence(raw@, now),
            );
            &&& final(state).deep_view() == r.0
            &&& final(fx).deep_view() == old(fx).deep_view() + r.1
        }),
{
    let p = read_presence(raw, now);
    declare_presence(conn, &p, state, fx);
}

// ── HEARTBEAT ───────────────────────────────────────────────────────

/// For how long a sign of life is good unless it says otherwise, in seconds.
pub const DEFAULT_TTL: u64 = 60;

/// The last state of the settings that is one.
pub open spec fn last_state(s: Seq<(Seq<char>, Seq<char>)>) -> PresenceState
    decreases s.len(),
{
    if s.len() == 0 {
        PresenceState::Active
    } else if s.last().0 == "state"@ && presence_of(s.last().1) is Some {
        presence_of(s.last().1)->0
    } else {
        last_state(s.drop_last())
    }
}

/// The last time to live of the settings that is one.
pub open spec fn last_ttl(s: Seq<(Seq<char>, Seq<char>)>) -> u64
    decreases s.len(),
{
    if s.len() == 0 {
        DEFAULT_TTL
    } else if s.last().0 == "ttl"@ && text::number_spec(s.last().1, u64::MAX as nat) is Some {
        text::number_spec(s.last().1, u64::MAX as nat)->0 as u64
    } else {
        last_ttl(s.drop_last())
    }
}

/// The state in which a session has given a sign of life.
pub open spec fn heartbeat_spec(
    st: ServerStateView,
    session: Seq<char>,
    raw: Seq<char>,
    now: i64,
) -> ServerStateView {
    let s = settings(text::split_spec(raw, ';'));
    ServerStateView {
        agent_heartbeats: containers::map_put(
            st.agent_heartbeats,
            session,
            HeartbeatView { at: now, ttl: last_ttl(s) },
        ),
        agent_presence: containers::map_put(
            st.agent_presence,
            session,
            AgentPresenceView {
                state: last_state(s),
                status: None,
                task: None,
                updated_at: now,
            },
        ),
        ..st
    }
}

/// State and time to live of a sign of life.
fn read_heartbeat(s: &Vec<(String, String)>) -> (r: (PresenceState, u64))
    ensures
        r.0 == last_state(s.deep_view()),
        r.1 == last_ttl(s.deep_view()),
{
    let ghost all = s.deep_view();
    let mut state = PresenceState::Active;
    let mut ttl: u64 = DEFAULT_TTL;
    let mut i: usize = 0;
    while i < s.len()
        invariant
            i <= all.len(),
            all == s.deep_view(),
            s@.len() == all.len(),
            state == last_state(all.take(i as int)),
            ttl == last_ttl(all.take(i as int)),
        decreases all.len() - i,
    {
        assert(all.take(i + 1).drop_last() =~= all.take(i as int));
        assert(all[i as int] == s@[i as int].deep_view());
        if str_eq(s[i].0.as_str(), "state") {
            if let Some(p) = PresenceState::parse(s[i].1.as_str()) {
                state = p;
            }
        }
        if str_eq(s[i].0.as_str(), "ttl") {
            if let Some(t) = parse_number(s[i].1.as_str(), u64::MAX) {
                ttl = t;
            }
        }
        i = i + 1;
    }
    assert(all.take(i as int) =~= all);
    (state, ttl)
}

/// Handles a HEARTBEAT command at the Unix time `now`.
pub fn handle_heartbeat(conn: &Connection, raw: &str, now: i64, state: &mut ServerState)
    ensures
        final(state).deep_view() == heartbeat_spec(
            old(state).deep_view(),
            conn.deep_view().id,
            raw@,
            now,
        ),
{
    let s = read_settings(raw);
    let (presence, ttl) = read_heartbeat(&s);
    state.agent_heartbeats.insert(conn.id.clone(), Heartbeat { at: now, ttl });
    state.agent_presence.insert(
        conn.id.clone(),
        AgentPresence { state: presence, status: None, task: None, updated_at: now },
    );
}

} // verus!
