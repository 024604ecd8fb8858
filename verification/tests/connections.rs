use base64::Engine;
use ed25519_dalek::Signer;
use freeq_server::connection::agent::{
    handle_agent, handle_heartbeat, handle_presence, handle_provenance, handle_register, read_presence, write_presence,
};
use freeq_server::connection::cap::{
    check_response, conclude_authenticate, find_handle, handle_authenticate, handle_cap, AuthAction, SaslOutcome,
};
use freeq_server::connection::channel::{
    channel_names, handle_invite, handle_kick, handle_list, handle_mode, handle_names, handle_part, handle_topic,
};
use freeq_server::connection::commands::{
    handle_ison, handle_msgsig, handle_oper, handle_pin, handle_pins, handle_time, handle_userhost,
};
use freeq_server::connection::departure::{disconnect, expire_ghost};
use freeq_server::connection::history::{handle_chathistory, partner_of, push_messages, HistoryPlan, HistoryQuery};
use freeq_server::connection::join::{handle_join, Membership, Policy};
use freeq_server::connection::messaging::{
    choose_signature, find_storage, find_tag_relay, handle_delete, handle_message, handle_privmsg, handle_tagmsg, resolve_signature,
    whom_to_ask, Consulted, Lookup, Route, Verdict,
};
use freeq_server::connection::nick::{detect_client, handle_nick, handle_user, is_valid_nick};
use freeq_server::connection::registration::{attach_same_did, random_guest, try_complete_registration};
use freeq_server::connection::requests::{
    handle_silence, read_request, refuse_long_line, screen, RateLimit, Request,
};
use freeq_server::connection::{cloaked_host_for_did, ActorClass, Connection, PresenceState};
use freeq_server::containers::StrMap;
use freeq_server::db::MessageRow;
use freeq_server::irc::Message;
use freeq_server::server::{normalize_channel, Effect, RemoteMember, S2sEvent, ServerState, StoreOp};
use freeq_server::time::{format_boot_time, format_clock, format_time_tag};

// ── Setting the scene ───────────────────────────────────────────────

const NOW: u64 = 1_700_000_000;

fn state() -> ServerState {
    ServerState::new("irc.example", [7u8; 32], NOW - 60)
}

fn user(st: &mut ServerState, id: &str, nick: &str, did: Option<&str>) -> Connection {
    let mut c = Connection::new(id.to_string());
    c.nick = Some(nick.to_string());
    c.user = Some("u".to_string());
    c.registered = true;
    st.connections.insert(id.to_string());
    st.set_nick(nick, id);
    if let Some(d) = did {
        c.authenticated_did = Some(d.to_string());
        st.session_dids.insert(id.to_string(), d.to_string());
    }
    c
}

fn enter(st: &mut ServerState, c: &Connection, channel: &str) -> Vec<Effect> {
    let mut fx = Vec::new();
    handle_join(c, channel, None, false, &None, NOW, "b1", st, &mut fx);
    fx
}

fn mode(st: &mut ServerState, c: &Connection, channel: &str, modes: &str, arg: Option<&str>) -> Vec<Effect> {
    let mut fx = Vec::new();
    handle_mode(c, channel, Some(modes), arg, NOW, st, &mut fx);
    fx
}

fn lines(fx: &Vec<Effect>, to: &str) -> Vec<String> {
    let mut out = Vec::new();
    for e in fx {
        if let Effect::Send { to: t, line } = e {
            if t == to {
                out.push(line.clone());
            }
        }
    }
    out
}

fn told(fx: &Vec<Effect>, to: &str, part: &str) -> bool {
    lines(fx, to).iter().any(|l| l.contains(part))
}

fn say(st: &mut ServerState, c: &Connection, command: &str, target: &str, body: &str, now_ms: u64) -> Vec<Effect> {
    let mut fx = Vec::new();
    let verdict = Verdict { suppress: false, rewrite_text: None };
    handle_message(
        c,
        command,
        target,
        body,
        &StrMap::new(),
        NOW,
        now_ms,
        "01MSG",
        &verdict,
        &Route::Unreachable,
        st,
        &mut fx,
    );
    fx
}

fn row(sender: &str, did: Option<&str>) -> MessageRow {
    MessageRow {
        id: 1,
        channel: "#a".to_string(),
        sender: sender.to_string(),
        text: "old".to_string(),
        timestamp: NOW,
        tags: StrMap::new(),
        msgid: Some("01MSG".to_string()),
        replaces_msgid: None,
        deleted_at: None,
        sender_did: did.map(|d| d.to_string()),
    }
}

// ── JOIN, MODE, KICK ────────────────────────────────────────────────

#[test]
fn creator_becomes_founder_and_operator() {
    let mut st = state();
    let alice = user(&mut st, "s1", "alice", Some("did:plc:alice"));
    let fx = enter(&mut st, &alice, "#a");
    let ch = st.channels.get("#a").unwrap();
    assert!(ch.members.contains("s1") && ch.ops.contains("s1"));
    assert_eq!(ch.founder_did.as_deref(), Some("did:plc:alice"));
    assert!(ch.did_ops.contains("did:plc:alice"));
    assert!(ch.no_ext_msg && ch.topic_locked);
    assert_eq!(ch.created_at, NOW);
    assert!(told(&fx, "s1", " JOIN #a"));
    assert!(told(&fx, "s1", " 353 "));
    assert!(told(&fx, "s1", " 366 "));
}

#[test]
fn a_second_user_is_no_operator() {
    let mut st = state();
    let alice = user(&mut st, "s1", "alice", None);
    let bob = user(&mut st, "s2", "bob", None);
    enter(&mut st, &alice, "#a");
    let fx = enter(&mut st, &bob, "#a");
    assert!(st.is_member("#a", "s2"));
    assert!(!st.is_op("#a", "s2"));
    assert!(told(&fx, "s1", ":bob!"));
}

#[test]
fn keys_bans_and_invitations_keep_users_out() {
    let mut st = state();
    let alice = user(&mut st, "s1", "alice", None);
    let bob = user(&mut st, "s2", "bob", None);
    enter(&mut st, &alice, "#a");
    mode(&mut st, &alice, "#a", "+k", Some("sesame"));
    let fx = enter(&mut st, &bob, "#a");
    assert!(told(&fx, "s2", " 475 "));
    assert!(!st.is_member("#a", "s2"));
    let mut fx = Vec::new();
    handle_join(&bob, "#a", Some("sesame"), true, &None, NOW, "b", &mut st, &mut fx);
    assert!(told(&fx, "s2", " 474 "));
    mode(&mut st, &alice, "#a", "-k", Some("sesame"));
    mode(&mut st, &alice, "#a", "+i", None);
    let fx = enter(&mut st, &bob, "#a");
    assert!(told(&fx, "s2", " 473 "));
    let mut fx = Vec::new();
    handle_invite(&alice, "bob", "#a", &mut st, &mut fx);
    assert!(told(&fx, "s2", "INVITE"));
    enter(&mut st, &bob, "#a");
    assert!(st.is_member("#a", "s2"));
}

#[test]
fn an_invitation_lets_in_once() {
    let mut st = state();
    let alice = user(&mut st, "s1", "alice", None);
    let bob = user(&mut st, "s2", "bob", None);
    enter(&mut st, &alice, "#a");
    mode(&mut st, &alice, "#a", "+i", None);
    let mut fx = Vec::new();
    handle_invite(&alice, "bob", "#a", &mut st, &mut fx);
    enter(&mut st, &bob, "#a");
    handle_part(&bob, "#a", &mut st, &mut fx);
    let fx = enter(&mut st, &bob, "#a");
    assert!(told(&fx, "s2", " 473 "));
}

#[test]
fn an_invitation_of_a_did_outlives_the_session() {
    let mut st = state();
    let alice = user(&mut st, "s1", "alice", None);
    let bob = user(&mut st, "s2", "bob", Some("did:plc:bob"));
    enter(&mut st, &alice, "#a");
    mode(&mut st, &alice, "#a", "+i", None);
    let mut fx = Vec::new();
    handle_invite(&alice, "bob", "#a", &mut st, &mut fx);
    let mut fx = Vec::new();
    disconnect(&bob, &mut st, &mut fx);
    let again = user(&mut st, "s3", "bob", Some("did:plc:bob"));
    enter(&mut st, &again, "#a");
    assert!(st.is_member("#a", "s3"));
}

#[test]
fn operators_are_known_by_their_did() {
    let mut st = state();
    let alice = user(&mut st, "s1", "alice", Some("did:plc:alice"));
    let bob = user(&mut st, "s2", "bob", Some("did:plc:bob"));
    enter(&mut st, &alice, "#a");
    enter(&mut st, &bob, "#a");
    mode(&mut st, &alice, "#a", "+o", Some("bob"));
    assert!(st.is_op("#a", "s2"));
    let mut fx = Vec::new();
    handle_part(&bob, "#a", &mut st, &mut fx);
    enter(&mut st, &bob, "#a");
    assert!(st.is_op("#a", "s2"));
}

#[test]
fn names_that_are_too_long_are_refused() {
    let mut st = state();
    let alice = user(&mut st, "s1", "alice", None);
    let long = format!("#{}", "x".repeat(64));
    let fx = enter(&mut st, &alice, &long);
    assert!(told(&fx, "s1", " 479 "));
    assert!(!st.channels.contains_key(&long));
}

#[test]
fn policies_give_and_refuse() {
    let mut st = state();
    let alice = user(&mut st, "s1", "alice", Some("did:plc:alice"));
    let bob = user(&mut st, "s2", "bob", Some("did:plc:bob"));
    let guest = user(&mut st, "s3", "guest", None);
    enter(&mut st, &alice, "#a");
    let missing = Some(Policy { has_role_requirements: true, membership: Membership::Missing });
    let mut fx = Vec::new();
    handle_join(&bob, "#a", None, false, &missing, NOW, "b", &mut st, &mut fx);
    assert!(told(&fx, "s2", " 477 "));
    let attested = Some(Policy { has_role_requirements: true, membership: Membership::Attested("op".to_string()) });
    handle_join(&bob, "#a", None, false, &attested, NOW, "b", &mut st, &mut fx);
    assert!(st.is_op("#a", "s2"));
    let mut fx = Vec::new();
    handle_join(&guest, "#a", None, false, &attested, NOW, "b", &mut st, &mut fx);
    assert!(told(&fx, "s3", " 477 "));
}

#[test]
fn founder_keeps_operator_status() {
    let mut st = state();
    let alice = user(&mut st, "s1", "alice", Some("did:plc:alice"));
    let bob = user(&mut st, "s2", "bob", Some("did:plc:bob"));
    enter(&mut st, &alice, "#a");
    enter(&mut st, &bob, "#a");
    mode(&mut st, &alice, "#a", "+o", Some("bob"));
    assert!(st.is_op("#a", "s2"));
    mode(&mut st, &bob, "#a", "-o", Some("alice"));
    assert!(st.is_op("#a", "s1"));
    mode(&mut st, &alice, "#a", "-o", Some("bob"));
    assert!(!st.is_op("#a", "s2"));
    assert!(!st.channels.get("#a").unwrap().did_ops.contains("did:plc:bob"));
}

#[test]
fn members_without_status_change_no_modes() {
    let mut st = state();
    let alice = user(&mut st, "s1", "alice", None);
    let bob = user(&mut st, "s2", "bob", None);
    enter(&mut st, &alice, "#a");
    enter(&mut st, &bob, "#a");
    let fx = mode(&mut st, &bob, "#a", "+m", None);
    assert!(told(&fx, "s2", " 482 "));
    assert!(!st.channels.get("#a").unwrap().moderated);
    mode(&mut st, &alice, "#a", "+h", Some("bob"));
    let fx = mode(&mut st, &bob, "#a", "+m", None);
    assert!(told(&fx, "s2", " 482 "));
    mode(&mut st, &bob, "#a", "+v", Some("alice"));
    assert!(st.channels.get("#a").unwrap().voiced.contains("s1"));
}

#[test]
fn moderators_only_moderate() {
    let mut st = state();
    let alice = user(&mut st, "s1", "alice", None);
    let bob = user(&mut st, "s2", "bob", None);
    let carol = user(&mut st, "s3", "carol", None);
    for c in [&alice, &bob, &carol] {
        enter(&mut st, c, "#a");
    }
    mode(&mut st, &alice, "#a", "+h", Some("bob"));
    let fx = mode(&mut st, &bob, "#a", "+b", Some("*!*@evil"));
    assert!(told(&fx, "s2", "Moderators can only set +v/-v"));
    assert!(st.channels.get("#a").unwrap().bans.is_empty());
    mode(&mut st, &alice, "#a", "+b", Some("*!*@evil"));
    assert!(told(&mode(&mut st, &bob, "#a", "+b", None), "s2", "*!*@evil"));
    let ch = st.channels.get_mut("#a").unwrap();
    ch.did_ops.insert("did:plc:erin".to_string());
    ch.remote_members.insert("dave".to_string(), RemoteMember { is_op: true, did: None });
    ch.remote_members.insert("erin".to_string(), RemoteMember { is_op: false, did: Some("did:plc:erin".to_string()) });
    ch.remote_members.insert("frank".to_string(), RemoteMember { is_op: false, did: None });
    for nick in ["alice", "dave", "erin"] {
        let mut fx = Vec::new();
        handle_kick(&bob, "#a", nick, "no", &mut st, &mut fx);
        assert!(told(&fx, "s2", "Cannot kick a channel operator or moderator"));
    }
    for nick in ["carol", "frank"] {
        let mut fx = Vec::new();
        handle_kick(&bob, "#a", nick, "bye", &mut st, &mut fx);
        assert!(told(&fx, "s1", " KICK #a "));
    }
    assert!(st.is_member("#a", "s1") && !st.is_member("#a", "s3"));
    assert_eq!(st.channels.get("#a").unwrap().remote_members.len(), 2);
}

#[test]
fn ban_masks_are_listed_once() {
    let mut st = state();
    let alice = user(&mut st, "s1", "alice", None);
    enter(&mut st, &alice, "#a");
    mode(&mut st, &alice, "#a", "+b", Some("bad!*@*"));
    mode(&mut st, &alice, "#a", "+b", Some("bad!*@*"));
    assert_eq!(st.channels.get("#a").unwrap().bans.len(), 1);
    let fx = mode(&mut st, &alice, "#a", "+b", None);
    assert!(told(&fx, "s1", " 367 "));
    assert!(told(&fx, "s1", " 368 "));
    mode(&mut st, &alice, "#a", "-b", Some("bad!*@*"));
    assert!(st.channels.get("#a").unwrap().bans.is_empty());
}

#[test]
fn modes_are_shown_and_unknown_ones_told() {
    let mut st = state();
    let alice = user(&mut st, "s1", "alice", None);
    enter(&mut st, &alice, "#a");
    let mut fx = Vec::new();
    handle_mode(&alice, "#a", None, None, NOW, &mut st, &mut fx);
    assert!(told(&fx, "s1", " 324 alice #a +nt"));
    let fx = mode(&mut st, &alice, "#a", "+z", None);
    assert!(told(&fx, "s1", " 472 "));
    let fx = mode(&mut st, &alice, "#a", "+o", None);
    assert!(told(&fx, "s1", " 461 "));
    let fx = mode(&mut st, &alice, "#a", "+o", Some("nobody"));
    assert!(told(&fx, "s1", " 441 "));
}

#[test]
fn kicked_users_are_out_of_everything() {
    let mut st = state();
    let alice = user(&mut st, "s1", "alice", None);
    let bob = user(&mut st, "s2", "bob", None);
    enter(&mut st, &alice, "#a");
    enter(&mut st, &bob, "#a");
    mode(&mut st, &alice, "#a", "+o", Some("bob"));
    let mut fx = Vec::new();
    handle_kick(&alice, "#a", "Bob", "bye", &mut st, &mut fx);
    assert!(!st.is_member("#a", "s2") && !st.is_op("#a", "s2"));
    assert!(st.is_member("#a", "s1"));
    assert!(told(&fx, "s2", " KICK #a Bob :bye"));
    let mut fx = Vec::new();
    handle_kick(&bob, "#a", "alice", "no", &mut st, &mut fx);
    assert!(told(&fx, "s2", " 442 "));
    let mut fx = Vec::new();
    handle_kick(&alice, "#a", "carol", "no", &mut st, &mut fx);
    assert!(told(&fx, "s1", " 441 "));
}

#[test]
fn locked_topics_are_for_operators() {
    let mut st = state();
    let alice = user(&mut st, "s1", "alice", None);
    let bob = user(&mut st, "s2", "bob", None);
    enter(&mut st, &alice, "#a");
    enter(&mut st, &bob, "#a");
    let mut fx = Vec::new();
    handle_topic(&bob, "#a", Some("mine"), NOW, &mut st, &mut fx);
    assert!(told(&fx, "s2", " 482 "));
    let mut fx = Vec::new();
    handle_topic(&alice, "#a", Some("hello"), NOW, &mut st, &mut fx);
    assert!(told(&fx, "s2", " TOPIC #a :hello"));
    let mut fx = Vec::new();
    handle_topic(&bob, "#a", None, NOW, &mut st, &mut fx);
    assert!(told(&fx, "s2", " 332 bob #a hello") || told(&fx, "s2", " 332 bob #a :hello"));
}

#[test]
fn topics_are_told_to_members_and_peers() {
    let mut st = state();
    let alice = user(&mut st, "s1", "alice", None);
    enter(&mut st, &alice, "#a");
    let mut fx = Vec::new();
    handle_topic(&alice, "#a", Some("hello"), NOW, &mut st, &mut fx);
    assert!(fx.iter().any(|e| matches!(
        e,
        Effect::S2s(S2sEvent::Topic { channel, topic, .. }) if channel == "#a" && topic == "hello"
    )));
}

#[test]
fn names_and_list_show_the_channel() {
    let mut st = state();
    let alice = user(&mut st, "s1", "alice", None);
    let bob = user(&mut st, "s2", "bob", None);
    enter(&mut st, &alice, "#a");
    enter(&mut st, &bob, "#a");
    assert_eq!(channel_names(&st, "#a", false), vec!["@alice".to_string(), "bob".to_string()]);
    let mut fx = Vec::new();
    handle_names(&bob, "#a", &st, &mut fx);
    assert!(told(&fx, "s2", "@alice bob"));
    let mut fx = Vec::new();
    handle_list(&bob, &st, &mut fx);
    assert!(told(&fx, "s2", " 322 bob #a 2 "));
}

// ── Messages ────────────────────────────────────────────────────────

#[test]
fn names_show_remote_members() {
    let mut st = state();
    let alice = user(&mut st, "s1", "alice", None);
    enter(&mut st, &alice, "#a");
    let ch = st.channels.get_mut("#a").unwrap();
    ch.remote_members.insert("dave".to_string(), RemoteMember { is_op: true, did: None });
    ch.remote_members.insert("erin".to_string(), RemoteMember { is_op: false, did: None });
    assert_eq!(channel_names(&st, "#a", false), vec!["@alice".to_string(), "@dave".to_string(), "erin".to_string()]);
}

#[test]
fn messages_reach_the_others() {
    let mut st = state();
    let alice = user(&mut st, "s1", "alice", None);
    let bob = user(&mut st, "s2", "bob", None);
    enter(&mut st, &alice, "#a");
    enter(&mut st, &bob, "#a");
    let fx = say(&mut st, &alice, "PRIVMSG", "#a", "hi", 10_000);
    assert!(told(&fx, "s2", " PRIVMSG #a :hi") || told(&fx, "s2", " PRIVMSG #a hi"));
    assert!(lines(&fx, "s1").is_empty());
    let ch = st.channels.get("#a").unwrap();
    assert_eq!(ch.history.len(), 1);
    assert_eq!(ch.history[0].text, "hi");
    assert!(fx.iter().any(|e| matches!(e, Effect::Store(StoreOp::InsertMessage { .. }))));
}

#[test]
fn outsiders_and_unencrypted_text_are_refused() {
    let mut st = state();
    let alice = user(&mut st, "s1", "alice", None);
    let bob = user(&mut st, "s2", "bob", None);
    enter(&mut st, &alice, "#a");
    let fx = say(&mut st, &bob, "PRIVMSG", "#a", "hi", 10_000);
    assert!(told(&fx, "s2", " 404 ") && told(&fx, "s2", "(+n)"));
    let fx = say(&mut st, &bob, "NOTICE", "#a", "hi", 20_000);
    assert!(fx.is_empty());
    enter(&mut st, &bob, "#a");
    mode(&mut st, &alice, "#a", "+m", None);
    let fx = say(&mut st, &bob, "PRIVMSG", "#a", "hi", 30_000);
    assert!(told(&fx, "s2", "(+m)"));
    mode(&mut st, &alice, "#a", "+E", None);
    let fx = say(&mut st, &alice, "PRIVMSG", "#a", "hi", 40_000);
    assert!(told(&fx, "s1", "(+E)"));
    assert!(st.channels.get("#a").unwrap().history.is_empty());
}

#[test]
fn floods_are_stopped() {
    let mut st = state();
    let alice = user(&mut st, "s1", "alice", None);
    enter(&mut st, &alice, "#a");
    for i in 0..5 {
        say(&mut st, &alice, "PRIVMSG", "#a", "hi", 10_000 + i);
    }
    let fx = say(&mut st, &alice, "PRIVMSG", "#a", "hi", 10_010);
    assert!(told(&fx, "s1", "Flood protection"));
    assert_eq!(st.channels.get("#a").unwrap().history.len(), 5);
    say(&mut st, &alice, "PRIVMSG", "#a", "hi", 12_100);
    assert_eq!(st.channels.get("#a").unwrap().history.len(), 6);
}

#[test]
fn a_channel_keeps_its_newest_messages() {
    let mut st = state();
    let alice = user(&mut st, "s1", "alice", None);
    enter(&mut st, &alice, "#a");
    for i in 0..103u64 {
        say(&mut st, &alice, "PRIVMSG", "#a", &format!("m{i}"), 10_000 * i);
    }
    let ch = st.channels.get("#a").unwrap();
    assert_eq!(ch.history.len(), 100);
    assert_eq!(ch.history[0].text, "m3");
    assert_eq!(ch.history[99].text, "m102");
}

#[test]
fn history_is_replayed_to_who_enters() {
    let mut st = state();
    let alice = user(&mut st, "s1", "alice", None);
    let bob = user(&mut st, "s2", "bob", None);
    enter(&mut st, &alice, "#a");
    say(&mut st, &alice, "PRIVMSG", "#a", "first", 0);
    say(&mut st, &alice, "PRIVMSG", "#a", "second", 1);
    st.cap_batch.insert("s2".to_string());
    let fx = enter(&mut st, &bob, "#a");
    assert!(told(&fx, "s2", "BATCH +histb1 chathistory #a"));
    assert!(told(&fx, "s2", "PRIVMSG #a :first"));
    assert!(told(&fx, "s2", "PRIVMSG #a :second"));
    assert!(!told(&fx, "s1", "first"));
}

#[test]
fn tags_are_for_those_who_understand_them() {
    let mut st = state();
    let alice = user(&mut st, "s1", "alice", None);
    let bob = user(&mut st, "s2", "bob", None);
    let carol = user(&mut st, "s3", "carol", None);
    for c in [&alice, &bob, &carol] {
        enter(&mut st, c, "#a");
    }
    st.cap_message_tags.insert("s3".to_string());
    let mut tags = StrMap::new();
    tags.insert("media-url".to_string(), "https://x".to_string());
    let verdict = Verdict { suppress: false, rewrite_text: None };
    let mut fx = Vec::new();
    handle_message(
        &alice,
        "PRIVMSG",
        "#a",
        "Sunset",
        &tags,
        NOW,
        0,
        "01MSG",
        &verdict,
        &Route::Unreachable,
        &mut st,
        &mut fx,
    );
    assert_eq!(lines(&fx, "s2"), vec![":alice!u@freeq/guest PRIVMSG #a :Sunset\r\n".to_string()]);
    assert!(told(&fx, "s3", "media-url=https://x"));
    assert!(told(&fx, "s3", "Sunset"));
}

#[test]
fn a_plugin_can_suppress_and_rewrite() {
    let mut st = state();
    let alice = user(&mut st, "s1", "alice", None);
    enter(&mut st, &alice, "#a");
    let mut fx = Vec::new();
    let stop = Verdict { suppress: true, rewrite_text: None };
    handle_message(&alice, "PRIVMSG", "#a", "x", &StrMap::new(), NOW, 1, "m", &stop, &Route::Relayed, &mut st, &mut fx);
    assert!(fx.is_empty());
    let other = Verdict { suppress: false, rewrite_text: Some("y".to_string()) };
    handle_message(&alice, "PRIVMSG", "#a", "x", &StrMap::new(), NOW, 2, "m", &other, &Route::Relayed, &mut st, &mut fx);
    assert_eq!(st.channels.get("#a").unwrap().history[0].text, "y");
}

#[test]
fn refused_messages_are_neither_shown_nor_relayed() {
    let mut st = state();
    let alice = user(&mut st, "s1", "alice", None);
    let bob = user(&mut st, "s2", "bob", None);
    enter(&mut st, &alice, "#a");
    let none = Lookup { by_target: None, by_dm: None, anywhere: None };
    let tags = StrMap::new();
    assert_eq!(whom_to_ask(&alice, "#a", &tags, 0, &none, &st), Consulted::Plugins);
    assert_eq!(whom_to_ask(&bob, "#a", &tags, 0, &none, &st), Consulted::Nobody);
    assert_eq!(whom_to_ask(&bob, "alice", &tags, 0, &none, &st), Consulted::Router);
    let edit = edit_tags("01MSG");
    assert_eq!(whom_to_ask(&bob, "alice", &edit, 0, &none, &st), Consulted::Nobody);
    let mine = Lookup { by_target: None, by_dm: None, anywhere: Some(row("bob!u@h", None)) };
    assert_eq!(whom_to_ask(&bob, "alice", &edit, 0, &mine, &st), Consulted::Router);
    assert_eq!(whom_to_ask(&alice, "bob", &edit, 0, &mine, &st), Consulted::Nobody);
    for _ in 0..5 {
        say(&mut st, &bob, "PRIVMSG", "alice", "x", 1000);
    }
    assert_eq!(whom_to_ask(&bob, "alice", &tags, 1000, &none, &st), Consulted::Nobody);
    assert_eq!(whom_to_ask(&bob, "alice", &tags, 3000, &none, &st), Consulted::Router);
}

#[test]
fn reactions_are_relayed_as_text() {
    let mut st = state();
    let alice = user(&mut st, "s1", "alice", None);
    let mut tags = StrMap::new();
    assert!(find_tag_relay(&alice, "bob", &tags).is_none());
    tags.insert("+typing".to_string(), "active".to_string());
    assert_eq!(find_tag_relay(&alice, "bob", &tags).as_deref(), Some(""));
    tags.insert("+react".to_string(), "+1".to_string());
    let line = find_tag_relay(&alice, "bob", &tags).unwrap();
    assert!(line.contains("PRIVMSG bob :\u{1}ACTION reacted with +1\u{1}"));
    assert!(find_tag_relay(&alice, "#a", &tags).is_none());
}

#[test]
fn private_messages_take_their_route() {
    let mut st = state();
    let alice = user(&mut st, "s1", "alice", None);
    let _bob = user(&mut st, "s2", "bob", None);
    let verdict = Verdict { suppress: false, rewrite_text: None };
    let mut fx = Vec::new();
    let route = Route::Local("s2".to_string());
    handle_message(&alice, "PRIVMSG", "bob", "psst", &StrMap::new(), NOW, 1, "m", &verdict, &route, &mut st, &mut fx);
    assert!(told(&fx, "s2", "psst"));
    let fx = say(&mut st, &alice, "PRIVMSG", "nobody", "psst", 2);
    assert!(told(&fx, "s1", " 401 "));
}

#[test]
fn notices_bring_no_error_replies() {
    let mut st = state();
    let alice = user(&mut st, "s1", "alice", None);
    assert!(say(&mut st, &alice, "NOTICE", "nobody", "psst", 1).is_empty());
    assert!(say(&mut st, &alice, "NOTICE", "#nowhere", "psst", 2).is_empty());
    for at in 3..6 {
        say(&mut st, &alice, "NOTICE", "nobody", "psst", at);
    }
    assert!(say(&mut st, &alice, "NOTICE", "nobody", "psst", 7).is_empty());
    assert!(told(&say(&mut st, &alice, "PRIVMSG", "nobody", "psst", 8), "s1", "Flood protection"));
    assert!(edit_as("NOTICE", &mut st, &alice, None).is_empty());
    let theirs = row("bob!u@h", Some("did:plc:bob"));
    assert!(edit_as("NOTICE", &mut st, &alice, Some(theirs)).is_empty());
}

#[test]
fn private_messages_are_deleted_where_they_are_kept() {
    let mut st = state();
    let alice = user(&mut st, "s1", "alice", Some("did:plc:alice"));
    let _bob = user(&mut st, "s2", "bob", Some("did:plc:bob"));
    st.nick_owners.insert("bob".to_string(), "did:plc:bob".to_string());
    let key = "dm:did:plc:alice,did:plc:bob";
    let fx = say(&mut st, &alice, "PRIVMSG", "bob", "old", 1);
    assert!(fx.iter().any(|e| matches!(e, Effect::Store(StoreOp::InsertMessage { channel, .. }) if channel == key)));
    assert_eq!(find_storage(&st, &alice, "bob"), key);
    assert_eq!(find_storage(&st, &alice, "#a"), "#a");
    let mut fx = Vec::new();
    handle_delete(&alice, "bob", "01MSG", &Some(row("alice!u@h", Some("did:plc:alice"))), &mut st, &mut fx);
    assert!(fx.iter().any(
        |e| matches!(e, Effect::Store(StoreOp::SoftDelete { channel, msgid }) if channel == key && msgid == "01MSG")
    ));
}

fn edit_tags(msgid: &str) -> StrMap<String> {
    let mut tags = StrMap::new();
    tags.insert("+draft/edit".to_string(), msgid.to_string());
    tags
}

fn edit(st: &mut ServerState, c: &Connection, found: Option<MessageRow>) -> Vec<Effect> {
    edit_as("PRIVMSG", st, c, found)
}

fn edit_as(command: &str, st: &mut ServerState, c: &Connection, found: Option<MessageRow>) -> Vec<Effect> {
    let mut fx = Vec::new();
    let verdict = Verdict { suppress: false, rewrite_text: None };
    let found = Lookup { by_target: found, by_dm: None, anywhere: None };
    handle_privmsg(
        c,
        command,
        "#a",
        "new",
        &edit_tags("01MSG"),
        NOW,
        99_000,
        "02MSG",
        &verdict,
        &found,
        &Route::Unreachable,
        st,
        &mut fx,
    );
    fx
}

#[test]
fn events_of_agents_are_stored() {
    let mut st = state();
    let bot = user(&mut st, "s1", "bot", Some("did:plc:bot"));
    let guest = user(&mut st, "s2", "guest", None);
    enter(&mut st, &bot, "#a");
    enter(&mut st, &guest, "#a");
    let mut tags = StrMap::new();
    tags.insert("+freeq.at/event".to_string(), "task_request".to_string());
    tags.insert("+freeq.at/payload".to_string(), "%7B%22a%22%3A1%7D".to_string());
    tags.insert("+freeq.at/task-id".to_string(), "t1".to_string());
    let mut fx = Vec::new();
    handle_tagmsg(&bot, "#a", &tags, NOW, 5, "01NEW", &None, &Route::Unreachable, &mut st, &mut fx);
    let mut stored = 0;
    for e in &fx {
        if let Effect::Store(StoreOp::CoordinationEvent(row)) = e {
            stored += 1;
            assert_eq!(row.event_id, "01NEW");
            assert_eq!(row.event_type, "task_request");
            assert_eq!(row.actor_did, "did:plc:bot");
            assert_eq!(row.ref_id.as_deref(), Some("t1"));
            assert_eq!(row.payload_json, "{\"a\":1}");
            assert_eq!(row.timestamp, 5);
        }
    }
    assert_eq!(stored, 1);
    let mut fx = Vec::new();
    handle_tagmsg(&guest, "#a", &tags, NOW, 5, "01NEW", &None, &Route::Unreachable, &mut st, &mut fx);
    assert!(!fx.iter().any(|e| matches!(e, Effect::Store(StoreOp::CoordinationEvent(_)))));
}

#[test]
fn only_authors_edit() {
    let mut st = state();
    let alice = user(&mut st, "s1", "alice", Some("did:plc:alice"));
    let bob = user(&mut st, "s2", "bob", None);
    enter(&mut st, &alice, "#a");
    enter(&mut st, &bob, "#a");
    say(&mut st, &alice, "PRIVMSG", "#a", "old", 10_000);
    let fx = edit(&mut st, &bob, Some(row("alice!u@h", Some("did:plc:alice"))));
    assert!(told(&fx, "s2", "AUTHOR_MISMATCH"));
    assert_eq!(st.channels.get("#a").unwrap().history[0].text, "old");
    let fx = edit(&mut st, &alice, Some(row("alice!u@h", Some("did:plc:alice"))));
    assert!(fx.iter().any(|e| matches!(e, Effect::Store(StoreOp::InsertEdit { .. }))));
    assert_eq!(st.channels.get("#a").unwrap().history[0].text, "new");
    let fx = edit(&mut st, &alice, None);
    assert!(told(&fx, "s1", "MESSAGE_NOT_FOUND"));
}

#[test]
fn a_nick_is_not_enough_for_the_message_of_a_did() {
    let mut st = state();
    let alice = user(&mut st, "s1", "alice", None);
    enter(&mut st, &alice, "#a");
    let fx = edit(&mut st, &alice, Some(row("alice!u@h", Some("did:plc:alice"))));
    assert!(told(&fx, "s1", "AUTHOR_MISMATCH"));
}

#[test]
fn authors_and_operators_delete() {
    let mut st = state();
    let alice = user(&mut st, "s1", "alice", None);
    let bob = user(&mut st, "s2", "bob", None);
    let carol = user(&mut st, "s3", "carol", None);
    for c in [&alice, &bob, &carol] {
        enter(&mut st, c, "#a");
    }
    say(&mut st, &bob, "PRIVMSG", "#a", "old", 10_000);
    let mut fx = Vec::new();
    handle_delete(&carol, "#a", "01MSG", &Some(row("bob!u@h", None)), &mut st, &mut fx);
    assert!(told(&fx, "s3", "AUTHOR_MISMATCH"));
    assert_eq!(st.channels.get("#a").unwrap().history.len(), 1);
    let mut fx = Vec::new();
    handle_delete(&alice, "#a", "01MSG", &Some(row("bob!u@h", None)), &mut st, &mut fx);
    assert!(st.channels.get("#a").unwrap().history.is_empty());
    assert!(fx.iter().any(|e| matches!(e, Effect::Store(StoreOp::SoftDelete { .. }))));
}

// ── Signatures ──────────────────────────────────────────────────────

#[test]
fn the_server_signs_for_authenticated_users() {
    let mut st = state();
    let alice = user(&mut st, "s1", "alice", Some("did:plc:alice"));
    let guest = user(&mut st, "s2", "guest", None);
    let a = resolve_signature(&alice, "#a", "hi", NOW, None, &st).unwrap();
    let b = resolve_signature(&alice, "#a", "ho", NOW, None, &st).unwrap();
    assert_ne!(a, b);
    assert_eq!(a.len(), 86);
    assert_eq!(resolve_signature(&alice, "#a", "hi", NOW, None, &st).unwrap(), a);
    assert!(resolve_signature(&guest, "#a", "hi", NOW, None, &st).is_none());
}

#[test]
fn a_valid_signature_of_the_client_is_kept() {
    let mut st = state();
    let alice = user(&mut st, "s1", "alice", Some("did:plc:alice"));
    let key = ed25519_dalek::SigningKey::from_bytes(&[9u8; 32]);
    st.session_msg_keys.insert("s1".to_string(), key.verifying_key().to_bytes());
    let form = format!("did:plc:alice\0#a\0hi\0{NOW}");
    let sig = base64::engine::general_purpose::URL_SAFE_NO_PAD.encode(key.sign(form.as_bytes()).to_bytes());
    let own = resolve_signature(&alice, "#a", "hi", NOW, None, &st).unwrap();
    assert_eq!(resolve_signature(&alice, "#a", "hi", NOW, Some(&sig), &st).unwrap(), sig);
    // The same signature under another text, and no signature at all.
    assert_ne!(resolve_signature(&alice, "#a", "ho", NOW, Some(&sig), &st).unwrap(), sig);
    assert_eq!(resolve_signature(&alice, "#a", "hi", NOW, Some("AAAA"), &st).unwrap(), own);
    // The server's own signature is that of its key.
    let server = ed25519_dalek::SigningKey::from_bytes(&[7u8; 32]);
    let want = base64::engine::general_purpose::URL_SAFE_NO_PAD.encode(server.sign(form.as_bytes()).to_bytes());
    assert_eq!(own, want);
}

#[test]
fn signatures_are_chosen() {
    assert_eq!(choose_signature(Some("c"), true, "s".to_string()), "c");
    assert_eq!(choose_signature(Some("c"), false, "s".to_string()), "s");
    assert_eq!(choose_signature(None, false, "s".to_string()), "s");
}

#[test]
fn signing_keys_are_checked() {
    let mut st = state();
    let alice = user(&mut st, "s1", "alice", Some("did:plc:alice"));
    let guest = user(&mut st, "s2", "guest", None);
    let mut fx = Vec::new();
    handle_msgsig(&guest, Some("AAAA"), &mut st, &mut fx);
    assert!(told(&fx, "s2", "FAIL"));
    let mut fx = Vec::new();
    handle_msgsig(&alice, Some("AAAA"), &mut st, &mut fx);
    assert!(told(&fx, "s1", "FAIL"));
    let mut fx = Vec::new();
    // The base point of the curve.
    handle_msgsig(&alice, Some("WGZmZmZmZmZmZmZmZmZmZmZmZmZmZmZmZmZmZmZmZmY"), &mut st, &mut fx);
    assert!(st.session_msg_keys.contains_key("s1"));
}

// ── Pins ────────────────────────────────────────────────────────────

#[test]
fn operators_pin_and_unpin() {
    let mut st = state();
    let alice = user(&mut st, "s1", "alice", None);
    let bob = user(&mut st, "s2", "bob", None);
    enter(&mut st, &alice, "#a");
    enter(&mut st, &bob, "#a");
    let mut fx = Vec::new();
    handle_pin(&bob, "#a", "m1", true, NOW, &mut st, &mut fx);
    assert!(told(&fx, "s2", " 482 "));
    for i in 0..52 {
        handle_pin(&alice, "#a", &format!("m{i}"), true, NOW, &mut st, &mut fx);
    }
    assert_eq!(st.channels.get("#a").unwrap().pins.len(), 50);
    assert_eq!(st.channels.get("#a").unwrap().pins[0].msgid, "m51");
    handle_pin(&alice, "#a", "m51", false, NOW, &mut st, &mut fx);
    assert_eq!(st.channels.get("#a").unwrap().pins.len(), 49);
    let mut fx = Vec::new();
    handle_pins(&bob, "#a", &st, &mut fx);
    assert!(told(&fx, "s2", "m50"));
}

// ── Registration and nicks ──────────────────────────────────────────

#[test]
fn nick_and_user_complete_registration() {
    let mut st = state();
    let mut c = Connection::new("s1".to_string());
    let mut fx = Vec::new();
    handle_nick(&mut c, "alice", NOW, &mut st, &mut fx);
    assert!(!c.registered);
    handle_user(&mut c, "a", "Alice", NOW, &mut st, &mut fx);
    assert!(c.registered);
    assert!(told(&fx, "s1", " 001 alice "));
    assert_eq!(st.session_of("ALICE").map(|s| s.as_str()), Some("s1"));
    let before = fx.len();
    try_complete_registration(&mut c, NOW, &mut st, &mut fx);
    assert_eq!(fx.len(), before);
}

#[test]
fn negotiation_holds_registration() {
    let mut st = state();
    let mut c = Connection::new("s1".to_string());
    let mut fx = Vec::new();
    handle_cap(&mut c, &Message::parse("CAP LS 302").unwrap(), NOW, &mut st, &mut fx);
    assert!(told(&fx, "s1", "sasl"));
    handle_nick(&mut c, "alice", NOW, &mut st, &mut fx);
    handle_user(&mut c, "a", "Alice", NOW, &mut st, &mut fx);
    assert!(!c.registered);
    handle_cap(&mut c, &Message::parse("CAP REQ :server-time batch").unwrap(), NOW, &mut st, &mut fx);
    assert!(told(&fx, "s1", "ACK"));
    assert!(st.cap_server_time.contains("s1") && st.cap_batch.contains("s1"));
    handle_cap(&mut c, &Message::parse("CAP REQ :no-such-cap").unwrap(), NOW, &mut st, &mut fx);
    assert!(told(&fx, "s1", "NAK"));
    let mut fx = Vec::new();
    handle_cap(&mut c, &Message::parse("CAP REQ :message-tags no-such-cap echo-message").unwrap(), NOW, &mut st, &mut fx);
    assert_eq!(lines(&fx, "s1"), vec![":irc.example CAP alice NAK :message-tags no-such-cap echo-message\r\n"]);
    assert!(!st.cap_message_tags.contains("s1") && !st.cap_echo_message.contains("s1"));
    assert!(!c.caps.contains("message-tags") && c.caps.contains("batch"));
    handle_cap(&mut c, &Message::parse("CAP END").unwrap(), NOW, &mut st, &mut fx);
    assert!(c.registered);
}

#[test]
fn nicks_are_checked() {
    assert!(is_valid_nick("alice"));
    assert!(!is_valid_nick(""));
    assert!(!is_valid_nick("#alice"));
    assert!(!is_valid_nick("al ice"));
    let mut st = state();
    let _alice = user(&mut st, "s1", "alice", None);
    let mut c = Connection::new("s2".to_string());
    let mut fx = Vec::new();
    handle_nick(&mut c, "Alice", NOW, &mut st, &mut fx);
    assert!(told(&fx, "s2", " 433 "));
    let mut fx = Vec::new();
    handle_nick(&mut c, "#x", NOW, &mut st, &mut fx);
    assert!(told(&fx, "s2", " 432 "));
}

#[test]
fn a_nick_that_belongs_to_a_did_is_given_up() {
    let mut st = state();
    st.nick_owners.insert("alice".to_string(), "did:plc:alice".to_string());
    let mut c = Connection::new("s1".to_string());
    let mut fx = Vec::new();
    handle_nick(&mut c, "alice", NOW, &mut st, &mut fx);
    handle_user(&mut c, "a", "A", NOW, &mut st, &mut fx);
    assert_ne!(c.nick.as_deref(), Some("alice"));
}

#[test]
fn a_nick_of_another_did_is_refused() {
    let mut st = state();
    st.nick_owners.insert("alice".to_string(), "did:plc:alice".to_string());
    let mut c = user(&mut st, "s1", "bob", Some("did:plc:bob"));
    let mut fx = Vec::new();
    handle_nick(&mut c, "Alice", NOW, &mut st, &mut fx);
    assert!(told(&fx, "s1", " 433 "));
    assert_eq!(c.nick.as_deref(), Some("bob"));
    assert!(st.session_of("alice").is_none());
}

#[test]
fn guest_numbers_have_five_digits_at_most() {
    for _ in 0..20 {
        assert!(random_guest() < 100000);
    }
}

#[test]
fn clients_are_known_by_their_names() {
    assert_ne!(detect_client("irssi 1.4"), "");
    assert_ne!(detect_client("something else"), detect_client("irssi 1.4"));
}

#[test]
fn hosts_are_cloaked() {
    assert_eq!(cloaked_host_for_did(None), "freeq/guest");
    let a = cloaked_host_for_did(Some("did:plc:abcdefghij"));
    assert!(a.starts_with("freeq/plc/"));
    assert!(!a.contains("abcdefghij"));
}

// ── Authentication ──────────────────────────────────────────────────

#[test]
fn authentication_goes_step_by_step() {
    let mut st = state();
    let mut c = Connection::new("s1".to_string());
    let mut fx = Vec::new();
    assert_eq!(handle_authenticate(&mut c, "PLAIN", &st, &mut fx), AuthAction::Nothing);
    assert!(told(&fx, "s1", " 904 "));
    assert_eq!(handle_authenticate(&mut c, "ATPROTO-CHALLENGE", &st, &mut fx), AuthAction::Challenge);
    assert_eq!(handle_authenticate(&mut c, "cmVzcG9uc2U", &st, &mut fx), AuthAction::Check);
    let verified = check_response(&Some(None), &None, true);
    assert!(verified.is_none());
    let mut fx = Vec::new();
    conclude_authenticate(&mut c, &SaslOutcome::Verified("did:plc:alice".to_string()), &mut st, &mut fx);
    assert_eq!(c.authenticated_did.as_deref(), Some("did:plc:alice"));
    assert!(told(&fx, "s1", " 903 "));
    assert!(told(&fx, "s1", " 900 "));
}

#[test]
fn three_failures_close_the_connection() {
    let mut st = state();
    let mut c = Connection::new("s1".to_string());
    st.connections.insert("s1".to_string());
    let mut fx = Vec::new();
    for _ in 0..3 {
        conclude_authenticate(&mut c, &SaslOutcome::Rejected("no".to_string()), &mut st, &mut fx);
    }
    assert!(fx.iter().any(|e| matches!(e, Effect::Close { .. })));
    assert!(!st.connections.contains("s1"));
    let mut fx = Vec::new();
    assert_eq!(handle_authenticate(&mut c, "ATPROTO-CHALLENGE", &st, &mut fx), AuthAction::Nothing);
    assert!(fx.is_empty());
}

#[test]
fn responses_are_checked_before_they_are_verified() {
    assert!(matches!(check_response(&None, &None, true), Some(SaslOutcome::BadResponse)));
    assert!(matches!(check_response(&Some(None), &None, false), Some(SaslOutcome::NoChallenge)));
}

#[test]
fn handles_are_read_from_names() {
    assert_eq!(find_handle(&vec!["https://x".to_string(), "at://alice.example".to_string()]).as_deref(), Some("alice.example"));
    assert!(find_handle(&vec![]).is_none());
}

#[test]
fn sessions_of_one_user_share_channels() {
    let mut st = state();
    let mut a = user(&mut st, "s1", "alice", Some("did:plc:alice"));
    let mut fx = Vec::new();
    attach_same_did(&mut a, &mut st, &mut fx);
    enter(&mut st, &a, "#a");
    let mut b = Connection::new("s2".to_string());
    b.nick = Some("alice".to_string());
    b.authenticated_did = Some("did:plc:alice".to_string());
    st.session_dids.insert("s2".to_string(), "did:plc:alice".to_string());
    attach_same_did(&mut b, &mut st, &mut fx);
    assert!(st.is_member("#a", "s2"));
    assert!(st.is_op("#a", "s2"));
    assert_eq!(channel_names(&st, "#a", false).len(), 1);
}

#[test]
fn a_further_session_takes_the_nick_of_the_others() {
    let mut st = state();
    let mut b = user(&mut st, "s2", "alicia", Some("did:plc:alice"));
    let _a = user(&mut st, "s1", "alice", Some("did:plc:alice"));
    let mut fx = Vec::new();
    attach_same_did(&mut b, &mut st, &mut fx);
    assert_eq!(b.nick.as_deref(), Some("alice"));
    assert!(st.session_of("alicia").is_none());
}

// ── Leaving ─────────────────────────────────────────────────────────

#[test]
fn guests_leave_nothing_behind() {
    let mut st = state();
    let alice = user(&mut st, "s1", "alice", None);
    let bob = user(&mut st, "s2", "bob", None);
    enter(&mut st, &alice, "#a");
    enter(&mut st, &bob, "#a");
    let mut fx = Vec::new();
    assert!(!disconnect(&bob, &mut st, &mut fx));
    assert!(told(&fx, "s1", "QUIT"));
    assert!(st.session_of("bob").is_none());
    assert!(!st.is_member("#a", "s2"));
    assert!(!st.connections.contains("s2"));
}

#[test]
fn users_who_come_back_are_as_before() {
    let mut st = state();
    let mut alice = user(&mut st, "s1", "alice", Some("did:plc:alice"));
    let bob = user(&mut st, "s2", "bob", None);
    let mut fx = Vec::new();
    attach_same_did(&mut alice, &mut st, &mut fx);
    enter(&mut st, &alice, "#a");
    enter(&mut st, &bob, "#a");
    let mut fx = Vec::new();
    assert!(disconnect(&alice, &mut st, &mut fx));
    assert!(fx.is_empty());
    let mut back = Connection::new("s3".to_string());
    back.nick = Some("alice".to_string());
    back.authenticated_did = Some("did:plc:alice".to_string());
    st.session_dids.insert("s3".to_string(), "did:plc:alice".to_string());
    attach_same_did(&mut back, &mut st, &mut fx);
    assert!(st.is_member("#a", "s3") && st.is_op("#a", "s3"));
    assert!(!st.is_member("#a", "s1"));
    assert_eq!(st.session_of("alice").map(|s| s.as_str()), Some("s3"));
    assert!(lines(&fx, "s2").is_empty());
}

#[test]
fn users_who_stay_away_are_gone() {
    let mut st = state();
    let mut alice = user(&mut st, "s1", "alice", Some("did:plc:alice"));
    let bob = user(&mut st, "s2", "bob", None);
    let mut fx = Vec::new();
    attach_same_did(&mut alice, &mut st, &mut fx);
    enter(&mut st, &alice, "#a");
    enter(&mut st, &bob, "#a");
    let carol = user(&mut st, "s3", "carol", None);
    enter(&mut st, &carol, "#b");
    disconnect(&alice, &mut st, &mut fx);
    let mut fx = Vec::new();
    expire_ghost("did:plc:alice", "other", &mut st, &mut fx);
    assert!(fx.is_empty());
    assert!(st.is_member("#a", "s1"));
    expire_ghost("did:plc:alice", "s1", &mut st, &mut fx);
    assert_eq!(lines(&fx, "s2").len(), 1);
    assert!(told(&fx, "s2", "QUIT"));
    assert_eq!(lines(&fx, "s3").len(), 1);
    assert!(told(&fx, "s3", "QUIT"));
    assert!(st.session_of("alice").is_none());
    assert!(!st.is_member("#a", "s1") && !st.is_op("#a", "s1"));
    assert!(st.is_member("#a", "s2"));
}

// ── Requests and limits ─────────────────────────────────────────────

fn asked(c: &Connection, line: &str) -> Request {
    read_request(c, &Message::parse(line).unwrap())
}

#[test]
fn unregistered_users_only_register() {
    let c = Connection::new("s1".to_string());
    assert!(matches!(asked(&c, "JOIN #a"), Request::NotRegistered));
    assert!(matches!(asked(&c, "PRIVMSG #a :x"), Request::Ignored));
    assert!(matches!(asked(&c, "NICK alice"), Request::Nick { .. }));
    assert!(matches!(asked(&c, "PING x"), Request::Ping { .. }));
}

#[test]
fn requests_are_read() {
    let mut st = state();
    let c = user(&mut st, "s1", "alice", None);
    match asked(&c, "JOIN #A,#b key") {
        Request::Join { targets } => {
            assert_eq!(targets.len(), 2);
            assert_eq!(targets[0].0, "#a");
            assert_eq!(targets[0].1.as_deref(), Some("key"));
            assert!(targets[1].1.is_none());
        }
        other => panic!("{other:?}"),
    }
    assert!(matches!(asked(&c, "KICK #a"), Request::Ignored));
    match asked(&c, "KICK #A bob") {
        Request::Kick { channel, nick, text } => {
            assert_eq!((channel.as_str(), nick.as_str(), text.as_str()), ("#a", "bob", "alice"));
        }
        other => panic!("{other:?}"),
    }
    assert!(matches!(asked(&c, "FROBNICATE"), Request::Unknown { .. }));
    assert!(matches!(asked(&c, "PRIVMSG #a :x"), Request::Message { .. }));
}

#[test]
fn ten_commands_a_second() {
    let mut limit = RateLimit::new(0);
    let allowed = (0..30).filter(|_| limit.allow(0)).count();
    assert_eq!(allowed, 10);
    assert!(limit.allow(100_000_000));
    assert!(!limit.allow(100_000_000));
}

#[test]
fn limits_spare_what_must_pass() {
    let mut st = state();
    let c = user(&mut st, "s1", "alice", None);
    let mut limit = RateLimit { credit: 0, last: 0, warned: false };
    let mut fx = Vec::new();
    assert!(screen(&c, "PONG", &mut limit, 0, &st, &mut fx));
    assert!(!screen(&c, "PRIVMSG", &mut limit, 0, &st, &mut fx));
    assert!(!fx.is_empty());
}

#[test]
fn a_burst_is_warned_of_once() {
    let mut st = state();
    let c = user(&mut st, "s1", "alice", None);
    let mut limit = RateLimit::new(0);
    let mut fx = Vec::new();
    let passed = (0..30).filter(|_| screen(&c, "PRIVMSG", &mut limit, 0, &st, &mut fx)).count();
    assert_eq!(passed, 10);
    assert_eq!(lines(&fx, "s1").len(), 1);
    assert!(told(&fx, "s1", "Flood protection"));
    assert!(screen(&c, "PRIVMSG", &mut limit, 100_000_000, &st, &mut fx));
    assert!(!screen(&c, "PRIVMSG", &mut limit, 100_000_000, &st, &mut fx));
    assert!(!screen(&c, "PRIVMSG", &mut limit, 100_000_000, &st, &mut fx));
    assert_eq!(lines(&fx, "s1").len(), 2);
}

#[test]
fn registration_is_not_limited() {
    let st = state();
    let c = Connection::new("s1".to_string());
    let mut limit = RateLimit { credit: 0, last: 0, warned: false };
    let mut fx = Vec::new();
    for command in ["CAP", "NICK", "USER", "AUTHENTICATE"] {
        assert!(screen(&c, command, &mut limit, 0, &st, &mut fx));
    }
    assert!(fx.is_empty());
}

#[test]
fn long_lines_and_silence_are_noticed() {
    let mut st = state();
    let c = user(&mut st, "s1", "alice", None);
    let mut fx = Vec::new();
    assert!(!refuse_long_line(&c, 8192, &st, &mut fx));
    assert!(refuse_long_line(&c, 8193, &st, &mut fx));
    assert!(told(&fx, "s1", " 417 "));
    let mut waiting = false;
    let mut fx = Vec::new();
    handle_silence(&c, &mut waiting, 0, &st, &mut fx);
    assert!(waiting);
    assert!(told(&fx, "s1", "PING"));
}

// ── History ─────────────────────────────────────────────────────────

fn params(s: &str) -> Vec<String> {
    s.split(' ').map(|p| p.to_string()).collect()
}

#[test]
fn history_is_for_members() {
    let mut st = state();
    let alice = user(&mut st, "s1", "alice", None);
    let bob = user(&mut st, "s2", "bob", None);
    enter(&mut st, &alice, "#a");
    assert!(matches!(handle_chathistory(&bob, &params("LATEST #a * 50"), &st), HistoryPlan::Refuse { .. }));
    match handle_chathistory(&alice, &params("LATEST #a * 9999"), &st) {
        HistoryPlan::Messages { key, query, .. } => {
            assert_eq!(key, "#a");
            assert!(matches!(query, HistoryQuery::Latest { before: None, limit: 500 }));
        }
        _ => panic!("a plan for messages"),
    }
    match handle_chathistory(&alice, &params("AFTER #a timestamp=2023-11-14T22:13:20.000Z 10"), &st) {
        HistoryPlan::Messages { query, .. } => {
            assert!(matches!(query, HistoryQuery::After { ts: 1700000000, limit: 10 }));
        }
        _ => panic!("a plan for messages"),
    }
}

#[test]
fn subcommands_are_read_in_any_case() {
    let mut st = state();
    let mut alice = user(&mut st, "s1", "alice", None);
    enter(&mut st, &alice, "#a");
    match handle_chathistory(&alice, &params("latest #A * 5"), &st) {
        HistoryPlan::Messages { key, query, .. } => {
            assert_eq!(key, "#a");
            assert!(matches!(query, HistoryQuery::Latest { before: None, limit: 5 }));
        }
        _ => panic!("a plan for messages"),
    }
    let mut fx = Vec::new();
    handle_agent(&mut alice, "register", Some("class=agent"), &mut st, &mut fx);
    assert!(alice.actor_class == ActorClass::Agent);
    let mut fx = Vec::new();
    handle_agent(&mut alice, "dance", None, &mut st, &mut fx);
    assert!(told(&fx, "s1", "Unknown AGENT subcommand: DANCE"));
}

#[test]
fn replays_are_batched() {
    let mut st = state();
    let alice = user(&mut st, "s1", "alice", None);
    enter(&mut st, &alice, "#a");
    st.cap_batch.insert("s1".to_string());
    let mut fx = Vec::new();
    push_messages(&mut fx, &st, "s1", "#a", "b7", &vec![row("bob!u@h", None)]);
    let all = lines(&fx, "s1");
    assert!(all[0].contains("BATCH +chb7 chathistory #a"));
    assert!(all[1].contains("old"));
    assert!(all[2].contains("BATCH -chb7"));
}

#[test]
fn partners_are_read_from_keys() {
    assert_eq!(partner_of("dm:did:plc:a,did:plc:b", "did:plc:a").as_deref(), Some("did:plc:b"));
    assert_eq!(partner_of("dm:did:plc:a,did:plc:b", "did:plc:b").as_deref(), Some("did:plc:a"));
}

// ── Agents ──────────────────────────────────────────────────────────

#[test]
fn agents_register_and_report() {
    let mut st = state();
    let mut a = user(&mut st, "s1", "bot", Some("did:plc:bot"));
    let mut fx = Vec::new();
    handle_register(&mut a, Some("class=agent"), &mut st, &mut fx);
    assert_eq!(ActorClass::parse("agent"), Some(ActorClass::Agent));
    handle_presence(&a, "state=executing;status=busy", NOW as i64, &mut st, &mut fx);
    assert_eq!(st.agent_presence.get("s1").unwrap().state, PresenceState::Executing);
    handle_heartbeat(&a, "ttl=30", NOW as i64, &mut st);
    let p = read_presence("state=idle;task=t1", 5);
    assert_eq!(p.state, PresenceState::Idle);
    assert_eq!(p.task.as_deref(), Some("t1"));
    assert!(write_presence(&p).contains("idle"));
}

#[test]
fn provenance_is_json_in_base64() {
    let mut st = state();
    let a = user(&mut st, "s1", "bot", Some("did:plc:bot"));
    let mut fx = Vec::new();
    handle_provenance(&a, "!!!", &mut st, &mut fx);
    assert!(!st.provenance_declarations.contains_key("did:plc:bot"));
    handle_provenance(&a, "eyAiYSI6IDEgfQ", &mut st, &mut fx);
    assert_eq!(st.provenance_declarations.get("did:plc:bot").map(|s| s.as_str()), Some("{\"a\":1}"));
}

// ── Other commands ──────────────────────────────────────────────────

#[test]
fn operators_are_made_by_password() {
    let mut st = state();
    st.oper_password = Some("pw".to_string());
    let mut c = user(&mut st, "s1", "alice", None);
    let mut fx = Vec::new();
    handle_oper(&mut c, "wrong", &mut st, &mut fx);
    assert!(!st.server_opers.contains("s1"));
    handle_oper(&mut c, "pw", &mut st, &mut fx);
    assert!(st.server_opers.contains("s1"));
    assert!(told(&fx, "s1", " 381 "));
}

#[test]
fn who_is_there_is_answered() {
    let mut st = state();
    let alice = user(&mut st, "s1", "alice", None);
    let _bob = user(&mut st, "s2", "bob", None);
    let mut fx = Vec::new();
    handle_ison(&alice, &vec!["bob".to_string(), "carol".to_string()], &st, &mut fx);
    assert!(told(&fx, "s1", " 303 ") && told(&fx, "s1", "bob") && !told(&fx, "s1", "carol"));
    let mut fx = Vec::new();
    handle_userhost(&alice, &vec!["bob".to_string()], &st, &mut fx);
    assert!(told(&fx, "s1", " 302 ") && told(&fx, "s1", "bob="));
    let mut fx = Vec::new();
    handle_time(&alice, NOW, &st, &mut fx);
    assert!(told(&fx, "s1", " 391 "));
}

#[test]
fn times_are_written_in_utc() {
    assert_eq!(format_time_tag(1_700_000_000), "2023-11-14T22:13:20.000Z");
    assert!(format_boot_time(1_700_000_000).contains("2023"));
    assert!(format_clock(1_700_000_000).contains("22:13"));
}

#[test]
fn channel_names_are_lower_case() {
    assert_eq!(normalize_channel("#\u{c4}B"), "#\u{e4}b");
}
