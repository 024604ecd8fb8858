use freeq_server::containers::StrMap;
use freeq_server::db::{
    approval_expiry, budget_key, budget_keys, canonical_dm_key, channel_record, conversations_of, decrypt_at_rest,
    encrypt_at_rest, encrypt_with_nonce, find_pending_approval_for_agent, get_task_events, grant_expiry,
    is_conversation_of, load_channels, read_bundle,
    message_record, query_coordination_events, query_governance_log, query_spend, read_message, read_messages,
    read_newest_messages, read_text, stored_text, sum_spend, BanRecord, MessageRecord, PendingApprovalRow, SqlValue,
};
use freeq_server::server::{ChannelState, TopicInfo};

fn text_of(v: &SqlValue) -> &str {
    match v {
        SqlValue::Text(s) => s,
        SqlValue::Integer(_) => "",
    }
}

fn number_of(v: &SqlValue) -> i64 {
    match v {
        SqlValue::Text(_) => 0,
        SqlValue::Integer(n) => *n,
    }
}

fn no_tags() -> StrMap<String> {
    StrMap::new()
}

// ── Conversation keys ───────────────────────────────────────────────

#[test]
fn both_sides_have_the_same_key() {
    assert_eq!(canonical_dm_key("did:plc:b", "did:plc:a"), "dm:did:plc:a,did:plc:b");
    assert_eq!(canonical_dm_key("did:plc:a", "did:plc:b"), "dm:did:plc:a,did:plc:b");
}

#[test]
fn conversations_are_found_by_their_halves() {
    assert!(is_conversation_of("dm:did:plc:a,did:plc:b", "did:plc:a"));
    assert!(is_conversation_of("dm:did:plc:a,did:plc:b", "did:plc:b"));
    assert!(!is_conversation_of("dm:did:plc:ab,did:plc:b", "did:plc:a"));
    assert!(!is_conversation_of("dm:did:plc:ab,did:plc:b", "plc:b"));
    assert!(!is_conversation_of("dm:did:plc:ab,did:plc:b", "did:plc:_b"));
    assert!(!is_conversation_of("dm:did:plc:b,did:plc:a", "did:plc:a"));
    assert!(!is_conversation_of("#did:plc:a", "did:plc:a"));
    assert!(!is_conversation_of("", ""));
}

#[test]
fn conversations_of_others_take_no_place() {
    let rows = vec![
        ("dm:did:plc:ab,did:plc:b".to_string(), 40),
        ("dm:did:plc:a,did:plc:b".to_string(), 30),
        ("dm:did:plc:c,did:plc:d".to_string(), 25),
        ("dm:did:plc:a,did:plc:c".to_string(), 20),
        ("dm:did:plc:a,did:plc:d".to_string(), 10),
    ];
    let found = conversations_of("did:plc:a", &rows, 2);
    assert_eq!(found, vec![("dm:did:plc:a,did:plc:b".to_string(), 30), ("dm:did:plc:a,did:plc:c".to_string(), 20)]);
    assert_eq!(conversations_of("did:plc:a", &rows, 9).len(), 3);
    assert!(conversations_of("did:plc:a", &rows, 0).is_empty());
}

#[test]
fn bundles_are_read_as_json() {
    assert_eq!(read_bundle("{ \"id\" : 7 }"), "{\"id\":7}");
    assert_eq!(read_bundle("[1, 2"), "null");
    assert_eq!(read_bundle(""), "null");
}

// ── Encryption at rest ──────────────────────────────────────────────

#[test]
fn encrypted_text_reads_back() {
    let key = [9u8; 32];
    for text in ["", "hello", "gr\u{fc}\u{df}e \u{1f980}"] {
        let stored = encrypt_at_rest(&key, text);
        assert!(stored.starts_with("EAR1:"));
        assert!(text.is_empty() || !stored.contains(text));
        assert_eq!(decrypt_at_rest(&key, &stored), text);
    }
}

#[test]
fn nonces_differ() {
    let key = [9u8; 32];
    assert_ne!(encrypt_at_rest(&key, "hello"), encrypt_at_rest(&key, "hello"));
}

#[test]
fn ciphertext_is_that_of_the_standard() {
    // The tag of the empty message under the zero key and nonce.
    assert_eq!(encrypt_with_nonce(&[0u8; 32], &[0u8; 12], ""), "EAR1:AAAAAAAAAAAAAAAAUw+K+8dFNrmpY7TxxMtziw==");
}

#[test]
fn a_wrong_key_gives_the_placeholder() {
    let stored = encrypt_at_rest(&[1u8; 32], "hello");
    assert_eq!(decrypt_at_rest(&[2u8; 32], &stored), "[decryption failed]");
}

#[test]
fn malformed_text_gives_the_placeholder() {
    let key = [1u8; 32];
    assert_eq!(decrypt_at_rest(&key, "EAR1:***"), "[decryption failed]");
    assert_eq!(decrypt_at_rest(&key, "EAR1:AAAA"), "[decryption failed]");
    assert_eq!(decrypt_at_rest(&key, "EAR1:AAAAAAAAAAAAAAAA"), "[decryption failed]");
}

#[test]
fn plain_text_stays_as_it_is() {
    assert_eq!(decrypt_at_rest(&[1u8; 32], "old message"), "old message");
    assert_eq!(stored_text(&None, "hello"), "hello");
    assert_eq!(read_text(&None, "EAR1:AAAA"), "EAR1:AAAA");
}

#[test]
fn a_database_reads_what_it_stores() {
    for key in [None, Some([5u8; 32])] {
        let stored = stored_text(&key, "hello");
        assert_eq!(read_text(&key, &stored), "hello");
    }
}

// ── Messages ────────────────────────────────────────────────────────

fn stored_by(sender: &str, key: &Option<[u8; 32]>, text: &str, ts: u64, tags: &StrMap<String>, msgid: &str) -> MessageRecord {
    message_record(key, "#test", sender, text, ts, tags, Some(msgid), None, None)
}

fn stored(key: &Option<[u8; 32]>, text: &str, ts: u64, tags: &StrMap<String>, msgid: &str) -> MessageRecord {
    stored_by("alice!a@host", key, text, ts, tags, msgid)
}

#[test]
fn roundtrip_messages() {
    for key in [None, Some([3u8; 32])] {
        let mut tags = StrMap::new();
        tags.insert("content-type".to_string(), "image/jpeg".to_string());
        let hello = || stored(&key, "hello", 1000, &no_tags(), "01TEST00000000000000000001");
        let world = || stored_by("bob!b@host", &key, "world", 1001, &tags, "01TEST00000000000000000002");
        let third = || stored(&key, "third", 1002, &no_tags(), "01TEST00000000000000000003");

        let msgs = read_newest_messages(&key, &vec![third(), world()]);
        assert_eq!(msgs.len(), 2);
        assert_eq!(msgs[0].text, "world");
        assert_eq!(msgs[0].tags.get("content-type").unwrap(), "image/jpeg");
        assert_eq!(msgs[1].text, "third");
        assert_eq!(msgs[0].sender, "bob!b@host");
        assert_eq!(msgs[1].sender, "alice!a@host");

        let msgs = read_newest_messages(&key, &vec![world(), hello()]);
        assert_eq!(msgs.len(), 2);
        assert_eq!(msgs[0].text, "hello");
        assert_eq!(msgs[1].text, "world");

        let after = read_messages(&key, &vec![world(), third()]);
        assert_eq!(after[0].text, "world");
        assert_eq!(after[1].timestamp, 1002);
        assert_eq!(after[1].msgid.as_deref(), Some("01TEST00000000000000000003"));
    }
}

#[test]
fn unreadable_tags_are_none() {
    let mut rec = stored(&None, "x", 1, &no_tags(), "m");
    rec.tags_json = "not json".to_string();
    assert!(read_message(&None, &rec).tags.is_empty());
    rec.tags_json = "{\"a\":\"b\",\"c\":\"d\"}".to_string();
    let tags = read_message(&None, &rec).tags;
    assert_eq!(tags.len(), 2);
    assert_eq!(tags.get("c").unwrap(), "d");
}

#[test]
fn deletion_times_are_read() {
    let mut rec = stored(&None, "x", 1, &no_tags(), "m");
    assert!(read_message(&None, &rec).deleted_at.is_none());
    rec.deleted_at = Some(77);
    assert_eq!(read_message(&None, &rec).deleted_at, Some(77));
}

// ── Channels ────────────────────────────────────────────────────────

#[test]
fn roundtrip_channel_state() {
    let mut ch = ChannelState::new();
    ch.topic = Some(TopicInfo {
        text: "Hello world".to_string(),
        set_by: "alice!a@host".to_string(),
        set_at: 1700000000,
    });
    ch.topic_locked = true;
    ch.invite_only = false;
    ch.key = Some("secret".to_string());
    ch.founder_did = Some("did:plc:f".to_string());
    ch.did_ops.insert("did:plc:f".to_string());
    ch.did_ops.insert("did:plc:o".to_string());
    ch.members.insert("s1".to_string());
    ch.ops.insert("s1".to_string());

    let loaded = load_channels(&vec![channel_record("#test", &ch)], &vec![]);
    let loaded_ch = loaded.get("#test").unwrap();
    assert!(loaded_ch.topic.is_some());
    let t = loaded_ch.topic.as_ref().unwrap();
    assert_eq!(t.text, "Hello world");
    assert_eq!(t.set_by, "alice!a@host");
    assert_eq!(t.set_at, 1700000000);
    assert!(loaded_ch.topic_locked);
    assert!(!loaded_ch.invite_only);
    assert_eq!(loaded_ch.key.as_deref(), Some("secret"));
    assert_eq!(loaded_ch.founder_did.as_deref(), Some("did:plc:f"));
    assert!(loaded_ch.did_ops.contains("did:plc:o"));
    assert_eq!(loaded_ch.did_ops.len(), 2);
    assert!(loaded_ch.members.is_empty());
    assert!(loaded_ch.ops.is_empty());
}

fn ban(channel: &str, mask: &str, set_at: i64) -> BanRecord {
    BanRecord { channel: channel.to_string(), mask: mask.to_string(), set_by: "op!o@host".to_string(), set_at }
}

#[test]
fn roundtrip_bans() {
    let ch = ChannelState::new();
    let recs = vec![channel_record("#test", &ch)];
    let loaded = load_channels(&recs, &vec![ban("#test", "bad!*@*", 1700000000), ban("#test", "did:plc:abc", 1700000001)]);
    let loaded_ch = loaded.get("#test").unwrap();
    assert_eq!(loaded_ch.bans.len(), 2);
    assert_eq!(loaded_ch.bans[0].mask, "bad!*@*");
    assert_eq!(loaded_ch.bans[1].mask, "did:plc:abc");

    let loaded = load_channels(&recs, &vec![ban("#test", "did:plc:abc", 1700000001)]);
    let loaded_ch = loaded.get("#test").unwrap();
    assert_eq!(loaded_ch.bans.len(), 1);
    assert_eq!(loaded_ch.bans[0].mask, "did:plc:abc");
}

#[test]
fn bans_of_no_channel_are_passed_over() {
    let loaded = load_channels(&vec![], &vec![ban("#gone", "bad!*@*", 0)]);
    assert!(!loaded.contains_key("#gone"));
}

#[test]
fn half_a_topic_is_none() {
    let mut rec = channel_record("#test", &ChannelState::new());
    rec.topic_text = Some("text".to_string());
    rec.did_ops_json = Some("oops".to_string());
    rec.no_ext_msg = None;
    let loaded = load_channels(&vec![rec], &vec![]);
    let ch = loaded.get("#test").unwrap();
    assert!(ch.topic.is_none());
    assert!(ch.did_ops.is_empty());
    assert!(!ch.no_ext_msg);
}

// ── Grants, approvals and budgets ───────────────────────────────────

#[test]
fn grants_expire_only_with_a_time() {
    assert_eq!(grant_expiry(1000, 0), None);
    assert_eq!(grant_expiry(1000, 60), Some(1060));
    assert_eq!(approval_expiry(1000), 4600);
}

fn approval(id: &str, agent: &str, capability: &str) -> PendingApprovalRow {
    PendingApprovalRow {
        id: id.to_string(),
        channel: "#test".to_string(),
        agent_did: agent.to_string(),
        capability: capability.to_string(),
        resource: None,
        requested_at: 0,
        granted_by: None,
        granted_at: None,
        denied_by: None,
        denied_at: None,
        deny_reason: None,
        expires_at: None,
    }
}

#[test]
fn the_first_approval_of_an_agent_is_found() {
    let rows = vec![approval("1", "a", "x"), approval("2", "b", "x"), approval("3", "a", "y"), approval("4", "a", "y")];
    assert_eq!(find_pending_approval_for_agent(&rows, "a", "y").unwrap().id, "3");
    assert!(find_pending_approval_for_agent(&rows, "b", "y").is_none());
}

#[test]
fn budgets_fall_back_to_the_channel() {
    assert_eq!(budget_keys(Some("did:plc:a")), vec!["did:plc:a".to_string(), "*".to_string()]);
    assert_eq!(budget_keys(None), vec!["*".to_string()]);
    assert_eq!(budget_key(None), "*");
    assert_eq!(budget_key(Some("did:plc:a")), "did:plc:a");
}

// ── Queries ─────────────────────────────────────────────────────────

#[test]
fn conditions_are_numbered_in_order() {
    let q = query_coordination_events("#a", None, Some("t1"), None, Some(5), 20);
    assert!(q.sql.ends_with("WHERE channel = ?1 AND ref_id = ?2 AND timestamp >= ?3 ORDER BY timestamp ASC LIMIT 20"));
    assert_eq!(q.params.len(), 3);
    assert_eq!(text_of(&q.params[0]), "#a");
    assert_eq!(text_of(&q.params[1]), "t1");
    assert_eq!(number_of(&q.params[2]), 5);
}

#[test]
fn every_condition_can_be_asked_for() {
    let q = query_coordination_events("#a", Some("task"), Some("t1"), Some("did:plc:a"), Some(5), 1);
    assert!(q.sql.contains("event_type = ?2 AND ref_id = ?3 AND actor_did = ?4 AND timestamp >= ?5"));
    assert_eq!(q.params.len(), 5);
}

#[test]
fn events_of_a_task_are_asked_for_by_reference() {
    let q = get_task_events("t1");
    assert!(q.sql.ends_with("FROM coordination_events WHERE ref_id = ?1 ORDER BY timestamp ASC LIMIT 1000"));
    assert_eq!(q.params.len(), 1);
    assert_eq!(text_of(&q.params[0]), "t1");
}

#[test]
fn spend_is_asked_for_newest_first() {
    let q = query_spend("#a", Some("did:plc:a"), None, 7);
    assert!(q.sql.ends_with("WHERE channel = ?1 AND agent_did = ?2 ORDER BY timestamp DESC LIMIT 7"));
}

#[test]
fn spend_is_summed_by_agent_or_channel() {
    assert_eq!(sum_spend("#a", Some("did:plc:a"), "usd", 9).params.len(), 4);
    let q = sum_spend("#a", None, "usd", 9);
    assert!(q.sql.ends_with("WHERE channel = ?1 AND unit = ?2 AND timestamp >= ?3"));
    assert_eq!(text_of(&q.params[1]), "usd");
    assert_eq!(number_of(&q.params[2]), 9);
}

#[test]
fn the_log_is_asked_for_by_channel_or_whole() {
    let q = query_governance_log(Some("#a"), 10);
    assert!(q.sql.contains("WHERE channel = ?1"));
    assert_eq!(q.params.len(), 2);
    let q = query_governance_log(None, 10);
    assert!(!q.sql.contains("WHERE"));
    assert_eq!(number_of(&q.params[0]), 10);
}
