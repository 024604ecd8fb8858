use freeq_server::av::{AvSessionManager, AvSessionState};
use freeq_server::av_artifacts::{
    generate_session_artifacts, prepare_summary, write_notice, StubSummaryBackend, StubTranscriptBackend, SummaryContext,
    ActionItem, SummaryResult,
};
use freeq_server::av_bridge::{broadcast_path, is_of_session};
use freeq_server::av_media::IrohLiveRooms;

#[test]
fn create_and_join_session() {
    let mut mgr = AvSessionManager::new();
    let session = mgr.create_session(Some("#test"), "did:plc:alice", "alice", Some("standup")).unwrap();
    assert_eq!(session.created_by, "did:plc:alice");
    assert!(matches!(session.state, AvSessionState::Active));
    assert_eq!(session.participants.len(), 1);

    let id = session.id.clone();
    mgr.join_session(&id, "did:plc:bob", "bob").unwrap();
    let session = mgr.get(&id).unwrap();
    assert_eq!(session.participants.len(), 2);
    assert_eq!(mgr.active_participant_count(&id), 2);
}

#[test]
fn one_session_per_channel() {
    let mut mgr = AvSessionManager::new();
    mgr.create_session(Some("#test"), "did:plc:alice", "alice", None).unwrap();
    let err = mgr.create_session(Some("#test"), "did:plc:bob", "bob", None).unwrap_err();
    assert!(err.contains("already has an active session"));
}

#[test]
fn leave_and_auto_end() {
    let mut mgr = AvSessionManager::new();
    let session = mgr.create_session(Some("#test"), "did:plc:alice", "alice", None).unwrap();
    let id = session.id.clone();

    let (_, should_end) = mgr.leave_session(&id, "did:plc:alice").unwrap();
    assert!(should_end);
    let session = mgr.get(&id).unwrap();
    assert!(matches!(session.state, AvSessionState::Ended { .. }));
}

#[test]
fn end_session_marks_all_left() {
    let mut mgr = AvSessionManager::new();
    let session = mgr.create_session(Some("#test"), "did:plc:alice", "alice", None).unwrap();
    let id = session.id.clone();
    mgr.join_session(&id, "did:plc:bob", "bob").unwrap();

    mgr.end_session(&id, Some("did:plc:alice")).unwrap();
    let session = mgr.get(&id).unwrap();
    assert!((0..session.participants.len()).all(|i| session.participants.value_at(i).left_at.is_some()));
}

#[test]
fn rejoin_after_leaving() {
    let mut mgr = AvSessionManager::new();
    let session = mgr.create_session(Some("#test"), "did:plc:alice", "alice", None).unwrap();
    let id = session.id.clone();
    mgr.join_session(&id, "did:plc:bob", "bob").unwrap();

    mgr.leave_session(&id, "did:plc:bob").unwrap();
    assert_eq!(mgr.active_participant_count(&id), 1);

    mgr.join_session(&id, "did:plc:bob", "bob").unwrap();
    assert_eq!(mgr.active_participant_count(&id), 2);
}

#[test]
fn ending_twice_leaves_the_next_session_alone() {
    let mut mgr = AvSessionManager::new();
    let first = mgr.create_session(Some("#test"), "did:plc:alice", "alice", None).unwrap().id.clone();
    mgr.end_session(&first, None).unwrap();
    let second = mgr.create_session(Some("#test"), "did:plc:bob", "bob", None).unwrap().id.clone();
    let _ = mgr.end_session(&first, None);
    mgr.apply_remote_session_ended(&first, None);
    assert_eq!(mgr.active_session_for_channel("#test").unwrap().id, second);
    assert!(mgr.create_session(Some("#test"), "did:plc:carol", "carol", None).is_err());
}

#[test]
fn channel_session_lookup() {
    let mut mgr = AvSessionManager::new();
    assert!(mgr.active_session_for_channel("#test").is_none());

    mgr.create_session(Some("#test"), "did:plc:alice", "alice", None).unwrap();
    assert!(mgr.active_session_for_channel("#test").is_some());
    assert!(mgr.active_session_for_channel("#TEST").is_some());
    assert!(mgr.active_session_for_channel("#other").is_none());
}

#[test]
fn remote_session_lifecycle() {
    let mut mgr = AvSessionManager::new();
    mgr.apply_remote_session_created(
        "remote-1",
        Some("#collab"),
        "did:plc:remote",
        "remote_user",
        Some("sync"),
        Some("ticket-xyz"),
        1000,
    );
    assert!(mgr.active_session_for_channel("#collab").is_some());

    mgr.apply_remote_session_joined("remote-1", "did:plc:local", "local_user");
    assert_eq!(mgr.active_participant_count("remote-1"), 2);

    mgr.apply_remote_session_left("remote-1", "did:plc:local");
    assert_eq!(mgr.active_participant_count("remote-1"), 1);

    mgr.apply_remote_session_ended("remote-1", Some("did:plc:remote"));
    let session = mgr.get("remote-1").unwrap();
    assert!(matches!(session.state, AvSessionState::Ended { .. }));
    assert!(mgr.active_session_for_channel("#collab").is_none());
}

#[test]
fn prune_ended_sessions() {
    let mut mgr = AvSessionManager::new();
    let session = mgr.create_session(Some("#old"), "did:plc:alice", "alice", None).unwrap();
    let id = session.id.clone();
    mgr.leave_session(&id, "did:plc:alice").unwrap();

    mgr.prune_ended(3600);
    assert!(mgr.get(&id).is_some());

    mgr.prune_ended(0);
    assert!(mgr.get(&id).is_none());
}

#[test]
fn session_ids_are_ulids_and_differ() {
    let mut mgr = AvSessionManager::new();
    let a = mgr.create_session(None, "did:plc:alice", "alice", None).unwrap();
    let b = mgr.create_session(None, "did:plc:alice", "alice", None).unwrap();
    assert_eq!(a.id.len(), 26);
    assert_ne!(a.id, b.id);
    assert_eq!(mgr.active_sessions().len(), 2);
}

#[test]
fn leaving_everything_ends_what_is_empty() {
    let mut mgr = AvSessionManager::new();
    let a = mgr.create_session_at("a", Some("#a"), "did:plc:alice", "alice", None, 10).unwrap();
    mgr.create_session_at("b", Some("#b"), "did:plc:bob", "bob", None, 10).unwrap();
    mgr.join_session_at("b", "did:plc:alice", "alice", 11).unwrap();
    let left = mgr.leave_all_for_did_at("did:plc:alice", 12);
    assert_eq!(left.len(), 2);
    assert_eq!(mgr.active_participant_count(&a.id), 0);
    assert_eq!(mgr.active_participant_count("b"), 1);
    assert!(mgr.active_session_for_channel("#a").is_none());
    assert!(mgr.active_session_for_channel("#b").is_some());
}

#[test]
fn only_some_may_end_a_session() {
    let mut mgr = AvSessionManager::new();
    mgr.create_session_at("a", Some("#a"), "did:plc:alice", "alice", None, 10).unwrap();
    assert!(mgr.can_end_session("a", "did:plc:alice"));
    assert!(!mgr.can_end_session("a", "did:plc:bob"));
    assert!(!mgr.can_end_session("nope", "did:plc:alice"));
}

#[test]
fn unknown_sessions_are_errors() {
    let mut mgr = AvSessionManager::new();
    assert!(mgr.join_session("nope", "did:plc:alice", "alice").is_err());
    assert!(mgr.leave_session("nope", "did:plc:alice").is_err());
    assert!(mgr.end_session("nope", None).is_err());
}

#[test]
fn stub_transcript_returns_placeholder() {
    let backend = StubTranscriptBackend;
    let result = backend.transcribe("https://example.com/audio.ogg");
    assert!(result.contains("Transcript stub"));
}

#[test]
fn stub_summary_returns_structured_result() {
    let backend = StubSummaryBackend;
    let ctx = SummaryContext {
        session_title: Some("Standup".to_string()),
        channel: Some("#team".to_string()),
        participants: vec!["alice".to_string(), "bob".to_string()],
        duration_secs: 600,
    };
    let r = backend.summarize("test transcript", &ctx);
    assert!(r.summary.contains("Standup"));
    assert!(r.summary.contains("#team"));
    assert!(r.summary.contains("alice"));
}

#[test]
fn an_ended_session_has_artifacts() {
    let mut mgr = AvSessionManager::new();
    mgr.create_session_at("a", Some("#a"), "did:plc:alice", "alice", Some("Standup"), 10).unwrap();
    let ended = mgr.end_session_at("a", Some("did:plc:alice"), 70).unwrap();
    let (transcript, ctx) = prepare_summary(&ended, 70).unwrap();
    assert_eq!(transcript, "Session: Standup\nChannel: #a\nParticipants: alice\nDuration: 1 min\nStarted: 10\n");
    assert_eq!(ctx.duration_secs, 60);
    let r = SummaryResult {
        summary: "All fine".to_string(),
        decisions: vec!["Ship it".to_string()],
        action_items: vec![ActionItem { description: "Write docs".to_string(), assignee: None }],
    };
    let made = generate_session_artifacts(&ended, &r);
    assert_eq!(made.len(), 3);
    assert!(made.iter().all(|x| x.session_id == "a" && x.id.len() == 26));
    assert_eq!(made[0].content_ref, "inline:All fine");
    assert_eq!(made[1].title.as_deref(), Some("Decision #1"));
    assert_eq!(made[2].title.as_deref(), Some("Action: Write docs"));
    assert_eq!(write_notice("it went well"), "Session summary: it went well");
}

#[test]
fn short_sessions_have_no_artifacts() {
    let mut mgr = AvSessionManager::new();
    let s = mgr.create_session_at("a", None, "did:plc:alice", "alice", None, 10).unwrap();
    assert!(prepare_summary(&s, 39).is_none());
    assert!(prepare_summary(&s, 40).is_some());
}

#[test]
fn create_and_close_room() {
    let mut backend = IrohLiveRooms::new();
    let ticket = backend.create_room("test-session");
    assert!(ticket.contains("test-session"));
    assert!(backend.has_room("test-session"));

    backend.close_room("test-session");
    assert!(!backend.has_room("test-session"));
}

#[test]
fn close_nonexistent_room_is_ok() {
    let mut backend = IrohLiveRooms::new();
    assert!(!backend.close_room("nope"));
}

#[test]
fn broadcasts_stay_within_their_session() {
    assert_eq!(broadcast_path("s1", Some("alice"), "key"), "s1/alice");
    assert_eq!(broadcast_path("s1", None, "key"), "s1/key");
    assert!(is_of_session("s1/alice", "s1"));
    assert!(!is_of_session("s2/alice", "s1"));
}

#[test]
fn one_user_leaves_all_calls() {
    let mut mgr = AvSessionManager::new();
    let a = mgr.create_session(Some("#a"), "did:plc:alice", "alice", None).unwrap().id.clone();
    let b = mgr.create_session(Some("#b"), "did:plc:bob", "bob", None).unwrap().id.clone();
    mgr.join_session(&b, "did:plc:alice", "alice").unwrap();
    let left = mgr.leave_all_for_did("did:plc:alice");
    assert_eq!(left.len(), 2);
    for (id, channel, nick, ended) in &left {
        assert_eq!(nick, "alice");
        assert_eq!(*ended, *id == a);
        assert_eq!(channel.as_deref(), Some(if *id == a { "#a" } else { "#b" }));
    }
    assert_eq!(mgr.active_participant_count(&b), 1);
    assert!(mgr.leave_all_for_did("did:plc:alice").is_empty());
}
