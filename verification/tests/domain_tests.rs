use epicode_kb::collab::protocol::{is_frame_overlong, read_message, sync_step1, sync_step2, sync_update};
use epicode_kb::collab::room::{frame_too_large, RoomAction, RoomState, SyncKind, MAX_WS_MESSAGE_SIZE};
use epicode_kb::conflict::model::{check_conflict_record, Resolution};
use epicode_kb::dream::proposal::{
    conflict_pair_keys, fresh_conflicts, is_rejection_batch, merge_candidates, pair_key, review,
    stale_cutoff, ProposalStatus, ReviewAction,
};
use epicode_kb::error::AppError;
use epicode_kb::generate_id;
use epicode_kb::llm::ChatMessage;
use epicode_kb::mcp::server::{parse_failure, route_request, tool_failure, McpRoute, INTERNAL_ERROR, INVALID_PARAMS, METHOD_NOT_FOUND};
use epicode_kb::memory::html::{strip_tags, unescape_entity};
use epicode_kb::memory::model::{Provenance, ReviewStatus, Visibility};
use epicode_kb::notify::webhook::{NotifyEvent, WebhookNotifier};
use epicode_kb::search::{parse_provenance_list, SearchMode};

fn strings(v: &[&str]) -> Vec<String> {
    v.iter().map(|s| s.to_string()).collect()
}

#[test]
fn ids_are_prefixed_hex() {
    let id = generate_id("mem");
    assert!(id.starts_with("mem_"));
    assert_eq!(id.len(), 36);
    assert!(id[4..].chars().all(|c| c.is_ascii_digit() || ('a'..='f').contains(&c)));
    assert_ne!(generate_id("mem"), generate_id("mem"));
}

#[test]
fn error_codes_and_messages() {
    let e = AppError::bad_request("oops");
    assert_eq!(e.error_code(), 40000);
    assert_eq!(e.status_code(), 400);
    assert_eq!(e.to_string(), "bad request: oops");
    assert_eq!(AppError::not_found("x").status_code(), 404);
    assert_eq!(AppError::forbidden("x").error_code(), 40300);
    assert_eq!(AppError::not_implemented("x").status_code(), 501);
    assert_eq!(AppError::Database("db".to_string()).error_code(), 50001);
    assert_eq!(AppError::Database("db".to_string()).status_code(), 500);
}

#[test]
fn memory_label_names() {
    for p in [Provenance::Human, Provenance::Ai, Provenance::Co, Provenance::Conflict] {
        assert_eq!(Provenance::parse_str(p.as_str()).unwrap(), p);
    }
    for r in [ReviewStatus::Pending, ReviewStatus::Accepted, ReviewStatus::Rejected] {
        assert_eq!(ReviewStatus::parse_str(r.as_str()).unwrap(), r);
    }
    for v in [Visibility::Inherit, Visibility::SpaceOnly, Visibility::Private, Visibility::Selected] {
        assert_eq!(Visibility::parse_str(v.as_str()).unwrap(), v);
    }
    assert_eq!(Provenance::parse_str("robot").unwrap_err(), "invalid provenance: robot");
    assert_eq!(Provenance::Ai.default_review_status(), ReviewStatus::Pending);
    assert_eq!(Provenance::Human.default_review_status(), ReviewStatus::Accepted);
    assert!(Provenance::Ai.default_review_status().is_active());
}

#[test]
fn html_to_text() {
    assert_eq!(strip_tags("<p>Hello &amp; <b>world</b></p>"), "Hello & world");
    assert_eq!(strip_tags("a &lt;b&gt; &unknown; c"), "a <b> &unknown; c");
    assert_eq!(strip_tags("plain"), "plain");
    assert_eq!(strip_tags("cut <open"), "cut ");
    assert_eq!(strip_tags("知<i>识</i>"), "知识");
    assert_eq!(unescape_entity("&quot;x"), Some(('"', 6)));
    assert_eq!(unescape_entity("&nbsp;"), Some((' ', 6)));
    assert_eq!(unescape_entity("&amp"), None);
}

#[test]
fn proposal_reviews() {
    let o = review(ProposalStatus::Pending, ReviewAction::Reject(None), "rev").unwrap();
    assert_eq!(o.status, ProposalStatus::Rejected);
    assert_eq!(o.review_feedback.as_deref(), Some("no feedback"));
    let o = review(ProposalStatus::Pending, ReviewAction::Modify("new".to_string()), "rev").unwrap();
    assert_eq!(o.status, ProposalStatus::Modified);
    assert_eq!(o.proposed_content.as_deref(), Some("new"));
    let o = review(ProposalStatus::Pending, ReviewAction::Approve, "rev").unwrap();
    assert_eq!(o.status, ProposalStatus::Approved);
    assert_eq!(o.reviewer_id, "rev");
    match review(ProposalStatus::Approved, ReviewAction::Approve, "rev") {
        Err(AppError::Conflict(m)) => assert_eq!(m, "proposal already reviewed"),
        other => panic!("unexpected {:?}", other.is_ok()),
    }
    assert_eq!(ProposalStatus::Modified.name(), "modified");
}

#[test]
fn rejection_batches() {
    assert!(!is_rejection_batch(2));
    assert!(is_rejection_batch(3));
    assert!(!is_rejection_batch(4));
    assert!(is_rejection_batch(6));
}

#[test]
fn pair_keys_ignore_order() {
    assert_eq!(pair_key("mem_b", "mem_a"), "mem_a|mem_b");
    assert_eq!(pair_key("mem_a", "mem_b"), "mem_a|mem_b");
    assert_eq!(pair_key("x", "x"), "x|x");
}

#[test]
fn covered_conflict_pairs() {
    let lists = vec![strings(&["b", "a"]), strings(&["a", "b", "c"]), strings(&["z"]), strings(&["c", "d"])];
    let keys = conflict_pair_keys(&lists);
    assert_eq!(keys, strings(&["a|b", "c|d"]));
    let pairs = vec![
        ("a".to_string(), "b".to_string()),
        ("e".to_string(), "f".to_string()),
        ("d".to_string(), "c".to_string()),
        ("g".to_string(), "h".to_string()),
    ];
    assert_eq!(fresh_conflicts(&keys, &pairs), vec![1, 3]);
}

#[test]
fn stale_cutoff_is_ninety_days() {
    assert_eq!(stale_cutoff(100 * 86400), 10 * 86400);
}

#[test]
fn merge_candidates_found() {
    let contents = strings(&[
        "rust verification with verus tools",
        "rust verification with verus tooling",
        "a b",
        "completely different words here",
    ]);
    let c = merge_candidates(&contents);
    assert_eq!(c.len(), 1);
    assert_eq!((c[0].first, c[0].second), (0, 1));
    assert_eq!(c[0].shared_words, 4);
    assert_eq!(c[0].first_words, 5);
    assert_eq!(c[0].second_words, 5);
    let same = strings(&["one two three", "three two one"]);
    assert_eq!(merge_candidates(&same).len(), 1);
}

#[test]
fn collaboration_room_routing() {
    let mut room = RoomState::new("mem_1".to_string());
    let a = room.add_subscriber();
    let b = room.add_subscriber();
    assert_ne!(a, b);
    assert_eq!(room.subscriber_count(), 2);
    match room.route_message(SyncKind::Update, vec![1, 2], a) {
        RoomAction::ApplyAndForward { targets } => assert_eq!(targets, vec![b]),
        _ => panic!("expected forward"),
    }
    match room.route_message(SyncKind::AwarenessQuery, vec![], a) {
        RoomAction::Nothing => {}
        _ => panic!("expected nothing"),
    }
    match room.route_message(SyncKind::Awareness, vec![9], b) {
        RoomAction::Send { frame, targets } => {
            assert_eq!(frame, vec![9]);
            assert_eq!(targets, vec![a]);
        }
        _ => panic!("expected send"),
    }
    assert_eq!(room.last_awareness(), Some(&[9u8][..]));
    match room.route_message(SyncKind::SyncStep1, vec![0], a) {
        RoomAction::ReplyDiff { targets } => assert_eq!(targets, vec![a, b]),
        _ => panic!("expected diff"),
    }
    room.remove_subscriber(a);
    assert_eq!(room.broadcast_targets(None), vec![b]);
    assert_eq!(room.memory_id(), "mem_1");
    assert!(frame_too_large(MAX_WS_MESSAGE_SIZE + 1));
    assert!(!frame_too_large(MAX_WS_MESSAGE_SIZE));
}

#[test]
fn mcp_routing() {
    assert!(matches!(route_request("initialize", false, None), McpRoute::Initialize));
    assert!(matches!(route_request("tools/list", false, None), McpRoute::ListTools));
    assert!(matches!(route_request("tools/call", true, Some("remember")), McpRoute::CallTool(t) if t == "remember"));
    assert!(matches!(route_request("tools/call", false, None), McpRoute::Fail(e) if e.code == INVALID_PARAMS && e.message == "missing params"));
    assert!(matches!(route_request("tools/call", true, None), McpRoute::Fail(e) if e.message == "missing tool name"));
    assert!(matches!(route_request("tools/call", true, Some("drop")), McpRoute::Fail(e) if e.code == METHOD_NOT_FOUND && e.message == "tool not found: drop"));
    assert!(matches!(route_request("ping", true, None), McpRoute::Fail(e) if e.message == "method not found: ping"));
    let f = tool_failure(&AppError::not_found("memory m"));
    assert_eq!(f.code, INTERNAL_ERROR);
    assert_eq!(f.message, "not found: memory m");
    assert_eq!(parse_failure("eof").message, "parse error: eof");
}

#[test]
fn search_request_parsing() {
    assert_eq!(SearchMode::parse_str("SEMANTIC"), SearchMode::Semantic);
    assert_eq!(SearchMode::parse_str("fulltext"), SearchMode::Fulltext);
    assert_eq!(SearchMode::parse_str("whatever"), SearchMode::Hybrid);
    assert_eq!(parse_provenance_list("human, ai ,bogus,,conflict"), vec![Provenance::Human, Provenance::Ai, Provenance::Conflict]);
    assert!(parse_provenance_list("").is_empty());
}

#[test]
fn conflict_resolutions() {
    assert_eq!(Resolution::parse_str("accept_a").unwrap(), Resolution::AcceptA);
    assert!(matches!(
        Resolution::parse_str("neither"),
        Err(AppError::BadRequest(m)) if m == "resolution must be one of: accept_a, accept_b, both_true"
    ));
    assert!(check_conflict_record(Provenance::Conflict).is_ok());
    assert!(matches!(check_conflict_record(Provenance::Human), Err(AppError::BadRequest(m)) if m == "memory is not a conflict record"));
}

#[test]
fn webhook_signatures() {
    let n = WebhookNotifier::new("http://hook".to_string(), "key".to_string());
    assert_eq!(
        n.signature("The quick brown fox jumps over the lazy dog").unwrap(),
        "f7bc83f430538424b13298e6aa6fb143ef4d59a14946175997479dbc2d1a3cd8"
    );
    assert_eq!(NotifyEvent::ConflictDetected.as_str(), "conflict_detected");
}

#[test]
fn chat_messages() {
    let m = ChatMessage::user("hi");
    assert_eq!(m.role, "user");
    assert_eq!(ChatMessage::system("s").role, "system");
    assert_eq!(ChatMessage::assistant("a").content, "a");
}

#[test]
fn pending_conflict_not_reproposed() {
    let candidates = vec![
        ("m1".to_string(), "m2".to_string()),
        ("m3".to_string(), "m4".to_string()),
    ];
    let first = fresh_conflicts(&conflict_pair_keys(&vec![]), &candidates);
    assert_eq!(first, vec![0, 1]);
    let stored: Vec<Vec<String>> = first.iter().map(|&k| vec![candidates[k].0.clone(), candidates[k].1.clone()]).collect();
    let again = vec![
        ("m2".to_string(), "m1".to_string()),
        ("m3".to_string(), "m4".to_string()),
        ("m1".to_string(), "m5".to_string()),
    ];
    assert_eq!(fresh_conflicts(&conflict_pair_keys(&stored), &again), vec![2]);
}

#[test]
fn yjs_frames_decode() {
    assert_eq!(read_message(&[0, 0, 1, 0]), Some((SyncKind::SyncStep1, vec![0])));
    assert_eq!(read_message(&[0, 1, 2, 4, 5]), Some((SyncKind::SyncStep2, vec![4, 5])));
    assert_eq!(read_message(&[0, 2, 2, 9, 9]), Some((SyncKind::Update, vec![9, 9])));
    assert_eq!(read_message(&[1, 1, 0]), Some((SyncKind::Awareness, vec![])));
    assert_eq!(read_message(&[3]), Some((SyncKind::AwarenessQuery, vec![])));
    assert_eq!(read_message(&[7, 1, 5]), Some((SyncKind::Custom, vec![5])));
    assert_eq!(read_message(&[]), None);
}

#[test]
fn yjs_frames_encode() {
    assert_eq!(sync_step1(&[0]), vec![0, 0, 1, 0]);
    assert_eq!(sync_step1(&[0xff]), vec![0, 0, 1, 0]);
    assert_eq!(sync_step2(vec![1, 2]), vec![0, 1, 2, 1, 2]);
    assert_eq!(sync_update(vec![5]), vec![0, 2, 1, 5]);
}

#[test]
fn room_handles_frames() {
    let mut room = RoomState::new("mem_2".to_string());
    let a = room.add_subscriber();
    let b = room.add_subscriber();
    match room.handle_frame(&[0, 2, 2, 9, 9], a) {
        Some((RoomAction::ApplyAndForward { targets }, update)) => {
            assert_eq!(targets, vec![b]);
            assert_eq!(update, vec![9, 9]);
        }
        other => panic!("unexpected {:?}", other),
    }
    match room.handle_frame(&[0, 0, 1, 0], b) {
        Some((RoomAction::ReplyDiff { targets }, sv)) => {
            assert_eq!(targets, vec![a, b]);
            assert_eq!(sv, vec![0]);
        }
        other => panic!("unexpected {:?}", other),
    }
    match room.handle_frame(&[1, 1, 0], b) {
        Some((RoomAction::Send { frame, targets }, _)) => {
            assert_eq!(frame, vec![1, 1, 0]);
            assert_eq!(targets, vec![a]);
        }
        other => panic!("unexpected {:?}", other),
    }
    assert_eq!(room.last_awareness(), Some(&[1u8, 1, 0][..]));
    assert!(room.handle_frame(&[], a).is_none());
}

#[test]
fn overlong_frames_are_dropped() {
    assert!(is_frame_overlong(&[1, 3, 0xff, 0xff, 0x7f]));
    assert!(is_frame_overlong(&[1, 10, 0x80, 0x80, 0x80, 0x80, 0x80, 0x80, 0x80, 0x80, 0x80, 0x01]));
    assert!(is_frame_overlong(&[0, 0, 2, 5, 1]));
    assert!(!is_frame_overlong(&[1, 1, 0]));
    assert!(!is_frame_overlong(&[0, 0, 1, 0]));
    assert!(!is_frame_overlong(&[0, 2, 2, 9, 9]));
    assert!(!is_frame_overlong(&[]));
    assert_eq!(sync_step1(&[5, 1]), vec![0, 0, 1, 0]);
    let mut room = RoomState::new("mem_3".to_string());
    let a = room.add_subscriber();
    assert!(room.handle_frame(&[1, 3, 0xff, 0xff, 0x7f], a).is_none());
    assert_eq!(room.last_awareness(), None);
}
