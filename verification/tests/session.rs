use phaselock::messages::PeerInfo;
use phaselock::names::deduplicate_name;
use phaselock::session::{own_display_name, JoinDecision, PeerRoster, MAX_PEERS};
use std::time::Instant;

fn accepted_name(d: JoinDecision) -> String {
    match d {
        JoinDecision::Accepted { display_name } => display_name,
        JoinDecision::Rejected { reason } => panic!("rejected: {reason}"),
    }
}

#[test]
fn test_peer_joins_host_session() {
    let mut roster = PeerRoster::new();
    let name = accepted_name(roster.handle_join(1, "Alice", Instant::now()));
    assert_eq!(name, "Alice");
    assert_eq!(roster.peer_count(), 1);
    let list = roster.peer_list();
    assert_eq!(list[0].display_name, "Alice");
    assert_eq!(list[0].peer_id, 1);
}

#[test]
fn test_duplicate_name_gets_suffix() {
    let mut roster = PeerRoster::new();
    assert_eq!(accepted_name(roster.handle_join(1, "Alex", Instant::now())), "Alex");
    assert_eq!(accepted_name(roster.handle_join(2, "Alex", Instant::now())), "Alex (2)");
}

#[test]
fn test_session_full_rejects_sixth_peer() {
    let mut roster = PeerRoster::new();
    for i in 1..=5u32 {
        accepted_name(roster.handle_join(i, &format!("Peer{i}"), Instant::now()));
    }
    assert_eq!(roster.peer_count(), 5);
    match roster.handle_join(6, "Sixth", Instant::now()) {
        JoinDecision::Rejected { reason } => assert!(reason.contains("Session is full")),
        JoinDecision::Accepted { .. } => panic!("sixth peer admitted"),
    }
    assert_eq!(roster.peer_count(), MAX_PEERS);
}

#[test]
fn test_peer_leaves_voluntarily() {
    let mut roster = PeerRoster::new();
    accepted_name(roster.handle_join(3, "Bob", Instant::now()));
    assert_eq!(roster.peer_count(), 1);
    assert!(roster.remove_peer(3));
    assert_eq!(roster.peer_count(), 0);
    assert!(!roster.remove_peer(3));
}

// ── Further cases ───────────────────────────────────────────────────────────

#[test]
fn third_duplicate_gets_next_free_suffix() {
    let mut roster = PeerRoster::new();
    accepted_name(roster.handle_join(1, "Sam", Instant::now()));
    assert_eq!(accepted_name(roster.handle_join(2, "Sam", Instant::now())), "Sam (2)");
    assert_eq!(accepted_name(roster.handle_join(3, "Sam", Instant::now())), "Sam (3)");
    roster.remove_peer(2);
    assert_eq!(accepted_name(roster.handle_join(4, "Sam", Instant::now())), "Sam (2)");
}

#[test]
fn rejoin_with_same_id_replaces_entry() {
    let mut roster = PeerRoster::new();
    accepted_name(roster.handle_join(1, "Ann", Instant::now()));
    // Same id asks again for its own name: the old entry still holds it.
    assert_eq!(accepted_name(roster.handle_join(1, "Ann", Instant::now())), "Ann (2)");
    assert_eq!(roster.peer_count(), 1);
}

#[test]
fn peer_list_sorted_by_id() {
    let mut roster = PeerRoster::new();
    for (id, n) in [(9u32, "I"), (2, "B"), (5, "E")] {
        accepted_name(roster.handle_join(id, n, Instant::now()));
    }
    let list = roster.peer_list();
    let ids: Vec<u32> = list.iter().map(|p| p.peer_id).collect();
    assert_eq!(ids, vec![2, 5, 9]);
    assert_eq!(list[2].display_name, "I");
}

#[test]
fn unknown_peer_gets_default_name() {
    let mut roster = PeerRoster::new();
    accepted_name(roster.handle_join(4, "Dana", Instant::now()));
    assert_eq!(roster.display_name_or_default(4), "Dana");
    assert_eq!(roster.display_name_or_default(17), "Peer 17");
    assert_eq!(roster.display_name_or_default(0), "Peer 0");
}

#[test]
fn heartbeat_and_file_received_keep_roster() {
    let mut roster = PeerRoster::new();
    accepted_name(roster.handle_join(1, "A", Instant::now()));
    roster.heartbeat(1, Instant::now());
    roster.heartbeat(2, Instant::now());
    roster.file_received(1, 42, true);
    roster.file_received(1, 43, false);
    roster.file_received(2, 44, true);
    assert_eq!(roster.peer_count(), 1);
    assert_eq!(roster.peer_list()[0].display_name, "A");
}

#[test]
fn own_name_from_peer_list() {
    let peers = vec![
        PeerInfo { peer_id: 1, display_name: "Alex".into() },
        PeerInfo { peer_id: 2, display_name: "Alex (2)".into() },
    ];
    assert_eq!(own_display_name(&peers, 2), "Alex (2)");
    assert_eq!(own_display_name(&peers, 3), "");
}

#[test]
fn deduplicate_name_cases() {
    let existing: Vec<String> = vec!["Kim".into(), "Kim (2)".into(), "Lee (2)".into()];
    assert_eq!(deduplicate_name("Kim", &existing), "Kim (3)");
    assert_eq!(deduplicate_name("Lee", &existing), "Lee");
    assert_eq!(deduplicate_name("Kim (2)", &existing), "Kim (2) (2)");
    assert_eq!(deduplicate_name("", &Vec::new()), "");
    let many: Vec<String> =
        std::iter::once("X".to_string()).chain((2..12).map(|n| format!("X ({n})"))).collect();
    assert_eq!(deduplicate_name("X", &many), "X (12)");
}

// ── Input checks ────────────────────────────────────────────────────────────

use phaselock::inputs::{
    search_meta, song_label, unknown_kind_message, validate_create, validate_join,
    SessionInputError,
};

#[test]
fn create_input_checks() {
    assert_eq!(
        validate_create("  Party  ", " Ann ", false).unwrap(),
        ("Party".to_string(), "Ann".to_string())
    );
    assert_eq!(validate_create("   ", "Ann", false).unwrap_err(), SessionInputError::EmptySessionName);
    assert_eq!(
        validate_create(&"s".repeat(51), "Ann", false).unwrap_err(),
        SessionInputError::SessionNameTooLong
    );
    assert!(validate_create(&"s".repeat(50), "Ann", false).is_ok());
    assert_eq!(validate_create("Party", "", false).unwrap_err(), SessionInputError::EmptyDisplayName);
    assert_eq!(
        validate_create("Party", &"é".repeat(16), false).unwrap_err(),
        SessionInputError::DisplayNameTooLong
    );
    assert!(validate_create("Party", &"é".repeat(15), false).is_ok());
}

#[test]
fn join_input_checks() {
    assert_eq!(
        validate_join(" 10.0.0.2:17401 ", " Bo ", false).unwrap(),
        ("10.0.0.2:17401".to_string(), "Bo".to_string())
    );
    assert_eq!(validate_join("x", " ", false).unwrap_err(), SessionInputError::EmptyDisplayName);
    assert_eq!(validate_join(" ", "Bo", false).unwrap_err(), SessionInputError::EmptyAddress);
    assert_eq!(
        SessionInputError::DisplayNameTooLong.message(),
        "Display name must be 30 characters or fewer."
    );
    assert_eq!(SessionInputError::EmptyAddress.message(), "Address cannot be empty.");
}

#[test]
fn a_running_session_refuses_another() {
    assert_eq!(validate_create("Party", "Ann", true).unwrap_err(), SessionInputError::SessionActive);
    assert_eq!(validate_join("10.0.0.2:17401", "Bo", true).unwrap_err(), SessionInputError::SessionActive);
    // Input errors are reported first.
    assert_eq!(validate_create("", "Ann", true).unwrap_err(), SessionInputError::EmptySessionName);
    assert_eq!(validate_join(" ", "Bo", true).unwrap_err(), SessionInputError::EmptyAddress);
    assert_eq!(
        SessionInputError::SessionActive.message(),
        "A session is already active. Leave first."
    );
}

#[test]
fn song_request_labels() {
    assert_eq!(song_label("Daft Punk", "Aerodynamic"), "Daft Punk – Aerodynamic");
    let m = search_meta("  lofi beats ");
    assert_eq!(m.display_name, "lofi beats");
    assert_eq!(m.content, "lofi beats");
    assert_eq!(unknown_kind_message("tape"), "Unknown kind: tape");
}
