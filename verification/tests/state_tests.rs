use logdash::state::App;
use logdash::scroll::NavCommand;

#[test]
fn readiness_line_latches_flag_and_logs_unprefixed() {
    let mut app = App::new();
    app.process_log("Serving at port 8080".to_string(), false);
    assert!(app.server_ready);
    assert_eq!(app.logs, vec!["Serving at port 8080".to_string()]);
    app.process_log("plain line".to_string(), false);
    assert!(app.server_ready);
}

#[test]
fn full_record_line_stores_peer_address() {
    let mut app = App::new();
    app.process_log("{'name': 'patchpanel', 'foo': 1, 'ip': '127.0.0.1'}".to_string(), false);
    assert_eq!(app.peer_address("patchpanel"), Some("127.0.0.1".to_string()));
    assert_eq!(app.peers.len(), 1);
}

#[test]
fn registration_line_creates_pending_record() {
    let mut app = App::new();
    app.process_log("Registering new puzzle widget42".to_string(), false);
    assert_eq!(app.peer_address("widget42"), Some("Waiting...".to_string()));
}

#[test]
fn registration_does_not_downgrade_known_address() {
    let mut app = App::new();
    app.process_log("{'name': 'widget42', 'ip': '127.0.0.1'}".to_string(), false);
    app.process_log("Registering new puzzle widget42".to_string(), false);
    assert_eq!(app.peer_address("widget42"), Some("127.0.0.1".to_string()));
    assert_eq!(app.peers.len(), 1);
}

#[test]
fn full_record_upgrades_pending_record() {
    let mut app = App::new();
    app.process_log("Registering new puzzle widget42".to_string(), false);
    app.process_log("{'name': 'widget42', 'ip': '10.0.0.3'}".to_string(), false);
    assert_eq!(app.peer_address("widget42"), Some("10.0.0.3".to_string()));
    assert_eq!(app.peers.len(), 1);
}

#[test]
fn later_full_record_overwrites_address() {
    let mut app = App::new();
    app.process_log("{'name': 'widget42', 'ip': '10.0.0.3'}".to_string(), false);
    app.process_log("{'name': 'widget42', 'ip': '10.0.0.4'}".to_string(), false);
    assert_eq!(app.peer_address("widget42"), Some("10.0.0.4".to_string()));
    assert_eq!(app.peers.len(), 1);
}

#[test]
fn record_and_registration_for_different_names_are_independent() {
    let mut app = App::new();
    app.process_log("{'name': 'patchpanel', 'ip': '127.0.0.1'}".to_string(), false);
    app.process_log("Registering new puzzle widget42".to_string(), false);
    assert_eq!(app.peer_address("patchpanel"), Some("127.0.0.1".to_string()));
    assert_eq!(app.peer_address("widget42"), Some("Waiting...".to_string()));
    assert_eq!(app.peers.len(), 2);
}

#[test]
fn unknown_peer_is_absent() {
    let app = App::new();
    assert_eq!(app.peer_address("nobody"), None);
}

#[test]
fn http_client_line_fills_client_set() {
    let mut app = App::new();
    app.process_log("172.25.208.1 - - [10/Oct/2024]".to_string(), false);
    assert!(app.has_client("172.25.208.1"));
    assert!(!app.has_client("10.0.0.1"));
}

#[test]
fn repeated_client_is_stored_once() {
    let mut app = App::new();
    app.process_log("172.25.208.1 - - [10/Oct/2024]".to_string(), false);
    app.process_log("172.25.208.1 - - [11/Oct/2024]".to_string(), false);
    app.process_log("Received message from ('172.25.208.1', 9999)".to_string(), false);
    assert!(app.has_client("172.25.208.1"));
    assert_eq!(app.clients.len(), 1);
}

#[test]
fn secondary_stream_line_is_prefixed_but_classified_alike() {
    let mut app = App::new();
    app.process_log("172.25.208.1 - - [10/Oct/2024]".to_string(), true);
    assert_eq!(app.logs, vec!["[STDERR] 172.25.208.1 - - [10/Oct/2024]".to_string()]);
    assert!(app.has_client("172.25.208.1"));
}

#[test]
fn unmatched_line_is_still_logged() {
    let mut app = App::new();
    app.process_log("nothing to see here".to_string(), false);
    assert_eq!(app.logs, vec!["nothing to see here".to_string()]);
    assert!(app.peers.is_empty());
    assert!(app.clients.is_empty());
    assert!(!app.server_ready);
}

#[test]
fn append_snaps_cursor_to_newest_page() {
    let mut app = App::new();
    for i in 0..15 {
        app.process_log(format!("line {}", i), false);
        let expected = if app.logs.len() > 10 { app.logs.len() - 10 } else { 0 };
        assert_eq!(app.scroll_position, expected);
    }
    assert_eq!(app.scroll_position, 5);
    app.navigate(NavCommand::PageUp);
    assert_eq!(app.scroll_position, 0);
}

#[test]
fn home_then_line_up_stays_at_top() {
    let mut app = App::new();
    for i in 0..25 {
        app.process_log(format!("line {}", i), false);
    }
    app.scroll_to_top();
    assert_eq!(app.scroll_position, 0);
    app.scroll_up();
    app.scroll_up();
    app.scroll_up();
    assert_eq!(app.scroll_position, 0);
}

#[test]
fn end_then_line_down_stays_at_bottom() {
    let mut app = App::new();
    for i in 0..25 {
        app.process_log(format!("line {}", i), false);
    }
    app.scroll_to_bottom();
    assert_eq!(app.scroll_position, 15);
    app.scroll_down();
    app.scroll_down();
    assert_eq!(app.scroll_position, 15);
}

#[test]
fn scroll_methods_move_within_bounds() {
    let mut app = App::new();
    for i in 0..30 {
        app.process_log(format!("line {}", i), false);
    }
    assert_eq!(app.scroll_position, 20);
    app.scroll_up();
    assert_eq!(app.scroll_position, 19);
    app.scroll_down();
    assert_eq!(app.scroll_position, 20);
    app.scroll_page_up();
    assert_eq!(app.scroll_position, 10);
    app.scroll_page_down();
    assert_eq!(app.scroll_position, 20);
}

#[test]
fn snapshot_copies_all_fields() {
    let mut app = App::new();
    app.process_log("{'name': 'patchpanel', 'ip': '127.0.0.1'}".to_string(), false);
    app.process_log("Serving at port 8080".to_string(), true);
    app.process_log("172.25.208.1 - - [x]".to_string(), false);
    let snap = app.snapshot();
    assert_eq!(snap.logs, app.logs);
    assert_eq!(snap.clients, app.clients);
    assert_eq!(snap.server_ready, app.server_ready);
    assert_eq!(snap.scroll_position, app.scroll_position);
    assert_eq!(snap.peers.len(), app.peers.len());
    assert_eq!(snap.peers[0].name, app.peers[0].name);
    assert_eq!(snap.peers[0].address, app.peers[0].address);
    assert_eq!(snap.peers[0].last_seen, app.peers[0].last_seen);
}

#[test]
fn request_quit_sets_flag_only() {
    let mut app = App::new();
    app.process_log("a line".to_string(), false);
    app.request_quit();
    assert!(app.should_quit);
    assert_eq!(app.logs.len(), 1);
}
