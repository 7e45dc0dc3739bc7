use logdash::classify::{classify, ClassificationResult, PeerEvent, StreamSource};

fn classify_primary(line: &str) -> ClassificationResult {
    classify(line, StreamSource::Primary)
}

#[test]
fn readiness_line_sets_ready_and_is_stored_unprefixed() {
    let r = classify_primary("Serving at port 8080");
    assert!(r.ready);
    assert_eq!(r.peer, None);
    assert_eq!(r.client, None);
    assert_eq!(r.display, "Serving at port 8080");
}

#[test]
fn readiness_substring_matches_anywhere_in_line() {
    let r = classify_primary("INFO  Serving at port 8080 (press ctrl-c to stop)");
    assert!(r.ready);
}

#[test]
fn full_record_line_yields_name_and_address() {
    let r = classify_primary("{'name': 'patchpanel', 'foo': 1, 'ip': '127.0.0.1'}");
    assert_eq!(
        r.peer,
        Some(PeerEvent::FullRecord { name: "patchpanel".to_string(), address: "127.0.0.1".to_string() })
    );
    assert_eq!(r.client, None);
    assert!(!r.ready);
}

#[test]
fn full_record_with_adjacent_ip_field() {
    let r = classify_primary("{'name': 'gatekeeper', 'ip': '10.1.2.3'}");
    assert_eq!(
        r.peer,
        Some(PeerEvent::FullRecord { name: "gatekeeper".to_string(), address: "10.1.2.3".to_string() })
    );
}

#[test]
fn registration_line_yields_name_only() {
    let r = classify_primary("Registering new puzzle widget42");
    assert_eq!(r.peer, Some(PeerEvent::RegisteredOnly { name: "widget42".to_string() }));
    assert_eq!(r.client, None);
    assert!(!r.ready);
}

#[test]
fn registration_name_stops_at_non_word_character() {
    let r = classify_primary("Registering new puzzle maze_7: please wait");
    assert_eq!(r.peer, Some(PeerEvent::RegisteredOnly { name: "maze_7".to_string() }));
}

#[test]
fn full_record_wins_over_registration() {
    let r = classify_primary("Registering new puzzle old {'name': 'fresh', 'ip': '9.8.7.6'}");
    assert_eq!(
        r.peer,
        Some(PeerEvent::FullRecord { name: "fresh".to_string(), address: "9.8.7.6".to_string() })
    );
}

#[test]
fn empty_quoted_name_is_no_record() {
    let r = classify_primary("{'name': '', 'ip': '1.2.3.4'}");
    assert_eq!(r.peer, None);
}

#[test]
fn http_access_log_line_yields_client() {
    let r = classify_primary("172.25.208.1 - - [10/Oct/2024]");
    assert_eq!(r.client, Some("172.25.208.1".to_string()));
    assert_eq!(r.peer, None);
    assert!(!r.ready);
}

#[test]
fn http_client_must_start_the_line() {
    let r = classify_primary("at 172.25.208.1 - - [10/Oct/2024]");
    assert_eq!(r.client, None);
}

#[test]
fn four_digit_octet_is_no_client() {
    let r = classify_primary("1724.25.208.1 - - [10/Oct/2024]");
    assert_eq!(r.client, None);
}

#[test]
fn message_line_yields_client() {
    let r = classify_primary("Received message from ('10.0.0.7', 51423)");
    assert_eq!(r.client, Some("10.0.0.7".to_string()));
}

#[test]
fn peer_and_client_events_are_independent() {
    let r = classify_primary("10.0.0.9 - - {'name': 'combo', 'ip': '10.0.0.9'}");
    assert_eq!(r.client, Some("10.0.0.9".to_string()));
    assert_eq!(
        r.peer,
        Some(PeerEvent::FullRecord { name: "combo".to_string(), address: "10.0.0.9".to_string() })
    );
}

#[test]
fn unmatched_line_yields_no_events() {
    let r = classify_primary("just some ordinary output");
    assert_eq!(r.peer, None);
    assert_eq!(r.client, None);
    assert!(!r.ready);
    assert_eq!(r.display, "just some ordinary output");
}

#[test]
fn secondary_stream_prefixes_display_only() {
    let line = "172.25.208.1 - - [10/Oct/2024]";
    let p = classify(line, StreamSource::Primary);
    let s = classify(line, StreamSource::Secondary);
    assert_eq!(s.display, "[STDERR] 172.25.208.1 - - [10/Oct/2024]");
    assert_eq!(p.display, line);
    assert_eq!(p.peer, s.peer);
    assert_eq!(p.client, s.client);
    assert_eq!(p.ready, s.ready);
}

#[test]
fn secondary_classification_matches_primary_for_records() {
    let line = "{'name': 'patchpanel', 'foo': 1, 'ip': '127.0.0.1'}";
    let p = classify(line, StreamSource::Primary);
    let s = classify(line, StreamSource::Secondary);
    assert_eq!(p.peer, s.peer);
    assert_eq!(s.display, format!("[STDERR] {}", line));
}
