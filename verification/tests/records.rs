use otrecorder::json::read_string_member;
use otrecorder::import::{
    classify_rec_line, name_selected, parse_rec_line, ImportStats, LineOutcome, RecLine,
};
use otrecorder::message::{message_kind, route_publish, MessageKind};

#[test]
fn rec_line_fields() {
    let r = parse_rec_line("2024-01-01T00:00:00Z\t*                 \t  {\"_type\":\"location\"}  ");
    assert_eq!(
        r,
        Some(("2024-01-01T00:00:00Z".to_string(), "{\"_type\":\"location\"}".to_string()))
    );
}

#[test]
fn rec_line_payload_keeps_tabs() {
    let r = parse_rec_line("ts\tlabel\ta\tb");
    assert_eq!(r, Some(("ts".to_string(), "a\tb".to_string())));
}

#[test]
fn rec_line_too_few_fields() {
    assert_eq!(parse_rec_line("ts only"), None);
    assert_eq!(parse_rec_line("ts\tlabel"), None);
    assert_eq!(parse_rec_line(""), None);
}

#[test]
fn rec_line_matches_std_splitn() {
    let samples = ["a\tb\tc", "\t\t", "x\t\ty \t", "a\tb\t\u{3000}c\u{3000}", "a\tb"];
    for s in samples {
        let mut parts = s.splitn(3, '\t');
        let expect = match (parts.next(), parts.next(), parts.next()) {
            (Some(ts), Some(_), Some(p)) => Some((ts.to_string(), p.trim().to_string())),
            _ => None,
        };
        assert_eq!(parse_rec_line(s), expect, "on {:?}", s);
    }
}

#[test]
fn classify_location_line() {
    let line = "2024-01-01T00:00:00Z\t*\t{\"_type\":\"location\",\"lat\":1.5,\"lon\":2.5,\"tst\":1704067200}";
    match classify_rec_line(line) {
        RecLine::Location { received_at, payload } => {
            assert_eq!(received_at, 1704067200);
            assert!(payload.starts_with("{\"_type\""));
        }
        other => panic!("unexpected {:?}", other),
    }
}

#[test]
fn classify_message_lines() {
    match classify_rec_line("2024-01-01T00:00:01+01:00\tlwt\t{\"_type\":\"lwt\"}") {
        RecLine::Message { received_at, msg_type, .. } => {
            assert_eq!(received_at, 1704067201 - 3600);
            assert_eq!(msg_type, Some("lwt".to_string()));
        }
        other => panic!("unexpected {:?}", other),
    }
    match classify_rec_line("2024-01-01T00:00:00Z\tx\t{\"a\":1}") {
        RecLine::Message { msg_type, .. } => assert_eq!(msg_type, None),
        other => panic!("unexpected {:?}", other),
    }
    match classify_rec_line("2024-01-01T00:00:00Z\tx\t{\"_type\":5}") {
        RecLine::Message { msg_type, .. } => assert_eq!(msg_type, None),
        other => panic!("unexpected {:?}", other),
    }
}

#[test]
fn classify_skipped_lines() {
    assert!(matches!(classify_rec_line("   \t  "), RecLine::Blank));
    assert!(matches!(classify_rec_line(""), RecLine::Blank));
    assert!(matches!(classify_rec_line("just text"), RecLine::Malformed));
    assert!(matches!(classify_rec_line("yesterday\t*\t{}"), RecLine::BadTimestamp(_)));
    assert!(matches!(classify_rec_line("2024-01-01T00:00:00Z\t*\tnot json"), RecLine::NotJson));
}

#[test]
fn unstored_outcomes() {
    assert_eq!(classify_rec_line("").unstored_outcome(), Some(LineOutcome::Blank));
    assert_eq!(classify_rec_line("x").unstored_outcome(), Some(LineOutcome::Skipped));
    assert_eq!(
        classify_rec_line("2024-01-01T00:00:00Z\t*\t{\"_type\":\"card\"}").unstored_outcome(),
        None
    );
}

#[test]
fn import_stats_counting() {
    let mut s = ImportStats::new();
    s.record(LineOutcome::Blank);
    s.record(LineOutcome::Skipped);
    s.record(LineOutcome::LocationInserted);
    s.record(LineOutcome::LocationDuplicate);
    s.record(LineOutcome::MessageInserted);
    s.record(LineOutcome::LocationInserted);
    s.record_file();
    assert_eq!(s.files, 1);
    assert_eq!(s.lines, 6);
    assert_eq!(s.skipped, 1);
    assert_eq!(s.locations_inserted, 2);
    assert_eq!(s.locations_duplicate, 1);
    assert_eq!(s.messages_inserted, 1);
    let handled = s.skipped + s.locations_inserted + s.locations_duplicate + s.messages_inserted;
    assert!(handled <= s.lines);
}

#[test]
fn name_filter() {
    assert!(name_selected("alice", None));
    assert!(name_selected("alice", Some("alice")));
    assert!(!name_selected("alice", Some("bob")));
}

#[test]
fn kinds_of_payloads() {
    assert_eq!(message_kind("{\"_type\":\"location\",\"lat\":1}"), MessageKind::Location);
    assert_eq!(
        message_kind("{\"_type\":\"transition\"}"),
        MessageKind::Message(Some("transition".to_string()))
    );
    assert_eq!(message_kind("{\"x\":1}"), MessageKind::Message(None));
    assert_eq!(message_kind("[1,2]"), MessageKind::Message(None));
    assert_eq!(message_kind("{oops"), MessageKind::NotJson);
    assert_eq!(message_kind(""), MessageKind::NotJson);
}

#[test]
fn publish_routing() {
    let p = route_publish("owntracks/alice/phone", "{\"_type\":\"location\"}");
    assert_eq!(p.user, "alice");
    assert_eq!(p.device, "phone");
    assert_eq!(p.kind, MessageKind::Location);
    let q = route_publish("misc", "{\"_type\":\"lwt\"}");
    assert_eq!(q.user, "");
    assert_eq!(q.device, "misc");
    assert_eq!(q.kind, MessageKind::Message(Some("lwt".to_string())));
}

#[test]
fn live_and_import_agree() {
    let payloads = [
        "{\"_type\":\"location\",\"lat\":1,\"lon\":2,\"tst\":3}",
        "{\"_type\":\"waypoint\"}",
        "{\"no\":\"type\"}",
        "not json at all",
    ];
    for p in payloads {
        let line = format!("2024-01-01T00:00:00Z\t*\t{}", p);
        let rec = classify_rec_line(&line);
        let live = message_kind(p);
        match (rec, live) {
            (RecLine::Location { .. }, MessageKind::Location) => {}
            (RecLine::NotJson, MessageKind::NotJson) => {}
            (RecLine::Message { msg_type, .. }, MessageKind::Message(m)) => assert_eq!(msg_type, m),
            (r, k) => panic!("disagree on {:?}: {:?} vs {:?}", p, r, k),
        }
    }
}

#[test]
fn import_stats_default_is_zero() {
    let s = ImportStats::default();
    assert_eq!(s, ImportStats::new());
    assert_eq!(s.lines, 0);
}

#[test]
fn string_member_by_key() {
    assert_eq!(read_string_member("{\"tid\":\"ph\"}", "tid"), Some(Some("ph".to_string())));
    assert_eq!(read_string_member("{\"tid\":\"ph\"}", "_type"), Some(None));
    assert_eq!(read_string_member("nope", "tid"), None);
}
