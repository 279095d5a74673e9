use otrecorder::api::{
    bbox_filter, export_filter, near_filter, near_result_limit, parse_timestamp,
    parse_timestamp_param, LocationsQuery, Order, TrackQuery,
};
use otrecorder::clock::format_utc_time;
use otrecorder::config::{
    default_config_path, default_db_path, expand_path, join_path, BoolDefaultTrue, HttpConfig,
    MqttConfig,
};
use otrecorder::gpx::{gpx_track, push_xml_escaped, GpxPoint, GPX_TIME_FORMAT};
use otrecorder::mqtt::{connect_plan, on_event, BrokerEvent, LoopAction, TlsChoice};

#[test]
fn locations_query_to_filter() {
    let q = LocationsQuery {
        user: Some("a".into()),
        device: None,
        from: Some(1),
        to: None,
        limit: Some(7),
        offset: Some(2),
        order: Order::Desc,
    };
    let f = q.into_filter();
    assert_eq!(f.user, Some("a".to_string()));
    assert_eq!(f.device, None);
    assert_eq!(f.from_tst, Some(1));
    assert_eq!(f.limit, Some(7));
    assert_eq!(f.offset, Some(2));
    assert!(f.descending);
    assert_eq!(Order::default(), Order::Asc);
}

#[test]
fn track_filter_defaults() {
    let q = TrackQuery { user: "u".into(), device: "d".into(), from: None, to: Some(5), limit: None };
    let f = q.filter();
    assert_eq!(f.user, Some("u".to_string()));
    assert_eq!(f.device, Some("d".to_string()));
    assert_eq!(f.limit, Some(50_000));
    assert_eq!(f.to_tst, Some(5));
    assert!(!f.descending);
    let q2 = TrackQuery { limit: Some(3), ..q };
    assert_eq!(q2.filter().limit, Some(3));
}

#[test]
fn near_and_bbox_filters() {
    let f = near_filter(None, Some("d".into()), None, None, Some(10));
    assert_eq!(f.limit, Some(40));
    assert!(!f.descending);
    assert_eq!(near_filter(None, None, None, None, Some(i64::MAX)).limit, Some(i64::MAX));
    assert_eq!(near_filter(None, None, None, None, Some(i64::MIN)).limit, Some(i64::MIN));
    assert_eq!(near_filter(None, None, None, None, None).limit, None);
    assert_eq!(near_result_limit(None), 1000);
    assert_eq!(near_result_limit(Some(-5)), 1);
    assert_eq!(near_result_limit(Some(25)), 25);
    let b = bbox_filter(Some("u".into()), None, Some(1), Some(2), None, Order::Desc);
    assert!(b.descending);
    assert_eq!(b.offset, None);
}

#[test]
fn timestamps() {
    assert_eq!(parse_timestamp("1700000000").ok(), Some(1700000000));
    assert_eq!(parse_timestamp("-5").ok(), Some(-5));
    assert_eq!(parse_timestamp("1970-01-01T00:00:00Z").ok(), Some(0));
    assert_eq!(parse_timestamp("2024-01-01T01:00:00+01:00").ok(), Some(1704067200));
    assert!(parse_timestamp("tomorrow").is_err());
    assert!(parse_timestamp("").is_err());
    assert_eq!(parse_timestamp_param(None).ok(), Some(None));
    assert_eq!(parse_timestamp_param(Some("")).ok(), Some(None));
    assert_eq!(parse_timestamp_param(Some("12")).ok(), Some(Some(12)));
    assert!(parse_timestamp_param(Some("x")).is_err());
}

#[test]
fn export_filter_bounds() {
    let f = export_filter(Some("u".into()), None, Some("10"), Some("1970-01-01T00:01:00Z")).ok().unwrap();
    assert_eq!(f.from_tst, Some(10));
    assert_eq!(f.to_tst, Some(60));
    assert_eq!(f.limit, None);
    let e = export_filter(None, None, Some("bad"), Some("worse")).err().unwrap();
    assert_eq!(e.input, "bad");
    let e2 = export_filter(None, None, Some("1"), Some("worse")).err().unwrap();
    assert_eq!(e2.input, "worse");
}

#[test]
fn xml_escaping() {
    let mut out = String::from(">");
    push_xml_escaped(&mut out, "a<b>&\"c'd\u{e9}");
    assert_eq!(out, ">a&lt;b&gt;&amp;&quot;c&apos;d\u{e9}");
}

#[test]
fn utc_rendering() {
    assert_eq!(format_utc_time(0, GPX_TIME_FORMAT), Some("1970-01-01T00:00:00Z".to_string()));
    assert_eq!(
        format_utc_time(1704067200, GPX_TIME_FORMAT),
        Some("2024-01-01T00:00:00Z".to_string())
    );
    assert_eq!(format_utc_time(1704067200, "%Y"), Some("2024".to_string()));
    assert_eq!(format_utc_time(i64::MAX, GPX_TIME_FORMAT), None);
    // A format chrono cannot render gives nothing rather than a panic.
    assert_eq!(format_utc_time(0, "%Q"), None);
}

#[test]
fn gpx_document() {
    let pts = vec![
        GpxPoint { lat: "1.0000000".into(), lon: "2.0000000".into(), ele: Some("5".into()), tst: 0, speed: None },
        GpxPoint { lat: "3.5000000".into(), lon: "4.5000000".into(), ele: None, tst: i64::MAX, speed: Some("7.5".into()) },
    ];
    let doc = gpx_track("a&b", "d", &pts);
    let expected: String = [
        "<?xml version=\"1.0\" encoding=\"UTF-8\"?>\n",
        "<gpx version=\"1.1\" creator=\"otrecorder\" xmlns=\"http://www.topografix.com/GPX/1/1\">\n",
        "  <trk>\n    <name>a&amp;b/d</name>\n    <trkseg>\n",
        "      <trkpt lat=\"1.0000000\" lon=\"2.0000000\">\n",
        "        <ele>5</ele>\n",
        "        <time>1970-01-01T00:00:00Z</time>\n",
        "      </trkpt>\n",
        "      <trkpt lat=\"3.5000000\" lon=\"4.5000000\">\n",
        "        <extensions><speed>7.5</speed></extensions>\n",
        "      </trkpt>\n",
        "    </trkseg>\n  </trk>\n</gpx>\n",
    ]
    .concat();
    assert_eq!(doc, expected);
}

#[test]
fn config_defaults() {
    let m = MqttConfig::default();
    assert!(m.enabled.0);
    assert_eq!(m.host, "localhost");
    assert_eq!(m.port, 1883);
    assert_eq!(m.topic, "owntracks/#");
    assert_eq!(m.client_id, "owntracks-recorder");
    assert!(!m.tls);
    let h = HttpConfig::default();
    assert_eq!(h.bind, "127.0.0.1:8080");
    assert!(h.enabled.0);
    assert!(!h.cors_any_origin);
    assert!(bool::from(BoolDefaultTrue::default()));
    assert!(!bool::from(BoolDefaultTrue(false)));
}

#[test]
fn paths() {
    assert_eq!(join_path("/a", "b"), "/a/b");
    assert_eq!(join_path("/a/", "b"), "/a/b");
    assert_eq!(join_path("", "b"), "b");
    assert_eq!(join_path("/a", "/b"), "/b");
    assert_eq!(default_db_path(Some("/home/u/.local/share".into())), "/home/u/.local/share/otrecorder/owntracks.db");
    assert_eq!(default_db_path(None), "./otrecorder/owntracks.db");
    assert_eq!(default_config_path(Some("/etc".into())), "/etc/otrecorder/config.toml");
    assert_eq!(expand_path("~/x/db", Some("/home/u".into())), "/home/u/x/db");
    assert_eq!(expand_path("$HOME/db", Some("/home/u/".into())), "/home/u/db");
    assert_eq!(expand_path("~/x", None), "~/x");
    assert_eq!(expand_path("$HOME", Some("/home/u".into())), "/home/u");
    assert_eq!(expand_path("$HOME", None), "$HOME");
    assert_eq!(expand_path("$HOMEDIR/db", Some("/home/u".into())), "$HOMEDIR/db");
    assert_eq!(expand_path("/abs/db", Some("/home/u".into())), "/abs/db");
    assert_eq!(expand_path("~user/db", Some("/home/u".into())), "~user/db");
}

#[test]
fn paths_match_std_join() {
    for (b, r) in [("/a", "b"), ("/a/", "b"), ("", "b"), ("/a", "/b"), ("a", "b/c"), (".", "otrecorder")] {
        let expect = std::path::Path::new(b).join(r).to_string_lossy().into_owned();
        assert_eq!(join_path(b, r), expect, "on {:?}", (b, r));
    }
}

#[test]
fn mqtt_connect_plan() {
    let mut cfg = MqttConfig::default();
    cfg.username = Some("u".into());
    let p = connect_plan(&cfg);
    assert_eq!(p.credentials, Some(("u".to_string(), String::new())));
    assert_eq!(p.keep_alive_secs, 30);
    assert!(!p.clean_session);
    assert_eq!(p.tls, TlsChoice::Plain);
    cfg.tls = true;
    assert_eq!(connect_plan(&cfg).tls, TlsChoice::SystemRoots);
    cfg.ca_file = Some("/ca.pem".into());
    assert_eq!(connect_plan(&cfg).tls, TlsChoice::CaFile("/ca.pem".to_string()));
}

#[test]
fn mqtt_events() {
    assert_eq!(on_event(BrokerEvent::ConnAck), LoopAction::Resubscribe);
    assert_eq!(on_event(BrokerEvent::ConnectionError), LoopAction::Backoff(2));
    assert_eq!(on_event(BrokerEvent::Disconnect), LoopAction::Note);
    assert_eq!(
        on_event(BrokerEvent::Publish { topic: "t".into(), payload: "p".into() }),
        LoopAction::Handle { topic: "t".into(), payload: "p".into() }
    );
}

#[test]
fn escaped_text_has_no_markup() {
    let mut out = String::new();
    push_xml_escaped(&mut out, "<script>alert('x' & \"y\")</script>");
    assert!(!out.contains(|c| c == '<' || c == '>' || c == '"' || c == '\''));
}

#[test]
fn decimal_timestamps_read_back() {
    for n in [0u64, 7, 1704067200, i64::MAX as u64] {
        let mut s = String::new();
        otrecorder::number::push_decimal(&mut s, n);
        assert_eq!(s, n.to_string());
        assert_eq!(parse_timestamp(&s).ok(), Some(n as i64));
    }
}

#[test]
fn query_defaults() {
    let q = LocationsQuery::default();
    assert_eq!(q.user, None);
    assert_eq!(q.limit, None);
    assert_eq!(q.order, Order::Asc);
    let l = otrecorder::api::LatestQuery::default();
    assert_eq!(l.user, None);
    assert_eq!(l.device, None);
}
