use otrecorder::storage::{DeviceSummary, Stats, UserSummary};
use otrecorder::storage::{
    bbox_query, devices_query, latest_query, locations_query, stream_query, wal_enabled,
    LocationFilter, SqlValue, DEVICES_ALL_SQL, DEVICES_OF_USER_SQL, SELECT_COLS,
    SELECT_COLS_WITH_PREFIX,
};

fn placeholders(sql: &str) -> usize {
    sql.chars().filter(|c| *c == '?').count()
}

fn text(s: &str) -> SqlValue {
    SqlValue::Text(s.to_string())
}

#[test]
fn default_locations_query() {
    let q = locations_query(&LocationFilter::default());
    assert_eq!(q.sql, format!("SELECT {} FROM locations ORDER BY tst ASC LIMIT ?", SELECT_COLS));
    assert_eq!(q.params, vec![SqlValue::Integer(1000)]);
}

#[test]
fn full_locations_query() {
    let f = LocationFilter {
        user: Some("alice".into()),
        device: Some("phone".into()),
        from_tst: Some(10),
        to_tst: Some(20),
        limit: Some(5),
        offset: Some(-3),
        descending: true,
    };
    let q = locations_query(&f);
    assert_eq!(
        q.sql,
        format!(
            "SELECT {} FROM locations WHERE user = ? AND device = ? AND tst >= ? AND tst <= ? ORDER BY tst DESC LIMIT ? OFFSET ?",
            SELECT_COLS
        )
    );
    assert_eq!(
        q.params,
        vec![
            text("alice"),
            text("phone"),
            SqlValue::Integer(10),
            SqlValue::Integer(20),
            SqlValue::Integer(5),
            SqlValue::Integer(0)
        ]
    );
    assert_eq!(placeholders(&q.sql), q.params.len());
}

#[test]
fn limit_is_clamped() {
    let mut f = LocationFilter::default();
    f.limit = Some(0);
    assert_eq!(locations_query(&f).params, vec![SqlValue::Integer(1)]);
    f.limit = Some(10_000_000);
    assert_eq!(locations_query(&f).params, vec![SqlValue::Integer(100_000)]);
    f.limit = Some(-7);
    assert_eq!(locations_query(&f).params, vec![SqlValue::Integer(1)]);
}

#[test]
fn partial_filter_query() {
    let mut f = LocationFilter::default();
    f.device = Some("tab".into());
    f.to_tst = Some(99);
    f.offset = Some(40);
    let q = locations_query(&f);
    assert_eq!(
        q.sql,
        format!(
            "SELECT {} FROM locations WHERE device = ? AND tst <= ? ORDER BY tst ASC LIMIT ? OFFSET ?",
            SELECT_COLS
        )
    );
    assert_eq!(
        q.params,
        vec![text("tab"), SqlValue::Integer(99), SqlValue::Integer(1000), SqlValue::Integer(40)]
    );
}

#[test]
fn stream_query_ignores_paging() {
    let mut f = LocationFilter::default();
    f.user = Some("u".into());
    f.limit = Some(3);
    f.offset = Some(3);
    f.descending = true;
    let q = stream_query(&f);
    assert_eq!(
        q.sql,
        format!("SELECT {} FROM locations WHERE user = ? ORDER BY user, device, tst", SELECT_COLS)
    );
    assert_eq!(q.params, vec![text("u")]);
}

#[test]
fn bbox_query_text() {
    let mut f = LocationFilter::default();
    f.user = Some("u".into());
    f.from_tst = Some(1);
    let q = bbox_query(&f);
    let expected = format!(
        "SELECT {} FROM locations l
             JOIN locations_rtree r ON r.id = l.id
             WHERE r.min_lat >= ?1 AND r.max_lat <= ?2
               AND r.min_lon >= ?3 AND r.max_lon <= ?4 AND l.user = ? AND l.tst >= ? ORDER BY l.tst ASC LIMIT ?",
        SELECT_COLS_WITH_PREFIX
    );
    assert_eq!(q.sql, expected);
    assert_eq!(q.params, vec![text("u"), SqlValue::Integer(1), SqlValue::Integer(10_000)]);
    assert_eq!(placeholders(&q.sql), 4 + q.params.len());
}

#[test]
fn latest_query_variants() {
    let both = latest_query(Some("u"), Some("d"));
    assert!(both.sql.contains("WHERE user = ?1 AND device = ?2"));
    assert!(both.sql.ends_with(" ORDER BY l.user, l.device"));
    assert_eq!(both.params, vec![text("u"), text("d")]);
    assert_eq!(placeholders(&both.sql), 2);

    let user_only = latest_query(Some("u"), None);
    assert!(user_only.sql.contains("WHERE user = ?1\n"));
    assert_eq!(user_only.params, vec![text("u")]);

    let none = latest_query(None, None);
    assert_eq!(placeholders(&none.sql), 0);
    assert!(none.params.is_empty());

    // A device without a user is bound although the statement has no
    // placeholder for it.
    let device_only = latest_query(None, Some("d"));
    assert_eq!(placeholders(&device_only.sql), 0);
    assert_eq!(device_only.params, vec![text("d")]);
}

#[test]
fn devices_queries() {
    let one = devices_query(Some("alice"));
    assert_eq!(one.sql, DEVICES_OF_USER_SQL);
    assert_eq!(one.params, vec![text("alice")]);
    let all = devices_query(None);
    assert_eq!(all.sql, DEVICES_ALL_SQL);
    assert!(all.params.is_empty());
}

#[test]
fn wal_mode_answer() {
    assert!(wal_enabled("wal"));
    assert!(wal_enabled("WAL"));
    assert!(!wal_enabled("delete"));
    assert!(!wal_enabled("wall"));
}

#[test]
fn stream_placeholders_match_params() {
    let mut f = LocationFilter::default();
    assert_eq!(placeholders(&stream_query(&f).sql), stream_query(&f).params.len());
    f.user = Some("u".into());
    f.device = Some("d".into());
    f.from_tst = Some(1);
    f.to_tst = Some(2);
    let q = stream_query(&f);
    assert_eq!(placeholders(&q.sql), 4);
    assert_eq!(q.params.len(), 4);
}

#[test]
fn summary_defaults() {
    let u = UserSummary::default();
    assert_eq!(u.user, "");
    assert_eq!(u.device_count, 0);
    let d = DeviceSummary::default();
    assert_eq!(d.first_tst, None);
    assert_eq!(d.location_count, 0);
    let s = Stats::default();
    assert_eq!(s.total_locations, 0);
    assert_eq!(s.newest_tst, None);
}
