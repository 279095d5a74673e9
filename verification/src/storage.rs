//! The SQL that the recorder's storage runs: table layout, and the text and
//! bound parameters of every query, built from the caller's filter.

use vstd::prelude::*;
use crate::text::{contains_text, lemma_contains_mid, lemma_contains_widen, opt_view};

verus! {

/// Columns of a location row, in the order rows are read back.
pub const SELECT_COLS: &'static str = "id, topic, user, device, tst, received_at, lat, lon, acc, alt, vel, cog, batt, bs, trigger_kind, tid, conn, vac, pressure";

/// The same columns, qualified by the alias `l`.
pub const SELECT_COLS_WITH_PREFIX: &'static str = "l.id, l.topic, l.user, l.device, l.tst, l.received_at, l.lat, l.lon, l.acc, l.alt, l.vel, l.cog, l.batt, l.bs, l.trigger_kind, l.tid, l.conn, l.vac, l.pressure";

/// Tables and indexes; every statement is idempotent.
pub const SCHEMA: &'static str = "
CREATE TABLE IF NOT EXISTS locations (
    id            INTEGER PRIMARY KEY AUTOINCREMENT,
    topic         TEXT    NOT NULL,
    user          TEXT    NOT NULL,
    device        TEXT    NOT NULL,
    tst           INTEGER NOT NULL,
    received_at   INTEGER NOT NULL,
    lat           REAL    NOT NULL,
    lon           REAL    NOT NULL,
    acc           REAL,
    alt           REAL,
    vel           REAL,
    cog           REAL,
    batt          REAL,
    bs            INTEGER,
    trigger_kind  TEXT,
    tid           TEXT,
    conn          TEXT,
    vac           REAL,
    pressure      REAL,
    raw           TEXT    NOT NULL,
    UNIQUE(user, device, tst)
);

CREATE INDEX IF NOT EXISTS idx_locations_user_device_tst ON locations(user, device, tst);
CREATE INDEX IF NOT EXISTS idx_locations_tst            ON locations(tst);

CREATE VIRTUAL TABLE IF NOT EXISTS locations_rtree USING rtree(
    id,
    min_lat, max_lat,
    min_lon, max_lon
);

CREATE TABLE IF NOT EXISTS messages (
    id           INTEGER PRIMARY KEY AUTOINCREMENT,
    topic        TEXT    NOT NULL,
    user         TEXT    NOT NULL,
    device       TEXT    NOT NULL,
    type         TEXT,
    received_at  INTEGER NOT NULL,
    payload      TEXT    NOT NULL
);

CREATE INDEX IF NOT EXISTS idx_messages_user_device_received ON messages(user, device, received_at);
CREATE INDEX IF NOT EXISTS idx_messages_type                 ON messages(type);
";

/// Per-connection settings.
pub const CONNECTION_PRAGMAS: &'static str = "PRAGMA synchronous = NORMAL;
                 PRAGMA temp_store = MEMORY;
                 PRAGMA foreign_keys = ON;
                 PRAGMA busy_timeout = 5000;";

/// Switches the database file to write-ahead logging; answers the mode.
pub const WAL_PRAGMA: &'static str = "PRAGMA journal_mode = WAL";

/// Inserts a location unless `(user, device, tst)` is already stored.
pub const INSERT_LOCATION_SQL: &'static str = "INSERT OR IGNORE INTO locations (
                topic, user, device, tst, received_at, lat, lon,
                acc, alt, vel, cog, batt, bs, trigger_kind, tid, conn, vac, pressure, raw
             ) VALUES (
                ?1, ?2, ?3, ?4, ?5, ?6, ?7,
                ?8, ?9, ?10, ?11, ?12, ?13, ?14, ?15, ?16, ?17, ?18, ?19
             )";

/// Indexes a newly inserted location in the spatial index.
pub const INSERT_RTREE_SQL: &'static str = "INSERT INTO locations_rtree (id, min_lat, max_lat, min_lon, max_lon)
                 VALUES (?1, ?2, ?3, ?4, ?5)";

/// Stores a non-location message.
pub const INSERT_MESSAGE_SQL: &'static str = "INSERT INTO messages (topic, user, device, type, received_at, payload)
             VALUES (?1, ?2, ?3, ?4, ?5, ?6)";

/// One row per user: distinct devices and stored locations.
pub const USERS_SQL: &'static str = "SELECT user, COUNT(DISTINCT device) AS dc, COUNT(*) AS lc
             FROM locations GROUP BY user ORDER BY user";

pub const STATS_LOCATIONS_SQL: &'static str = "SELECT COUNT(*), MIN(tst), MAX(tst) FROM locations";

pub const STATS_MESSAGES_SQL: &'static str = "SELECT COUNT(*) FROM messages";

pub const STATS_USERS_SQL: &'static str = "SELECT COUNT(DISTINCT user) FROM locations";

pub const STATS_DEVICES_SQL: &'static str = "SELECT COUNT(*) FROM (SELECT 1 FROM locations GROUP BY user, device)";

pub const STATS_SIZE_SQL: &'static str = "SELECT page_count * page_size FROM pragma_page_count(), pragma_page_size()";

/// Which locations a query selects, and how many and in which order.
#[derive(Clone, Debug, PartialEq)]
pub struct LocationFilter {
    pub user: Option<String>,
    pub device: Option<String>,
    pub from_tst: Option<i64>,
    pub to_tst: Option<i64>,
    pub limit: Option<i64>,
    pub offset: Option<i64>,
    pub descending: bool,
}

impl Default for LocationFilter {
    fn default() -> (f: Self)
        ensures
            f.user is None && f.device is None && f.from_tst is None && f.to_tst is None
                && f.limit is None && f.offset is None && !f.descending,
    {
        LocationFilter {
            user: None,
            device: None,
            from_tst: None,
            to_tst: None,
            limit: None,
            offset: None,
            descending: false,
        }
    }
}

/// One user and how much is stored of them.
#[derive(Clone, Debug, PartialEq)]
pub struct UserSummary {
    pub user: String,
    pub device_count: i64,
    pub location_count: i64,
}

/// One device and the span of its stored locations.
#[derive(Clone, Debug, PartialEq)]
pub struct DeviceSummary {
    pub user: String,
    pub device: String,
    pub location_count: i64,
    pub first_tst: Option<i64>,
    pub last_tst: Option<i64>,
}

/// Totals over the whole database.
#[derive(Clone, Debug, PartialEq)]
pub struct Stats {
    pub total_locations: i64,
    pub total_messages: i64,
    pub oldest_tst: Option<i64>,
    pub newest_tst: Option<i64>,
    pub user_count: i64,
    pub device_count: i64,
    pub db_size_bytes: i64,
}

impl Default for UserSummary {
    fn default() -> (u: Self)
        ensures
            u.user@.len() == 0 && u.device_count == 0 && u.location_count == 0,
    {
        UserSummary { user: String::new(), device_count: 0, location_count: 0 }
    }
}

impl Default for DeviceSummary {
    fn default() -> (d: Self)
        ensures
            d.user@.len() == 0 && d.device@.len() == 0 && d.location_count == 0 && d.first_tst is None
                && d.last_tst is None,
    {
        DeviceSummary {
            user: String::new(),
            device: String::new(),
            location_count: 0,
            first_tst: None,
            last_tst: None,
        }
    }
}

impl Default for Stats {
    fn default() -> (s: Self)
        ensures
            s.total_locations == 0 && s.total_messages == 0 && s.oldest_tst is None && s.newest_tst
                is None && s.user_count == 0 && s.device_count == 0 && s.db_size_bytes == 0,
    {
        Stats {
            total_locations: 0,
            total_messages: 0,
            oldest_tst: None,
            newest_tst: None,
            user_count: 0,
            device_count: 0,
            db_size_bytes: 0,
        }
    }
}

/// A bound parameter, as contracts see it.
pub enum SqlParam {
    Integer(i64),
    Text(Seq<char>),
}

/// A bound parameter of a query.
#[derive(Clone, Debug, PartialEq)]
pub enum SqlValue {
    Integer(i64),
    Text(String),
}

impl View for SqlValue {
    type V = SqlParam;

    open spec fn view(&self) -> SqlParam {
        match self {
            SqlValue::Integer(i) => SqlParam::Integer(*i),
            SqlValue::Text(s) => SqlParam::Text(s@),
        }
    }
}

/// A statement's text and the values bound to its placeholders, in order.
#[derive(Clone, Debug, PartialEq)]
pub struct SqlQuery {
    pub sql: String,
    pub params: Vec<SqlValue>,
}

impl SqlQuery {
    pub open spec fn params_view(&self) -> Seq<SqlParam> {
        self.params@.map_values(|p: SqlValue| p@)
    }
}

/// `l` when present, else `default`, brought into `[1, 100000]`.
pub open spec fn clamp_limit(l: Option<i64>, default: i64) -> i64 {
    let x = match l {
        Some(x) => x,
        None => default,
    };
    if x < 1 {
        1
    } else if x > 100_000 {
        100_000
    } else {
        x
    }
}

pub fn clamped_limit(l: Option<i64>, default: i64) -> (r: i64)
    ensures
        r == clamp_limit(l, default),
        1 <= r <= 100_000,
{
    let x = match l {
        Some(x) => x,
        None => default,
    };
    if x < 1 {
        1
    } else if x > 100_000 {
        100_000
    } else {
        x
    }
}

pub open spec fn opt_seq<T>(b: bool, x: T) -> Seq<T> {
    if b {
        seq![x]
    } else {
        seq![]
    }
}

/// `parts` joined by `sep`.
pub open spec fn join_with(parts: Seq<Seq<char>>, sep: Seq<char>) -> Seq<char>
    decreases parts.len(),
{
    if parts.len() == 0 {
        Seq::empty()
    } else if parts.len() == 1 {
        parts[0]
    } else {
        join_with(parts.drop_last(), sep) + sep + parts.last()
    }
}

/// ` WHERE ` and the conditions joined by ` AND `; nothing when there are
/// no conditions.
pub open spec fn where_part(clauses: Seq<Seq<char>>) -> Seq<char> {
    if clauses.len() == 0 {
        Seq::empty()
    } else {
        " WHERE "@ + join_with(clauses, " AND "@)
    }
}

/// The conditions of a filter on user, device and time span.
pub open spec fn filter_clauses(f: LocationFilter) -> Seq<Seq<char>> {
    opt_seq(f.user is Some, "user = ?"@) + opt_seq(f.device is Some, "device = ?"@) + opt_seq(
        f.from_tst is Some,
        "tst >= ?"@,
    ) + opt_seq(f.to_tst is Some, "tst <= ?"@)
}

/// The values bound to the conditions of `filter_clauses`, in order.
pub open spec fn filter_params(f: LocationFilter) -> Seq<SqlParam> {
    opt_seq(f.user is Some, SqlParam::Text(opt_view(f.user)->0)) + opt_seq(
        f.device is Some,
        SqlParam::Text(opt_view(f.device)->0),
    ) + opt_seq(f.from_tst is Some, SqlParam::Integer(f.from_tst->0)) + opt_seq(
        f.to_tst is Some,
        SqlParam::Integer(f.to_tst->0),
    )
}

/// Appends one condition to a statement whose conditions so far are
/// `clauses`.
fn push_clause(
    sql: &mut String,
    Ghost(base): Ghost<Seq<char>>,
    Ghost(clauses): Ghost<Seq<Seq<char>>>,
    first: bool,
    clause: &str,
)
    requires
        old(sql)@ == base + where_part(clauses),
        first == (clauses.len() == 0),
    ensures
        final(sql)@ == base + where_part(clauses.push(clause@)),
{
    let ghost c = clauses.push(clause@);
    assert(c.drop_last() =~= clauses);
    if first {
        sql.append(" WHERE ");
        sql.append(clause);
        assert(join_with(c, " AND "@) == clause@);
        assert(sql@ =~= base + where_part(c));
    } else {
        sql.append(" AND ");
        sql.append(clause);
        assert(sql@ =~= base + where_part(c));
    }
}

/// Appends the conditions of `f` (with their values) to a statement.
fn push_filter(sql: &mut String, params: &mut Vec<SqlValue>, f: &LocationFilter)
    requires
        old(params)@.len() == 0,
    ensures
        final(sql)@ == old(sql)@ + where_part(filter_clauses(*f)),
        final(params)@.map_values(|p: SqlValue| p@) == filter_params(*f),
{
    let ghost base = sql@;
    let ghost mut clauses: Seq<Seq<char>> = Seq::empty();
    assert(sql@ =~= base + where_part(clauses));
    let mut first = true;
    match &f.user {
        Some(u) => {
            push_clause(sql, Ghost(base), Ghost(clauses), first, "user = ?");
            proof {
                clauses = clauses.push("user = ?"@);
            }
            first = false;
            params.push(SqlValue::Text(u.clone()));
        },
        None => {},
    }
    match &f.device {
        Some(d) => {
            push_clause(sql, Ghost(base), Ghost(clauses), first, "device = ?");
            proof {
                clauses = clauses.push("device = ?"@);
            }
            first = false;
            params.push(SqlValue::Text(d.clone()));
        },
        None => {},
    }
    match f.from_tst {
        Some(from) => {
            push_clause(sql, Ghost(base), Ghost(clauses), first, "tst >= ?");
            proof {
                clauses = clauses.push("tst >= ?"@);
            }
            first = false;
            params.push(SqlValue::Integer(from));
        },
        None => {},
    }
    match f.to_tst {
        Some(to) => {
            push_clause(sql, Ghost(base), Ghost(clauses), first, "tst <= ?");
            proof {
                clauses = clauses.push("tst <= ?"@);
            }
            params.push(SqlValue::Integer(to));
        },
        None => {},
    }
    assert(clauses =~= filter_clauses(*f));
    assert(params@.map_values(|p: SqlValue| p@) =~= filter_params(*f));
}

/// Newest first or oldest first.
pub open spec fn order_part(descending: bool) -> Seq<char> {
    if descending {
        " ORDER BY tst DESC"@
    } else {
        " ORDER BY tst ASC"@
    }
}

/// Newest first or oldest first, on the aliased table.
pub open spec fn order_part_l(descending: bool) -> Seq<char> {
    if descending {
        " ORDER BY l.tst DESC"@
    } else {
        " ORDER BY l.tst ASC"@
    }
}

/// The text of `Storage::query_locations` for `f`.
pub open spec fn locations_sql(f: LocationFilter) -> Seq<char> {
    "SELECT "@ + SELECT_COLS@ + " FROM locations"@ + where_part(filter_clauses(f)) + order_part(f.descending) + " LIMIT ?"@ + if f.offset is Some {
        " OFFSET ?"@
    } else {
        Seq::empty()
    }
}

/// The values bound by `Storage::query_locations`: the filter's, then the
/// limit (1000 by default, kept within `[1, 100000]`), then the offset
/// (negative ones raised to 0) when there is one.
pub open spec fn locations_params(f: LocationFilter) -> Seq<SqlParam> {
    filter_params(f) + seq![SqlParam::Integer(clamp_limit(f.limit, 1000))] + opt_seq(
        f.offset is Some,
        SqlParam::Integer(
            if f.offset->0 < 0 {
                0
            } else {
                f.offset->0
            },
        ),
    )
}

/// The statement behind `Storage::query_locations`.
pub fn locations_query(f: &LocationFilter) -> (q: SqlQuery)
    ensures
        q.sql@ == locations_sql(*f),
        q.params_view() == locations_params(*f),
{
    let mut sql = String::new();
    sql.append("SELECT ");
    sql.append(SELECT_COLS);
    sql.append(" FROM locations");
    let mut params: Vec<SqlValue> = Vec::new();
    push_filter(&mut sql, &mut params, f);
    let ghost p0 = params@;
    if f.descending {
        sql.append(" ORDER BY tst DESC");
    } else {
        sql.append(" ORDER BY tst ASC");
    }
    let limit = clamped_limit(f.limit, 1000);
    sql.append(" LIMIT ?");
    params.push(SqlValue::Integer(limit));
    match f.offset {
        Some(off) => {
            sql.append(" OFFSET ?");
            params.push(SqlValue::Integer(if off < 0 { 0 } else { off }));
        },
        None => {},
    }
    proof {
        assert(params@.map_values(|p: SqlValue| p@) =~= locations_params(*f)) by {
            assert(p0.map_values(|p: SqlValue| p@) == filter_params(*f));
        }
        assert(sql@ =~= locations_sql(*f));
    }
    SqlQuery { sql, params }
}

/// The text of `Storage::stream_locations` for `f`: all matching rows,
/// grouped by user and device, in time order.
pub open spec fn stream_sql(f: LocationFilter) -> Seq<char> {
    "SELECT "@ + SELECT_COLS@ + " FROM locations"@ + where_part(filter_clauses(f))
        + " ORDER BY user, device, tst"@
}

/// The statement behind `Storage::stream_locations`; limit, offset and
/// order of the filter play no part.
pub fn stream_query(f: &LocationFilter) -> (q: SqlQuery)
    ensures
        q.sql@ == stream_sql(*f),
        q.params_view() == filter_params(*f),
{
    let mut sql = String::new();
    sql.append("SELECT ");
    sql.append(SELECT_COLS);
    sql.append(" FROM locations");
    let mut params: Vec<SqlValue> = Vec::new();
    push_filter(&mut sql, &mut params, f);
    sql.append(" ORDER BY user, device, tst");
    proof {
        assert(sql@ =~= stream_sql(*f));
    }
    SqlQuery { sql, params }
}

/// The fixed head of `Storage::query_bbox`: its four placeholders `?1` to
/// `?4` take the box's bounds (min lat, max lat, min lon, max lon).
pub open spec fn bbox_head() -> Seq<char> {
    "SELECT "@ + SELECT_COLS_WITH_PREFIX@ + " FROM locations l
             JOIN locations_rtree r ON r.id = l.id
             WHERE r.min_lat >= ?1 AND r.max_lat <= ?2
               AND r.min_lon >= ?3 AND r.max_lon <= ?4"@
}

/// The text of `Storage::query_bbox` for `f`.
pub open spec fn bbox_sql(f: LocationFilter) -> Seq<char> {
    bbox_head() + (if f.user is Some {
        " AND l.user = ?"@
    } else {
        Seq::empty()
    }) + (if f.device is Some {
        " AND l.device = ?"@
    } else {
        Seq::empty()
    }) + (if f.from_tst is Some {
        " AND l.tst >= ?"@
    } else {
        Seq::empty()
    }) + (if f.to_tst is Some {
        " AND l.tst <= ?"@
    } else {
        Seq::empty()
    }) + order_part_l(f.descending) + " LIMIT ?"@
}

/// The values that `Storage::query_bbox` binds after the box's four bounds:
/// the filter's, then the limit (10000 by default, kept within
/// `[1, 100000]`). The offset plays no part.
pub open spec fn bbox_params(f: LocationFilter) -> Seq<SqlParam> {
    filter_params(f) + seq![SqlParam::Integer(clamp_limit(f.limit, 10_000))]
}

/// The statement behind `Storage::query_bbox`, with the values bound after
/// the four bounds of the box (which the caller binds first, as reals).
pub fn bbox_query(f: &LocationFilter) -> (q: SqlQuery)
    ensures
        q.sql@ == bbox_sql(*f),
        q.params_view() == bbox_params(*f),
{
    let mut sql = String::new();
    sql.append("SELECT ");
    sql.append(SELECT_COLS_WITH_PREFIX);
    sql.append(
        " FROM locations l
             JOIN locations_rtree r ON r.id = l.id
             WHERE r.min_lat >= ?1 AND r.max_lat <= ?2
               AND r.min_lon >= ?3 AND r.max_lon <= ?4",
    );
    let mut params: Vec<SqlValue> = Vec::new();
    match &f.user {
        Some(u) => {
            sql.append(" AND l.user = ?");
            params.push(SqlValue::Text(u.clone()));
        },
        None => {},
    }
    match &f.device {
        Some(d) => {
            sql.append(" AND l.device = ?");
            params.push(SqlValue::Text(d.clone()));
        },
        None => {},
    }
    match f.from_tst {
        Some(from) => {
            sql.append(" AND l.tst >= ?");
            params.push(SqlValue::Integer(from));
        },
        None => {},
    }
    match f.to_tst {
        Some(to) => {
            sql.append(" AND l.tst <= ?");
            params.push(SqlValue::Integer(to));
        },
        None => {},
    }
    let ghost p0 = params@;
    proof {
        assert(p0.map_values(|p: SqlValue| p@) =~= filter_params(*f));
    }
    if f.descending {
        sql.append(" ORDER BY l.tst DESC");
    } else {
        sql.append(" ORDER BY l.tst ASC");
    }
    let limit = clamped_limit(f.limit, 10_000);
    sql.append(" LIMIT ?");
    params.push(SqlValue::Integer(limit));
    proof {
        assert(params@.map_values(|p: SqlValue| p@) =~= bbox_params(*f));
        assert(sql@ =~= bbox_sql(*f));
    }
    SqlQuery { sql, params }
}

/// The condition of the inner query of `Storage::latest_per_device`: on
/// user and device when both are given, on user alone when only it is,
/// none otherwise.
pub open spec fn latest_where(user: bool, device: bool) -> Seq<char> {
    if user && device {
        "WHERE user = ?1 AND device = ?2"@
    } else if user {
        "WHERE user = ?1"@
    } else {
        ""@
    }
}

/// The text of `Storage::latest_per_device`.
pub open spec fn latest_sql(user: bool, device: bool) -> Seq<char> {
    "SELECT "@ + SELECT_COLS_WITH_PREFIX@ + " FROM locations l
             JOIN (
                 SELECT user, device, MAX(tst) AS max_tst
                 FROM locations
                 "@ + latest_where(user, device) + "
                 GROUP BY user, device
             ) m ON m.user = l.user AND m.device = l.device AND m.max_tst = l.tst"@
        + " ORDER BY l.user, l.device"@
}

/// The statement behind `Storage::latest_per_device`: the newest location
/// of each device. The values bound are the user, then the device, each
/// when given.
pub fn latest_query(user: Option<&str>, device: Option<&str>) -> (q: SqlQuery)
    ensures
        q.sql@ == latest_sql(user is Some, device is Some),
        q.params_view() == opt_seq(user is Some, SqlParam::Text(user->0@)) + opt_seq(
            device is Some,
            SqlParam::Text(device->0@),
        ),
{
    let mut sql = String::new();
    sql.append("SELECT ");
    sql.append(SELECT_COLS_WITH_PREFIX);
    sql.append(
        " FROM locations l
             JOIN (
                 SELECT user, device, MAX(tst) AS max_tst
                 FROM locations
                 ",
    );
    match (user, device) {
        (Some(_), Some(_)) => sql.append("WHERE user = ?1 AND device = ?2"),
        (Some(_), None) => sql.append("WHERE user = ?1"),
        _ => sql.append(""),
    }
    sql.append(
        "
                 GROUP BY user, device
             ) m ON m.user = l.user AND m.device = l.device AND m.max_tst = l.tst",
    );
    sql.append(" ORDER BY l.user, l.device");
    let mut params: Vec<SqlValue> = Vec::new();
    match user {
        Some(u) => params.push(SqlValue::Text(u.to_owned())),
        None => {},
    }
    match device {
        Some(d) => params.push(SqlValue::Text(d.to_owned())),
        None => {},
    }
    proof {
        assert(sql@ =~= latest_sql(user is Some, device is Some));
        assert(params@.map_values(|p: SqlValue| p@) =~= opt_seq(
            user is Some,
            SqlParam::Text(user->0@),
        ) + opt_seq(device is Some, SqlParam::Text(device->0@)));
    }
    SqlQuery { sql, params }
}

/// Devices of one user, by device.
pub const DEVICES_OF_USER_SQL: &'static str = "SELECT user, device, COUNT(*), MIN(tst), MAX(tst)
                 FROM locations WHERE user = ?1
                 GROUP BY user, device ORDER BY device";

/// Devices of all users, by user and device.
pub const DEVICES_ALL_SQL: &'static str = "SELECT user, device, COUNT(*), MIN(tst), MAX(tst)
                 FROM locations GROUP BY user, device ORDER BY user, device";

/// The statement behind `Storage::list_devices`.
pub fn devices_query(user: Option<&str>) -> (q: SqlQuery)
    ensures
        user is Some ==> q.sql@ == DEVICES_OF_USER_SQL@ && q.params_view() == seq![
            SqlParam::Text(user->0@),
        ],
        user is None ==> q.sql@ == DEVICES_ALL_SQL@ && q.params_view() == Seq::<SqlParam>::empty(),
{
    match user {
        Some(u) => {
            let mut params: Vec<SqlValue> = Vec::new();
            params.push(SqlValue::Text(u.to_owned()));
            assert(params@.map_values(|p: SqlValue| p@) =~= seq![SqlParam::Text(u@)]);
            SqlQuery { sql: DEVICES_OF_USER_SQL.to_owned(), params }
        },
        None => {
            let params: Vec<SqlValue> = Vec::new();
            assert(params@.map_values(|p: SqlValue| p@) =~= Seq::<SqlParam>::empty());
            SqlQuery { sql: DEVICES_ALL_SQL.to_owned(), params }
        },
    }
}

} // verus!

verus! {

/// Number of occurrences of `c` in `s`.
pub open spec fn count_char(s: Seq<char>, c: char) -> nat
    decreases s.len(),
{
    if s.len() == 0 {
        0
    } else {
        count_char(s.drop_last(), c) + if s.last() == c {
            1nat
        } else {
            0
        }
    }
}

pub proof fn lemma_count_concat(a: Seq<char>, b: Seq<char>, c: char)
    ensures
        count_char(a + b, c) == count_char(a, c) + count_char(b, c),
    decreases b.len(),
{
    if b.len() == 0 {
        assert(a + b =~= a);
    } else {
        assert((a + b).drop_last() =~= a + b.drop_last());
        lemma_count_concat(a, b.drop_last(), c);
    }
}

pub proof fn lemma_count_absent(s: Seq<char>, c: char)
    requires
        forall|k: int| 0 <= k < s.len() ==> s[k] != c,
    ensures
        count_char(s, c) == 0,
    decreases s.len(),
{
    if s.len() > 0 {
        lemma_count_absent(s.drop_last(), c);
    }
}

proof fn lemma_count_one_at_end(s: Seq<char>, c: char)
    requires
        s.len() > 0,
        s.last() == c,
        forall|k: int| 0 <= k < s.len() - 1 ==> s[k] != c,
    ensures
        count_char(s, c) == 1,
{
    lemma_count_absent(s.drop_last(), c);
}

proof fn lemma_join_count(parts: Seq<Seq<char>>, sep: Seq<char>, c: char)
    requires
        count_char(sep, c) == 0,
        forall|i: int| 0 <= i < parts.len() ==> count_char(#[trigger] parts[i], c) == 1,
    ensures
        count_char(join_with(parts, sep), c) == parts.len(),
    decreases parts.len(),
{
    if parts.len() == 0 {
        assert(count_char(Seq::<char>::empty(), c) == 0);
    } else if parts.len() == 1 {
    } else {
        let d = parts.drop_last();
        assert forall|i: int| 0 <= i < d.len() implies count_char(#[trigger] d[i], c) == 1 by {
            assert(d[i] == parts[i]);
        }
        lemma_join_count(d, sep, c);
        lemma_count_concat(join_with(d, sep), sep, c);
        lemma_count_concat(join_with(d, sep) + sep, parts.last(), c);
    }
}

/// Each condition of a filter holds one placeholder and is bound to one
/// value; the joining words hold none.
proof fn lemma_filter_placeholders(f: LocationFilter)
    ensures
        count_char(where_part(filter_clauses(f)), '?') == filter_params(f).len(),
        filter_clauses(f).len() == filter_params(f).len(),
{
    reveal_strlit("user = ?");
    reveal_strlit("device = ?");
    reveal_strlit("tst >= ?");
    reveal_strlit("tst <= ?");
    reveal_strlit(" WHERE ");
    reveal_strlit(" AND ");
    lemma_count_one_at_end("user = ?"@, '?');
    lemma_count_one_at_end("device = ?"@, '?');
    lemma_count_one_at_end("tst >= ?"@, '?');
    lemma_count_one_at_end("tst <= ?"@, '?');
    lemma_count_absent(" WHERE "@, '?');
    lemma_count_absent(" AND "@, '?');
    let cs = filter_clauses(f);
    assert forall|i: int| 0 <= i < cs.len() implies count_char(#[trigger] cs[i], '?') == 1 by {
        assert(cs[i] == "user = ?"@ || cs[i] == "device = ?"@ || cs[i] == "tst >= ?"@ || cs[i]
            == "tst <= ?"@);
    }
    lemma_join_count(cs, " AND "@, '?');
    if cs.len() > 0 {
        lemma_count_concat(" WHERE "@, join_with(cs, " AND "@), '?');
    } else {
        assert(count_char(Seq::<char>::empty(), '?') == 0);
    }
}

proof fn lemma_no_placeholder_in_columns()
    ensures
        count_char(SELECT_COLS@, '?') == 0,
        count_char(SELECT_COLS_WITH_PREFIX@, '?') == 0,
{
    reveal_strlit("id, topic, user, device, tst, received_at, lat, lon, acc, alt, vel, cog, batt, bs, trigger_kind, tid, conn, vac, pressure");
    reveal_strlit("l.id, l.topic, l.user, l.device, l.tst, l.received_at, l.lat, l.lon, l.acc, l.alt, l.vel, l.cog, l.batt, l.bs, l.trigger_kind, l.tid, l.conn, l.vac, l.pressure");
    lemma_count_absent(SELECT_COLS@, '?');
    lemma_count_absent(SELECT_COLS_WITH_PREFIX@, '?');
}

/// Every placeholder of the location query gets exactly one bound value.
pub proof fn law_locations_placeholders(f: LocationFilter)
    ensures
        count_char(locations_sql(f), '?') == locations_params(f).len(),
{
    lemma_filter_placeholders(f);
    lemma_no_placeholder_in_columns();
    reveal_strlit("SELECT ");
    reveal_strlit(" FROM locations");
    reveal_strlit(" ORDER BY tst DESC");
    reveal_strlit(" ORDER BY tst ASC");
    reveal_strlit(" LIMIT ?");
    reveal_strlit(" OFFSET ?");
    lemma_count_absent("SELECT "@, '?');
    lemma_count_absent(" FROM locations"@, '?');
    lemma_count_absent(" ORDER BY tst DESC"@, '?');
    lemma_count_absent(" ORDER BY tst ASC"@, '?');
    lemma_count_one_at_end(" LIMIT ?"@, '?');
    lemma_count_one_at_end(" OFFSET ?"@, '?');
    let e: Seq<char> = Seq::empty();
    assert(count_char(e, '?') == 0);
    let off = if f.offset is Some {
        " OFFSET ?"@
    } else {
        e
    };
    let a = "SELECT "@ + SELECT_COLS@;
    let b = a + " FROM locations"@;
    let c = b + where_part(filter_clauses(f));
    let d = c + order_part(f.descending);
    let g = d + " LIMIT ?"@;
    lemma_count_concat("SELECT "@, SELECT_COLS@, '?');
    lemma_count_concat(a, " FROM locations"@, '?');
    lemma_count_concat(b, where_part(filter_clauses(f)), '?');
    lemma_count_concat(c, order_part(f.descending), '?');
    lemma_count_concat(d, " LIMIT ?"@, '?');
    lemma_count_concat(g, off, '?');
}

/// Every placeholder of the streaming query gets exactly one bound value.
pub proof fn law_stream_placeholders(f: LocationFilter)
    ensures
        count_char(stream_sql(f), '?') == filter_params(f).len(),
{
    lemma_filter_placeholders(f);
    lemma_no_placeholder_in_columns();
    reveal_strlit("SELECT ");
    reveal_strlit(" FROM locations");
    reveal_strlit(" ORDER BY user, device, tst");
    lemma_count_absent("SELECT "@, '?');
    lemma_count_absent(" FROM locations"@, '?');
    lemma_count_absent(" ORDER BY user, device, tst"@, '?');
    let a = "SELECT "@ + SELECT_COLS@;
    let b = a + " FROM locations"@;
    let c = b + where_part(filter_clauses(f));
    lemma_count_concat("SELECT "@, SELECT_COLS@, '?');
    lemma_count_concat(a, " FROM locations"@, '?');
    lemma_count_concat(b, where_part(filter_clauses(f)), '?');
    lemma_count_concat(c, " ORDER BY user, device, tst"@, '?');
}

/// `count_char` is the number of positions holding `c`, listed in `ps`.
proof fn lemma_count_positions(s: Seq<char>, c: char, ps: Seq<int>)
    requires
        forall|i: int, j: int| 0 <= i < j < ps.len() ==> ps[i] < ps[j],
        forall|j: int| 0 <= j < ps.len() ==> 0 <= #[trigger] ps[j] < s.len() && s[ps[j]] == c,
        forall|k: int| 0 <= k < s.len() && #[trigger] s[k] == c ==> ps.contains(k),
    ensures
        count_char(s, c) == ps.len(),
    decreases s.len(),
{
    if s.len() == 0 {
        if ps.len() > 0 {
            assert(0 <= ps[0] < s.len());
        }
    } else {
        let d = s.drop_last();
        let n = s.len() - 1;
        if s.last() == c {
            assert(s[n] == c);
            assert(ps.contains(n));
            let jn = choose|j: int| 0 <= j < ps.len() && ps[j] == n;
            if jn < ps.len() - 1 {
                assert(ps[jn] < ps[ps.len() - 1]);
            }
            let q = ps.drop_last();
            assert forall|k: int| 0 <= k < d.len() && #[trigger] d[k] == c implies q.contains(k) by {
                assert(s[k] == c);
                assert(ps.contains(k));
                let j = choose|j: int| 0 <= j < ps.len() && ps[j] == k;
                assert(j != ps.len() - 1);
                assert(q[j] == k);
            }
            assert forall|j: int| 0 <= j < q.len() implies 0 <= #[trigger] q[j] < d.len() && d[q[j]]
                == c by {
                assert(q[j] == ps[j]);
                assert(ps[j] < ps[ps.len() - 1]);
            }
            lemma_count_positions(d, c, q);
        } else {
            assert forall|j: int| 0 <= j < ps.len() implies 0 <= #[trigger] ps[j] < d.len() && d[ps[j]]
                == c by {
                assert(ps[j] != n);
            }
            assert forall|k: int| 0 <= k < d.len() && #[trigger] d[k] == c implies ps.contains(k) by {
                assert(s[k] == c);
            }
            lemma_count_positions(d, c, ps);
        }
    }
}

/// Every placeholder of the box query gets exactly one bound value: the
/// box's four bounds, then the values of `bbox_params`.
pub proof fn law_bbox_placeholders(f: LocationFilter)
    ensures
        count_char(bbox_sql(f), '?') == 4 + bbox_params(f).len(),
{
    let head_rest = " FROM locations l
             JOIN locations_rtree r ON r.id = l.id
             WHERE r.min_lat >= ?1 AND r.max_lat <= ?2
               AND r.min_lon >= ?3 AND r.max_lon <= ?4"@;
    reveal_strlit(" FROM locations l
             JOIN locations_rtree r ON r.id = l.id
             WHERE r.min_lat >= ?1 AND r.max_lat <= ?2
               AND r.min_lon >= ?3 AND r.max_lon <= ?4");
    let ps: Seq<int> = seq![101, 121, 156, 176];
    assert forall|k: int| 0 <= k < head_rest.len() && #[trigger] head_rest[k] == '?' implies ps.contains(k) by {
        assert(ps[0] == 101 && ps[1] == 121 && ps[2] == 156 && ps[3] == 176);
    }
    lemma_count_positions(head_rest, '?', ps);
    lemma_no_placeholder_in_columns();
    reveal_strlit("SELECT ");
    lemma_count_absent("SELECT "@, '?');
    lemma_count_concat("SELECT "@, SELECT_COLS_WITH_PREFIX@, '?');
    lemma_count_concat("SELECT "@ + SELECT_COLS_WITH_PREFIX@, head_rest, '?');
    reveal_strlit(" AND l.user = ?");
    reveal_strlit(" AND l.device = ?");
    reveal_strlit(" AND l.tst >= ?");
    reveal_strlit(" AND l.tst <= ?");
    reveal_strlit(" ORDER BY l.tst DESC");
    reveal_strlit(" ORDER BY l.tst ASC");
    reveal_strlit(" LIMIT ?");
    lemma_count_one_at_end(" AND l.user = ?"@, '?');
    lemma_count_one_at_end(" AND l.device = ?"@, '?');
    lemma_count_one_at_end(" AND l.tst >= ?"@, '?');
    lemma_count_one_at_end(" AND l.tst <= ?"@, '?');
    lemma_count_absent(" ORDER BY l.tst DESC"@, '?');
    lemma_count_absent(" ORDER BY l.tst ASC"@, '?');
    lemma_count_one_at_end(" LIMIT ?"@, '?');
    let e: Seq<char> = Seq::empty();
    assert(count_char(e, '?') == 0);
    let pu = if f.user is Some { " AND l.user = ?"@ } else { e };
    let pd = if f.device is Some { " AND l.device = ?"@ } else { e };
    let pf = if f.from_tst is Some { " AND l.tst >= ?"@ } else { e };
    let pt = if f.to_tst is Some { " AND l.tst <= ?"@ } else { e };
    let h = bbox_head();
    lemma_count_concat(h, pu, '?');
    lemma_count_concat(h + pu, pd, '?');
    lemma_count_concat(h + pu + pd, pf, '?');
    lemma_count_concat(h + pu + pd + pf, pt, '?');
    lemma_count_concat(h + pu + pd + pf + pt, order_part_l(f.descending), '?');
    lemma_count_concat(h + pu + pd + pf + pt + order_part_l(f.descending), " LIMIT ?"@, '?');
}

/// Every placeholder of the latest-location query gets exactly one bound
/// value, except when a device is given without a user: then the device is
/// bound but the statement has no placeholder for it.
pub proof fn law_latest_placeholders(user: bool, device: bool)
    requires
        user || !device,
    ensures
        count_char(latest_sql(user, device), '?') == (if user {
            1nat
        } else {
            0
        }) + (if device {
            1nat
        } else {
            0
        }),
{
    let p1 = " FROM locations l
             JOIN (
                 SELECT user, device, MAX(tst) AS max_tst
                 FROM locations
                 "@;
    let p2 = "
                 GROUP BY user, device
             ) m ON m.user = l.user AND m.device = l.device AND m.max_tst = l.tst"@;
    reveal_strlit(" FROM locations l
             JOIN (
                 SELECT user, device, MAX(tst) AS max_tst
                 FROM locations
                 ");
    reveal_strlit("
                 GROUP BY user, device
             ) m ON m.user = l.user AND m.device = l.device AND m.max_tst = l.tst");
    reveal_strlit("SELECT ");
    reveal_strlit(" ORDER BY l.user, l.device");
    reveal_strlit("WHERE user = ?1 AND device = ?2");
    reveal_strlit("WHERE user = ?1");
    reveal_strlit("");
    lemma_count_absent(p1, '?');
    lemma_count_absent(p2, '?');
    lemma_count_absent("SELECT "@, '?');
    lemma_count_absent(" ORDER BY l.user, l.device"@, '?');
    lemma_count_absent(""@, '?');
    let w2 = "WHERE user = ?1 AND device = ?2"@;
    let ps2: Seq<int> = seq![13, 29];
    assert forall|k: int| 0 <= k < w2.len() && #[trigger] w2[k] == '?' implies ps2.contains(k) by {
        assert(ps2[0] == 13 && ps2[1] == 29);
    }
    lemma_count_positions(w2, '?', ps2);
    let w1 = "WHERE user = ?1"@;
    let ps1: Seq<int> = seq![13];
    assert forall|k: int| 0 <= k < w1.len() && #[trigger] w1[k] == '?' implies ps1.contains(k) by {
        assert(ps1[0] == 13);
    }
    lemma_count_positions(w1, '?', ps1);
    lemma_no_placeholder_in_columns();
    let a = "SELECT "@ + SELECT_COLS_WITH_PREFIX@;
    let w = latest_where(user, device);
    lemma_count_concat("SELECT "@, SELECT_COLS_WITH_PREFIX@, '?');
    lemma_count_concat(a, p1, '?');
    lemma_count_concat(a + p1, w, '?');
    lemma_count_concat(a + p1 + w, p2, '?');
    lemma_count_concat(a + p1 + w + p2, " ORDER BY l.user, l.device"@, '?');
}

/// Whether the journal mode that SQLite answered is write-ahead logging.
pub fn wal_enabled(mode: &str) -> (r: bool)
    ensures
        r == crate::text::eq_ignore_ascii_case(mode@, "wal"@),
{
    let v = crate::text::chars_of(mode);
    let w = crate::text::chars_of("wal");
    let r = crate::text::range_eq_ignore_ascii_case(&v, 0, v.len(), &w);
    assert(v@.subrange(0, v@.len() as int) =~= v@);
    r
}

/// What each condition of a filter means: a condition on the user or the
/// device is bound to that name, `tst >= ?` to the lower bound of the time
/// span and `tst <= ?` to its upper bound; and every part of the filter
/// that is set has its condition.
pub proof fn law_filter_conditions(f: LocationFilter)
    ensures
        filter_clauses(f).len() == filter_params(f).len(),
        forall|k: int|
            0 <= k < filter_clauses(f).len() ==> {
                let c = #[trigger] filter_clauses(f)[k];
                let v = filter_params(f)[k];
                ||| (c == "user = ?"@ && f.user is Some && v == SqlParam::Text(opt_view(f.user)->0))
                ||| (c == "device = ?"@ && f.device is Some && v == SqlParam::Text(
                    opt_view(f.device)->0,
                ))
                ||| (c == "tst >= ?"@ && f.from_tst is Some && v == SqlParam::Integer(
                    f.from_tst->0,
                ))
                ||| (c == "tst <= ?"@ && f.to_tst is Some && v == SqlParam::Integer(f.to_tst->0))
            },
        f.user is Some ==> filter_clauses(f).contains("user = ?"@),
        f.device is Some ==> filter_clauses(f).contains("device = ?"@),
        f.from_tst is Some ==> filter_clauses(f).contains("tst >= ?"@),
        f.to_tst is Some ==> filter_clauses(f).contains("tst <= ?"@),
{
    let a = opt_seq(f.user is Some, "user = ?"@);
    let b = opt_seq(f.device is Some, "device = ?"@);
    let c = opt_seq(f.from_tst is Some, "tst >= ?"@);
    let d = opt_seq(f.to_tst is Some, "tst <= ?"@);
    let pa = opt_seq(f.user is Some, SqlParam::Text(opt_view(f.user)->0));
    let pb = opt_seq(f.device is Some, SqlParam::Text(opt_view(f.device)->0));
    let pc = opt_seq(f.from_tst is Some, SqlParam::Integer(f.from_tst->0));
    let pd = opt_seq(f.to_tst is Some, SqlParam::Integer(f.to_tst->0));
    let cs = filter_clauses(f);
    let ps = filter_params(f);
    assert forall|k: int| 0 <= k < cs.len() implies {
        let c0 = #[trigger] cs[k];
        let v = ps[k];
        ||| (c0 == "user = ?"@ && f.user is Some && v == SqlParam::Text(opt_view(f.user)->0))
        ||| (c0 == "device = ?"@ && f.device is Some && v == SqlParam::Text(opt_view(f.device)->0))
        ||| (c0 == "tst >= ?"@ && f.from_tst is Some && v == SqlParam::Integer(f.from_tst->0))
        ||| (c0 == "tst <= ?"@ && f.to_tst is Some && v == SqlParam::Integer(f.to_tst->0))
    } by {
        if k < a.len() {
            assert(cs[k] == a[k] && ps[k] == pa[k]);
        } else if k < a.len() + b.len() {
            assert(cs[k] == b[k - a.len()] && ps[k] == pb[k - a.len()]);
        } else if k < a.len() + b.len() + c.len() {
            assert(cs[k] == c[k - a.len() - b.len()] && ps[k] == pc[k - a.len() - b.len()]);
        } else {
            assert(cs[k] == d[k - a.len() - b.len() - c.len()] && ps[k] == pd[k - a.len() - b.len()
                - c.len()]);
        }
    }
    if f.user is Some {
        assert(cs[0] == "user = ?"@);
    }
    if f.device is Some {
        assert(cs[a.len() as int] == "device = ?"@);
    }
    if f.from_tst is Some {
        assert(cs[(a.len() + b.len()) as int] == "tst >= ?"@);
    }
    if f.to_tst is Some {
        assert(cs[(a.len() + b.len() + c.len()) as int] == "tst <= ?"@);
    }
}

/// How conditions are joined: none gives no `WHERE`, the first follows
/// ` WHERE `, and each further one follows ` AND `.
pub proof fn law_where_part(cs: Seq<Seq<char>>, c: Seq<char>)
    ensures
        where_part(Seq::empty()) == Seq::<char>::empty(),
        where_part(seq![c]) == " WHERE "@ + c,
        cs.len() > 0 ==> where_part(cs.push(c)) == where_part(cs) + " AND "@ + c,
{
    assert(seq![c].len() == 1);
    if cs.len() > 0 {
        assert(cs.push(c).drop_last() =~= cs);
        assert(where_part(cs.push(c)) =~= where_part(cs) + " AND "@ + c);
    }
}

/// Conditions appended one by one, each after ` AND ` and with the table
/// alias `prefix`.
pub open spec fn and_conditions(cs: Seq<Seq<char>>, prefix: Seq<char>) -> Seq<char>
    decreases cs.len(),
{
    if cs.len() == 0 {
        Seq::empty()
    } else {
        and_conditions(cs.drop_last(), prefix) + " AND "@ + prefix + cs.last()
    }
}

proof fn lemma_and_conditions_step(x: Seq<Seq<char>>, on: bool, c: Seq<char>, prefix: Seq<char>)
    ensures
        and_conditions(x + opt_seq(on, c), prefix) == and_conditions(x, prefix) + (if on {
            " AND "@ + prefix + c
        } else {
            Seq::empty()
        }),
{
    if on {
        assert((x + seq![c]).drop_last() =~= x);
        assert(and_conditions(x + opt_seq(on, c), prefix) =~= and_conditions(x, prefix) + (
        " AND "@ + prefix + c));
    } else {
        assert(x + opt_seq(on, c) =~= x);
        assert(and_conditions(x, prefix) + Seq::<char>::empty() =~= and_conditions(x, prefix));
    }
}

/// The statement of the location listing: the columns, the filter's
/// conditions joined into a `WHERE` part, newest first exactly when the
/// filter says descending, then the limit and, when there is one, the
/// offset; the limit bound after the filter's values, and the offset last.
pub proof fn law_locations_statement(f: LocationFilter)
    ensures
        locations_sql(f) == "SELECT "@ + SELECT_COLS@ + " FROM locations"@ + where_part(
            filter_clauses(f),
        ) + (if f.descending {
            " ORDER BY tst DESC"@
        } else {
            " ORDER BY tst ASC"@
        }) + " LIMIT ?"@ + (if f.offset is Some {
            " OFFSET ?"@
        } else {
            Seq::empty()
        }),
        locations_params(f).len() == filter_params(f).len() + 1 + (if f.offset is Some {
            1int
        } else {
            0
        }),
        locations_params(f).subrange(0, filter_params(f).len() as int) == filter_params(f),
        locations_params(f)[filter_params(f).len() as int] == SqlParam::Integer(
            clamp_limit(f.limit, 1000),
        ),
        f.offset is Some ==> locations_params(f).last() == SqlParam::Integer(
            if f.offset->0 < 0 {
                0
            } else {
                f.offset->0
            },
        ),
{
    let n = filter_params(f).len() as int;
    let ps = locations_params(f);
    assert(ps.subrange(0, n) =~= filter_params(f));
    assert(ps[n] == SqlParam::Integer(clamp_limit(f.limit, 1000)));
}

/// A limit is the asked one when it lies in `[1, 100000]`, the default
/// when none is asked, and the nearest end of that range otherwise.
pub proof fn law_clamp_limit(l: Option<i64>, default: i64)
    ensures
        1 <= default <= 100_000 && l is None ==> clamp_limit(l, default) == default,
        l is Some && 1 <= l->0 <= 100_000 ==> clamp_limit(l, default) == l->0,
        l is Some && l->0 < 1 ==> clamp_limit(l, default) == 1,
        l is Some && l->0 > 100_000 ==> clamp_limit(l, default) == 100_000,
{
}

/// The export statement selects with exactly the conditions of the
/// listing for the same filter, and reads every matching row grouped by
/// user and device, in time order.
pub proof fn law_stream_statement(f: LocationFilter)
    ensures
        stream_sql(f) == "SELECT "@ + SELECT_COLS@ + " FROM locations"@ + where_part(
            filter_clauses(f),
        ) + " ORDER BY user, device, tst"@,
        locations_sql(f).subrange(0, stream_sql(f).len() - " ORDER BY user, device, tst"@.len())
            == stream_sql(f).subrange(0, stream_sql(f).len() - " ORDER BY user, device, tst"@.len()),
{
    let head = "SELECT "@ + SELECT_COLS@ + " FROM locations"@ + where_part(filter_clauses(f));
    let tail = " ORDER BY user, device, tst"@;
    assert(stream_sql(f) =~= head + tail);
    assert(stream_sql(f).subrange(0, head.len() as int) =~= head);
    assert(locations_sql(f).subrange(0, head.len() as int) =~= head);
}

/// The box query: the box's bounds on the spatial index, then the same
/// conditions as the listing for the same filter (on the aliased table),
/// newest first exactly when the filter says descending, and the limit;
/// its values are the filter's, then the limit (10000 by default).
pub proof fn law_bbox_statement(f: LocationFilter)
    ensures
        bbox_sql(f) == bbox_head() + and_conditions(filter_clauses(f), "l."@) + (if f.descending {
            " ORDER BY l.tst DESC"@
        } else {
            " ORDER BY l.tst ASC"@
        }) + " LIMIT ?"@,
        bbox_params(f) == filter_params(f) + seq![SqlParam::Integer(clamp_limit(f.limit, 10_000))],
        contains_text(bbox_head(), "JOIN locations_rtree r ON r.id = l.id"@),
        contains_text(bbox_head(), "WHERE r.min_lat >= ?1 AND r.max_lat <= ?2"@),
        contains_text(bbox_head(), "AND r.min_lon >= ?3 AND r.max_lon <= ?4"@),
{
    reveal_strlit(" AND l.user = ?");
    reveal_strlit(" AND l.device = ?");
    reveal_strlit(" AND l.tst >= ?");
    reveal_strlit(" AND l.tst <= ?");
    reveal_strlit(" AND ");
    reveal_strlit("l.");
    reveal_strlit("user = ?");
    reveal_strlit("device = ?");
    reveal_strlit("tst >= ?");
    reveal_strlit("tst <= ?");
    let p = "l."@;
    assert(" AND l.user = ?"@ =~= " AND "@ + p + "user = ?"@);
    assert(" AND l.device = ?"@ =~= " AND "@ + p + "device = ?"@);
    assert(" AND l.tst >= ?"@ =~= " AND "@ + p + "tst >= ?"@);
    assert(" AND l.tst <= ?"@ =~= " AND "@ + p + "tst <= ?"@);
    let e: Seq<Seq<char>> = Seq::empty();
    let a = opt_seq(f.user is Some, "user = ?"@);
    let b = opt_seq(f.device is Some, "device = ?"@);
    let c = opt_seq(f.from_tst is Some, "tst >= ?"@);
    let d = opt_seq(f.to_tst is Some, "tst <= ?"@);
    assert(e + a =~= a);
    lemma_and_conditions_step(e, f.user is Some, "user = ?"@, p);
    lemma_and_conditions_step(a, f.device is Some, "device = ?"@, p);
    lemma_and_conditions_step(a + b, f.from_tst is Some, "tst >= ?"@, p);
    lemma_and_conditions_step(a + b + c, f.to_tst is Some, "tst <= ?"@, p);
    assert(and_conditions(e, p) =~= Seq::<char>::empty());
    let conds = and_conditions(filter_clauses(f), p);
    let ec: Seq<char> = Seq::empty();
    let pu = if f.user is Some { " AND l.user = ?"@ } else { ec };
    let pd = if f.device is Some { " AND l.device = ?"@ } else { ec };
    let pf = if f.from_tst is Some { " AND l.tst >= ?"@ } else { ec };
    let pt = if f.to_tst is Some { " AND l.tst <= ?"@ } else { ec };
    assert(conds =~= pu + pd + pf + pt);
    assert(bbox_sql(f) =~= bbox_head() + conds + order_part_l(f.descending) + " LIMIT ?"@);
    let rest = " FROM locations l
             JOIN locations_rtree r ON r.id = l.id
             WHERE r.min_lat >= ?1 AND r.max_lat <= ?2
               AND r.min_lon >= ?3 AND r.max_lon <= ?4"@;
    reveal_strlit(" FROM locations l
             JOIN locations_rtree r ON r.id = l.id
             WHERE r.min_lat >= ?1 AND r.max_lat <= ?2
               AND r.min_lon >= ?3 AND r.max_lon <= ?4");
    reveal_strlit("JOIN locations_rtree r ON r.id = l.id");
    reveal_strlit("WHERE r.min_lat >= ?1 AND r.max_lat <= ?2");
    reveal_strlit("AND r.min_lon >= ?3 AND r.max_lon <= ?4");
    let head = "SELECT "@ + SELECT_COLS_WITH_PREFIX@;
    let x1 = "JOIN locations_rtree r ON r.id = l.id"@;
    let x2 = "WHERE r.min_lat >= ?1 AND r.max_lat <= ?2"@;
    let x3 = "AND r.min_lon >= ?3 AND r.max_lon <= ?4"@;
    assert(rest.subrange(31, 31 + x1.len() as int) =~= x1);
    assert(rest.subrange(82, 82 + x2.len() as int) =~= x2);
    assert(rest.subrange(139, 139 + x3.len() as int) =~= x3);
    lemma_contains_widen(head, rest, Seq::empty(), x1);
    lemma_contains_widen(head, rest, Seq::empty(), x2);
    lemma_contains_widen(head, rest, Seq::empty(), x3);
    assert(head + rest + Seq::<char>::empty() =~= bbox_head());
}

/// The latest-location statement answers, for each user and device, the
/// row whose timestamp is the greatest of that device: an inner query
/// groups by user and device and takes `MAX(tst)`, and rows are joined to
/// it on user, device and that maximum; devices come in order.
pub proof fn law_latest_takes_newest(user: bool, device: bool)
    ensures
        contains_text(latest_sql(user, device), "SELECT user, device, MAX(tst) AS max_tst"@),
        contains_text(latest_sql(user, device), "GROUP BY user, device"@),
        contains_text(
            latest_sql(user, device),
            "m.user = l.user AND m.device = l.device AND m.max_tst = l.tst"@,
        ),
        contains_text(latest_sql(user, device), " ORDER BY l.user, l.device"@),
{
    let p1 = " FROM locations l
             JOIN (
                 SELECT user, device, MAX(tst) AS max_tst
                 FROM locations
                 "@;
    let p2 = "
                 GROUP BY user, device
             ) m ON m.user = l.user AND m.device = l.device AND m.max_tst = l.tst"@;
    reveal_strlit(" FROM locations l
             JOIN (
                 SELECT user, device, MAX(tst) AS max_tst
                 FROM locations
                 ");
    reveal_strlit("
                 GROUP BY user, device
             ) m ON m.user = l.user AND m.device = l.device AND m.max_tst = l.tst");
    reveal_strlit("SELECT user, device, MAX(tst) AS max_tst");
    reveal_strlit("GROUP BY user, device");
    reveal_strlit("m.user = l.user AND m.device = l.device AND m.max_tst = l.tst");
    let x1 = "SELECT user, device, MAX(tst) AS max_tst"@;
    let x2 = "GROUP BY user, device"@;
    let x3 = "m.user = l.user AND m.device = l.device AND m.max_tst = l.tst"@;
    let x4 = " ORDER BY l.user, l.device"@;
    assert(p1.subrange(55, 55 + x1.len() as int) =~= x1);
    assert(p2.subrange(18, 18 + x2.len() as int) =~= x2);
    assert(p2.subrange(60, 60 + x3.len() as int) =~= x3);
    let a = "SELECT "@ + SELECT_COLS_WITH_PREFIX@;
    let w = latest_where(user, device);
    let e: Seq<char> = Seq::empty();
    let s = latest_sql(user, device);
    lemma_contains_widen(a, p1, w + p2 + x4, x1);
    assert(a + p1 + (w + p2 + x4) =~= s);
    lemma_contains_widen(a + p1 + w, p2, x4, x2);
    lemma_contains_widen(a + p1 + w, p2, x4, x3);
    assert(a + p1 + w + p2 + x4 =~= s);
    lemma_contains_mid(a + p1 + w + p2, x4, e);
    assert(a + p1 + w + p2 + x4 + e =~= s);
}

} // verus!
