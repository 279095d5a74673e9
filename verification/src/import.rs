//! The line-by-line logic of importing OwnTracks recorder (`.rec`) files:
//! `<ISO_TS>\t<TYPE_LABEL>\t<JSON_PAYLOAD>` per line.

use vstd::prelude::*;
use crate::clock::{parse_rfc3339_seconds, rfc3339_seconds};
use crate::message::{json_type_tag, kind_for_tag, message_kind, MessageKind};
use crate::text::{
    chars_of, copy_range, idx_of, lemma_idx_of, opt_view, position_from, splitn_on, string_of, trim,
    trim_bounds, trim_seq,
};

verus! {

/// The timestamp and the trimmed payload of a `.rec` line: the first and
/// the third tab-separated field (the third runs to the end of the line).
pub open spec fn parse_rec_line_spec(line: Seq<char>) -> Option<(Seq<char>, Seq<char>)> {
    let parts = splitn_on(line, 3, '\t');
    if parts.len() < 3 {
        None
    } else {
        Some((parts[0], trim_seq(parts[2])))
    }
}

pub proof fn lemma_splitn_three(s: Seq<char>)
    ensures
        ({
            let i = idx_of(s, '\t');
            let rest = s.skip(i as int + 1);
            let j = idx_of(rest, '\t');
            let parts = splitn_on(s, 3, '\t');
            &&& (i < s.len() && j < rest.len()) ==> parts.len() == 3 && parts[0] == s.take(i as int)
                && parts[2] == rest.skip(j as int + 1)
            &&& !(i < s.len() && j < rest.len()) ==> parts.len() < 3
        }),
{
    reveal_with_fuel(splitn_on, 3);
    lemma_idx_of(s, '\t');
}

/// Splits a `.rec` line into its timestamp and its trimmed payload.
pub fn parse_rec_line(line: &str) -> (r: Option<(String, String)>)
    ensures
        match r {
            None => parse_rec_line_spec(line@) is None,
            Some((ts, payload)) => parse_rec_line_spec(line@) == Some((ts@, payload@)),
        },
{
    let v = chars_of(line);
    let n = v.len();
    let ghost s = v@;
    proof {
        lemma_splitn_three(s);
        assert(s.subrange(0, n as int) =~= s);
    }
    let i = position_from(&v, 0, '\t');
    if i == n {
        return None;
    }
    let ghost rest = s.skip(i as int + 1);
    let j = position_from(&v, i + 1, '\t');
    proof {
        assert(s.subrange(i + 1, n as int) =~= rest);
    }
    if j == n {
        return None;
    }
    let ts = copy_range(&v, 0, i);
    let (a, b) = trim_bounds(&v, j + 1, n);
    let payload = copy_range(&v, a, b);
    proof {
        assert(ts@ =~= s.take(i as int));
        assert(s.subrange(j + 1, n as int) =~= rest.skip(idx_of(rest, '\t') as int + 1));
    }
    Some((string_of(ts.as_slice()), string_of(payload.as_slice())))
}

/// One line of a `.rec` file, classified.
#[derive(Debug)]
pub enum RecLine {
    /// Nothing but whitespace.
    Blank,
    /// Fewer than three tab-separated fields.
    Malformed,
    /// The timestamp is not RFC 3339.
    BadTimestamp(chrono::ParseError),
    /// The payload is not JSON.
    NotJson,
    /// A location fix, received at `received_at`.
    Location { received_at: i64, payload: String },
    /// Any other message, received at `received_at`.
    Message { received_at: i64, msg_type: Option<String>, payload: String },
}

/// Whether `r` is the classification of a record whose timestamp parsed to
/// `received_at` (as `rfc3339_seconds` reports it), whose payload is
/// `payload` and whose payload is of kind `tag` (as `json_type_tag` reports
/// it).
pub open spec fn record_class(
    r: RecLine,
    received_at: Option<i64>,
    payload: Seq<char>,
    tag: Option<Option<Seq<char>>>,
) -> bool {
    match received_at {
        None => r is BadTimestamp,
        Some(t) => match tag {
            None => r is NotJson,
            Some(ty) => if ty == Some("location"@) {
                match r {
                    RecLine::Location { received_at, payload: p } => received_at == t && p@
                        == payload,
                    _ => false,
                }
            } else {
                match r {
                    RecLine::Message { received_at, msg_type, payload: p } => received_at == t
                        && p@ == payload && opt_view(msg_type) == ty,
                    _ => false,
                }
            },
        },
    }
}

/// The classification of a whole line.
pub open spec fn rec_line_class(r: RecLine, line: Seq<char>) -> bool {
    let t = trim_seq(line);
    if t.len() == 0 {
        r is Blank
    } else {
        match parse_rec_line_spec(t) {
            None => r is Malformed,
            Some((ts, payload)) => record_class(
                r,
                rfc3339_seconds(ts),
                payload,
                json_type_tag(payload),
            ),
        }
    }
}

/// Classifies a record from its timestamp field (already parsed) and its
/// payload (already inspected for its kind).
pub fn classify_record(
    received_at: Result<i64, chrono::ParseError>,
    payload: String,
    kind: MessageKind,
) -> (r: RecLine)
    ensures
        forall|tag: Option<Option<Seq<char>>>|
            kind_for_tag(kind, tag) ==> record_class(
                r,
                match received_at {
                    Ok(t) => Some(t),
                    Err(_) => None,
                },
                payload@,
                tag,
            ),
{
    match received_at {
        Err(e) => RecLine::BadTimestamp(e),
        Ok(t) => match kind {
            MessageKind::NotJson => RecLine::NotJson,
            MessageKind::Location => RecLine::Location { received_at: t, payload },
            MessageKind::Message(m) => RecLine::Message { received_at: t, msg_type: m, payload },
        },
    }
}

/// Classifies one line of a `.rec` file.
pub fn classify_rec_line(line: &str) -> (r: RecLine)
    ensures
        rec_line_class(r, line@),
{
    let trimmed = trim(line);
    if trimmed.as_str().is_empty() {
        return RecLine::Blank;
    }
    match parse_rec_line(trimmed.as_str()) {
        None => RecLine::Malformed,
        Some((ts, payload)) => {
            let received_at = parse_rfc3339_seconds(ts.as_str());
            let kind = message_kind(payload.as_str());
            classify_record(received_at, payload, kind)
        },
    }
}

/// What became of one line of a `.rec` file.
#[derive(Clone, Copy, Debug, PartialEq, Eq)]
pub enum LineOutcome {
    Blank,
    Skipped,
    LocationInserted,
    LocationDuplicate,
    MessageInserted,
}

impl RecLine {
    /// The outcome of a line that is not stored: blank lines and lines that
    /// are skipped. `None` for the lines that go to storage.
    pub fn unstored_outcome(&self) -> (o: Option<LineOutcome>)
        ensures
            self is Blank <==> o matches Some(LineOutcome::Blank),
            (self is Malformed || self is BadTimestamp || self is NotJson) <==> o matches Some(
                LineOutcome::Skipped,
            ),
            (self is Location || self is Message) <==> o is None,
    {
        match self {
            RecLine::Blank => Some(LineOutcome::Blank),
            RecLine::Malformed => Some(LineOutcome::Skipped),
            RecLine::BadTimestamp(_) => Some(LineOutcome::Skipped),
            RecLine::NotJson => Some(LineOutcome::Skipped),
            RecLine::Location { .. } => None,
            RecLine::Message { .. } => None,
        }
    }
}

/// Counters of an import run.
#[derive(Clone, Debug, PartialEq)]
pub struct ImportStats {
    pub files: u64,
    pub lines: u64,
    pub locations_inserted: u64,
    pub locations_duplicate: u64,
    pub messages_inserted: u64,
    pub skipped: u64,
}

impl Default for ImportStats {
    fn default() -> (s: Self)
        ensures
            s.files == 0 && s.lines == 0 && s.locations_inserted == 0 && s.locations_duplicate
                == 0 && s.messages_inserted == 0 && s.skipped == 0,
    {
        ImportStats::new()
    }
}

impl ImportStats {
    /// Lines that were handled one way or another (all but blank ones).
    pub open spec fn handled(&self) -> int {
        self.locations_inserted + self.locations_duplicate + self.messages_inserted + self.skipped
    }

    /// Every handled line was counted as a line.
    pub open spec fn wf(&self) -> bool {
        self.handled() <= self.lines
    }

    /// Whether one more line can be counted without overflow.
    pub open spec fn has_room(&self) -> bool {
        &&& self.lines < u64::MAX
        &&& self.locations_inserted < u64::MAX
        &&& self.locations_duplicate < u64::MAX
        &&& self.messages_inserted < u64::MAX
        &&& self.skipped < u64::MAX
    }

    /// Whether one more line can be counted without overflow.
    pub fn room_for_line(&self) -> (r: bool)
        ensures
            r == self.has_room(),
    {
        self.lines < u64::MAX && self.locations_inserted < u64::MAX && self.locations_duplicate
            < u64::MAX && self.messages_inserted < u64::MAX && self.skipped < u64::MAX
    }

    /// All counters at zero.
    pub fn new() -> (s: Self)
        ensures
            s.files == 0 && s.lines == 0 && s.locations_inserted == 0 && s.locations_duplicate
                == 0 && s.messages_inserted == 0 && s.skipped == 0,
            s.wf(),
    {
        ImportStats {
            files: 0,
            lines: 0,
            locations_inserted: 0,
            locations_duplicate: 0,
            messages_inserted: 0,
            skipped: 0,
        }
    }

    /// Counts one line and what became of it.
    pub fn record(&mut self, o: LineOutcome)
        requires
            old(self).has_room(),
        ensures
            final(self).files == old(self).files,
            final(self).lines == old(self).lines + 1,
            final(self).locations_inserted == old(self).locations_inserted + (if o is LocationInserted {
                1int
            } else {
                0
            }),
            final(self).locations_duplicate == old(self).locations_duplicate + (
            if o is LocationDuplicate {
                1int
            } else {
                0
            }),
            final(self).messages_inserted == old(self).messages_inserted + (if o is MessageInserted {
                1int
            } else {
                0
            }),
            final(self).skipped == old(self).skipped + (if o is Skipped {
                1int
            } else {
                0
            }),
    {
        self.lines = self.lines + 1;
        match o {
            LineOutcome::Blank => {},
            LineOutcome::Skipped => {
                self.skipped = self.skipped + 1;
            },
            LineOutcome::LocationInserted => {
                self.locations_inserted = self.locations_inserted + 1;
            },
            LineOutcome::LocationDuplicate => {
                self.locations_duplicate = self.locations_duplicate + 1;
            },
            LineOutcome::MessageInserted => {
                self.messages_inserted = self.messages_inserted + 1;
            },
        }
    }

    /// Counts one imported file.
    pub fn record_file(&mut self)
        requires
            old(self).files < u64::MAX,
        ensures
            final(self).files == old(self).files + 1,
            final(self).lines == old(self).lines,
            final(self).locations_inserted == old(self).locations_inserted,
            final(self).locations_duplicate == old(self).locations_duplicate,
            final(self).messages_inserted == old(self).messages_inserted,
            final(self).skipped == old(self).skipped,
    {
        self.files = self.files + 1;
    }
}

/// Counting lines keeps every handled line among the counted ones.
pub proof fn law_import_stats_wf(before: ImportStats, after: ImportStats, o: LineOutcome)
    requires
        before.wf(),
        before.has_room(),
        after.files == before.files,
        after.lines == before.lines + 1,
        after.locations_inserted == before.locations_inserted + (if o is LocationInserted {
            1int
        } else {
            0
        }),
        after.locations_duplicate == before.locations_duplicate + (if o is LocationDuplicate {
            1int
        } else {
            0
        }),
        after.messages_inserted == before.messages_inserted + (if o is MessageInserted {
            1int
        } else {
            0
        }),
        after.skipped == before.skipped + (if o is Skipped {
            1int
        } else {
            0
        }),
    ensures
        after.wf(),
        after.handled() == before.handled() + (if o is Blank {
            0int
        } else {
            1
        }),
{
}

/// Whether a directory name passes an optional name filter.
pub fn name_selected(name: &str, filter: Option<&str>) -> (r: bool)
    ensures
        r == match filter {
            None => true,
            Some(f) => name@ == f@,
        },
{
    match filter {
        None => true,
        Some(f) => crate::text::str_equals(name, f),
    }
}

/// A payload goes to the same place whether it arrives live from the
/// broker or is imported from a `.rec` file: both see a location fix, or
/// both see a message of the same type, or neither stores it (an imported
/// record with a readable timestamp is meant).
pub proof fn law_import_agrees_with_live(
    r: RecLine,
    received_at: i64,
    payload: Seq<char>,
    k: MessageKind,
)
    requires
        record_class(r, Some(received_at), payload, json_type_tag(payload)),
        kind_for_tag(k, json_type_tag(payload)),
    ensures
        r is Location <==> k is Location,
        r is NotJson <==> k is NotJson,
        r is Message <==> k is Message,
        match r {
            RecLine::Message { msg_type, .. } => match k {
                MessageKind::Message(m) => opt_view(m) == opt_view(msg_type),
                _ => false,
            },
            _ => true,
        },
{
}

} // verus!
