//! GPX 1.1 documents of a device's track.

use vstd::prelude::*;
use crate::clock::{format_utc_time, utc_time_text};
use crate::text::{chars_of, contains_text, lemma_contains_mid, lemma_contains_widen, opt_view};

verus! {

/// The XML text of one character.
pub open spec fn escape_char(c: char) -> Seq<char> {
    if c == '<' {
        "&lt;"@
    } else if c == '>' {
        "&gt;"@
    } else if c == '&' {
        "&amp;"@
    } else if c == '"' {
        "&quot;"@
    } else if c == '\'' {
        "&apos;"@
    } else {
        seq![c]
    }
}

/// `s` with the five XML special characters replaced by their entities.
pub open spec fn xml_escape(s: Seq<char>) -> Seq<char>
    decreases s.len(),
{
    if s.len() == 0 {
        Seq::empty()
    } else {
        xml_escape(s.drop_last()) + escape_char(s.last())
    }
}

/// Appends `s` to `out` with XML special characters escaped.
pub fn push_xml_escaped(out: &mut String, s: &str)
    ensures
        final(out)@ == old(out)@ + xml_escape(s@),
{
    let v = chars_of(s);
    let ghost start = out@;
    let mut i: usize = 0;
    while i < v.len()
        invariant
            i <= v.len(),
            out@ == start + xml_escape(v@.take(i as int)),
        decreases v.len() - i,
    {
        let c = v[i];
        if c == '<' {
            out.append("&lt;");
        } else if c == '>' {
            out.append("&gt;");
        } else if c == '&' {
            out.append("&amp;");
        } else if c == '"' {
            out.append("&quot;");
        } else if c == '\'' {
            out.append("&apos;");
        } else {
            out.push(c);
        }
        proof {
            assert(v@.take(i + 1).drop_last() =~= v@.take(i as int));
            assert(v@.take(i + 1).last() == c);
        }
        i = i + 1;
    }
    assert(v@.take(v.len() as int) =~= v@);
}

/// Whether `c` would start markup or end an attribute value.
pub open spec fn is_markup_char(c: char) -> bool {
    c == '<' || c == '>' || c == '"' || c == '\''
}

/// Escaped text holds no character that starts markup or ends an attribute
/// value.
pub proof fn law_escaped_text_is_inert(s: Seq<char>)
    ensures
        forall|k: int| 0 <= k < xml_escape(s).len() ==> !is_markup_char(#[trigger] xml_escape(s)[k]),
    decreases s.len(),
{
    reveal_strlit("&lt;");
    reveal_strlit("&gt;");
    reveal_strlit("&amp;");
    reveal_strlit("&quot;");
    reveal_strlit("&apos;");
    if s.len() > 0 {
        law_escaped_text_is_inert(s.drop_last());
        let a = xml_escape(s.drop_last());
        let b = escape_char(s.last());
        assert forall|k: int| 0 <= k < (a + b).len() implies !is_markup_char(#[trigger] (a + b)[k]) by {
            if k >= a.len() {
                assert((a + b)[k] == b[k - a.len()]);
            } else {
                assert((a + b)[k] == a[k]);
            }
        }
    }
}

/// How a point's time is written: UTC, to the second.
pub const GPX_TIME_FORMAT: &'static str = "%Y-%m-%dT%H:%M:%SZ";

/// One point of a track, its numbers already written as text.
#[derive(Clone, Debug, PartialEq)]
pub struct GpxPoint {
    pub lat: String,
    pub lon: String,
    pub ele: Option<String>,
    pub tst: i64,
    pub speed: Option<String>,
}

pub open spec fn opt_line(o: Option<Seq<char>>, open: Seq<char>, close: Seq<char>) -> Seq<char> {
    match o {
        Some(t) => open + t + close,
        None => Seq::empty(),
    }
}

/// The `<trkpt>` element of a point whose time text is `time`.
pub open spec fn gpx_point_text(p: GpxPoint, time: Option<Seq<char>>) -> Seq<char> {
    "      <trkpt lat=\""@ + p.lat@ + "\" lon=\""@ + p.lon@ + "\">\n"@ + opt_line(
        opt_view(p.ele),
        "        <ele>"@,
        "</ele>\n"@,
    ) + opt_line(time, "        <time>"@, "</time>\n"@) + opt_line(
        opt_view(p.speed),
        "        <extensions><speed>"@,
        "</speed></extensions>\n"@,
    ) + "      </trkpt>\n"@
}

/// The `<trkpt>` elements of the first `n` points.
pub open spec fn gpx_points_text(
    points: Seq<GpxPoint>,
    times: Seq<Option<Seq<char>>>,
    n: int,
) -> Seq<char>
    decreases n,
{
    if n <= 0 {
        Seq::empty()
    } else {
        gpx_points_text(points, times, n - 1) + gpx_point_text(points[n - 1], times[n - 1])
    }
}

/// Everything before the points of a track named `name`.
pub open spec fn gpx_head(name: Seq<char>) -> Seq<char> {
    "<?xml version=\"1.0\" encoding=\"UTF-8\"?>"@ + "\n"@
        + "<gpx version=\"1.1\" creator=\"otrecorder\" xmlns=\"http://www.topografix.com/GPX/1/1\">"@
        + "\n"@ + "  <trk>\n    <name>"@ + xml_escape(name) + "</name>\n    <trkseg>\n"@
}

/// The whole document of the track of `user`/`device`, with `times[i]` the
/// time text of `points[i]`.
pub open spec fn gpx_document(
    user: Seq<char>,
    device: Seq<char>,
    points: Seq<GpxPoint>,
    times: Seq<Option<Seq<char>>>,
) -> Seq<char> {
    gpx_head(user + seq!['/'] + device) + gpx_points_text(points, times, points.len() as int)
        + "    </trkseg>\n  </trk>\n</gpx>\n"@
}

fn push_opt_line(out: &mut String, o: &Option<String>, open: &str, close: &str)
    ensures
        final(out)@ == old(out)@ + opt_line(opt_view(*o), open@, close@),
{
    match o {
        Some(t) => {
            out.append(open);
            out.append(t.as_str());
            out.append(close);
        },
        None => {},
    }
}

fn push_point(xml: &mut String, p: &GpxPoint, time: &Option<String>)
    ensures
        final(xml)@ == old(xml)@ + gpx_point_text(*p, opt_view(*time)),
{
    let ghost before = xml@;
    xml.append("      <trkpt lat=\"");
    xml.append(p.lat.as_str());
    xml.append("\" lon=\"");
    xml.append(p.lon.as_str());
    xml.append("\">\n");
    push_opt_line(xml, &p.ele, "        <ele>", "</ele>\n");
    push_opt_line(xml, time, "        <time>", "</time>\n");
    push_opt_line(xml, &p.speed, "        <extensions><speed>", "</speed></extensions>\n");
    xml.append("      </trkpt>\n");
    assert(xml@ =~= before + gpx_point_text(*p, opt_view(*time)));
}

/// The GPX document of a track, given the time text of each point.
pub fn gpx_track_with_times(
    user: &str,
    device: &str,
    points: &Vec<GpxPoint>,
    times: &Vec<Option<String>>,
) -> (r: String)
    requires
        times.len() == points.len(),
    ensures
        r@ == gpx_document(
            user@,
            device@,
            points@,
            times@.map_values(|t: Option<String>| opt_view(t)),
        ),
{
    let ghost tv = times@.map_values(|t: Option<String>| opt_view(t));
    let mut xml = String::new();
    xml.append("<?xml version=\"1.0\" encoding=\"UTF-8\"?>");
    xml.append("\n");
    xml.append(
        "<gpx version=\"1.1\" creator=\"otrecorder\" xmlns=\"http://www.topografix.com/GPX/1/1\">",
    );
    xml.append("\n");
    xml.append("  <trk>\n    <name>");
    let mut name = String::new();
    name.append(user);
    name.push('/');
    name.append(device);
    assert(name@ =~= user@ + seq!['/'] + device@);
    push_xml_escaped(&mut xml, name.as_str());
    xml.append("</name>\n    <trkseg>\n");
    let ghost head = xml@;
    assert(head =~= gpx_head(user@ + seq!['/'] + device@));
    let mut i: usize = 0;
    while i < points.len()
        invariant
            i <= points.len() == times.len(),
            tv == times@.map_values(|t: Option<String>| opt_view(t)),
            xml@ == head + gpx_points_text(points@, tv, i as int),
        decreases points.len() - i,
    {
        push_point(&mut xml, &points[i], &times[i]);
        proof {
            assert(tv[i as int] == opt_view(times@[i as int]));
        }
        i = i + 1;
    }
    xml.append("    </trkseg>\n  </trk>\n</gpx>\n");
    xml
}

/// The GPX document of a track; each point's time is its timestamp in UTC
/// as chrono renders it (omitted where chrono has no date-time).
pub fn gpx_track(user: &str, device: &str, points: &Vec<GpxPoint>) -> (r: String)
    ensures
        r@ == gpx_document(
            user@,
            device@,
            points@,
            points@.map_values(|p: GpxPoint| utc_time_text(p.tst, GPX_TIME_FORMAT@)),
        ),
{
    let mut times: Vec<Option<String>> = Vec::new();
    let mut i: usize = 0;
    while i < points.len()
        invariant
            i <= points.len(),
            times.len() == i,
            forall|k: int| 0 <= k < i ==> opt_view(#[trigger] times@[k]) == utc_time_text(points@[k].tst, GPX_TIME_FORMAT@),
        decreases points.len() - i,
    {
        times.push(format_utc_time(points[i].tst, GPX_TIME_FORMAT));
        i = i + 1;
    }
    let r = gpx_track_with_times(user, device, points, &times);
    assert(times@.map_values(|t: Option<String>| opt_view(t)) =~= points@.map_values(
        |p: GpxPoint| utc_time_text(p.tst, GPX_TIME_FORMAT@),
    ));
    r
}

/// The element of a point: its coordinates, then its elevation when it
/// has one, then its time whenever there is time text (whatever the
/// elevation and speed), then its speed when it has one.
pub proof fn law_gpx_point(p: GpxPoint, time: Option<Seq<char>>)
    ensures
        gpx_point_text(p, time) == "      <trkpt lat=\""@ + p.lat@ + "\" lon=\""@ + p.lon@ + "\">\n"@
            + (match p.ele {
            Some(e) => "        <ele>"@ + e@ + "</ele>\n"@,
            None => Seq::empty(),
        }) + (match time {
            Some(t) => "        <time>"@ + t + "</time>\n"@,
            None => Seq::empty(),
        }) + (match p.speed {
            Some(v) => "        <extensions><speed>"@ + v@ + "</speed></extensions>\n"@,
            None => Seq::empty(),
        }) + "      </trkpt>\n"@,
        time is Some ==> contains_text(
            gpx_point_text(p, time),
            "        <time>"@ + time->0 + "</time>\n"@,
        ),
        p.ele is Some ==> contains_text(
            gpx_point_text(p, time),
            "        <ele>"@ + opt_view(p.ele)->0 + "</ele>\n"@,
        ),
        p.speed is Some ==> contains_text(
            gpx_point_text(p, time),
            "        <extensions><speed>"@ + opt_view(p.speed)->0 + "</speed></extensions>\n"@,
        ),
{
    let open = "      <trkpt lat=\""@ + p.lat@ + "\" lon=\""@ + p.lon@ + "\">\n"@;
    let el = opt_line(opt_view(p.ele), "        <ele>"@, "</ele>\n"@);
    let tl = opt_line(time, "        <time>"@, "</time>\n"@);
    let sl = opt_line(opt_view(p.speed), "        <extensions><speed>"@, "</speed></extensions>\n"@);
    let close = "      </trkpt>\n"@;
    let s = gpx_point_text(p, time);
    assert(s == open + el + tl + sl + close);
    if time is Some {
        lemma_contains_mid(open + el, tl, sl + close);
        assert(open + el + tl + (sl + close) =~= s);
    }
    if p.ele is Some {
        lemma_contains_mid(open, el, tl + sl + close);
        assert(open + el + (tl + sl + close) =~= s);
    }
    if p.speed is Some {
        lemma_contains_mid(open + el + tl, sl, close);
    }
}

proof fn lemma_points_contain(points: Seq<GpxPoint>, times: Seq<Option<Seq<char>>>, n: int, k: int)
    requires
        0 <= k < n <= points.len(),
        times.len() == points.len(),
    ensures
        contains_text(gpx_points_text(points, times, n), gpx_point_text(points[k], times[k])),
    decreases n,
{
    let prev = gpx_points_text(points, times, n - 1);
    let last = gpx_point_text(points[n - 1], times[n - 1]);
    let e: Seq<char> = Seq::empty();
    assert(gpx_points_text(points, times, n) == prev + last);
    if k == n - 1 {
        lemma_contains_mid(prev, last, e);
        assert(prev + last + e =~= prev + last);
    } else {
        lemma_points_contain(points, times, n - 1, k);
        lemma_contains_widen(e, prev, last, gpx_point_text(points[k], times[k]));
        assert(e + prev + last =~= prev + last);
    }
}

/// A track's document names the track `user/device` (escaped) and holds
/// the element of every point with that point's own time text.
pub proof fn law_gpx_document(
    user: Seq<char>,
    device: Seq<char>,
    points: Seq<GpxPoint>,
    times: Seq<Option<Seq<char>>>,
    k: int,
)
    requires
        times.len() == points.len(),
        0 <= k < points.len(),
    ensures
        contains_text(
            gpx_document(user, device, points, times),
            gpx_point_text(points[k], times[k]),
        ),
        contains_text(
            gpx_document(user, device, points, times),
            "<name>"@ + xml_escape(user + seq!['/'] + device) + "</name>"@,
        ),
{
    let name = user + seq!['/'] + device;
    let h = gpx_head(name);
    let pts = gpx_points_text(points, times, points.len() as int);
    let tail = "    </trkseg>\n  </trk>\n</gpx>\n"@;
    lemma_points_contain(points, times, points.len() as int, k);
    lemma_contains_widen(h, pts, tail, gpx_point_text(points[k], times[k]));
    reveal_strlit("  <trk>\n    <name>");
    reveal_strlit("</name>\n    <trkseg>\n");
    reveal_strlit("<name>");
    reveal_strlit("</name>");
    let pre = "<?xml version=\"1.0\" encoding=\"UTF-8\"?>"@ + "\n"@
        + "<gpx version=\"1.1\" creator=\"otrecorder\" xmlns=\"http://www.topografix.com/GPX/1/1\">"@
        + "\n"@ + "  <trk>\n    "@;
    assert("  <trk>\n    <name>"@ =~= "  <trk>\n    "@ + "<name>"@) by {
        reveal_strlit("  <trk>\n    ");
    }
    assert("</name>\n    <trkseg>\n"@ =~= "</name>"@ + "\n    <trkseg>\n"@) by {
        reveal_strlit("\n    <trkseg>\n");
    }
    let x = "<name>"@ + xml_escape(name) + "</name>"@;
    lemma_contains_mid(pre, x, "\n    <trkseg>\n"@ + pts + tail);
    assert(pre + x + ("\n    <trkseg>\n"@ + pts + tail) =~= gpx_document(user, device, points, times));
}

} // verus!
