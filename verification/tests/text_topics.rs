use otrecorder::humanize::humanize_bytes;
use otrecorder::number::parse_i64;
use otrecorder::owntracks::{parse_topic, rec_topic};
use otrecorder::text::{chars_of, str_equals, trim};

fn pair(a: &str, b: &str) -> (String, String) {
    (a.to_string(), b.to_string())
}

#[test]
fn topic_canonical() {
    assert_eq!(parse_topic("owntracks/alice/phone"), pair("alice", "phone"));
}

#[test]
fn topic_extra_levels_and_case() {
    assert_eq!(parse_topic("OwnTracks/alice/phone/event"), pair("alice", "phone"));
    assert_eq!(parse_topic("OWNTRACKS/bob/tab/a/b"), pair("bob", "tab"));
}

#[test]
fn topic_fallbacks() {
    assert_eq!(parse_topic("foo/bar"), pair("", "foo/bar"));
    assert_eq!(parse_topic("owntracks/alice"), pair("", "owntracks/alice"));
    assert_eq!(parse_topic("other/a/b"), pair("", "other/a/b"));
    assert_eq!(parse_topic(""), pair("", ""));
    assert_eq!(parse_topic("owntrackz/a/b"), pair("", "owntrackz/a/b"));
}

#[test]
fn topic_empty_pieces() {
    assert_eq!(parse_topic("owntracks//"), pair("", ""));
    assert_eq!(parse_topic("owntracks/u//x"), pair("u", ""));
}

#[test]
fn topic_roundtrip_concrete() {
    let t = rec_topic("alice", "phone");
    assert_eq!(t, "owntracks/alice/phone");
    assert_eq!(parse_topic(&t), pair("alice", "phone"));
}

#[test]
fn topic_roundtrip_fails_with_slash_in_user() {
    // A user holding `/` does not come back whole.
    let t = rec_topic("a/b", "phone");
    assert_eq!(parse_topic(&t), pair("a", "b"));
}

#[test]
fn trim_matches_std() {
    let samples = [
        "",
        "   ",
        " a ",
        "\t\nabc\r\n",
        "\u{3000}x\u{2029}",
        "\u{85}mid dle\u{a0}",
        "no-ws",
        "\u{200b}zero-width-is-not-ws\u{200b}",
    ];
    for s in samples {
        assert_eq!(trim(s), s.trim(), "on {:?}", s);
    }
}

#[test]
fn parse_i64_matches_std() {
    let samples = [
        "0", "-0", "+0", "42", "+42", "-42", "", "-", "+", "1a", " 1", "1 ",
        "9223372036854775807", "9223372036854775808", "-9223372036854775808",
        "-9223372036854775809", "00012", "99999999999999999999999", "1.5", "--1", "+-1",
    ];
    for s in samples {
        let v = chars_of(s);
        assert_eq!(parse_i64(&v), s.parse::<i64>().ok(), "on {:?}", s);
    }
}

#[test]
fn str_equals_examples() {
    assert!(str_equals("location", "location"));
    assert!(!str_equals("location", "Location"));
    assert!(!str_equals("loc", "location"));
}

fn humanize_reference(n: u64) -> String {
    const UNITS: &[&str] = &["B", "KiB", "MiB", "GiB", "TiB"];
    let mut size = n as f64;
    let mut idx = 0;
    while size >= 1024.0 && idx < UNITS.len() - 1 {
        size /= 1024.0;
        idx += 1;
    }
    if idx == 0 {
        format!("{} {}", n, UNITS[0])
    } else {
        format!("{:.2} {}", size, UNITS[idx])
    }
}

#[test]
fn humanize_examples() {
    assert_eq!(humanize_bytes(0), "0 B");
    assert_eq!(humanize_bytes(1023), "1023 B");
    assert_eq!(humanize_bytes(1024), "1.00 KiB");
    assert_eq!(humanize_bytes(1536), "1.50 KiB");
    assert_eq!(humanize_bytes(1048576), "1.00 MiB");
}

#[test]
fn humanize_matches_float_formatting() {
    let mut samples: Vec<u64> = vec![
        1152, 1153, 1151, 1049, 10239, 10240, 1048575, 1048577, 5368709120,
        1099511627775, 1099511627776, 1125899906842624, 9007199254740993,
        9007199254740995, 18446744073709551615, 18446744073709550592, 1180591620717411303,
    ];
    let mut x: u64 = 1;
    for _ in 0..400 {
        x = x.wrapping_mul(6364136223846793005).wrapping_add(1442695040888963407);
        samples.push(x >> (x % 64));
        samples.push(1024 + (x % 4096));
    }
    for n in samples {
        assert_eq!(humanize_bytes(n), humanize_reference(n), "on {}", n);
    }
}
