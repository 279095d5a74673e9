//! OwnTracks topics: `owntracks/<user>/<device>[/...]`.

use vstd::prelude::*;
use crate::text::{
    chars_of, copy_range, eq_ignore_ascii_case, has_char, idx_of, lemma_idx_of,
    lemma_idx_of_absent, lemma_idx_of_unique, position_from, range_eq_ignore_ascii_case,
    split_on, string_of,
};

verus! {

/// The first piece of a canonical topic.
pub open spec fn topic_root() -> Seq<char> {
    "owntracks"@
}

/// `(user, device)` of a topic: the second and third `/`-separated pieces
/// when there are at least three and the first one is `owntracks` in any
/// ASCII case; otherwise an empty user and the whole topic as device.
pub open spec fn parse_topic_spec(t: Seq<char>) -> (Seq<char>, Seq<char>) {
    let parts = split_on(t, '/');
    if parts.len() >= 3 && eq_ignore_ascii_case(parts[0], topic_root()) {
        (parts[1], parts[2])
    } else {
        (Seq::empty(), t)
    }
}

pub proof fn lemma_split_on_first(s: Seq<char>, c: char)
    ensures
        split_on(s, c).len() >= 1,
        split_on(s, c)[0] == s.take(idx_of(s, c) as int),
{
    lemma_idx_of(s, c);
    reveal_with_fuel(split_on, 2);
    if idx_of(s, c) >= s.len() {
        assert(s.take(s.len() as int) =~= s);
    }
}

/// Unfolds `split_on` once at a separator found at `i`.
pub proof fn lemma_split_on_step(s: Seq<char>, c: char)
    requires
        idx_of(s, c) < s.len(),
    ensures
        split_on(s, c).len() == 1 + split_on(s.skip(idx_of(s, c) as int + 1), c).len(),
        split_on(s, c)[0] == s.take(idx_of(s, c) as int),
        forall|k: int|
            1 <= k < split_on(s, c).len() ==> #[trigger] split_on(s, c)[k] == split_on(
                s.skip(idx_of(s, c) as int + 1),
                c,
            )[k - 1],
{
}

pub proof fn lemma_split_on_none(s: Seq<char>, c: char)
    requires
        idx_of(s, c) >= s.len(),
    ensures
        split_on(s, c) == seq![s],
{
}

/// Splits a topic into `(user, device)` as `parse_topic_spec` says.
pub fn parse_topic(topic: &str) -> (r: (String, String))
    ensures
        (r.0@, r.1@) == parse_topic_spec(topic@),
{
    let v = chars_of(topic);
    let n = v.len();
    let ghost t = v@;
    let i = position_from(&v, 0, '/');
    proof {
        assert(t.subrange(0, n as int) =~= t);
        lemma_idx_of(t, '/');
    }
    if i == n {
        proof {
            lemma_split_on_none(t, '/');
        }
        return (String::new(), string_of(v.as_slice()));
    }
    let ghost t1 = t.skip(i as int + 1);
    let j = position_from(&v, i + 1, '/');
    proof {
        assert(t.subrange(i + 1, n as int) =~= t1);
        lemma_split_on_step(t, '/');
        lemma_idx_of(t1, '/');
    }
    if j == n {
        proof {
            lemma_split_on_none(t1, '/');
        }
        return (String::new(), string_of(v.as_slice()));
    }
    let ghost t2 = t1.skip(j - i);
    let k = position_from(&v, j + 1, '/');
    proof {
        assert(t.subrange(j + 1, n as int) =~= t2);
        assert(t1.skip(idx_of(t1, '/') as int + 1) =~= t2);
        lemma_split_on_step(t1, '/');
        lemma_split_on_first(t2, '/');
        let parts = split_on(t, '/');
        assert(parts.len() >= 3);
        assert(parts[0] =~= t.subrange(0, i as int));
        assert(parts[1] =~= t.subrange(i + 1, j as int));
        assert(parts[2] =~= t.subrange(j + 1, k as int));
    }
    let root = chars_of("owntracks");
    if range_eq_ignore_ascii_case(&v, 0, i, &root) {
        let user = copy_range(&v, i + 1, j);
        let device = copy_range(&v, j + 1, k);
        (string_of(user.as_slice()), string_of(device.as_slice()))
    } else {
        (String::new(), string_of(v.as_slice()))
    }
}

/// The topic under which recorder files of `user`/`device` are stored:
/// `owntracks/<user>/<device>`.
pub open spec fn rec_topic_spec(user: Seq<char>, device: Seq<char>) -> Seq<char> {
    topic_root() + seq!['/'] + user + seq!['/'] + device
}

pub fn rec_topic(user: &str, device: &str) -> (r: String)
    ensures
        r@ == rec_topic_spec(user@, device@),
{
    let mut s = String::new();
    s.append("owntracks");
    s.push('/');
    s.append(user);
    s.push('/');
    s.append(device);
    s
}

/// A topic built from a user and a device that hold no `/` parses back to
/// that same user and device.
pub proof fn law_topic_roundtrip(user: Seq<char>, device: Seq<char>)
    requires
        !has_char(user, '/'),
        !has_char(device, '/'),
    ensures
        parse_topic_spec(rec_topic_spec(user, device)) == (user, device),
{
    reveal_strlit("owntracks");
    let root = topic_root();
    let t = rec_topic_spec(user, device);
    let t1 = user + seq!['/'] + device;
    assert(root.len() == 9);
    assert forall|k: int| 0 <= k < 9 implies t[k] != '/' by {
        assert(t[k] == root[k]);
    }
    assert(t[9] == '/');
    lemma_idx_of_unique(t, '/', 9);
    assert(t.skip(10) =~= t1);
    assert(t.take(9) =~= root);
    assert forall|k: int| 0 <= k < user.len() implies t1[k] != '/' by {
        assert(t1[k] == user[k]);
    }
    assert(t1[user.len() as int] == '/');
    lemma_idx_of_unique(t1, '/', user.len() as int);
    assert(t1.skip(user.len() as int + 1) =~= device);
    assert(t1.take(user.len() as int) =~= user);
    lemma_idx_of_absent(device, '/');
    lemma_split_on_step(t, '/');
    lemma_split_on_step(t1, '/');
    lemma_split_on_none(device, '/');
    assert(device.take(device.len() as int) =~= device);
}

/// Any topic `<root>/<user>/<device>[/...]` whose root is `owntracks` in
/// any ASCII case, and whose user and device hold no `/`, parses to that
/// user and device, whatever levels follow.
pub proof fn law_topic_user_device(
    root: Seq<char>,
    user: Seq<char>,
    device: Seq<char>,
    tail: Seq<char>,
)
    requires
        eq_ignore_ascii_case(root, topic_root()),
        !has_char(user, '/'),
        !has_char(device, '/'),
        tail.len() == 0 || tail[0] == '/',
    ensures
        parse_topic_spec(root + seq!['/'] + user + seq!['/'] + device + tail) == (user, device),
{
    reveal_strlit("owntracks");
    let t = root + seq!['/'] + user + seq!['/'] + device + tail;
    let n = root.len() as int;
    assert forall|k: int| 0 <= k < n implies t[k] != '/' by {
        assert(t[k] == root[k]);
        assert(crate::text::ascii_lower(root[k]) == crate::text::ascii_lower(topic_root()[k]));
    }
    assert(t[n] == '/');
    lemma_idx_of_unique(t, '/', n);
    let t1 = user + seq!['/'] + device + tail;
    assert(t.skip(n + 1) =~= t1);
    assert(t.take(n) =~= root);
    assert forall|k: int| 0 <= k < user.len() implies t1[k] != '/' by {
        assert(t1[k] == user[k]);
    }
    assert(t1[user.len() as int] == '/');
    lemma_idx_of_unique(t1, '/', user.len() as int);
    let t2 = device + tail;
    assert(t1.skip(user.len() as int + 1) =~= t2);
    assert(t1.take(user.len() as int) =~= user);
    assert forall|k: int| 0 <= k < device.len() implies t2[k] != '/' by {
        assert(t2[k] == device[k]);
    }
    if tail.len() > 0 {
        assert(t2[device.len() as int] == '/');
    }
    lemma_idx_of_unique(t2, '/', device.len() as int);
    assert(t2.take(device.len() as int) =~= device);
    lemma_split_on_step(t, '/');
    lemma_split_on_step(t1, '/');
    lemma_split_on_first(t2, '/');
}

} // verus!
