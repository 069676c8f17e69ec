//! Collectors that pull the logs of containers and pods: what they share.
use vstd::prelude::*;
use vstd::slice::slice_subrange;
use vstd::string::*;
use vstd::utf8::encode_utf8;

pub mod docker;
pub mod field_laws;
pub mod kubernetes;

use crate::json::{Json, JsonMap, JsonV, json_read_bytes, read_json_bytes};
use crate::text::{
    cat3, chars_of, chomp_cr, first_chars, lossy_text, push_bytes, split_once, split_once_at,
    string_between, take_chars, text_lossy, texts,
};
use crate::time::{Timestamp, at, read_rfc3339, rfc3339_read, rfc3339_text, to_rfc3339};

verus! {

// ---------------------------------------------------------------------
// Patterns
// ---------------------------------------------------------------------
/// Whether bytes match a pattern, in which `*` stands for any bytes and `?` for one.
pub open spec fn glob(p: Seq<u8>, t: Seq<u8>) -> bool
    decreases p.len() + t.len(),
{
    if p.len() == 0 {
        t.len() == 0
    } else if p[0] == 0x2a {
        glob(p.drop_first(), t) || (t.len() > 0 && glob(p, t.drop_first()))
    } else {
        t.len() > 0 && (p[0] == 0x3f || p[0] == t[0]) && glob(p.drop_first(), t.drop_first())
    }
}

fn glob_from(p: &[u8], i: usize, t: &[u8], j: usize) -> (r: bool)
    requires
        i <= p@.len(),
        j <= t@.len(),
    ensures
        r == glob(p@.subrange(i as int, p@.len() as int), t@.subrange(j as int, t@.len() as int)),
    decreases p@.len() - i + t@.len() - j,
{
    let ghost ps = p@.subrange(i as int, p@.len() as int);
    let ghost ts = t@.subrange(j as int, t@.len() as int);
    if i == p.len() {
        return j == t.len();
    }
    assert(ps.drop_first() == p@.subrange(i + 1, p@.len() as int));
    if j < t.len() {
        assert(ts.drop_first() == t@.subrange(j + 1, t@.len() as int));
    }
    if p[i] == 0x2a {
        glob_from(p, i + 1, t, j) || (j < t.len() && glob_from(p, i, t, j + 1))
    } else {
        j < t.len() && (p[i] == 0x3f || p[i] == t[j]) && glob_from(p, i + 1, t, j + 1)
    }
}

/// Whether a text matches a pattern.
pub fn glob_match(pattern: &str, text: &str) -> (r: bool)
    ensures
        r == glob(encode_utf8(pattern@), encode_utf8(text@)),
{
    let mut p: Vec<u8> = Vec::new();
    let mut t: Vec<u8> = Vec::new();
    push_bytes(&mut p, pattern);
    push_bytes(&mut t, text);
    assert(p@ == encode_utf8(pattern@));
    assert(t@ == encode_utf8(text@));
    assert(p@.subrange(0, p@.len() as int) == p@);
    assert(t@.subrange(0, t@.len() as int) == t@);
    glob_from(p.as_slice(), 0, t.as_slice(), 0)
}

/// Whether a text matches any of some patterns.
pub open spec fn matches_any(patterns: Seq<Seq<char>>, text: Seq<char>) -> bool {
    exists|i: int|
        0 <= i < patterns.len() && glob(encode_utf8(#[trigger] patterns[i]), encode_utf8(text))
}

/// Whether a text matches any of some patterns.
pub fn match_any(patterns: &Vec<String>, text: &str) -> (r: bool)
    ensures
        r == matches_any(texts(patterns@), text@),
{
    let ghost all = texts(patterns@);
    for i in 0..patterns.len()
        invariant
            all == texts(patterns@),
            forall|k: int|
                0 <= k < i ==> !glob(encode_utf8(#[trigger] all[k]), encode_utf8(text@)),
    {
        assert(all[i as int] == patterns@[i as int]@);
        if glob_match(patterns[i].as_str(), text) {
            return true;
        }
    }
    false
}

/// A star alone matches everything.
pub proof fn law_star_matches_everything(t: Seq<u8>)
    ensures
        glob(seq![0x2a], t),
    decreases t.len(),
{
    reveal_with_fuel(glob, 2);
    let p = seq![0x2au8];
    assert(p.drop_first() =~= Seq::<u8>::empty());
    if t.len() > 0 {
        law_star_matches_everything(t.drop_first());
    }
}

/// A pattern without wildcards matches itself and nothing else.
pub proof fn law_plain_patterns_match_themselves(p: Seq<u8>, t: Seq<u8>)
    requires
        forall|i: int| 0 <= i < p.len() ==> (#[trigger] p[i]) != 0x2a && p[i] != 0x3f,
    ensures
        glob(p, t) <==> p == t,
    decreases p.len(),
{
    if p.len() == 0 {
        assert(t.len() == 0 ==> t =~= p);
    } else if t.len() > 0 {
        let q = p.drop_first();
        assert forall|i: int| 0 <= i < q.len() implies (#[trigger] q[i]) != 0x2a && q[i]
            != 0x3f by {
            assert(q[i] == p[i + 1]);
        }
        law_plain_patterns_match_themselves(q, t.drop_first());
        assert(p =~= seq![p[0]] + q);
        assert(t =~= seq![t[0]] + t.drop_first());
        if glob(p, t) {
            assert(p == t);
        }
    }
}

// ---------------------------------------------------------------------
// Lines
// ---------------------------------------------------------------------
/// Where the first line feed stands, or the length of the bytes.
pub open spec fn line_feed(b: Seq<u8>) -> int
    decreases b.len(),
{
    if b.len() == 0 || b[0] == 0x0a {
        0
    } else {
        1 + line_feed(b.drop_first())
    }
}

pub proof fn lemma_line_feed(b: Seq<u8>)
    ensures
        0 <= line_feed(b) <= b.len(),
        line_feed(b) < b.len() ==> b[line_feed(b)] == 0x0a,
        forall|i: int| 0 <= i < line_feed(b) ==> (#[trigger] b[i]) != 0x0a,
    decreases b.len(),
{
    if b.len() > 0 && b[0] != 0x0a {
        let d = b.drop_first();
        lemma_line_feed(d);
        assert forall|i: int| 0 <= i < line_feed(b) implies (#[trigger] b[i]) != 0x0a by {
            if i > 0 {
                assert(d[i - 1] == b[i]);
            }
        }
    }
}

pub proof fn lemma_line_feed_is(b: Seq<u8>, k: int)
    requires
        0 <= k <= b.len(),
        forall|i: int| 0 <= i < k ==> (#[trigger] b[i]) != 0x0a,
        k < b.len() ==> b[k] == 0x0a,
    ensures
        line_feed(b) == k,
{
    lemma_line_feed(b);
    let f = line_feed(b);
    if f < k {
        assert(b[f] != 0x0a);
    } else if k < f {
        assert(b[k] != 0x0a);
    }
}

/// The complete lines that bytes start with, without their line feeds.
pub open spec fn complete_lines(b: Seq<u8>) -> Seq<Seq<u8>>
    decreases b.len(),
    via complete_lines_decreases
{
    let k = line_feed(b);
    if k >= b.len() {
        Seq::empty()
    } else {
        seq![b.subrange(0, k)] + complete_lines(b.subrange(k + 1, b.len() as int))
    }
}

#[via_fn]
proof fn complete_lines_decreases(b: Seq<u8>) {
    lemma_line_feed(b);
}

/// The bytes behind the last line feed.
pub open spec fn unfinished(b: Seq<u8>) -> Seq<u8>
    decreases b.len(),
    via unfinished_decreases
{
    let k = line_feed(b);
    if k >= b.len() {
        b
    } else {
        unfinished(b.subrange(k + 1, b.len() as int))
    }
}

#[via_fn]
proof fn unfinished_decreases(b: Seq<u8>) {
    lemma_line_feed(b);
}

/// What bytes that are held say.
pub open spec fn lines_view(v: Seq<Vec<u8>>) -> Seq<Seq<u8>> {
    Seq::new(v.len(), |i: int| v[i]@)
}

/// Takes the complete lines out of a buffer.
pub fn drain_lines(buf: &mut Vec<u8>) -> (out: Vec<Vec<u8>>)
    ensures
        lines_view(out@) == complete_lines(old(buf)@),
        final(buf)@ == unfinished(old(buf)@),
{
    let n: usize = buf.len();
    let ghost all = buf@;
    let mut out: Vec<Vec<u8>> = Vec::new();
    let mut start: usize = 0;
    let mut i: usize = 0;
    assert(all.subrange(0, n as int) == all);
    assert(lines_view(out@) + complete_lines(all) =~= complete_lines(all));
    while i < n
        invariant
            n == all.len(),
            buf@ == all,
            start <= i <= n,
            forall|k: int| start <= k < i ==> (#[trigger] all[k]) != 0x0a,
            lines_view(out@) + complete_lines(all.subrange(start as int, n as int))
                == complete_lines(all),
            unfinished(all.subrange(start as int, n as int)) == unfinished(all),
        decreases n - i,
    {
        if buf[i] == 0x0a {
            let ghost left = all.subrange(start as int, n as int);
            let ghost before = lines_view(out@);
            proof {
                assert forall|k: int| 0 <= k < i - start implies (#[trigger] left[k]) != 0x0a by {
                    assert(left[k] == all[start + k]);
                }
                lemma_line_feed_is(left, i - start);
                assert(left.subrange(i - start + 1, left.len() as int) == all.subrange(
                    i + 1,
                    n as int,
                ));
                assert(left.subrange(0, i - start) == all.subrange(start as int, i as int));
            }
            let line = vstd::slice::slice_to_vec(slice_subrange(buf.as_slice(), start, i));
            out.push(line);
            assert(lines_view(out@) =~= before.push(all.subrange(start as int, i as int)));
            assert(lines_view(out@) + complete_lines(all.subrange(i + 1, n as int)) =~= before
                + complete_lines(left));
            start = i + 1;
        }
        i = i + 1;
    }
    let ghost left = all.subrange(start as int, n as int);
    proof {
        assert forall|k: int| 0 <= k < left.len() implies (#[trigger] left[k]) != 0x0a by {
            assert(left[k] == all[start + k]);
        }
        lemma_line_feed_is(left, left.len() as int);
        assert(lines_view(out@) + Seq::<Seq<u8>>::empty() =~= lines_view(out@));
    }
    let rest = vstd::slice::slice_to_vec(slice_subrange(buf.as_slice(), start, n));
    *buf = rest;
    out
}

/// However the bytes of a stream are cut, the same lines come out of it.
pub proof fn law_cuts_do_not_change_lines(a: Seq<u8>, b: Seq<u8>)
    ensures
        complete_lines(a + b) == complete_lines(a) + complete_lines(unfinished(a) + b),
        unfinished(a + b) == unfinished(unfinished(a) + b),
    decreases a.len(),
{
    lemma_line_feed(a);
    let k = line_feed(a);
    if k >= a.len() {
        assert(complete_lines(a) + complete_lines(a + b) =~= complete_lines(a + b));
    } else {
        let c = a + b;
        let rest = a.subrange(k + 1, a.len() as int);
        assert forall|i: int| 0 <= i < k implies (#[trigger] c[i]) != 0x0a by {
            assert(c[i] == a[i]);
        }
        lemma_line_feed_is(c, k);
        assert(c.subrange(0, k) =~= a.subrange(0, k));
        assert(c.subrange(k + 1, c.len() as int) =~= rest + b);
        law_cuts_do_not_change_lines(rest, b);
        assert(complete_lines(c) =~= complete_lines(a) + complete_lines(unfinished(a) + b));
    }
}

/// The text of a line, without a carriage return at its end.
pub open spec fn line_string(b: Seq<u8>) -> Seq<char> {
    chomp_cr(lossy_text(b))
}

/// The text of a line, without a carriage return at its end.
pub fn line_to_string(b: &[u8]) -> (r: String)
    ensures
        r@ == line_string(b@),
{
    let s = text_lossy(b);
    let v = chars_of(s.as_str());
    let n: usize = v.len();
    if n > 0 && v[n - 1] == '\r' {
        string_between(v.as_slice(), 0, n - 1)
    } else {
        s
    }
}

// ---------------------------------------------------------------------
// Envelopes
// ---------------------------------------------------------------------
/// The time that a line starts with, if it does, and the rest of the line.
pub open spec fn timed(line: Seq<char>) -> (Option<Timestamp>, Seq<char>) {
    match split_once(line, ' ') {
        Some((head, rest)) => match rfc3339_read(head) {
            Some(p) => (Some(at(p)), rest),
            None => (None, line),
        },
        None => (None, line),
    }
}

/// Takes the time off a line that starts with one.
pub fn split_timestamp_prefix(line: &str) -> (r: (Option<Timestamp>, String))
    ensures
        (r.0, r.1@) == timed(line@),
{
    if let Some(p) = split_once_at(line, ' ') {
        if let Some(t) = read_rfc3339(p.0.as_str()) {
            return (Some(t), p.1);
        }
    }
    (None, line.to_owned())
}

/// The envelope of a line. What comes with it counts before the standard fields.
pub open spec fn line_envelope(
    message: Seq<char>,
    level: Seq<char>,
    service: Seq<char>,
    ts: Timestamp,
    attrs: Map<Seq<char>, JsonV>,
) -> Map<Seq<char>, JsonV> {
    Map::<Seq<char>, JsonV>::empty().insert("message"@, JsonV::Str(message)).insert(
        "level"@,
        JsonV::Str(level),
    ).insert("service"@, JsonV::Str(service)).insert(
        "ts"@,
        JsonV::Str(rfc3339_text(ts.secs, ts.nanos)),
    ).union_prefer_right(attrs)
}

/// The envelope of a line.
pub fn log_envelope(
    message: &str,
    level: &str,
    service: &str,
    ts: Option<Timestamp>,
    now: Timestamp,
    attrs: &JsonMap,
) -> (r: JsonMap)
    ensures
        r@ == line_envelope(
            message@,
            level@,
            service@,
            match ts {
                Some(t) => t,
                None => now,
            },
            attrs@,
        ),
{
    let t = match ts {
        Some(t) => t,
        None => now,
    };
    let mut m = JsonMap::new();
    m.insert_str("message", message);
    m.insert_str("level", level);
    m.insert_str("service", service);
    m.insert("ts", Json::Str(to_rfc3339(t)));
    m.extend(attrs);
    m
}

/// What is reported of a request that was not answered with success, with the start
/// of the answer.
pub fn api_refusal(path: &str, status: &str, body: &[u8]) -> (r: String)
    ensures
        r@ == "GET "@ + path@ + " → "@ + status@ + ": "@ + first_chars(lossy_text(body@), 200),
{
    let text = text_lossy(body);
    let start = take_chars(text.as_str(), 200);
    let mut s = cat3("GET ", path, " → ");
    s.append(status);
    s.append(": ");
    s.append(start.as_str());
    s
}

/// The answer to a request as a value, or what is reported where it is none.
pub fn api_json(path: &str, body: &[u8]) -> (r: Result<Json, String>)
    ensures
        match json_read_bytes(body@) {
            Ok(v) => r matches Ok(j) && j@ == v,
            Err(m) => r matches Err(s) && s@ == "GET "@ + path@ + ": bad JSON: "@ + m,
        },
{
    match read_json_bytes(body) {
        Ok(v) => Ok(v),
        Err(m) => {
            let mut s = cat3("GET ", path, ": bad JSON: ");
            s.append(m.as_str());
            Err(s)
        },
    }
}

} // verus!
