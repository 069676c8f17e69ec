//! Error tracking: fingerprints that group error events, and what an event does
//! to its group.
use vstd::prelude::*;
use vstd::string::*;
use vstd::utf8::encode_utf8;
use sha2::Digest;

use crate::json::{
    Json, JsonMap, JsonV, copy_items, is_plain, json_read, json_text, jsons_view, lemma_json_view,
    member, read_json, reads_as, text_in, write_json,
};
use crate::row::{LogRow, RowV};
use crate::text::{
    all_digits, all_hex, cat, cat3, cat5, char_is_alnum, char_is_space, chars_of, cut_to_bytes,
    dec_int, dec_of_int, first_chars, fitting_prefix, hex, hex_of, is_space, is_word_char, join,
    join_with, lemma_hex_len, lines, lines_of, list_contains, only_digits, only_hex, opt_text,
    push_bytes, same, string_of, take_chars, texts,
};
use crate::time::{Timestamp, rfc3339_text, start_of_window, to_rfc3339, window_start};

verus! {

// ---------------------------------------------------------------------
// Normalization
// ---------------------------------------------------------------------
/// The text with each quoted part replaced by `'S`. A quote that the line does
/// not close ends with it, as a space.
pub open spec fn squashed(s: Seq<char>, quote: Option<char>) -> Seq<char>
    decreases s.len(),
{
    if s.len() == 0 {
        Seq::empty()
    } else {
        let rest = s.drop_first();
        match quote {
            Some(q) => if s[0] == q {
                "'S"@ + squashed(rest, None)
            } else if s[0] == '\n' {
                seq![' '] + squashed(rest, None)
            } else {
                squashed(rest, quote)
            },
            None => if s[0] == '"' || s[0] == '\'' {
                squashed(rest, Some(s[0]))
            } else {
                seq![s[0]] + squashed(rest, None)
            },
        }
    }
}

/// A run of word characters with volatile detail taken out: `N` for digits, `H`
/// for eight or more hexadecimal digits.
pub open spec fn run_text(run: Seq<char>) -> Seq<char> {
    if run.len() == 0 {
        Seq::empty()
    } else if all_digits(run) {
        seq!['N']
    } else if run.len() >= 8 && all_hex(run) {
        seq!['H']
    } else {
        run
    }
}

/// A word with each of its runs normalized, after the run in progress. What is
/// no word character stays.
pub open spec fn word_text(w: Seq<char>, run: Seq<char>) -> Seq<char>
    decreases w.len(),
{
    if w.len() == 0 {
        run_text(run)
    } else if is_word_char(w[0]) {
        word_text(w.drop_first(), run.push(w[0]))
    } else {
        run_text(run) + seq![w[0]] + word_text(w.drop_first(), Seq::empty())
    }
}

/// The normalized words of a text, after the word in progress.
pub open spec fn word_texts(s: Seq<char>, word: Seq<char>) -> Seq<Seq<char>>
    decreases s.len(),
{
    let done = if word.len() == 0 {
        Seq::empty()
    } else {
        seq![word_text(word, Seq::empty())]
    };
    if s.len() == 0 {
        done
    } else if is_space(s[0]) {
        done + word_texts(s.drop_first(), Seq::empty())
    } else {
        word_texts(s.drop_first(), word.push(s[0]))
    }
}

/// The text with volatile detail taken out: quoted parts, runs of white space,
/// numbers and long hexadecimal ids.
pub open spec fn normalized(s: Seq<char>) -> Seq<char> {
    join(word_texts(squashed(s, None), Seq::empty()), " "@)
}

fn squash(s: &str) -> (r: Vec<char>)
    ensures
        r@ == squashed(s@, None),
{
    let v = chars_of(s);
    let mut out: Vec<char> = Vec::new();
    let mut quote: Option<char> = None;
    proof {
        assert(v@.subrange(0, v@.len() as int) == v@);
        assert(out@ + squashed(v@, None) == squashed(v@, None));
        reveal_strlit("'S");
    }
    for i in 0..v.len()
        invariant
            v@ == s@,
            out@ + squashed(v@.subrange(i as int, v@.len() as int), quote) == squashed(s@, None),
            "'S"@.len() == 2 && "'S"@[0] == '\'' && "'S"@[1] == 'S',
    {
        let ghost left = v@.subrange(i as int, v@.len() as int);
        let ghost rest = v@.subrange(i + 1, v@.len() as int);
        let ghost before = out@;
        assert(left.drop_first() == rest);
        let c = v[i];
        match quote {
            Some(q) => {
                if c == q {
                    out.push('\'');
                    out.push('S');
                    quote = None;
                    assert(out@ == before + "'S"@);
                    assert(before + "'S"@ + squashed(rest, None) == before + ("'S"@ + squashed(
                        rest,
                        None,
                    )));
                } else if c == '\n' {
                    out.push(' ');
                    quote = None;
                    assert(out@ + squashed(rest, None) == before + (seq![' '] + squashed(
                        rest,
                        None,
                    )));
                }
            },
            None => {
                if c == '"' || c == '\'' {
                    quote = Some(c);
                } else {
                    out.push(c);
                    assert(out@ + squashed(rest, None) == before + (seq![c] + squashed(rest, None)));
                }
            },
        }
    }
    assert(v@.subrange(v@.len() as int, v@.len() as int) == Seq::<char>::empty());
    assert(out@ + Seq::<char>::empty() == out@);
    out
}

fn map_run(run: &Vec<char>) -> (r: Vec<char>)
    ensures
        r@ == run_text(run@),
{
    let mut out: Vec<char> = Vec::new();
    if run.len() == 0 {
        return out;
    }
    if only_digits(run.as_slice()) {
        out.push('N');
    } else if run.len() >= 8 && only_hex(run.as_slice()) {
        out.push('H');
    } else {
        for i in 0..run.len()
            invariant
                out@ == run@.take(i as int),
        {
            out.push(run[i]);
            assert(run@.take(i + 1) == run@.take(i as int).push(run@[i as int]));
        }
        assert(run@.take(run@.len() as int) == run@);
    }
    assert(out@ == run_text(run@));
    out
}

fn map_word(w: &Vec<char>) -> (r: Vec<char>)
    ensures
        r@ == word_text(w@, Seq::empty()),
{
    let mut out: Vec<char> = Vec::new();
    let mut run: Vec<char> = Vec::new();
    proof {
        assert(w@.subrange(0, w@.len() as int) == w@);
        assert(out@ + word_text(w@, Seq::empty()) == word_text(w@, Seq::empty()));
    }
    for i in 0..w.len()
        invariant
            out@ + word_text(w@.subrange(i as int, w@.len() as int), run@) == word_text(
                w@,
                Seq::empty(),
            ),
    {
        let ghost left = w@.subrange(i as int, w@.len() as int);
        let ghost rest = w@.subrange(i + 1, w@.len() as int);
        assert(left.drop_first() == rest);
        let c = w[i];
        if char_is_alnum(c) || c == '_' {
            run.push(c);
        } else {
            let ghost before = out@;
            let ghost mapped = run_text(run@);
            let mut m = map_run(&run);
            out.append(&mut m);
            out.push(c);
            run = Vec::new();
            assert(out@ == before + mapped + seq![c]);
            assert(before + mapped + seq![c] + word_text(rest, Seq::empty()) == before + (mapped
                + seq![c] + word_text(rest, Seq::empty())));
        }
    }
    assert(w@.subrange(w@.len() as int, w@.len() as int) == Seq::<char>::empty());
    let mut m = map_run(&run);
    out.append(&mut m);
    out
}

fn push_word(words: &mut Vec<String>, word: &Vec<char>)
    ensures
        texts(final(words)@) == texts(old(words)@) + (if word@.len() == 0 {
            Seq::empty()
        } else {
            seq![word_text(word@, Seq::empty())]
        }),
{
    let ghost before = texts(words@);
    if word.len() > 0 {
        let m = map_word(word);
        words.push(string_of(m.as_slice()));
        assert(texts(words@) == before + seq![m@]);
    } else {
        assert(before == before + Seq::<Seq<char>>::empty());
    }
}

/// Takes volatile detail out of an error text, so that it does not split groups.
pub fn normalize_text(s: &str) -> (r: String)
    ensures
        r@ == normalized(s@),
{
    let v = squash(s);
    let mut words: Vec<String> = Vec::new();
    let mut word: Vec<char> = Vec::new();
    let ghost goal = word_texts(v@, Seq::empty());
    proof {
        assert(v@.subrange(0, v@.len() as int) == v@);
        assert(texts(words@) + goal == goal);
    }
    for i in 0..v.len()
        invariant
            texts(words@) + word_texts(v@.subrange(i as int, v@.len() as int), word@) == goal,
    {
        let ghost left = v@.subrange(i as int, v@.len() as int);
        let ghost rest = v@.subrange(i + 1, v@.len() as int);
        assert(left.drop_first() == rest);
        if char_is_space(v[i]) {
            let ghost before = texts(words@);
            let ghost done = if word@.len() == 0 {
                Seq::empty()
            } else {
                seq![word_text(word@, Seq::empty())]
            };
            push_word(&mut words, &word);
            word = Vec::new();
            assert(before + done + word_texts(rest, Seq::empty()) == before + (done + word_texts(
                rest,
                Seq::empty(),
            )));
        } else {
            word.push(v[i]);
        }
    }
    assert(v@.subrange(v@.len() as int, v@.len() as int) == Seq::<char>::empty());
    push_word(&mut words, &word);
    join_with(words.as_slice(), " ")
}

// ---------------------------------------------------------------------
// Fingerprints
// ---------------------------------------------------------------------
/// The SHA-256 digest of a sequence of bytes.
pub uninterp spec fn sha256_digest(data: Seq<u8>) -> Seq<u8>;

/// `sha2::Sha256::digest`: thirty-two bytes that depend on the data alone.
#[verifier::external_body]
fn sha256(data: &[u8]) -> (r: Vec<u8>)
    ensures
        r@ == sha256_digest(data@),
        r@.len() == 32,
{
    sha2::Sha256::digest(data).to_vec()
}

/// What is digested: the tag, then each part after a unit separator.
pub open spec fn fingerprint_input(tag: Seq<char>, parts: Seq<Seq<char>>) -> Seq<u8>
    decreases parts.len(),
{
    if parts.len() == 0 {
        encode_utf8(tag)
    } else {
        fingerprint_input(tag, parts.drop_last()) + seq![0x1fu8] + encode_utf8(parts.last())
    }
}

/// Sixteen hexadecimal digits over a tag and parts.
pub open spec fn fingerprint(tag: Seq<char>, parts: Seq<Seq<char>>) -> Seq<char> {
    hex(sha256_digest(fingerprint_input(tag, parts)).take(8))
}

/// Sixteen hexadecimal digits over `parts`. The tag keeps the kinds of
/// fingerprints apart.
pub fn fingerprint_of(tag: &str, parts: &[String]) -> (r: String)
    ensures
        r@ == fingerprint(tag@, texts(parts@)),
        r@.len() == 16,
        all_hex(r@),
{
    let mut data: Vec<u8> = Vec::new();
    push_bytes(&mut data, tag);
    let ghost all = texts(parts@);
    assert(data@ == fingerprint_input(tag@, all.take(0)));
    for i in 0..parts.len()
        invariant
            all == texts(parts@),
            data@ == fingerprint_input(tag@, all.take(i as int)),
    {
        let ghost before = data@;
        data.push(0x1f);
        push_bytes(&mut data, parts[i].as_str());
        assert(all.take(i + 1).drop_last() == all.take(i as int));
        assert(before.push(0x1fu8) == before + seq![0x1fu8]);
    }
    assert(all.take(all.len() as int) == all);
    let digest = sha256(data.as_slice());
    let head = vstd::slice::slice_subrange(digest.as_slice(), 0, 8);
    assert(head@ == digest@.take(8));
    proof {
        lemma_hex_len(head@);
    }
    hex_of(head)
}

/// Fingerprint of the values that a client sent to group its event by.
pub fn client_fingerprint(values: &[String]) -> (r: String)
    ensures
        r@ == fingerprint("c"@, texts(values@)),
        r@.len() == 16,
        all_hex(r@),
{
    fingerprint_of("c", values)
}

/// The frames' module, function and file, one after the other.
pub open spec fn frame_parts(frames: Seq<(String, String, String)>) -> Seq<Seq<char>>
    decreases frames.len(),
{
    if frames.len() == 0 {
        Seq::empty()
    } else {
        let f = frames.last();
        frame_parts(frames.drop_last()).push(f.0@).push(f.1@).push(f.2@)
    }
}

/// The first five frames, or all of them.
pub open spec fn top_frames(frames: Seq<(String, String, String)>) -> Seq<
    (String, String, String),
> {
    if frames.len() <= 5 {
        frames
    } else {
        frames.take(5)
    }
}

fn push_text(v: &mut Vec<String>, s: String)
    ensures
        texts(final(v)@) == texts(old(v)@).push(s@),
{
    let ghost before = texts(v@);
    let ghost added = s@;
    v.push(s);
    assert(texts(v@) == before.push(added));
}

/// What the fingerprint of an exception is made of.
pub open spec fn exception_parts(
    exc_type: Seq<char>,
    exc_value: Seq<char>,
    frames: Seq<(String, String, String)>,
) -> Seq<Seq<char>> {
    seq![exc_type, normalized(exc_value)] + frame_parts(top_frames(frames))
}

/// What the fingerprint of a plain error log is made of.
pub open spec fn message_parts(service: Seq<char>, message: Seq<char>) -> Seq<Seq<char>> {
    seq![service, normalized(message)]
}

/// Fingerprint of an exception: its type, its normalized value, and the module,
/// function and file of its first five frames.
pub fn exception_fingerprint(
    exc_type: &str,
    exc_value: &str,
    frames: &[(String, String, String)],
) -> (r: String)
    ensures
        r@ == fingerprint("s"@, exception_parts(exc_type@, exc_value@, frames@)),
        r@.len() == 16,
        all_hex(r@),
{
    let mut parts: Vec<String> = Vec::new();
    push_text(&mut parts, exc_type.to_owned());
    push_text(&mut parts, normalize_text(exc_value));
    let n: usize = if frames.len() < 5 {
        frames.len()
    } else {
        5
    };
    let ghost top = top_frames(frames@);
    let ghost head = seq![exc_type@, normalized(exc_value@)];
    proof {
        assert(texts(parts@) == head);
        assert(head == head + frame_parts(top.take(0)));
    }
    for i in 0..n
        invariant
            n <= frames@.len(),
            top == frames@.take(n as int),
            texts(parts@) == head + frame_parts(top.take(i as int)),
    {
        push_text(&mut parts, frames[i].0.clone());
        push_text(&mut parts, frames[i].1.clone());
        push_text(&mut parts, frames[i].2.clone());
        assert(top.take(i + 1).drop_last() == top.take(i as int));
        assert(texts(parts@) == head + frame_parts(top.take(i + 1)));
    }
    assert(top.take(n as int) == top);
    fingerprint_of("s", parts.as_slice())
}

/// Fingerprint of a plain error log: its service and its normalized message.
pub fn message_fingerprint(service: &str, message: &str) -> (r: String)
    ensures
        r@ == fingerprint("m"@, message_parts(service@, message@)),
        r@.len() == 16,
        all_hex(r@),
{
    let mut parts: Vec<String> = Vec::new();
    push_text(&mut parts, service.to_owned());
    push_text(&mut parts, normalize_text(message));
    assert(texts(parts@) == seq![service@, normalized(message@)]);
    fingerprint_of("m", parts.as_slice())
}

/// Fingerprint of a whole normalized trace, by which samples are told apart.
pub fn variant_hash(stack: &str) -> (r: String)
    ensures
        r@ == fingerprint("v"@, seq![normalized(stack@)]),
        r@.len() == 16,
        all_hex(r@),
{
    let mut parts: Vec<String> = Vec::new();
    push_text(&mut parts, normalize_text(stack));
    assert(texts(parts@) == seq![normalized(stack@)]);
    fingerprint_of("v", parts.as_slice())
}

// ---------------------------------------------------------------------
// Levels and stacks
// ---------------------------------------------------------------------
/// Place of a level on the error scale.
pub open spec fn error_rank(level: Seq<char>) -> int {
    if level == "fatal"@ {
        3
    } else if level == "error"@ {
        2
    } else if level == "warn"@ {
        1
    } else {
        0
    }
}

fn rank_of(level: &str) -> (r: u8)
    ensures
        r == error_rank(level@),
{
    if same(level, "fatal") {
        3
    } else if same(level, "error") {
        2
    } else if same(level, "warn") {
        1
    } else {
        0
    }
}

/// Whether `level` is at least `min_level` on the error scale.
pub fn level_meets(level: &str, min_level: &str) -> (r: bool)
    ensures
        r == (error_rank(level@) >= error_rank(min_level@)),
{
    rank_of(level) >= rank_of(min_level)
}

/// The first `n` items, or all of them.
pub open spec fn at_most<T>(s: Seq<T>, n: int) -> Seq<T> {
    if s.len() <= n {
        s
    } else {
        s.take(n)
    }
}

/// Cuts a stack trace to a number of lines and then to a number of bytes, never
/// within a character, and says whether anything was cut.
pub fn truncate_stack(stack: &str, max_frames: usize, max_bytes: usize) -> (r: (String, bool))
    ensures
        ({
            let kept = join(at_most(lines(stack@), max_frames as int), "\n"@);
            &&& r.0@ == fitting_prefix(kept, max_bytes as int)
            &&& r.1 == (lines(stack@).len() > max_frames || encode_utf8(kept).len() > max_bytes)
        }),
{
    let mut all = lines_of(stack);
    let ghost before = all@;
    let many = all.len() > max_frames;
    if many {
        all.truncate(max_frames);
        assert(texts(all@) == texts(before).take(max_frames as int));
    }
    assert(texts(all@) == at_most(lines(stack@), max_frames as int));
    let kept = join_with(all.as_slice(), "\n");
    let (out, cut) = cut_to_bytes(kept.as_str(), max_bytes);
    (out, many || cut)
}

// ---------------------------------------------------------------------
// Groups
// ---------------------------------------------------------------------
/// One error event to fold into its group.
#[derive(Debug)]
pub struct GroupEvent {
    pub fingerprint: String,
    pub service: String,
    pub level: String,
    /// The exception's type and value, or the beginning of the message.
    pub title: String,
    pub exception_type: Option<String>,
    pub ts: Timestamp,
    pub stack: Option<String>,
}

/// What an event did to its group.
#[derive(Debug, Clone, Copy, PartialEq, Eq, Structural)]
pub enum Transition {
    /// The first event under its fingerprint.
    Created,
    /// An event on a resolved group, which it opens again.
    Regressed,
    /// Any other event.
    Updated,
}

/// A notification about a group.
#[derive(Debug, Clone)]
pub struct NotifyEvent {
    /// `group.created` or `group.regressed`.
    pub kind: String,
    pub service: String,
    pub fingerprint: String,
    pub title: String,
    pub level: String,
    pub count: i64,
    pub first_seen: String,
    pub last_seen: String,
}

/// The stored row of a group, as far as an event changes it.
#[derive(Debug)]
pub struct StoredGroup {
    pub level: Option<String>,
    pub status: String,
    pub resolved_at: Option<Timestamp>,
    pub total_count: i64,
    pub title: Option<String>,
    /// The samples, as the text of a JSON list.
    pub samples: Option<String>,
    /// The variant hashes of the samples, as the text of a JSON list.
    pub variant_hashes: Option<String>,
}

/// What is written for an event.
#[derive(Debug)]
pub enum GroupWrite {
    /// A new row. It was first and last seen when the event happened.
    Insert {
        total_count: i64,
        status: String,
        service: String,
        level: String,
        title: String,
        exception_type: Option<String>,
        seen: Timestamp,
        samples: String,
        variant_hashes: String,
    },
    /// New values for the row. It was last seen when the event happened, or later.
    Update {
        seen: Timestamp,
        total_count: i64,
        level: String,
        status: String,
        resolved_at: Option<Timestamp>,
        title: String,
        samples: String,
        variant_hashes: String,
    },
}

/// A group as the error list shows it.
#[derive(Debug, Clone)]
pub struct ErrorGroup {
    pub fingerprint: String,
    pub service: Option<String>,
    pub level: Option<String>,
    pub title: Option<String>,
    pub exception_type: Option<String>,
    pub first_seen: Option<String>,
    pub last_seen: Option<String>,
    pub total_count: i64,
    pub status: String,
    pub resolved_at: Option<String>,
}

/// One point of a group's sparkline.
#[derive(Debug, Clone)]
pub struct SparkPoint {
    pub ts: String,
    pub count: i64,
}

/// What the error list is asked for.
#[derive(Debug, Clone)]
pub struct ListParams {
    pub window_secs: i64,
    /// `unresolved`, `resolved`, `ignored` or `all`.
    pub status: Option<String>,
    pub service: Option<String>,
    pub q: Option<String>,
    /// `recent` or `count`.
    pub sort: String,
    pub limit: i64,
    pub offset: i64,
}

/// Settings of error tracking.
#[derive(Debug, Clone)]
pub struct ErrorTrackingConfig {
    pub enabled: bool,
    /// Service names of numeric project ids.
    pub projects: Vec<(String, String)>,
    pub stack_max_frames: usize,
    pub stack_max_bytes: usize,
    pub samples_per_group: usize,
    pub reconcile_interval_secs: u64,
    pub notify: ErrorNotifyConfig,
}

/// Settings of notifications about error groups.
#[derive(Debug, Clone)]
pub struct ErrorNotifyConfig {
    pub on_new_group: bool,
    pub on_regression: bool,
    /// `error`, which covers `fatal`, or `fatal`.
    pub min_level: String,
    pub webhooks: Vec<String>,
}

impl Default for ErrorNotifyConfig {
    fn default() -> (r: Self)
        ensures
            r.on_new_group,
            r.on_regression,
            r.min_level@ == "error"@,
            r.webhooks@.len() == 0,
    {
        ErrorNotifyConfig {
            on_new_group: true,
            on_regression: true,
            min_level: "error".to_owned(),
            webhooks: Vec::new(),
        }
    }
}

impl Default for ErrorTrackingConfig {
    fn default() -> (r: Self)
        ensures
            r.enabled,
            r.projects@.len() == 0,
            r.stack_max_frames == 100,
            r.stack_max_bytes == 8192,
            r.samples_per_group == 3,
            r.reconcile_interval_secs == 3600,
            r.notify.on_new_group,
            r.notify.on_regression,
            r.notify.min_level@ == "error"@,
            r.notify.webhooks@.len() == 0,
    {
        ErrorTrackingConfig {
            enabled: true,
            projects: Vec::new(),
            stack_max_frames: 100,
            stack_max_bytes: 8192,
            samples_per_group: 3,
            reconcile_interval_secs: 3600,
            notify: ErrorNotifyConfig::default(),
        }
    }
}

/// The samples and their variant hashes after one more trace. The first sample
/// stays for ever; a variant that is known changes nothing; when the list is full
/// the oldest sample but the first makes room.
pub open spec fn sampled(
    samples: Seq<JsonV>,
    variants: Seq<Seq<char>>,
    sample: JsonV,
    variant: Seq<char>,
    max: int,
) -> (Seq<JsonV>, Seq<Seq<char>>) {
    if variants.contains(variant) {
        (samples, variants)
    } else if samples.len() < max {
        (samples.push(sample), variants.push(variant))
    } else if samples.len() >= 2 {
        (samples.remove(1).push(sample), variants.remove(1).push(variant))
    } else {
        (samples, variants)
    }
}

/// Whether a full list can make room: its hashes reach as far as its samples do.
pub open spec fn can_rotate(
    samples: Seq<JsonV>,
    variants: Seq<Seq<char>>,
    variant: Seq<char>,
    max: int,
) -> bool {
    variants.contains(variant) || samples.len() < max || samples.len() < 2 || variants.len() >= 2
}

/// Folds one trace into a group's samples.
pub fn rotate_samples(
    samples: &mut Vec<Json>,
    variants: &mut Vec<String>,
    sample: Json,
    variant: String,
    max: usize,
)
    requires
        can_rotate(jsons_view(old(samples)@), texts(old(variants)@), variant@, max as int),
    ensures
        (jsons_view(final(samples)@), texts(final(variants)@)) == sampled(
            jsons_view(old(samples)@),
            texts(old(variants)@),
            sample@,
            variant@,
            max as int,
        ),
{
    if list_contains(variants.as_slice(), variant.as_str()) {
        return;
    }
    let ghost ss = jsons_view(samples@);
    let ghost vs = texts(variants@);
    let ghost s = sample@;
    let ghost v = variant@;
    if samples.len() < max {
        samples.push(sample);
        variants.push(variant);
        assert(jsons_view(samples@) == ss.push(s));
        assert(texts(variants@) == vs.push(v));
    } else if samples.len() >= 2 {
        samples.remove(1);
        variants.remove(1);
        samples.push(sample);
        variants.push(variant);
        assert(jsons_view(samples@) == ss.remove(1).push(s));
        assert(texts(variants@) == vs.remove(1).push(v));
    }
}

/// The strings that the text of a JSON list holds; none where it is no list of
/// strings.
pub open spec fn stored_texts(text: Option<Seq<char>>) -> Seq<Seq<char>> {
    match text {
        None => Seq::empty(),
        Some(t) => match json_read(t) {
            Ok(JsonV::Arr(items)) => if all_texts(items) {
                Seq::new(items.len(), |i: int| items[i]->Str_0)
            } else {
                Seq::empty()
            },
            _ => Seq::empty(),
        },
    }
}

/// The values that the text of a JSON list holds; none where it is no list.
pub open spec fn stored_values(text: Option<Seq<char>>) -> Seq<JsonV> {
    match text {
        None => Seq::empty(),
        Some(t) => match json_read(t) {
            Ok(JsonV::Arr(items)) => items,
            _ => Seq::empty(),
        },
    }
}

/// Whether every item is a string.
pub open spec fn all_texts(items: Seq<JsonV>) -> bool {
    forall|i: int| 0 <= i < items.len() ==> (#[trigger] items[i]) is Str
}

fn strings_in(items: &Vec<Json>) -> (r: Option<Vec<String>>)
    ensures
        match r {
            Some(v) => all_texts(jsons_view(items@)) && texts(v@) == Seq::new(
                items@.len(),
                |i: int| jsons_view(items@)[i]->Str_0,
            ),
            None => !all_texts(jsons_view(items@)),
        },
{
    let ghost all = jsons_view(items@);
    let mut out: Vec<String> = Vec::new();
    for i in 0..items.len()
        invariant
            all == jsons_view(items@),
            out@.len() == i,
            forall|j: int| 0 <= j < i ==> (#[trigger] all[j]) is Str && out@[j]@ == all[j]->Str_0,
    {
        match &items[i] {
            Json::Str(s) => {
                assert(all[i as int] == JsonV::Str(s@));
                out.push(s.clone());
            },
            _ => {
                assert(!(all[i as int] is Str));
                return None;
            },
        }
    }
    assert(texts(out@) == Seq::new(items@.len(), |i: int| jsons_view(items@)[i]->Str_0));
    Some(out)
}

fn load_texts(text: &Option<String>) -> (r: Vec<String>)
    ensures
        texts(r@) == stored_texts(opt_text(*text)),
{
    let none: Vec<String> = Vec::new();
    assert(texts(none@) == Seq::<Seq<char>>::empty());
    match text {
        Some(t) => match read_json(t.as_str()) {
            Ok(j) => match j.as_array() {
                Some(items) => match strings_in(items) {
                    Some(v) => v,
                    None => none,
                },
                None => none,
            },
            Err(_) => none,
        },
        None => none,
    }
}

fn load_values(text: &Option<String>) -> (r: Vec<Json>)
    ensures
        jsons_view(r@) == stored_values(opt_text(*text)),
{
    let none: Vec<Json> = Vec::new();
    assert(jsons_view(none@) == Seq::<JsonV>::empty());
    match text {
        Some(t) => match read_json(t.as_str()) {
            Ok(j) => match j.as_array() {
                Some(items) => copy_items(items),
                None => none,
            },
            Err(_) => none,
        },
        None => none,
    }
}

/// Whether a text is that of a list of values, and can be read again.
pub open spec fn lists_values(text: Seq<char>, items: Seq<JsonV>) -> bool {
    &&& text == json_text(JsonV::Arr(items))
    &&& is_plain(JsonV::Arr(items), 127) ==> reads_as(text, JsonV::Arr(items))
}

/// Strings as values.
pub open spec fn string_values(v: Seq<Seq<char>>) -> Seq<JsonV> {
    Seq::new(v.len(), |i: int| JsonV::Str(v[i]))
}

/// Whether a text is that of a list of strings, and can be read again.
pub open spec fn lists_texts(text: Seq<char>, v: Seq<Seq<char>>) -> bool {
    lists_values(text, string_values(v))
}

fn write_texts(v: &Vec<String>) -> (r: String)
    ensures
        lists_texts(r@, texts(v@)),
{
    broadcast use lemma_json_view;

    let mut items: Vec<Json> = Vec::new();
    for i in 0..v.len()
        invariant
            items@.len() == i,
            forall|j: int| 0 <= j < i ==> (#[trigger] items@[j])@ == JsonV::Str(v@[j]@),
    {
        items.push(Json::text(v[i].as_str()));
    }
    let ghost t = texts(v@);
    assert(jsons_view(items@) == string_values(t));
    let list = Json::Arr(items);
    write_json(&list)
}

fn write_values(v: Vec<Json>) -> (r: String)
    ensures
        lists_values(r@, jsons_view(v@)),
{
    broadcast use lemma_json_view;

    let list = Json::Arr(v);
    write_json(&list)
}

impl GroupEvent {
    /// The hash of the event's trace, or of its title where it has none.
    pub open spec fn variant(self) -> Seq<char> {
        fingerprint(
            "v"@,
            seq![
                normalized(
                    match self.stack {
                        Some(s) => s@,
                        None => self.title@,
                    },
                ),
            ],
        )
    }

    /// The sample that the event adds to its group.
    pub open spec fn sample(self) -> JsonV {
        JsonV::Obj(
            Map::<Seq<char>, JsonV>::empty().insert(
                "variant_hash"@,
                JsonV::Str(self.variant()),
            ).insert("first_seen"@, JsonV::Str(rfc3339_text(self.ts.secs, self.ts.nanos))).insert(
                "stack"@,
                match self.stack {
                    Some(s) => JsonV::Str(s@),
                    None => JsonV::Null,
                },
            ),
        )
    }
}

fn make_sample(ev: &GroupEvent, variant: &str) -> (r: Json)
    requires
        variant@ == ev.variant(),
    ensures
        r@ == ev.sample(),
{
    broadcast use lemma_json_view;

    let mut m = JsonMap::new();
    m.insert_str("variant_hash", variant);
    let seen = to_rfc3339(ev.ts);
    m.insert_str("first_seen", seen.as_str());
    match &ev.stack {
        Some(s) => m.insert_str("stack", s.as_str()),
        None => m.insert("stack", Json::Null),
    }
    Json::Obj(m)
}

/// The worse of two levels of errors.
pub open spec fn worst_level(a: Seq<char>, b: Seq<char>) -> Seq<char> {
    if a == "fatal"@ || b == "fatal"@ {
        "fatal"@
    } else {
        "error"@
    }
}

/// The level that a group has after an event: the worse of its own and the event's. A
/// group whose level is not known counts as one of errors, and as nothing where it has
/// no title either.
pub open spec fn group_level(
    stored: Option<Seq<char>>,
    title: Option<Seq<char>>,
    level: Seq<char>,
) -> Seq<char> {
    match stored {
        Some(l) => worst_level(l, level),
        None => if title is None {
            level
        } else {
            worst_level("error"@, level)
        },
    }
}

fn worse(a: &str, b: &str) -> (r: String)
    ensures
        r@ == worst_level(a@, b@),
{
    if same(a, "fatal") || same(b, "fatal") {
        "fatal".to_owned()
    } else {
        "error".to_owned()
    }
}

fn level_after(g: &StoredGroup, level: &str) -> (r: String)
    ensures
        r@ == group_level(opt_text(g.level), opt_text(g.title), level@),
{
    match &g.level {
        Some(l) => worse(l.as_str(), level),
        None => if g.title.is_none() {
            level.to_owned()
        } else {
            worse("error", level)
        },
    }
}

/// How many samples a group keeps: at least one.
pub open spec fn samples_kept(max: usize) -> int {
    if max == 0 {
        1
    } else {
        max as int
    }
}

/// What a stored row and an event give.
pub open spec fn writes(
    w: GroupWrite,
    t: Transition,
    row: Option<&StoredGroup>,
    max: usize,
    ev: GroupEvent,
) -> bool {
    match row {
        None => {
            &&& t == Transition::Created
            &&& w matches GroupWrite::Insert {
                total_count,
                status,
                service,
                level,
                title,
                exception_type,
                seen,
                samples,
                variant_hashes,
            }
            &&& total_count == 1
            &&& status@ == "unresolved"@
            &&& service@ == ev.service@
            &&& level@ == ev.level@
            &&& title@ == ev.title@
            &&& opt_text(exception_type) == opt_text(ev.exception_type)
            &&& seen == ev.ts
            &&& lists_values(samples@, seq![ev.sample()])
            &&& lists_texts(variant_hashes@, seq![ev.variant()])
        },
        Some(row) => {
            let regressed = row.status@ == "resolved"@;
            let (ss, vs) = sampled(
                stored_values(opt_text(row.samples)),
                stored_texts(opt_text(row.variant_hashes)),
                ev.sample(),
                ev.variant(),
                samples_kept(max),
            );
            &&& t == (if regressed {
                Transition::Regressed
            } else {
                Transition::Updated
            })
            &&& w matches GroupWrite::Update {
                seen,
                total_count,
                level,
                status,
                resolved_at,
                title,
                samples,
                variant_hashes,
            }
            &&& seen == ev.ts
            &&& total_count == row.total_count + 1
            &&& level@ == group_level(opt_text(row.level), opt_text(row.title), ev.level@)
            &&& status@ == (if regressed {
                "unresolved"@
            } else {
                row.status@
            })
            &&& resolved_at == (if regressed {
                None
            } else {
                row.resolved_at
            })
            &&& title@ == (match row.title {
                Some(old_title) => old_title@,
                None => ev.title@,
            })
            &&& lists_values(samples@, ss)
            &&& lists_texts(variant_hashes@, vs)
        },
    }
}

/// Whether an event can be folded into a stored row: the row's hashes reach as
/// far as a full list of samples needs.
pub open spec fn foldable(row: Option<&StoredGroup>, max: usize, ev: GroupEvent) -> bool {
    match row {
        None => true,
        Some(row) => can_rotate(
            stored_values(opt_text(row.samples)),
            stored_texts(opt_text(row.variant_hashes)),
            ev.variant(),
            samples_kept(max),
        ),
    }
}

/// What to write for an event, given the stored row of its group, and what
/// happened to the group. Nothing where the row's samples and hashes contradict
/// each other.
pub fn upsert_group(row: Option<&StoredGroup>, samples_max: usize, ev: &GroupEvent) -> (r: Option<
    (GroupWrite, Transition),
>)
    requires
        row matches Some(g) ==> g.total_count < i64::MAX,
    ensures
        match r {
            Some((w, t)) => foldable(row, samples_max, *ev) && writes(w, t, row, samples_max, *ev),
            None => !foldable(row, samples_max, *ev),
        },
{
    let max: usize = if samples_max == 0 {
        1
    } else {
        samples_max
    };
    let vh = match &ev.stack {
        Some(s) => variant_hash(s.as_str()),
        None => variant_hash(ev.title.as_str()),
    };
    let new_sample = make_sample(ev, vh.as_str());
    match row {
        None => {
            let mut samples: Vec<Json> = Vec::new();
            samples.push(new_sample);
            assert(jsons_view(samples@) == seq![ev.sample()]);
            let mut variants: Vec<String> = Vec::new();
            variants.push(vh);
            assert(texts(variants@) == seq![ev.variant()]);
            let w = GroupWrite::Insert {
                total_count: 1,
                status: "unresolved".to_owned(),
                service: ev.service.clone(),
                level: ev.level.clone(),
                title: ev.title.clone(),
                exception_type: ev.exception_type.clone(),
                seen: ev.ts,
                samples: write_values(samples),
                variant_hashes: write_texts(&variants),
            };
            Some((w, Transition::Created))
        },
        Some(g) => {
            let regressed = same(g.status.as_str(), "resolved");
            let status = if regressed {
                "unresolved".to_owned()
            } else {
                g.status.clone()
            };
            let level = level_after(g, ev.level.as_str());
            let mut variants = load_texts(&g.variant_hashes);
            let mut samples = load_values(&g.samples);
            if !list_contains(variants.as_slice(), vh.as_str()) && samples.len() >= max
                && samples.len() >= 2 && variants.len() < 2 {
                return None;
            }
            rotate_samples(&mut samples, &mut variants, new_sample, vh, max);
            let title = match &g.title {
                Some(t) => t.clone(),
                None => ev.title.clone(),
            };
            let w = GroupWrite::Update {
                seen: ev.ts,
                total_count: g.total_count + 1,
                level,
                status,
                resolved_at: if regressed {
                    None
                } else {
                    g.resolved_at
                },
                title,
                samples: write_values(samples),
                variant_hashes: write_texts(&variants),
            };
            let t = if regressed {
                Transition::Regressed
            } else {
                Transition::Updated
            };
            Some((w, t))
        },
    }
}

/// Whether a level counts as an error.
pub open spec fn is_error(level: Seq<char>) -> bool {
    level == "error"@ || level == "fatal"@
}

/// Whether a level counts as an error.
pub fn is_error_level(level: &str) -> (r: bool)
    ensures
        r == is_error(level@),
{
    same(level, "error") || same(level, "fatal")
}

/// The kind of notification that a transition calls for, if any.
pub open spec fn notification(cfg: ErrorNotifyConfig, t: Transition, level: Seq<char>) -> Option<
    Seq<char>,
> {
    let loud = error_rank(level) >= error_rank(cfg.min_level@);
    match t {
        Transition::Created => if cfg.on_new_group && loud {
            Some("group.created"@)
        } else {
            None
        },
        Transition::Regressed => if cfg.on_regression && loud {
            Some("group.regressed"@)
        } else {
            None
        },
        Transition::Updated => None,
    }
}

/// The kind of notification that a transition calls for, if any.
pub fn notify_kind(cfg: &ErrorNotifyConfig, t: Transition, level: &str) -> (r: Option<&'static str>)
    ensures
        match r {
            Some(k) => notification(*cfg, t, level@) == Some(k@),
            None => notification(*cfg, t, level@) is None,
        },
{
    match t {
        Transition::Created => if cfg.on_new_group && level_meets(level, cfg.min_level.as_str()) {
            Some("group.created")
        } else {
            None
        },
        Transition::Regressed => if cfg.on_regression && level_meets(
            level,
            cfg.min_level.as_str(),
        ) {
            Some("group.regressed")
        } else {
            None
        },
        Transition::Updated => None,
    }
}

/// The notification about an event, given the group's count and when it was first
/// seen. Where the group cannot be found, it counts nothing and is as old as the
/// event.
pub fn notify_event(kind: &str, ev: &GroupEvent, group: Option<(i64, Timestamp)>) -> (r: NotifyEvent)
    ensures
        r.kind@ == kind@,
        r.service@ == ev.service@,
        r.fingerprint@ == ev.fingerprint@,
        r.title@ == ev.title@,
        r.level@ == ev.level@,
        match group {
            Some((count, first)) => r.count == count && r.first_seen@ == rfc3339_text(
                first.secs,
                first.nanos,
            ),
            None => r.count == 0 && r.first_seen@ == rfc3339_text(ev.ts.secs, ev.ts.nanos),
        },
        r.last_seen@ == rfc3339_text(ev.ts.secs, ev.ts.nanos),
{
    let (count, first_seen) = match group {
        Some(g) => g,
        None => (0, ev.ts),
    };
    NotifyEvent {
        kind: kind.to_owned(),
        service: ev.service.clone(),
        fingerprint: ev.fingerprint.clone(),
        title: ev.title.clone(),
        level: ev.level.clone(),
        count,
        first_seen: to_rfc3339(first_seen),
        last_seen: to_rfc3339(ev.ts),
    }
}

// ---------------------------------------------------------------------
// The error list
// ---------------------------------------------------------------------
/// The conditions of the error list, joined by `AND`.
pub open spec fn list_conditions(p: ListParams) -> Seq<Seq<char>> {
    let status = match p.status {
        None => seq!["status = 'unresolved'"@],
        Some(s) => if s@ == "unresolved"@ || s@ == "resolved"@ || s@ == "ignored"@ {
            seq!["status = '"@ + s@ + "'"@]
        } else {
            Seq::empty()
        },
    };
    let service = match p.service {
        Some(_) => seq!["service = ?"@],
        None => Seq::empty(),
    };
    let text = match p.q {
        Some(_) => seq!["(title ILIKE ? OR exception_type ILIKE ?)"@],
        None => Seq::empty(),
    };
    seq!["last_seen >= ?"@] + status + service + text
}

/// The values that the conditions bind, in the order of their placeholders.
pub open spec fn list_binds(p: ListParams, since: Seq<char>) -> Seq<Seq<char>> {
    let service = match p.service {
        Some(s) => seq![s@],
        None => Seq::empty(),
    };
    let text = match p.q {
        Some(q) => seq!["%"@ + q@ + "%"@, "%"@ + q@ + "%"@],
        None => Seq::empty(),
    };
    seq![since] + service + text
}

/// The order of the error list.
pub open spec fn list_order(p: ListParams) -> Seq<char> {
    if p.sort@ == "count"@ {
        "total_count DESC, last_seen DESC"@
    } else {
        "last_seen DESC"@
    }
}

/// The two statements behind a page of the error list.
#[derive(Debug)]
pub struct ListQuery {
    pub count_sql: String,
    pub count_binds: Vec<String>,
    pub page_sql: String,
    pub page_binds: Vec<String>,
}

/// Where the window of the error list starts: at least a second ago.
pub open spec fn list_since(p: ListParams, now: Timestamp) -> Option<Timestamp> {
    start_of_window(
        now,
        if p.window_secs < 1 {
            1
        } else {
            p.window_secs as int
        },
    )
}

/// The statements that count and fetch a page of the error list.
pub fn list_groups(p: &ListParams, now: Timestamp) -> (r: ListQuery)
    requires
        list_since(*p, now) is Some,
    ensures
        ({
            let since = list_since(*p, now)->0;
            let since = rfc3339_text(since.secs, since.nanos);
            let clause = join(list_conditions(*p), " AND "@);
            &&& r.count_sql@ == "SELECT COUNT(*) FROM error_groups WHERE "@ + clause
            &&& texts(r.count_binds@) == list_binds(*p, since)
            &&& r.page_sql@
                == "SELECT fingerprint, service, level, title, exception_type, first_seen, last_seen, total_count, status, resolved_at FROM error_groups WHERE "@
                + clause + " ORDER BY "@ + list_order(*p) + " LIMIT ? OFFSET ?"@
            &&& texts(r.page_binds@) == list_binds(*p, since) + seq![
                dec_int(p.limit as int),
                dec_int(p.offset as int),
            ]
        }),
{
    let window: i64 = if p.window_secs < 1 {
        1
    } else {
        p.window_secs
    };
    let start = window_start(now, window).unwrap();
    let since = to_rfc3339(start);
    let mut parts: Vec<String> = Vec::new();
    let mut binds: Vec<String> = Vec::new();
    push_text(&mut parts, "last_seen >= ?".to_owned());
    push_text(&mut binds, since.clone());
    match &p.status {
        None => push_text(&mut parts, "status = 'unresolved'".to_owned()),
        Some(s) => if same(s.as_str(), "unresolved") || same(s.as_str(), "resolved") || same(
            s.as_str(),
            "ignored",
        ) {
            push_text(&mut parts, cat3("status = '", s.as_str(), "'"));
        },
    }
    match &p.service {
        Some(s) => {
            push_text(&mut parts, "service = ?".to_owned());
            push_text(&mut binds, s.clone());
        },
        None => {},
    }
    match &p.q {
        Some(q) => {
            push_text(&mut parts, "(title ILIKE ? OR exception_type ILIKE ?)".to_owned());
            push_text(&mut binds, cat3("%", q.as_str(), "%"));
            push_text(&mut binds, cat3("%", q.as_str(), "%"));
        },
        None => {},
    }
    assert(texts(parts@) == list_conditions(*p));
    assert(texts(binds@) == list_binds(*p, since@));
    let order = if same(p.sort.as_str(), "count") {
        "total_count DESC, last_seen DESC"
    } else {
        "last_seen DESC"
    };
    let clause = join_with(parts.as_slice(), " AND ");
    let mut page = binds.clone();
    assert(texts(page@) == texts(binds@));
    push_text(&mut page, dec_of_int(p.limit));
    push_text(&mut page, dec_of_int(p.offset));
    assert(texts(page@) == list_binds(*p, since@) + seq![
        dec_int(p.limit as int),
        dec_int(p.offset as int),
    ]);
    ListQuery {
        count_sql: cat("SELECT COUNT(*) FROM error_groups WHERE ", clause.as_str()),
        count_binds: binds,
        page_sql: cat5(
            "SELECT fingerprint, service, level, title, exception_type, first_seen, last_seen, total_count, status, resolved_at FROM error_groups WHERE ",
            clause.as_str(),
            " ORDER BY ",
            order,
            " LIMIT ? OFFSET ?",
        ),
        page_binds: page,
    }
}

// ---------------------------------------------------------------------
// Tracking
// ---------------------------------------------------------------------
/// The event of a row, where the row is an error with a fingerprint.
pub open spec fn tracks(row: RowV) -> bool {
    row.fingerprint.len() > 0 && is_error(row.level)
}

/// Whether an event is that of a row.
pub open spec fn is_event_of(ev: GroupEvent, row: RowV) -> bool {
    &&& ev.fingerprint@ == row.fingerprint
    &&& ev.service@ == row.service
    &&& ev.level@ == row.level
    &&& ev.title@ == first_chars(row.message, 200)
    &&& opt_text(ev.exception_type) == text_in(member(row.attributes, "exception_type"@))
    &&& ev.ts == row.ts
    &&& opt_text(ev.stack) == text_in(member(row.attributes, "stack"@))
}

fn attribute_text(row: &LogRow, key: &str) -> (r: Option<String>)
    ensures
        opt_text(r) == text_in(member(row@.attributes, key@)),
{
    match row.attributes.get_str(key) {
        Some(t) => Some(t.to_owned()),
        None => None,
    }
}

/// The event of a row, if it is to be tracked.
pub fn event_of_row(row: &LogRow) -> (r: Option<GroupEvent>)
    ensures
        match r {
            Some(ev) => tracks(row@) && is_event_of(ev, row@),
            None => !tracks(row@),
        },
{
    if row.fingerprint.as_str().is_empty() || !is_error_level(row.level.as_str()) {
        return None;
    }
    Some(
        GroupEvent {
            fingerprint: row.fingerprint.clone(),
            service: row.service.clone(),
            level: row.level.clone(),
            title: take_chars(row.message.as_str(), 200),
            exception_type: attribute_text(row, "exception_type"),
            ts: row.ts,
            stack: attribute_text(row, "stack"),
        },
    )
}

/// What a row calls for.
#[derive(Debug)]
pub enum TrackStep {
    /// Nothing: it is no error, or has no fingerprint.
    Nothing,
    /// Nothing can be written: the group's samples and hashes contradict each other.
    Contradiction(GroupEvent),
    /// A write to its group, and the kind of notification, if one is due.
    Write(GroupEvent, GroupWrite, Option<&'static str>),
}

/// Folds errors into their groups, and decides who is told.
#[derive(Debug)]
pub struct ErrorTracker {
    pub cfg: ErrorTrackingConfig,
}

/// The kind of a notification as text.
pub open spec fn kind_text(k: Option<&'static str>) -> Option<Seq<char>> {
    match k {
        Some(k) => Some(k@),
        None => None,
    }
}

impl ErrorTracker {
    /// What a row calls for, given the stored row of its group.
    pub fn track(&self, row: &LogRow, stored: Option<&StoredGroup>) -> (r: TrackStep)
        requires
            stored matches Some(g) ==> g.total_count < i64::MAX,
        ensures
            match r {
                TrackStep::Nothing => !tracks(row@),
                TrackStep::Contradiction(ev) => {
                    &&& tracks(row@)
                    &&& is_event_of(ev, row@)
                    &&& !foldable(stored, self.cfg.samples_per_group, ev)
                },
                TrackStep::Write(ev, w, kind) => {
                    &&& tracks(row@)
                    &&& is_event_of(ev, row@)
                    &&& foldable(stored, self.cfg.samples_per_group, ev)
                    &&& exists|t: Transition| #[trigger]
                        writes(w, t, stored, self.cfg.samples_per_group, ev) && kind_text(kind)
                            == notification(self.cfg.notify, t, row@.level)
                },
            },
    {
        let ev = match event_of_row(row) {
            Some(ev) => ev,
            None => return TrackStep::Nothing,
        };
        match upsert_group(stored, self.cfg.samples_per_group, &ev) {
            None => TrackStep::Contradiction(ev),
            Some((w, t)) => {
                let kind = notify_kind(&self.cfg.notify, t, ev.level.as_str());
                assert(writes(w, t, stored, self.cfg.samples_per_group, ev));
                TrackStep::Write(ev, w, kind)
            },
        }
    }
}

/// A group with its samples and its events by the minute.
#[derive(Debug)]
pub struct ErrorGroupDetail {
    pub group: ErrorGroup,
    pub samples: Json,
    pub spark: Vec<SparkPoint>,
}

/// The samples of a group as they are kept; none where they cannot be read.
pub fn kept_samples(text: &Option<String>) -> (r: Json)
    ensures
        r@ == (match opt_text(*text) {
            Some(t) => match json_read(t) {
                Ok(v) => v,
                Err(_) => JsonV::Arr(Seq::empty()),
            },
            None => JsonV::Arr(Seq::empty()),
        }),
{
    broadcast use lemma_json_view;

    if let Some(t) = text {
        if let Ok(v) = read_json(t.as_str()) {
            return v;
        }
    }
    let none: Vec<Json> = Vec::new();
    assert(jsons_view(none@) =~= Seq::<JsonV>::empty());
    Json::Arr(none)
}

/// The window of a group's events by the minute: at least a minute.
pub fn spark_window(secs: i64) -> (r: i64)
    ensures
        r == (if secs < 60 {
            60
        } else {
            secs as int
        }),
{
    if secs < 60 {
        60
    } else {
        secs
    }
}

/// When a group that gets a status was resolved: now, where the status says so.
pub fn resolved_at(status: &str, now: Timestamp) -> (r: Option<Timestamp>)
    ensures
        r == (if status@ == "resolved"@ {
            Some(now)
        } else {
            None
        }),
{
    if same(status, "resolved") {
        Some(now)
    } else {
        None
    }
}

} // verus!
