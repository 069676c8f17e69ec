//! A client that sends records in batches, a line of JSON each: what a line is, what
//! stays in the queue, and what is sent.
use vstd::prelude::*;
use vstd::string::*;
use vstd::utf8::encode_utf8;

use crate::calendar::{format_utc, is_utc_text};
use crate::float::{double_text, is_finite, parts_of, write_double};
use crate::text::{
    after_prefix, all_hex, begins, cat, cat3, char_is_space, chars_of, clone_strings,
    cut_to_bytes, dec, dec_int, dec_of, dec_of_int, ends, find_by, fitting_prefix, has_text,
    hex_char, hex_digit, is_digit, is_hex, is_space, join, join_with, just, lemma_find_by,
    occurs_at, parse_u64, parse_u64_text, push_bytes, same, space_class, split_once,
    split_once_at, string_between, strip_prefix, texts, trim_end_by, trim_end_char, trim_start_by,
    trimmed_start,
};
use crate::text_laws::law_naturals_read_back;

verus! {

// ---------------------------------------------------------------------
// Lines
// ---------------------------------------------------------------------
/// A character in a JSON string.
pub open spec fn escaped_char(c: char) -> Seq<char> {
    if c == '"' {
        "\\\""@
    } else if c == '\\' {
        "\\\\"@
    } else if c == '\n' {
        "\\n"@
    } else if c == '\r' {
        "\\r"@
    } else if c == '\t' {
        "\\t"@
    } else if (c as u32) < 0x20 {
        "\\u00"@ + seq![hex_digit(c as u32 as int / 16), hex_digit(c as u32 as int % 16)]
    } else {
        seq![c]
    }
}

/// Characters in a JSON string.
pub open spec fn escaped_chars(s: Seq<char>) -> Seq<char>
    decreases s.len(),
{
    if s.len() == 0 {
        Seq::empty()
    } else {
        escaped_chars(s.drop_last()) + escaped_char(s.last())
    }
}

/// A JSON string.
pub open spec fn escaped(s: Seq<char>) -> Seq<char> {
    seq!['"'] + escaped_chars(s) + seq!['"']
}

fn push_escaped(out: &mut String, c: char)
    ensures
        final(out)@ == old(out)@ + escaped_char(c),
{
    let ghost before = out@;
    if c == '"' {
        out.append("\\\"");
    } else if c == '\\' {
        out.append("\\\\");
    } else if c == '\n' {
        out.append("\\n");
    } else if c == '\r' {
        out.append("\\r");
    } else if c == '\t' {
        out.append("\\t");
    } else if (c as u32) < 0x20 {
        let n: u8 = c as u32 as u8;
        out.append("\\u00");
        out.push(hex_char(n / 16));
        out.push(hex_char(n % 16));
        assert(out@ =~= before + escaped_char(c));
    } else {
        out.push(c);
        assert(out@ =~= before + escaped_char(c));
    }
}

/// A text as a JSON string.
pub fn json_escape(s: &str) -> (r: String)
    ensures
        r@ == escaped(s@),
{
    let v = chars_of(s);
    let n: usize = v.len();
    let mut out = String::new();
    out.push('"');
    let ghost all = v@;
    assert(out@ =~= seq!['"'] + escaped_chars(all.take(0)));
    for i in 0..n
        invariant
            n == v@.len(),
            v@ == all,
            out@ == seq!['"'] + escaped_chars(all.take(i as int)),
    {
        assert(all.take(i + 1).drop_last() == all.take(i as int));
        push_escaped(&mut out, v[i]);
        assert(out@ =~= seq!['"'] + escaped_chars(all.take(i + 1)));
    }
    assert(all.take(n as int) == all);
    out.push('"');
    assert(out@ =~= escaped(s@));
    out
}

/// The value of a field.
#[derive(Debug, Clone)]
pub enum Json {
    Str(String),
    Whole(i64),
    /// A floating-point number, as its double-precision bit pattern.
    Float(u64),
    Bool(bool),
}

/// The value of a field in JSON.
pub open spec fn field_text(v: Json) -> Seq<char> {
    match v {
        Json::Str(s) => escaped(s@),
        Json::Whole(i) => dec_int(i as int),
        Json::Float(b) => if is_finite(b) {
            double_text(b)
        } else {
            "null"@
        },
        Json::Bool(b) => if b {
            "true"@
        } else {
            "false"@
        },
    }
}

impl Json {
    /// A text.
    pub fn text(s: &str) -> (r: Json)
        ensures
            r matches Json::Str(t) && t@ == s@,
    {
        Json::Str(s.to_owned())
    }

    /// An integer.
    pub fn integer(i: i64) -> (r: Json)
        ensures
            r == Json::Whole(i),
    {
        Json::Whole(i)
    }

    /// A floating-point number, by its bit pattern.
    pub fn float(bits: u64) -> (r: Json)
        ensures
            r == Json::Float(bits),
    {
        Json::Float(bits)
    }

    /// A truth value.
    pub fn boolean(b: bool) -> (r: Json)
        ensures
            r == Json::Bool(b),
    {
        Json::Bool(b)
    }

    /// The value in JSON.
    pub fn to_json(&self) -> (r: String)
        ensures
            r@ == field_text(*self),
    {
        match self {
            Json::Str(s) => json_escape(s.as_str()),
            Json::Whole(i) => dec_of_int(*i),
            Json::Float(b) => match parts_of(*b) {
                Some(_) => write_double(*b),
                None => "null".to_owned(),
            },
            Json::Bool(b) => if *b {
                "true".to_owned()
            } else {
                "false".to_owned()
            },
        }
    }
}

/// Fields in a line.
pub open spec fn fields_text(fields: Seq<(String, Json)>) -> Seq<char>
    decreases fields.len(),
{
    if fields.len() == 0 {
        Seq::empty()
    } else {
        fields_text(fields.drop_last()) + (",\""@ + fields.last().0@ + "\":"@ + field_text(
            fields.last().1,
        ))
    }
}

/// The line of a record.
pub open spec fn line_of_record(
    service: Seq<char>,
    level: Seq<char>,
    msg: Seq<char>,
    ts: Seq<char>,
    fields: Seq<(String, Json)>,
) -> Seq<char> {
    "{\"service\":"@ + escaped(service) + ",\"level\":\""@ + level + "\",\"msg\":"@ + escaped(msg)
        + ",\"ts\":\""@ + ts + "\""@ + fields_text(fields) + "}"@
}

/// The line of a record.
pub fn record_line(service: &str, level: &str, msg: &str, ts: &str, fields: &[(String, Json)]) -> (r:
    String)
    ensures
        r@ == line_of_record(service@, level@, msg@, ts@, fields@),
{
    let svc = json_escape(service);
    let text = json_escape(msg);
    let mut s = cat3("{\"service\":", svc.as_str(), ",\"level\":\"");
    s.append(level);
    s.append("\",\"msg\":");
    s.append(text.as_str());
    s.append(",\"ts\":\"");
    s.append(ts);
    s.append("\"");
    let mut more = String::new();
    for i in 0..fields.len()
        invariant
            more@ == fields_text(fields@.take(i as int)),
    {
        assert(fields@.take(i + 1).drop_last() == fields@.take(i as int));
        let value = fields[i].1.to_json();
        let mut one = cat3(",\"", fields[i].0.as_str(), "\":");
        one.append(value.as_str());
        more.append(one.as_str());
    }
    assert(fields@.take(fields@.len() as int) == fields@);
    s.append(more.as_str());
    s.append("}");
    s
}

// ---------------------------------------------------------------------
// The queue
// ---------------------------------------------------------------------
/// A client: where it sends to, and what it has not sent.
#[derive(Debug)]
pub struct CentralLogs {
    pub base_url: String,
    pub api_key: String,
    pub service: String,
    pub queue: Vec<String>,
    pub closed: bool,
}

/// What is to be done with a batch.
#[derive(Debug)]
pub enum Flush {
    /// There is none.
    Nothing,
    /// It cannot be sent, and is reported with a reason.
    Report(Vec<String>, String),
    /// It is sent: to a host and a port, as a request; and reported where that
    /// fails.
    Send(Vec<String>, Request),
}

/// A request.
#[derive(Debug)]
pub struct Request {
    pub host: String,
    pub port: u16,
    pub text: String,
}

/// A queue that has got a line. The oldest one makes room where it is full.
pub open spec fn enqueued(queue: Seq<Seq<char>>, line: Seq<char>, max: nat) -> Seq<Seq<char>> {
    if queue.len() >= max {
        queue.drop_first().push(line)
    } else {
        queue.push(line)
    }
}

/// The host and the port of an address, or why there are none.
pub open spec fn target_in(url: Seq<char>) -> Result<(Seq<char>, u16), Seq<char>> {
    match after_prefix(url, "http://"@) {
        None => Err("unsupported URL (http:// only): "@ + url),
        Some(rest) => match split_once(rest, ':') {
            None => Ok((rest, 80)),
            Some((host, port)) => match parse_u64_text(port) {
                Some(n) => if n <= 65535 {
                    Ok((host, n as u16))
                } else {
                    Err("bad port"@)
                },
                None => Err("bad port"@),
            },
        },
    }
}

/// A request to store lines.
pub open spec fn request_text(
    host: Seq<char>,
    port: u16,
    key: Seq<char>,
    body: Seq<char>,
) -> Seq<char> {
    "POST /v1/logs HTTP/1.1\r\nHost: "@ + host + ":"@ + dec(port as nat)
        + "\r\nAuthorization: Bearer "@ + key
        + "\r\nContent-Type: application/x-ndjson\r\nContent-Length: "@ + dec(
        encode_utf8(body).len(),
    ) + "\r\nConnection: close\r\n\r\n"@ + body
}

/// Whether a batch is dealt with as it should be.
pub open spec fn flushes(
    f: Flush,
    batch: Seq<Seq<char>>,
    url: Seq<char>,
    key: Seq<char>,
) -> bool {
    if batch.len() == 0 {
        f is Nothing
    } else if key.len() == 0 {
        f matches Flush::Report(lines, why) && texts(lines@) == batch && why@
            == "CENTRAL_LOGS_API_KEY not set"@
    } else {
        match target_in(url) {
            Err(m) => f matches Flush::Report(lines, why) && texts(lines@) == batch && why@ == m,
            Ok((host, port)) => f matches Flush::Send(lines, req) && texts(lines@) == batch
                && req.host@ == host && req.port == port && req.text@ == request_text(
                host,
                port,
                key,
                join(batch, "\n"@),
            ),
        }
    }
}

fn find_target(url: &str) -> (r: Result<(String, u16), String>)
    ensures
        match r {
            Ok(t) => target_in(url@) == Ok::<(Seq<char>, u16), Seq<char>>((t.0@, t.1)),
            Err(m) => target_in(url@) == Err::<(Seq<char>, u16), Seq<char>>(m@),
        },
{
    let rest = match strip_prefix(url, "http://") {
        Some(r) => r,
        None => return Err(cat("unsupported URL (http:// only): ", url)),
    };
    match split_once_at(rest.as_str(), ':') {
        None => Ok((rest, 80)),
        Some(p) => match parse_u64(p.1.as_str()) {
            Some(n) => if n <= 65535 {
                Ok((p.0, n as u16))
            } else {
                Err("bad port".to_owned())
            },
            None => Err("bad port".to_owned()),
        },
    }
}

fn write_request(host: &str, port: u16, key: &str, body: &str) -> (r: String)
    ensures
        r@ == request_text(host@, port, key@, body@),
{
    let p = dec_of(port as u64);
    let mut bytes: Vec<u8> = Vec::new();
    push_bytes(&mut bytes, body);
    assert(bytes@ == encode_utf8(body@));
    let n = dec_of(bytes.len() as u64);
    let mut s = cat3("POST /v1/logs HTTP/1.1\r\nHost: ", host, ":");
    s.append(p.as_str());
    s.append("\r\nAuthorization: Bearer ");
    s.append(key);
    s.append("\r\nContent-Type: application/x-ndjson\r\nContent-Length: ");
    s.append(n.as_str());
    s.append("\r\nConnection: close\r\n\r\n");
    s.append(body);
    s
}

impl CentralLogs {
    /// What the client sends with.
    pub open spec fn same_target(&self, other: CentralLogs) -> bool {
        &&& self.base_url@ == other.base_url@
        &&& self.api_key@ == other.api_key@
        &&& self.service@ == other.service@
    }

    /// A client that has nothing to send.
    pub fn new(base_url: &str, api_key: &str, service: &str) -> (r: CentralLogs)
        ensures
            r.base_url@ == trim_end_by(base_url@, just('/')),
            r.api_key@ == api_key@,
            r.service@ == service@,
            texts(r.queue@) == Seq::<Seq<char>>::empty(),
            !r.closed,
    {
        let r = CentralLogs {
            base_url: trim_end_char(base_url, '/'),
            api_key: api_key.to_owned(),
            service: service.to_owned(),
            queue: Vec::new(),
            closed: false,
        };
        assert(texts(r.queue@) =~= Seq::<Seq<char>>::empty());
        r
    }

    /// Queues a record with fields, and tells what is to be done where the batch is
    /// large enough. The time is seconds since the first of January 1970.
    pub fn log_kv(
        &mut self,
        level: &str,
        msg: &str,
        fields: &[(String, Json)],
        secs: u64,
        max_queue: usize,
        max_batch: usize,
    ) -> (r: Flush)
        requires
            max_queue > 0 || old(self).queue@.len() > 0,
        ensures
            final(self).same_target(*old(self)),
            final(self).closed == old(self).closed,
            exists|ts: Seq<char>, y: int, m: int, d: int| #[trigger]
                is_utc_text(ts, secs, y, m, d) && ({
                    let queue = enqueued(
                        texts(old(self).queue@),
                        line_of_record(old(self).service@, level@, msg@, ts, fields@),
                        max_queue as nat,
                    );
                    if queue.len() >= max_batch {
                        texts(final(self).queue@) == Seq::<Seq<char>>::empty() && flushes(
                            r,
                            queue,
                            old(self).base_url@,
                            old(self).api_key@,
                        )
                    } else {
                        texts(final(self).queue@) == queue && r is Nothing
                    }
                }),
    {
        let ts = format_utc(secs);
        let line = record_line(self.service.as_str(), level, msg, ts.as_str(), fields);
        let ghost before = texts(self.queue@);
        let ghost text = line@;
        if self.queue.len() >= max_queue {
            let _ = self.queue.remove(0);
            assert(texts(self.queue@) =~= before.drop_first());
        }
        let ghost kept = texts(self.queue@);
        self.queue.push(line);
        assert(texts(self.queue@) =~= kept.push(text));
        assert(texts(self.queue@) == enqueued(before, text, max_queue as nat));
        if self.queue.len() >= max_batch {
            self.flush()
        } else {
            Flush::Nothing
        }
    }

    /// Queues a record.
    pub fn log(&mut self, level: &str, msg: &str, secs: u64, max_queue: usize, max_batch: usize) -> (r:
        Flush)
        requires
            max_queue > 0 || old(self).queue@.len() > 0,
        ensures
            final(self).same_target(*old(self)),
            final(self).closed == old(self).closed,
            exists|ts: Seq<char>, y: int, m: int, d: int| #[trigger]
                is_utc_text(ts, secs, y, m, d) && ({
                    let queue = enqueued(
                        texts(old(self).queue@),
                        line_of_record(old(self).service@, level@, msg@, ts, Seq::empty()),
                        max_queue as nat,
                    );
                    if queue.len() >= max_batch {
                        texts(final(self).queue@) == Seq::<Seq<char>>::empty() && flushes(
                            r,
                            queue,
                            old(self).base_url@,
                            old(self).api_key@,
                        )
                    } else {
                        texts(final(self).queue@) == queue && r is Nothing
                    }
                }),
    {
        let none: Vec<(String, Json)> = Vec::new();
        assert(none@ =~= Seq::<(String, Json)>::empty());
        self.log_kv(level, msg, none.as_slice(), secs, max_queue, max_batch)
    }

    /// Takes the batch out of the queue, and tells what is to be done with it.
    pub fn flush(&mut self) -> (r: Flush)
        ensures
            final(self).same_target(*old(self)),
            final(self).closed == old(self).closed,
            texts(final(self).queue@) == Seq::<Seq<char>>::empty(),
            flushes(r, texts(old(self).queue@), old(self).base_url@, old(self).api_key@),
    {
        let batch = clone_strings(self.queue.as_slice());
        self.queue = Vec::new();
        assert(texts(self.queue@) =~= Seq::<Seq<char>>::empty());
        if batch.len() == 0 {
            return Flush::Nothing;
        }
        if self.api_key.as_str().is_empty() {
            return Flush::Report(batch, "CENTRAL_LOGS_API_KEY not set".to_owned());
        }
        match find_target(self.base_url.as_str()) {
            Err(m) => Flush::Report(batch, m),
            Ok(t) => {
                let body = join_with(batch.as_slice(), "\n");
                let text = write_request(
                    t.0.as_str(),
                    t.1,
                    self.api_key.as_str(),
                    body.as_str(),
                );
                Flush::Send(batch, Request { host: t.0, port: t.1, text })
            },
        }
    }

    /// Closes the client, and tells what is to be done with the last batch.
    pub fn close(&mut self) -> (r: Flush)
        ensures
            final(self).same_target(*old(self)),
            final(self).closed,
            texts(final(self).queue@) == Seq::<Seq<char>>::empty(),
            flushes(r, texts(old(self).queue@), old(self).base_url@, old(self).api_key@),
    {
        self.closed = true;
        self.flush()
    }
}

// ---------------------------------------------------------------------
// Answers
// ---------------------------------------------------------------------
/// The first word of a text, and what follows it.
pub open spec fn next_word(s: Seq<char>) -> (Seq<char>, Seq<char>) {
    let t = trim_start_by(s, space_class());
    let k = find_by(t, space_class());
    (t.subrange(0, k), t.subrange(k, t.len() as int))
}

/// The status of an answer: its second word.
pub open spec fn status_in(response: Seq<char>) -> Seq<char> {
    let w = next_word(next_word(response).1).0;
    if w.len() == 0 {
        "000"@
    } else {
        w
    }
}

fn take_word(s: &str) -> (r: (String, String))
    ensures
        (r.0@, r.1@) == next_word(s@),
{
    let t = trimmed_start(s);
    let v = chars_of(t.as_str());
    let n: usize = v.len();
    let mut k: usize = 0;
    while k < n && !char_is_space(v[k])
        invariant
            n == v@.len(),
            k <= n,
            forall|i: int| 0 <= i < k ==> !is_space(#[trigger] v@[i]),
        decreases n - k,
    {
        k = k + 1;
    }
    proof {
        lemma_find_by(v@, space_class(), k as int);
    }
    (string_between(v.as_slice(), 0, k), string_between(v.as_slice(), k, n))
}

/// Whether an answer says that the batch was stored, else what is reported, with the
/// start of the answer.
pub fn read_answer(response: &str) -> (r: Result<(), String>)
    ensures
        if status_in(response@) == "200"@ {
            r is Ok
        } else {
            r matches Err(m) && m@ == "HTTP "@ + status_in(response@) + ": "@ + fitting_prefix(
                response@,
                200,
            )
        },
{
    let first = take_word(response);
    let second = take_word(first.1.as_str());
    let status = if second.0.as_str().is_empty() {
        "000".to_owned()
    } else {
        second.0
    };
    if same(status.as_str(), "200") {
        return Ok(());
    }
    let (start, _cut) = cut_to_bytes(response, 200);
    let mut s = cat3("HTTP ", status.as_str(), ": ");
    s.append(start.as_str());
    Err(s)
}

// ---------------------------------------------------------------------
// Laws
// ---------------------------------------------------------------------
/// However long an outage lasts, the queue stays within its limit, and the newest
/// line is in it.
pub proof fn law_the_queue_is_bounded(queue: Seq<Seq<char>>, line: Seq<char>, max: nat)
    requires
        max > 0,
        queue.len() <= max,
    ensures
        enqueued(queue, line, max).len() <= max,
        enqueued(queue, line, max).last() == line,
{
}

/// Nothing is lost without a word: a batch that is taken out of the queue is sent or
/// reported, whole and in its order.
pub proof fn law_every_line_is_sent_or_reported(
    f: Flush,
    batch: Seq<Seq<char>>,
    url: Seq<char>,
    key: Seq<char>,
)
    requires
        flushes(f, batch, url, key),
        batch.len() > 0,
    ensures
        match f {
            Flush::Nothing => false,
            Flush::Report(lines, _) => texts(lines@) == batch,
            Flush::Send(lines, _) => texts(lines@) == batch,
        },
{
}

// ---------------------------------------------------------------------
// Reading strings back
// ---------------------------------------------------------------------
/// The value of a hexadecimal digit.
pub open spec fn hex_value(c: char) -> int {
    if is_digit(c) {
        c as u32 - '0' as u32
    } else if 'a' <= c && c <= 'f' {
        c as u32 - 'a' as u32 + 10
    } else {
        c as u32 - 'A' as u32 + 10
    }
}

/// The character behind a backslash stands for this one, if for any; `u` and four digits
/// are read otherwise.
pub open spec fn short_escape(c: char) -> Option<char> {
    if c == '"' || c == '\\' || c == '/' {
        Some(c)
    } else if c == 'b' {
        Some('\u{8}')
    } else if c == 'f' {
        Some('\u{c}')
    } else if c == 'n' {
        Some('\n')
    } else if c == 'r' {
        Some('\r')
    } else if c == 't' {
        Some('\t')
    } else {
        None
    }
}

/// Puts a character before a text that could be read.
pub open spec fn read_before(c: char, rest: Option<Seq<char>>) -> Option<Seq<char>> {
    match rest {
        Some(t) => Some(seq![c] + t),
        None => None,
    }
}

/// What the characters between the quotes of a JSON string stand for, where they hold no
/// pair of surrogates. A bare quote or control character is refused.
pub open spec fn unescaped(t: Seq<char>) -> Option<Seq<char>>
    decreases t.len(),
{
    if t.len() == 0 {
        Some(Seq::empty())
    } else if t[0] == '"' || (t[0] as u32) < 0x20 {
        None
    } else if t[0] != '\\' {
        read_before(t[0], unescaped(t.subrange(1, t.len() as int)))
    } else if t.len() >= 6 && t[1] == 'u' {
        let n = 4096 * hex_value(t[2]) + 256 * hex_value(t[3]) + 16 * hex_value(t[4]) + hex_value(
            t[5],
        );
        if all_hex(t.subrange(2, 6)) && n < 0xd800 {
            read_before(n as u32 as char, unescaped(t.subrange(6, t.len() as int)))
        } else {
            None
        }
    } else if t.len() >= 2 && short_escape(t[1]) is Some {
        read_before(short_escape(t[1])->0, unescaped(t.subrange(2, t.len() as int)))
    } else {
        None
    }
}

proof fn lemma_escaped_first(s: Seq<char>)
    requires
        s.len() > 0,
    ensures
        escaped_chars(s) == escaped_char(s[0]) + escaped_chars(s.drop_first()),
    decreases s.len(),
{
    if s.len() == 1 {
        assert(s.drop_last() =~= s.drop_first());
        assert(escaped_chars(s.drop_last()) =~= Seq::<char>::empty());
        assert(escaped_chars(s) =~= escaped_char(s[0]) + escaped_chars(s.drop_first()));
    } else {
        let d = s.drop_last();
        lemma_escaped_first(d);
        assert(d.drop_first() =~= s.drop_first().drop_last());
        assert(d[0] == s[0]);
        assert(s.drop_first().last() == s.last());
        assert(escaped_chars(s) =~= escaped_char(s[0]) + escaped_chars(s.drop_first()));
    }
}

proof fn lemma_escape_read(c: char, rest: Seq<char>)
    ensures
        unescaped(escaped_char(c) + rest) == read_before(c, unescaped(rest)),
{
    let e = escaped_char(c);
    let t = e + rest;
    reveal_strlit("\\\"");
    reveal_strlit("\\\\");
    reveal_strlit("\\n");
    reveal_strlit("\\r");
    reveal_strlit("\\t");
    reveal_strlit("\\u00");
    if c == '"' || c == '\\' || c == '\n' || c == '\r' || c == '\t' {
        assert(t[0] == '\\' && t[1] == e[1]);
        assert(t.subrange(2, t.len() as int) =~= rest);
    } else if (c as u32) < 0x20 {
        let hi = c as u32 as int / 16;
        let lo = c as u32 as int % 16;
        assert(e.len() == 6);
        assert(t[0] == '\\' && t[1] == 'u' && t[2] == '0' && t[3] == '0');
        assert(t[4] == hex_digit(hi) && t[5] == hex_digit(lo));
        assert(hex_value(hex_digit(hi)) == hi && hex_value(hex_digit(lo)) == lo);
        let four = t.subrange(2, 6);
        assert(is_hex(four[0]) && is_hex(four[1]) && is_hex(four[2]) && is_hex(four[3]));
        assert(all_hex(four));
        let n = 4096 * hex_value(t[2]) + 256 * hex_value(t[3]) + 16 * hex_value(t[4])
            + hex_value(t[5]);
        assert(n == c as u32);
        assert(n as u32 as char == c);
        assert(t.subrange(6, t.len() as int) =~= rest);
    } else {
        assert(t[0] == c);
        assert(t.subrange(1, t.len() as int) =~= rest);
    }
}

/// A JSON string reads back as the text that was written, and holds no control character
/// as it is.
pub proof fn law_json_strings_read_back(s: Seq<char>)
    ensures
        escaped(s) == seq!['"'] + escaped_chars(s) + seq!['"'],
        unescaped(escaped_chars(s)) == Some(s),
        forall|i: int| 0 <= i < escaped(s).len() ==> (#[trigger] escaped(s)[i]) as u32 >= 0x20,
    decreases s.len(),
{
    if s.len() == 0 {
        assert(s =~= Seq::<char>::empty());
    } else {
        let rest = s.drop_first();
        law_json_strings_read_back(rest);
        lemma_escaped_first(s);
        lemma_escape_read(s[0], escaped_chars(rest));
        assert(seq![s[0]] + rest =~= s);
        let e = escaped_char(s[0]);
        assert forall|i: int| 0 <= i < e.len() implies (#[trigger] e[i]) as u32 >= 0x20 by {
            reveal_strlit("\\\"");
            reveal_strlit("\\\\");
            reveal_strlit("\\n");
            reveal_strlit("\\r");
            reveal_strlit("\\t");
            reveal_strlit("\\u00");
        }
        assert forall|i: int| 0 <= i < escaped(s).len() implies (#[trigger] escaped(s)[i]) as u32
            >= 0x20 by {
            let all = escaped(s);
            if 0 < i < all.len() - 1 {
                if i - 1 < e.len() {
                    assert(all[i] == e[i - 1]);
                } else {
                    assert(all[i] == escaped_chars(rest)[i - 1 - e.len()]);
                    assert(escaped(rest)[i - e.len()] == all[i]);
                }
            }
        }
    }
}

// ---------------------------------------------------------------------
// Where lines are sent
// ---------------------------------------------------------------------
/// A server is reached at the port of its address, and at the usual one where there is none.
pub proof fn law_addresses_of_servers(host: Seq<char>, port: u16)
    requires
        forall|i: int| 0 <= i < host.len() ==> #[trigger] host[i] != ':',
    ensures
        target_in("http://"@ + host) == Ok::<(Seq<char>, u16), Seq<char>>((host, 80)),
        target_in("http://"@ + (host + seq![':'] + dec(port as nat))) == Ok::<
            (Seq<char>, u16),
            Seq<char>,
        >((host, port)),
        target_in("https://"@ + host) is Err,
{
    reveal_strlit("http://");
    reveal_strlit("https://");
    law_naturals_read_back(port as nat);
    let d = dec(port as nat);
    let a = "http://"@ + host;
    let s = host + seq![':'] + d;
    let b = "http://"@ + s;
    let c = "https://"@ + host;
    let n = host.len() as int;
    assert(a.subrange(0, 7) =~= "http://"@);
    assert(a.subrange(7, a.len() as int) =~= host);
    assert(b.subrange(0, 7) =~= "http://"@);
    assert(b.subrange(7, b.len() as int) =~= s);
    assert forall|i: int| 0 <= i < n implies !just(':')(#[trigger] host[i]) by {
        assert(host[i] != ':');
    }
    lemma_find_by(host, just(':'), n);
    assert forall|i: int| 0 <= i < n implies !just(':')(#[trigger] s[i]) by {
        assert(s[i] == host[i]);
    }
    assert(s[n] == ':');
    lemma_find_by(s, just(':'), n);
    assert(s.subrange(0, n) =~= host);
    assert(s.subrange(n + 1, s.len() as int) =~= d);
    assert(c.subrange(0, 7)[4] == 's');
    assert("http://"@[4] == ':');
}

/// A request is for the logs, under the key, with all lines and their length.
pub proof fn law_requests_hold_the_lines(
    host: Seq<char>,
    port: u16,
    key: Seq<char>,
    body: Seq<char>,
)
    ensures
        begins(request_text(host, port, key, body), "POST /v1/logs HTTP/1.1\r\nHost: "@ + host),
        ends(request_text(host, port, key, body), "\r\n\r\n"@ + body),
        has_text(request_text(host, port, key, body), "Authorization: Bearer "@ + key),
        has_text(
            request_text(host, port, key, body),
            "Content-Length: "@ + dec(encode_utf8(body).len()),
        ),
{
    let r = request_text(host, port, key, body);
    let a = "POST /v1/logs HTTP/1.1\r\nHost: "@ + host;
    let p = ":"@ + dec(port as nat);
    let k = "\r\nAuthorization: Bearer "@ + key;
    let t = "\r\nContent-Type: application/x-ndjson\r\nContent-Length: "@;
    let n = dec(encode_utf8(body).len());
    let e = "\r\nConnection: close\r\n\r\n"@;
    assert(r =~= a + p + k + t + n + e + body);
    assert(r.subrange(0, a.len() as int) =~= a);
    reveal_strlit("\r\nConnection: close\r\n\r\n");
    reveal_strlit("\r\n\r\n");
    reveal_strlit("\r\nAuthorization: Bearer ");
    reveal_strlit("Authorization: Bearer ");
    reveal_strlit("\r\nContent-Type: application/x-ndjson\r\nContent-Length: ");
    reveal_strlit("Content-Length: ");
    let tail = "\r\n\r\n"@ + body;
    assert(r.subrange(r.len() - tail.len(), r.len() as int) =~= tail);
    let x = (a.len() + p.len() + 2) as int;
    let auth = "Authorization: Bearer "@ + key;
    assert(r.subrange(x, x + auth.len()) =~= auth);
    assert(occurs_at(r, auth, x));
    let len = "Content-Length: "@ + n;
    let y = (a.len() + p.len() + k.len() + t.len()) as int - "Content-Length: "@.len() as int;
    assert(r.subrange(y, y + len.len()) =~= len);
    assert(occurs_at(r, len, y));
}

/// A line of a record holds the service, the level, the message and the time that it was
/// given.
pub proof fn law_lines_hold_the_record(
    service: Seq<char>,
    level: Seq<char>,
    msg: Seq<char>,
    ts: Seq<char>,
)
    ensures
        line_of_record(service, level, msg, ts, Seq::empty()) == "{\"service\":"@ + escaped(service)
            + ",\"level\":\""@ + level + "\",\"msg\":"@ + escaped(msg) + ",\"ts\":\""@ + ts
            + "\"}"@,
{
    reveal_strlit("\"");
    reveal_strlit("}");
    reveal_strlit("\"}");
    assert("\"}"@ =~= "\""@ + "}"@);
    assert(line_of_record(service, level, msg, ts, Seq::empty()) =~= "{\"service\":"@ + escaped(
        service,
    ) + ",\"level\":\""@ + level + "\",\"msg\":"@ + escaped(msg) + ",\"ts\":\""@ + ts
        + "\"}"@);
}

} // verus!
