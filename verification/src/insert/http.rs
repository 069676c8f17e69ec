//! The HTTP insert endpoints: what a request holds, how its records fare, and what
//! is answered.
use vstd::prelude::*;
use vstd::slice::slice_to_vec;
use vstd::string::*;
use vstd::utf8::{decode_utf8, encode_utf8, valid_utf8};

use crate::{Protocol, RawRecord};
use crate::insert::otlp::{
    Wire, added, decode_logs, decode_metrics, decode_traces, detect_wire,
    json_body_looks_like_otlp, log_envelopes, logs_in, logs_to_records, metric_envelopes,
    metrics_in, metrics_to_records, names_a_list, trace_envelopes, traces_in, traces_to_records,
};
use crate::json::{
    Json, JsonMap, JsonV, json_read, json_text, jsons_view, lemma_json_view, read_json,
    write_json,
};
use crate::text::{
    contains_text, dec, has_text, lines, lines_of, lower, push_bytes, space_class, starts_with,
    texts, to_lower, trim, trim_start_by, trimmed, trimmed_start, utf8_text,
};
use crate::time::Timestamp;

verus! {

// ---------------------------------------------------------------------
// Plain bodies
// ---------------------------------------------------------------------
/// Whether a record holds a payload as it came over HTTP.
pub open spec fn holds(rec: RawRecord, now: Timestamp, peer: Seq<char>, raw: Seq<u8>) -> bool {
    &&& rec.receive_ts == now
    &&& rec.source_addr@ == peer
    &&& rec.protocol == Protocol::HttpJson
    &&& rec.raw@ == raw
}

/// Whether records hold payloads, one each.
pub open spec fn hold(
    recs: Seq<RawRecord>,
    now: Timestamp,
    peer: Seq<char>,
    raws: Seq<Seq<u8>>,
) -> bool {
    recs.len() == raws.len() && forall|i: int|
        0 <= i < recs.len() ==> holds(#[trigger] recs[i], now, peer, raws[i])
}

fn plain_record(raw: Vec<u8>, now: Timestamp, peer: &str) -> (r: RawRecord)
    ensures
        holds(r, now, peer@, raw@),
{
    RawRecord { receive_ts: now, source_addr: peer.to_owned(), protocol: Protocol::HttpJson, raw }
}

fn bytes_of(s: &str) -> (r: Vec<u8>)
    ensures
        r@ == encode_utf8(s@),
{
    let mut out: Vec<u8> = Vec::new();
    push_bytes(&mut out, s);
    out
}

/// The payload of a value: its JSON, and nothing for null.
pub open spec fn value_payload(v: JsonV) -> Option<Seq<u8>> {
    if v is Null {
        None
    } else {
        Some(encode_utf8(json_text(v)))
    }
}

/// The record of a value, unless it is null.
pub fn record_from_json(v: &Json, now: Timestamp, peer: &str) -> (r: Option<RawRecord>)
    ensures
        match r {
            Some(rec) => value_payload(v@) matches Some(raw) && holds(rec, now, peer@, raw),
            None => value_payload(v@) is None,
        },
{
    match v {
        Json::Null => None,
        _ => {
            let text = write_json(v);
            Some(plain_record(bytes_of(text.as_str()), now, peer))
        },
    }
}

/// Payloads, with one more where there is one.
pub open spec fn one_more(done: Seq<Seq<u8>>, raw: Option<Seq<u8>>) -> Seq<Seq<u8>> {
    match raw {
        Some(b) => done.push(b),
        None => done,
    }
}

/// The payloads of the items of a list.
pub open spec fn item_payloads(items: Seq<JsonV>) -> Seq<Seq<u8>>
    decreases items.len(),
{
    if items.len() == 0 {
        Seq::empty()
    } else {
        one_more(item_payloads(items.drop_last()), value_payload(items.last()))
    }
}

/// The payload of a line: the value that it spells, or the line itself; nothing
/// where it is blank or spells null.
pub open spec fn line_payload(line: Seq<char>) -> Option<Seq<u8>> {
    let t = trim(line);
    if t.len() == 0 {
        None
    } else {
        match json_read(t) {
            Ok(v) => value_payload(v),
            Err(_) => Some(encode_utf8(t)),
        }
    }
}

/// The payloads of lines.
pub open spec fn line_payloads(all: Seq<Seq<char>>) -> Seq<Seq<u8>>
    decreases all.len(),
{
    if all.len() == 0 {
        Seq::empty()
    } else {
        one_more(line_payloads(all.drop_last()), line_payload(all.last()))
    }
}

/// The payloads of a text: those of a list where it begins like one, that of a value where
/// it begins like an object, else those of its lines.
pub open spec fn text_payloads(s: Seq<char>) -> Seq<Seq<u8>> {
    let t = trim_start_by(s, space_class());
    if t.len() > 0 && t[0] == '[' {
        match json_read(t) {
            Ok(JsonV::Arr(items)) => item_payloads(items),
            _ => line_payloads(lines(s)),
        }
    } else if t.len() > 0 && t[0] == '{' {
        match json_read(t) {
            Ok(v) => match value_payload(v) {
                Some(raw) => seq![raw],
                None => line_payloads(lines(s)),
            },
            Err(_) => line_payloads(lines(s)),
        }
    } else {
        line_payloads(lines(s))
    }
}

/// The payloads of a body. What is no text is one payload.
pub open spec fn body_payloads(body: Seq<u8>) -> Seq<Seq<u8>> {
    if valid_utf8(body) {
        text_payloads(decode_utf8(body))
    } else {
        seq![body]
    }
}

fn item_records(items: &Vec<Json>, now: Timestamp, peer: &str) -> (out: Vec<RawRecord>)
    ensures
        hold(out@, now, peer@, item_payloads(jsons_view(items@))),
{
    let mut out: Vec<RawRecord> = Vec::new();
    let ghost all = jsons_view(items@);
    for i in 0..items.len()
        invariant
            all == jsons_view(items@),
            hold(out@, now, peer@, item_payloads(all.take(i as int))),
    {
        assert(all.take(i + 1).drop_last() == all.take(i as int));
        if let Some(rec) = record_from_json(&items[i], now, peer) {
            out.push(rec);
        }
    }
    assert(all.take(all.len() as int) == all);
    out
}

fn line_record(line: &str, now: Timestamp, peer: &str) -> (r: Option<RawRecord>)
    ensures
        match r {
            Some(rec) => line_payload(line@) matches Some(raw) && holds(rec, now, peer@, raw),
            None => line_payload(line@) is None,
        },
{
    let t = trimmed(line);
    if t.as_str().is_empty() {
        return None;
    }
    match read_json(t.as_str()) {
        Ok(v) => record_from_json(&v, now, peer),
        Err(_) => Some(plain_record(bytes_of(t.as_str()), now, peer)),
    }
}

fn line_records(s: &str, now: Timestamp, peer: &str) -> (out: Vec<RawRecord>)
    ensures
        hold(out@, now, peer@, line_payloads(lines(s@))),
{
    let ls = lines_of(s);
    let n: usize = ls.len();
    let mut out: Vec<RawRecord> = Vec::new();
    let ghost all = texts(ls@);
    for i in 0..n
        invariant
            n == ls@.len(),
            all == texts(ls@),
            hold(out@, now, peer@, line_payloads(all.take(i as int))),
    {
        assert(all.take(i + 1).drop_last() == all.take(i as int));
        if let Some(rec) = line_record(ls[i].as_str(), now, peer) {
            out.push(rec);
        }
    }
    assert(all.take(all.len() as int) == all);
    out
}

fn text_records(s: &str, now: Timestamp, peer: &str) -> (out: Vec<RawRecord>)
    ensures
        hold(out@, now, peer@, text_payloads(s@)),
{
    let t = trimmed_start(s);
    proof {
        reveal_strlit("[");
        reveal_strlit("{");
        assert("["@ =~= seq!['[']);
        assert("{"@ =~= seq!['{']);
        if t@.len() > 0 {
            assert(t@.subrange(0, 1) =~= seq![t@[0]]);
            assert(seq![t@[0]][0] == t@[0] && seq!['['][0] == '[' && seq!['{'][0] == '{');
        }
    }
    if starts_with(t.as_str(), "[") {
        if let Ok(v) = read_json(t.as_str()) {
            if let Some(items) = v.as_array() {
                return item_records(items, now, peer);
            }
        }
    } else if starts_with(t.as_str(), "{") {
        if let Ok(v) = read_json(t.as_str()) {
            if let Some(rec) = record_from_json(&v, now, peer) {
                let mut one: Vec<RawRecord> = Vec::new();
                one.push(rec);
                return one;
            }
        }
    }
    line_records(s, now, peer)
}

/// Takes the records out of a body: a list, an object, or lines.
pub fn parse_body(body: &[u8], now: Timestamp, peer: &str) -> (out: Vec<RawRecord>)
    ensures
        hold(out@, now, peer@, body_payloads(body@)),
{
    match utf8_text(body) {
        Some(s) => text_records(s.as_str(), now, peer),
        None => {
            let mut one: Vec<RawRecord> = Vec::new();
            one.push(plain_record(slice_to_vec(body), now, peer));
            one
        },
    }
}

// ---------------------------------------------------------------------
// How records fare
// ---------------------------------------------------------------------
/// How it went to store a record.
pub enum Insertion {
    Stored,
    /// Nothing can be stored any more.
    Closed,
    Failed(String),
    TimedOut,
}

/// How the records of a request fared.
#[derive(Debug)]
pub struct InsertResponse {
    pub accepted: usize,
    pub rejected: usize,
    pub errors: Vec<String>,
}

/// What an insertion that failed is reported as.
pub open spec fn insertion_error(x: Insertion) -> Option<Seq<char>> {
    match x {
        Insertion::Stored => None,
        Insertion::Closed => Some("wal channel closed"@),
        Insertion::Failed(m) => Some(m@),
        Insertion::TimedOut => Some("backpressure timeout"@),
    }
}

/// How many of several insertions stored a record.
pub open spec fn stored_count(xs: Seq<Insertion>) -> nat
    decreases xs.len(),
{
    if xs.len() == 0 {
        0
    } else {
        stored_count(xs.drop_last()) + if xs.last() is Stored {
            1nat
        } else {
            0
        }
    }
}

/// What is reported of several insertions.
pub open spec fn insertion_errors(xs: Seq<Insertion>) -> Seq<Seq<char>>
    decreases xs.len(),
{
    if xs.len() == 0 {
        Seq::empty()
    } else {
        match insertion_error(xs.last()) {
            Some(m) => insertion_errors(xs.drop_last()).push(m),
            None => insertion_errors(xs.drop_last()),
        }
    }
}

/// Whether a response sums several insertions up.
pub open spec fn is_tally(r: InsertResponse, xs: Seq<Insertion>) -> bool {
    &&& r.accepted == stored_count(xs)
    &&& r.accepted + r.rejected == xs.len()
    &&& texts(r.errors@) == insertion_errors(xs)
}

/// The status of the answer to a client.
pub open spec fn plain_status(r: InsertResponse) -> u16 {
    if r.accepted > 0 {
        200
    } else {
        400
    }
}

/// The status of the answer to a client of OpenTelemetry.
pub open spec fn telemetry_status(r: InsertResponse) -> u16 {
    if r.accepted == 0 && r.rejected > 0 {
        503
    } else {
        200
    }
}

proof fn lemma_stored_exists(xs: Seq<Insertion>)
    ensures
        insertion_errors(xs).len() + stored_count(xs) == xs.len(),
        stored_count(xs) > 0 <==> exists|i: int| 0 <= i < xs.len() && (#[trigger] xs[i]) is Stored,
    decreases xs.len(),
{
    if xs.len() > 0 {
        let rest = xs.drop_last();
        lemma_stored_exists(rest);
        if stored_count(rest) > 0 {
            let i = choose|i: int| 0 <= i < rest.len() && (#[trigger] rest[i]) is Stored;
            assert(xs[i] is Stored);
        }
        if xs.last() is Stored {
            assert(xs[xs.len() - 1] is Stored);
        }
        if stored_count(xs) == 0 {
            assert forall|i: int| 0 <= i < xs.len() implies !((#[trigger] xs[i]) is Stored) by {
                if i < rest.len() {
                    assert(rest[i] == xs[i]);
                }
            }
        }
    }
}

/// A client is told of success only where something was stored, and every record is
/// counted: as stored, or as rejected with a reason.
pub proof fn law_success_means_stored(r: InsertResponse, xs: Seq<Insertion>)
    requires
        is_tally(r, xs),
    ensures
        plain_status(r) == 200 <==> exists|i: int| 0 <= i < xs.len() && (#[trigger] xs[i]) is Stored,
        xs.len() > 0 ==> (telemetry_status(r) == 200 <==> exists|i: int|
            0 <= i < xs.len() && (#[trigger] xs[i]) is Stored),
        r.accepted + r.rejected == xs.len(),
        r.errors@.len() == r.rejected,
{
    lemma_stored_exists(xs);
    assert(texts(r.errors@).len() == r.errors@.len());
}

impl InsertResponse {
    /// Every rejection is reported.
    pub open spec fn wf(&self) -> bool {
        self.errors@.len() == self.rejected
    }

    /// No record yet.
    pub fn new() -> (r: InsertResponse)
        ensures
            r.wf(),
            r.accepted == 0,
            r.rejected == 0,
            texts(r.errors@) == Seq::<Seq<char>>::empty(),
            is_tally(r, Seq::empty()),
    {
        let r = InsertResponse { accepted: 0, rejected: 0, errors: Vec::new() };
        assert(texts(r.errors@) =~= Seq::<Seq<char>>::empty());
        r
    }

    /// Counts an insertion, and tells whether the next record is to be tried.
    pub fn note(&mut self, x: Insertion) -> (go_on: bool)
        requires
            old(self).wf(),
            old(self).accepted < usize::MAX,
            old(self).rejected < usize::MAX,
        ensures
            final(self).wf(),
            go_on == !(x is Closed),
            match insertion_error(x) {
                None => final(self).accepted == old(self).accepted + 1 && final(self).rejected
                    == old(self).rejected && texts(final(self).errors@) == texts(
                    old(self).errors@,
                ),
                Some(m) => final(self).accepted == old(self).accepted && final(self).rejected
                    == old(self).rejected + 1 && texts(final(self).errors@) == texts(
                    old(self).errors@,
                ).push(m),
            },
            forall|xs: Seq<Insertion>| #[trigger]
                is_tally(*old(self), xs) ==> is_tally(*final(self), xs.push(x)),
    {
        assert forall|xs: Seq<Insertion>| #[trigger] is_tally(*old(self), xs) implies xs.push(
            x,
        ).drop_last() == xs by {
            assert(xs.push(x).drop_last() =~= xs);
        }
        let ghost before = self.errors@;
        let (message, go_on) = match x {
            Insertion::Stored => {
                self.accepted = self.accepted + 1;
                return true;
            },
            Insertion::Closed => ("wal channel closed".to_owned(), false),
            Insertion::Failed(m) => (m, true),
            Insertion::TimedOut => ("backpressure timeout".to_owned(), true),
        };
        self.rejected = self.rejected + 1;
        let ghost m = message@;
        self.errors.push(message);
        assert(texts(self.errors@) =~= texts(before).push(m));
        go_on
    }

    /// The status of the answer: bad where nothing was accepted.
    pub fn status(&self) -> (r: u16)
        ensures
            r == plain_status(*self),
    {
        if self.accepted > 0 {
            200
        } else {
            400
        }
    }

    /// The status of the answer to a request of OpenTelemetry. Where everything was
    /// rejected the client is to try again.
    pub fn otlp_status(&self) -> (r: u16)
        ensures
            r == telemetry_status(*self),
    {
        if self.accepted == 0 && self.rejected > 0 {
            503
        } else {
            200
        }
    }

    /// The body of the answer.
    pub fn to_json(&self) -> (r: Json)
        ensures
            r@ == answer_json(self.accepted as nat, self.rejected as nat, texts(self.errors@)),
    {
        broadcast use lemma_json_view;

        let mut list: Vec<Json> = Vec::new();
        for i in 0..self.errors.len()
            invariant
                list@.len() == i,
                forall|k: int|
                    0 <= k < i ==> (#[trigger] list@[k])@ == JsonV::Str(self.errors@[k]@),
        {
            list.push(Json::Str(self.errors[i].clone()));
        }
        assert(jsons_view(list@) =~= Seq::new(
            texts(self.errors@).len(),
            |i: int| JsonV::Str(texts(self.errors@)[i]),
        ));
        let mut m = JsonMap::new();
        m.insert("accepted", Json::from_nat(self.accepted as u64));
        m.insert("rejected", Json::from_nat(self.rejected as u64));
        m.insert("errors", Json::Arr(list));
        Json::Obj(m)
    }
}

/// The body of an answer.
pub open spec fn answer_json(accepted: nat, rejected: nat, errors: Seq<Seq<char>>) -> JsonV {
    JsonV::Obj(
        Map::<Seq<char>, JsonV>::empty().insert("accepted"@, JsonV::Num(dec(accepted))).insert(
            "rejected"@,
            JsonV::Num(dec(rejected)),
        ).insert("errors"@, JsonV::Arr(Seq::new(errors.len(), |i: int| JsonV::Str(errors[i])))),
    )
}

/// The body of the answer while nothing is taken.
pub fn paused_body() -> (r: Json)
    ensures
        r@ == answer_json(
            0,
            0,
            seq!["wal cap reached (retention.wal_max_bytes); ingest paused"@],
        ),
{
    let mut errors: Vec<String> = Vec::new();
    errors.push("wal cap reached (retention.wal_max_bytes); ingest paused".to_owned());
    assert(texts(errors@) =~= seq!["wal cap reached (retention.wal_max_bytes); ingest paused"@]);
    let r = InsertResponse { accepted: 0, rejected: 0, errors };
    r.to_json()
}

// ---------------------------------------------------------------------
// Requests
// ---------------------------------------------------------------------
/// Whether a content type is that of a Protobuf message.
pub fn is_otlp_protobuf(ct: &str) -> (r: bool)
    ensures
        r == has_text(lower(ct@), "protobuf"@),
{
    let t = to_lower(ct);
    contains_text(t.as_str(), "protobuf")
}

/// The encoding in which a request for logs is one of OpenTelemetry, if it is one.
pub open spec fn logs_wire(ct: Seq<char>, body: Seq<u8>) -> Option<Wire> {
    if has_text(lower(ct), "protobuf"@) {
        Some(Wire::Protobuf)
    } else if has_text(lower(ct), "json"@) && valid_utf8(body) && names_a_list(
        decode_utf8(body),
    ) {
        Some(Wire::Json)
    } else {
        None
    }
}

/// The encoding in which a request for logs is one of OpenTelemetry, if it is one.
pub fn otlp_wire(ct: &str, body: &[u8]) -> (r: Option<Wire>)
    ensures
        r == logs_wire(ct@, body@),
{
    if is_otlp_protobuf(ct) {
        return Some(Wire::Protobuf);
    }
    let t = to_lower(ct);
    if contains_text(t.as_str(), "json") && json_body_looks_like_otlp(body) {
        Some(Wire::Json)
    } else {
        None
    }
}

/// What is to be done with a request.
pub enum InsertStep {
    /// Answer that nothing is taken.
    Paused,
    /// Store records, and report how they fared.
    Plain(Vec<RawRecord>),
    /// Answer an OpenTelemetry client with a status.
    Answer(Wire, u16),
    /// Store records, and answer an OpenTelemetry client.
    Otlp(Wire, Vec<RawRecord>),
}

/// Decides what is to be done with a request for logs.
pub fn logs_request(paused: bool, ct: &str, body: &[u8], now: Timestamp, peer: &str) -> (r:
    InsertStep)
    ensures
        if paused {
            r is Paused
        } else {
            match logs_wire(ct@, body@) {
                None => r matches InsertStep::Plain(recs) && hold(
                    recs@,
                    now,
                    peer@,
                    body_payloads(body@),
                ),
                Some(wire) => match logs_in(wire, body@) {
                    Err(_) => r == InsertStep::Answer(wire, 400),
                    Ok(req) => r matches InsertStep::Otlp(w, recs) && w == wire && added(
                        Seq::empty(),
                        recs@,
                        now,
                        peer@,
                        Protocol::OtlpLog,
                        log_envelopes(req, now),
                    ),
                },
            }
        },
{
    if paused {
        return InsertStep::Paused;
    }
    match otlp_wire(ct, body) {
        None => InsertStep::Plain(parse_body(body, now, peer)),
        Some(wire) => match decode_logs(wire, body) {
            Err(_) => InsertStep::Answer(wire, 400),
            Ok(req) => InsertStep::Otlp(wire, logs_to_records(req.as_slice(), now, peer)),
        },
    }
}

/// Decides what is to be done with a request for spans.
pub fn traces_request(paused: bool, ct: &str, body: &[u8], now: Timestamp, peer: &str) -> (r:
    InsertStep)
    ensures
        ({
            let wire = if has_text(lower(ct@), "json"@) {
                Wire::Json
            } else {
                Wire::Protobuf
            };
            if paused {
                r == InsertStep::Answer(wire, 503)
            } else {
                match traces_in(wire, body@) {
                    Err(_) => r == InsertStep::Answer(wire, 400),
                    Ok(req) => r matches InsertStep::Otlp(w, recs) && w == wire && added(
                        Seq::empty(),
                        recs@,
                        now,
                        peer@,
                        Protocol::OtlpSpan,
                        trace_envelopes(req, now),
                    ),
                }
            }
        }),
{
    let wire = detect_wire(ct);
    if paused {
        return InsertStep::Answer(wire, 503);
    }
    match decode_traces(wire, body) {
        Err(_) => InsertStep::Answer(wire, 400),
        Ok(req) => InsertStep::Otlp(wire, traces_to_records(req.as_slice(), now, peer)),
    }
}

/// Decides what is to be done with a request for metrics.
pub fn metrics_request(paused: bool, ct: &str, body: &[u8], now: Timestamp, peer: &str) -> (r:
    InsertStep)
    ensures
        ({
            let wire = if has_text(lower(ct@), "json"@) {
                Wire::Json
            } else {
                Wire::Protobuf
            };
            if paused {
                r == InsertStep::Answer(wire, 503)
            } else {
                match metrics_in(wire, body@) {
                    Err(_) => r == InsertStep::Answer(wire, 400),
                    Ok(req) => r matches InsertStep::Otlp(w, recs) && w == wire && added(
                        Seq::empty(),
                        recs@,
                        now,
                        peer@,
                        Protocol::OtlpMetric,
                        metric_envelopes(req, now),
                    ),
                }
            }
        }),
{
    let wire = detect_wire(ct);
    if paused {
        return InsertStep::Answer(wire, 503);
    }
    match decode_metrics(wire, body) {
        Err(_) => InsertStep::Answer(wire, 400),
        Ok(req) => InsertStep::Otlp(wire, metrics_to_records(req.as_slice(), now, peer)),
    }
}

} // verus!
