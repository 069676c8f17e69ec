//! The HTTP event collector of Splunk: the reading of a batch of events, and the
//! mapping of an event to a record.
use vstd::prelude::*;
use vstd::slice::slice_subrange;
use vstd::string::*;

use crate::{Protocol, RawRecord};
use crate::config::SplunkHecIngestConfig;
use crate::float::{
    cast_to_i64, float_bits, is_negative, mantissa, nanos_of, nanos_part, number_bits, parts_of,
    read_float, read_number, to_i64,
};
use crate::insert::envelope::{Appended, carries, carry, sourceless_record};
use crate::json::{
    Json, JsonMap, JsonV, field, json_from_value, json_text, jsons_view, lemma_json_view, member,
    text_in, write_json,
};
use crate::text::{
    dec, just, lossy_text, opt_text, same, text_lossy, trim, trim_start_by, trim_start_char,
    trimmed,
};
use crate::time::{Timestamp, in_range, rfc3339_text, to_rfc3339};

verus! {

// ---------------------------------------------------------------------
// A batch
// ---------------------------------------------------------------------
/// Whether a byte is white space in ASCII.
pub open spec fn is_blank(b: u8) -> bool {
    b == 0x20 || b == 0x09 || b == 0x0a || b == 0x0c || b == 0x0d
}

fn byte_is_blank(b: u8) -> (r: bool)
    ensures
        r == is_blank(b),
{
    b == 0x20 || b == 0x09 || b == 0x0a || b == 0x0c || b == 0x0d
}

/// Bytes without the blanks at their end.
pub open spec fn unblanked_end(b: Seq<u8>) -> Seq<u8>
    decreases b.len(),
{
    if b.len() > 0 && is_blank(b.last()) {
        unblanked_end(b.drop_last())
    } else {
        b
    }
}

/// Bytes without the blanks at their ends.
pub open spec fn unblanked(b: Seq<u8>) -> Seq<u8>
    decreases b.len(),
{
    if b.len() > 0 && is_blank(b[0]) {
        unblanked(b.drop_first())
    } else {
        unblanked_end(b)
    }
}

fn trim_blanks(b: &[u8]) -> (r: &[u8])
    ensures
        r@ == unblanked(b@),
{
    let n: usize = b.len();
    let mut i: usize = 0;
    assert(b@.subrange(0, n as int) == b@);
    while i < n && byte_is_blank(b[i])
        invariant
            i <= n,
            n == b@.len(),
            unblanked(b@) == unblanked(b@.subrange(i as int, n as int)),
        decreases n - i,
    {
        assert(b@.subrange(i as int, n as int).drop_first() == b@.subrange(i + 1, n as int));
        i = i + 1;
    }
    let mut j: usize = n;
    while j > i && byte_is_blank(b[j - 1])
        invariant
            i <= j <= n,
            n == b@.len(),
            unblanked(b@) == unblanked_end(b@.subrange(i as int, j as int)),
        decreases j,
    {
        assert(b@.subrange(i as int, j as int).drop_last() == b@.subrange(i as int, j - 1));
        j = j - 1;
    }
    slice_subrange(b, i, j)
}

/// What stands next in a stream of values.
pub enum NextV {
    /// Nothing but white space.
    End,
    /// No value.
    Bad,
    /// A value, and where it ends.
    Value(JsonV, nat),
}

/// What stands at the start of bytes that hold values one after the other.
pub uninterp spec fn stream_next(bytes: Seq<u8>) -> NextV;

/// What a step in a stream gives.
pub open spec fn next_view(r: Option<Option<(Json, usize)>>) -> NextV {
    match r {
        None => NextV::End,
        Some(None) => NextV::Bad,
        Some(Some(p)) => NextV::Value(p.0@, p.1 as nat),
    }
}

/// The first step of `serde_json`'s `StreamDeserializer` over bytes, and its
/// `byte_offset` behind the value. Both depend on the bytes alone. A value takes at
/// least a byte, and ends within the bytes.
#[verifier::external_body]
fn read_next(bytes: &[u8]) -> (r: Option<Option<(Json, usize)>>)
    ensures
        next_view(r) == stream_next(bytes@),
        r matches Some(Some(p)) ==> 0 < p.1 <= bytes@.len(),
{
    let mut stream = serde_json::Deserializer::from_slice(bytes).into_iter();
    match stream.next()? {
        Ok(v) => Some(Some((json_from_value(v), stream.byte_offset()))),
        Err(_) => Some(None),
    }
}

/// The values of a stream behind those that were read; none where one is bad.
pub open spec fn stream_rest(b: Seq<u8>, done: Seq<JsonV>) -> Option<Seq<JsonV>>
    decreases b.len(),
{
    match stream_next(b) {
        NextV::End => Some(done),
        NextV::Bad => None,
        NextV::Value(v, n) => if 0 < n <= b.len() {
            stream_rest(b.subrange(n as int, b.len() as int), done.push(v))
        } else {
            None
        },
    }
}

/// The events of a body. A body that does not start with a value is one event, of
/// its text; one with something else between or behind its values is refused.
pub open spec fn events_of(body: Seq<u8>) -> Option<Seq<JsonV>> {
    let b = unblanked(body);
    if b.len() == 0 {
        None
    } else if stream_next(b) is Bad {
        Some(seq![JsonV::Str(lossy_text(b))])
    } else {
        stream_rest(b, Seq::empty())
    }
}

/// Reads the events of a body.
pub fn parse_events(body: &[u8]) -> (r: Option<Vec<Json>>)
    ensures
        match r {
            Some(v) => events_of(body@) == Some(jsons_view(v@)),
            None => events_of(body@) is None,
        },
{
    let b = trim_blanks(body);
    let n: usize = b.len();
    if n == 0 {
        return None;
    }
    let mut out: Vec<Json> = Vec::new();
    let mut i: usize = 0;
    assert(b@.subrange(0, n as int) == b@);
    assert(jsons_view(out@) == Seq::<JsonV>::empty());
    loop
        invariant
            n == b@.len(),
            i <= n,
            n > 0,
            b@ == unblanked(body@),
            i == 0 <==> out@.len() == 0,
            i == 0 ==> b@.subrange(0, n as int) == b@,
            i > 0 ==> !(stream_next(b@) is Bad),
            stream_rest(b@.subrange(i as int, n as int), jsons_view(out@)) == stream_rest(
                b@,
                Seq::empty(),
            ),
        decreases n - i,
    {
        match read_next(slice_subrange(b, i, n)) {
            None => {
                return Some(out);
            },
            Some(None) => {
                if out.len() > 0 {
                    return None;
                }
                let mut one: Vec<Json> = Vec::new();
                one.push(Json::Str(text_lossy(b)));
                assert(jsons_view(one@) =~= seq![JsonV::Str(lossy_text(b@))]);
                return Some(one);
            },
            Some(Some(p)) => {
                let ghost left = b@.subrange(i as int, n as int);
                let ghost before = jsons_view(out@);
                let (v, used) = p;
                out.push(v);
                assert(jsons_view(out@) =~= before.push(v@));
                assert(left.subrange(used as int, left.len() as int) =~= b@.subrange(
                    i + used,
                    n as int,
                ));
                i = i + used;
            },
        }
    }
}

// ---------------------------------------------------------------------
// An event
// ---------------------------------------------------------------------
/// The point in time at a finite number of seconds that is not negative.
pub open spec fn seconds_time(bits: u64) -> Option<Timestamp> {
    if is_negative(bits) && mantissa(bits) > 0 {
        None
    } else if in_range(to_i64(bits) as int, nanos_part(bits) as int) {
        Some(Timestamp { secs: to_i64(bits), nanos: nanos_part(bits) as u32 })
    } else {
        None
    }
}

/// The time of an event: a number of seconds since the epoch, or the text of one.
pub open spec fn event_time(ev: JsonV) -> Option<Timestamp> {
    let bits = match field(ev, "time"@) {
        Some(JsonV::Str(s)) => float_bits(trim(s)),
        Some(JsonV::Num(t)) => number_bits(t),
        _ => None,
    };
    match bits {
        Some(b) => seconds_time(b),
        None => None,
    }
}

/// The time of an event.
pub fn hec_time(ev: &Json) -> (r: Option<Timestamp>)
    ensures
        r == event_time(ev@),
{
    let bits: Option<u64> = match ev.get("time") {
        Some(Json::Str(s)) => {
            let t = trimmed(s.as_str());
            read_float(t.as_str())
        },
        Some(Json::Num(n)) => read_number(n.as_str()),
        _ => None,
    };
    match bits {
        Some(b) => match parts_of(b) {
            Some(p) => if p.negative && p.mantissa > 0 {
                None
            } else {
                Timestamp::new(cast_to_i64(b), nanos_of(b))
            },
            None => None,
        },
        None => None,
    }
}

/// A value as a line: a string as it is, nothing for null, else its JSON.
pub open spec fn line_text(v: Option<JsonV>) -> Seq<char> {
    match v {
        Some(JsonV::Str(s)) => s,
        None | Some(JsonV::Null) => Seq::empty(),
        Some(other) => json_text(other),
    }
}

fn line_of(v: Option<&Json>) -> (r: String)
    ensures
        r@ == line_text(match v {
            Some(v) => Some(v@),
            None => None,
        }),
{
    match v {
        None => String::new(),
        Some(v) => match v {
            Json::Str(s) => s.clone(),
            Json::Null => String::new(),
            _ => write_json(v),
        },
    }
}

/// The line of an event. An event that is a text of its own is the line.
pub open spec fn hec_message(ev: JsonV) -> Seq<char> {
    match ev {
        JsonV::Str(s) => s,
        _ => match field(ev, "event"@) {
            Some(JsonV::Obj(m)) => line_text(member(m, "line"@)),
            other => line_text(other),
        },
    }
}

fn message_of_hec(ev: &Json) -> (r: String)
    ensures
        r@ == hec_message(ev@),
{
    if let Some(s) = ev.as_str() {
        return s.to_owned();
    }
    match ev.get("event") {
        Some(e) => match e.as_object() {
            Some(m) => line_of(m.get("line")),
            None => line_of(Some(e)),
        },
        None => String::new(),
    }
}

/// A text member under a name, if there is one, put under another name.
pub open spec fn with_text(
    out: Map<Seq<char>, JsonV>,
    name: Seq<char>,
    v: Option<JsonV>,
) -> Map<Seq<char>, JsonV> {
    match text_in(v) {
        Some(t) => out.insert(name, JsonV::Str(t)),
        None => out,
    }
}

fn put_text(out: &mut JsonMap, name: &str, v: Option<&str>)
    ensures
        final(out)@ == (match v {
            Some(t) => old(out)@.insert(name@, JsonV::Str(t@)),
            None => old(out)@,
        }),
{
    if let Some(t) = v {
        out.insert_str(name, t);
    }
}

/// The members of a value, if it is an object.
pub open spec fn members_of(v: Option<JsonV>) -> Map<Seq<char>, JsonV> {
    match v {
        Some(JsonV::Obj(m)) => m,
        _ => Map::empty(),
    }
}

/// What an event says besides its line.
pub open spec fn event_details(ev: JsonV) -> Map<Seq<char>, JsonV> {
    match field(ev, "event"@) {
        Some(JsonV::Obj(m)) => with_text(
            with_text(Map::empty(), "source"@, member(m, "source"@)),
            "tag"@,
            member(m, "tag"@),
        ).union_prefer_right(members_of(member(m, "attrs"@))),
        _ => Map::empty(),
    }
}

/// What an event and its fields say besides its line. What comes later counts.
pub open spec fn hec_extras(ev: JsonV) -> Map<Seq<char>, JsonV> {
    with_text(
        with_text(
            with_text(event_details(ev), "hec_source"@, field(ev, "source"@)),
            "hec_sourcetype"@,
            field(ev, "sourcetype"@),
        ),
        "hec_index"@,
        field(ev, "index"@),
    ).union_prefer_right(members_of(field(ev, "fields"@)))
}

fn extend_members(out: &mut JsonMap, v: Option<&Json>)
    ensures
        final(out)@ == old(out)@.union_prefer_right(
            members_of(
                match v {
                    Some(v) => Some(v@),
                    None => None,
                },
            ),
        ),
{
    let ghost before = out@;
    if let Some(v) = v {
        if let Some(m) = v.as_object() {
            out.extend(m);
            return;
        }
    }
    assert(before.union_prefer_right(Map::<Seq<char>, JsonV>::empty()) =~= before);
}

fn details_of(ev: &Json) -> (r: JsonMap)
    ensures
        r@ == event_details(ev@),
{
    let mut out = JsonMap::new();
    if let Some(e) = ev.get("event") {
        if let Some(m) = e.as_object() {
            put_text(&mut out, "source", m.get_str("source"));
            put_text(&mut out, "tag", m.get_str("tag"));
            extend_members(&mut out, m.get("attrs"));
        }
    }
    out
}

fn extras_of_hec(ev: &Json) -> (r: JsonMap)
    ensures
        r@ == hec_extras(ev@),
{
    let mut out = details_of(ev);
    put_text(&mut out, "hec_source", ev.get_str("source"));
    put_text(&mut out, "hec_sourcetype", ev.get_str("sourcetype"));
    put_text(&mut out, "hec_index", ev.get_str("index"));
    extend_members(&mut out, ev.get("fields"));
    out
}

/// The service of an event: its source type, else the container that its fields
/// name, without the leading slash.
pub open spec fn hec_service(ev: JsonV) -> Option<Seq<char>> {
    let container = match field(ev, "fields"@) {
        Some(f) => match text_in(field(f, "container_name"@)) {
            Some(t) => Some(trim_start_by(t, just('/'))),
            None => None,
        },
        None => None,
    };
    match text_in(field(ev, "sourcetype"@)) {
        Some(t) => if t.len() > 0 {
            Some(t)
        } else {
            container
        },
        None => container,
    }
}

fn service_of_hec(ev: &Json) -> (r: Option<String>)
    ensures
        opt_text(r) == hec_service(ev@),
{
    if let Some(t) = ev.get_str("sourcetype") {
        if !t.is_empty() {
            return Some(t.to_owned());
        }
    }
    match ev.get("fields") {
        Some(f) => match f.get_str("container_name") {
            Some(t) => Some(trim_start_char(t, '/')),
            None => None,
        },
        None => None,
    }
}

/// The envelope of an event.
pub open spec fn hec_envelope(ev: JsonV, now: Timestamp) -> Map<Seq<char>, JsonV> {
    let t = match event_time(ev) {
        Some(t) => t,
        None => now,
    };
    let base = Map::<Seq<char>, JsonV>::empty().insert(
        "message"@,
        JsonV::Str(hec_message(ev)),
    ).insert(
        "level"@,
        JsonV::Str(
            if text_in(member(hec_extras(ev), "source"@)) == Some("stderr"@) {
                "error"@
            } else {
                "info"@
            },
        ),
    );
    let served = match hec_service(ev) {
        Some(s) => base.insert("service"@, JsonV::Str(s)),
        None => base,
    };
    with_text(
        served.insert("ts"@, JsonV::Str(rfc3339_text(t.secs, t.nanos))),
        "host"@,
        field(ev, "host"@),
    ).union_prefer_right(hec_extras(ev))
}

/// Maps an event to a record.
pub fn hec_to_record(ev: &Json, _cfg: &SplunkHecIngestConfig, now: Timestamp) -> (r: Option<
    RawRecord,
>)
    ensures
        r matches Some(rec) && carries(
            rec,
            now,
            Seq::empty(),
            Protocol::SplunkHec,
            hec_envelope(ev@, now),
        ),
{
    let extras = extras_of_hec(ev);
    let message = message_of_hec(ev);
    let level = match extras.get_str("source") {
        Some(s) => if same(s, "stderr") {
            "error"
        } else {
            "info"
        },
        None => "info",
    };
    let mut out = JsonMap::new();
    out.insert("message", Json::Str(message));
    out.insert_str("level", level);
    if let Some(s) = service_of_hec(ev) {
        out.insert("service", Json::Str(s));
    }
    let t = match hec_time(ev) {
        Some(t) => t,
        None => now,
    };
    out.insert("ts", Json::Str(to_rfc3339(t)));
    put_text(&mut out, "host", ev.get_str("host"));
    out.extend(&extras);
    Some(sourceless_record(now, Protocol::SplunkHec, out))
}

// ---------------------------------------------------------------------
// A request
// ---------------------------------------------------------------------
/// The envelopes of events.
pub open spec fn hec_envelopes(events: Seq<JsonV>, now: Timestamp) -> Seq<Map<Seq<char>, JsonV>> {
    Seq::new(events.len(), |i: int| hec_envelope(events[i], now))
}

/// What is to be done with a request.
pub enum HecStep {
    Reply(HecReply),
    /// Store records, and answer by how that goes.
    Append(Vec<RawRecord>),
}

/// An answer: a status code, a text and a code of the collector's own.
#[derive(Debug, Clone, Copy, PartialEq)]
pub struct HecReply {
    pub status: u16,
    pub text: &'static str,
    pub code: u16,
}

/// Whether an answer is the one described.
pub open spec fn replies(r: HecReply, status: u16, text: Seq<char>, code: u16) -> bool {
    r.status == status && r.text@ == text && r.code == code
}

/// The answer where nothing can be taken.
fn busy() -> (r: HecReply)
    ensures
        replies(r, 503, "Server is busy, please try again"@, 9),
{
    HecReply { status: 503, text: "Server is busy, please try again", code: 9 }
}

/// Whether a step is the one that a request calls for: it is refused while nothing is
/// taken, where it cannot be read and where it is empty, and else stored.
pub open spec fn is_hec_step(r: HecStep, paused: bool, body: Seq<u8>, now: Timestamp) -> bool {
    if paused {
        r matches HecStep::Reply(x) && replies(x, 503, "Server is busy, please try again"@, 9)
    } else {
        match events_of(body) {
            None => r matches HecStep::Reply(x) && replies(x, 400, "Invalid data format"@, 6),
            Some(events) => if events.len() == 0 {
                r matches HecStep::Reply(x) && replies(x, 400, "No data"@, 5)
            } else {
                r matches HecStep::Append(recs) && carry(
                    recs@,
                    now,
                    Protocol::SplunkHec,
                    hec_envelopes(events, now),
                )
            },
        }
    }
}

/// Decides what is to be done with a request.
pub fn hec_request(paused: bool, body: &[u8], cfg: &SplunkHecIngestConfig, now: Timestamp) -> (r:
    HecStep)
    ensures
        is_hec_step(r, paused, body@, now),
{
    if paused {
        return HecStep::Reply(busy());
    }
    let events = match parse_events(body) {
        None => return HecStep::Reply(
            HecReply { status: 400, text: "Invalid data format", code: 6 },
        ),
        Some(v) => v,
    };
    let n: usize = events.len();
    if n == 0 {
        return HecStep::Reply(HecReply { status: 400, text: "No data", code: 5 });
    }
    let ghost all = jsons_view(events@);
    let mut recs: Vec<RawRecord> = Vec::new();
    for i in 0..n
        invariant
            n == events@.len(),
            all == jsons_view(events@),
            carry(recs@, now, Protocol::SplunkHec, hec_envelopes(all.take(i as int), now)),
    {
        let rec = hec_to_record(&events[i], cfg, now);
        assert(hec_envelopes(all.take(i + 1), now) =~= hec_envelopes(
            all.take(i as int),
            now,
        ).push(hec_envelope(all[i as int], now)));
        recs.push(rec.unwrap());
    }
    assert(all.take(n as int) == all);
    HecStep::Append(recs)
}

/// Whether an answer is the one to a request whose records were to be stored.
pub open spec fn is_hec_answer(r: HecReply, outcome: Appended) -> bool {
    if outcome == Appended::Stored {
        replies(r, 200, "Success"@, 0)
    } else {
        replies(r, 503, "Server is busy, please try again"@, 9)
    }
}

/// A client is told of success exactly where all of its events were stored.
pub proof fn law_success_means_stored(
    r: HecStep,
    paused: bool,
    body: Seq<u8>,
    now: Timestamp,
    answer: HecReply,
    outcome: Appended,
)
    requires
        is_hec_step(r, paused, body, now),
        is_hec_answer(answer, outcome),
    ensures
        match r {
            HecStep::Reply(x) => x.status != 200,
            HecStep::Append(recs) => events_of(body) matches Some(events) && recs@.len()
                == events.len() && (answer.status == 200 <==> outcome == Appended::Stored),
        },
{
}

/// The answer to a request whose records were to be stored.
pub fn hec_reply(outcome: Appended) -> (r: HecReply)
    ensures
        is_hec_answer(r, outcome),
{
    match outcome {
        Appended::Stored => ping(),
        _ => busy(),
    }
}

/// The answer to a ping.
pub fn ping() -> (r: HecReply)
    ensures
        replies(r, 200, "Success"@, 0),
{
    HecReply { status: 200, text: "Success", code: 0 }
}

/// The answer to the question for the collector's health.
pub fn health() -> (r: HecReply)
    ensures
        replies(r, 200, "Health check passed"@, 17),
{
    HecReply { status: 200, text: "Health check passed", code: 17 }
}

/// The body of an answer.
pub fn hec_response(r: HecReply) -> (j: Json)
    ensures
        j@ == JsonV::Obj(
            Map::<Seq<char>, JsonV>::empty().insert("text"@, JsonV::Str(r.text@)).insert(
                "code"@,
                JsonV::Num(dec(r.code as nat)),
            ),
        ),
{
    broadcast use lemma_json_view;

    let mut out = JsonMap::new();
    out.insert_str("text", r.text);
    out.insert("code", Json::from_nat(r.code as u64));
    Json::Obj(out)
}

} // verus!
