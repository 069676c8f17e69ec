//! Parsing: a JSON envelope first, then syslog, then free text.
//!
//! A configured list of keys is promoted to typed columns on the way, and a
//! configured list of keys is dropped.
use vstd::prelude::*;
use vstd::string::*;
use vstd::utf8::{decode_utf8, encode_utf8, valid_utf8};

use crate::{Protocol, RawRecord};
use crate::errors::{fingerprint, is_error, is_error_level, message_fingerprint, message_parts};
use crate::float::{cast_to_i64, nanos_of, nanos_part, number_bits, read_number, to_i64};
use crate::hot::{
    HotAttribute, HotAttributeV, HotValue, HotValueV, attrs_view, coerce, coerced,
    hot_values_view, path_keys, resolve_json_path, walk_keys,
};
use crate::json::{Json, JsonMap, JsonV, json_read, lemma_json_view, member, read_json, text_in};
use crate::row::{LogRow, RowV, empty_row};
use crate::text::{
    after_prefix, begins, cat3, contains_char, contains_text, dec, dec_of, first_chars, has_text,
    lower, opt_text, parse_i64, parse_i64_text, same, starts_with, strip_prefix, take_chars,
    texts, to_lower, to_upper, trim, trimmed, upper, utf8_text,
};
use crate::time::{
    Timestamp, at, in_range, is_stamp, naive_read, read_naive, read_rfc3339, rfc3339_read,
};

verus! {

// ---------------------------------------------------------------------
// Levels
// ---------------------------------------------------------------------
/// The level that a word names, in any case. An unknown word of at most
/// thirty-two bytes is its own level.
pub open spec fn level_of(raw: Seq<char>) -> Seq<char> {
    let w = upper(trim(raw));
    if w == "TRACE"@ || w == "FINEST"@ || w == "VERBOSE"@ || w == "DBG"@ || w == "DEBUG"@ {
        "debug"@
    } else if w == "INFO"@ || w == "INFORMATIONAL"@ || w == "NOTICE"@ || w == "LOG"@ || w == "I"@ {
        "info"@
    } else if w == "WARN"@ || w == "WARNING"@ || w == "WRN"@ || w == "W"@ {
        "warn"@
    } else if w == "ERR"@ || w == "ERROR"@ || w == "ERRORS"@ || w == "E"@ || w == "FAULT"@ {
        "error"@
    } else if w == "CRIT"@ || w == "CRITICAL"@ || w == "FATAL"@ || w == "ALERT"@ || w == "EMERG"@
        || w == "EMERGENCY"@ || w == "F"@ {
        "fatal"@
    } else if encode_utf8(w).len() <= 32 {
        lower(w)
    } else {
        "info"@
    }
}

/// The level that a numeric severity stands for.
pub open spec fn severity_level(n: i64) -> Seq<char> {
    if 0 <= n <= 2 {
        "fatal"@
    } else if n == 3 || n == 4 {
        "error"@
    } else if n == 5 || n == 6 {
        "warn"@
    } else if 7 <= n <= 10 {
        "info"@
    } else {
        "debug"@
    }
}

/// The level that a word names.
pub fn normalize_level_public(raw: &str) -> (r: String)
    ensures
        r@ == level_of(raw@),
{
    let t = trimmed(raw);
    let upper = to_upper(t.as_str());
    let w = upper.as_str();
    if same(w, "TRACE") || same(w, "FINEST") || same(w, "VERBOSE") || same(w, "DBG") || same(
        w,
        "DEBUG",
    ) {
        "debug".to_owned()
    } else if same(w, "INFO") || same(w, "INFORMATIONAL") || same(w, "NOTICE") || same(w, "LOG")
        || same(w, "I") {
        "info".to_owned()
    } else if same(w, "WARN") || same(w, "WARNING") || same(w, "WRN") || same(w, "W") {
        "warn".to_owned()
    } else if same(w, "ERR") || same(w, "ERROR") || same(w, "ERRORS") || same(w, "E") || same(
        w,
        "FAULT",
    ) {
        "error".to_owned()
    } else if same(w, "CRIT") || same(w, "CRITICAL") || same(w, "FATAL") || same(w, "ALERT")
        || same(w, "EMERG") || same(w, "EMERGENCY") || same(w, "F") {
        "fatal".to_owned()
    } else if w.as_bytes().len() <= 32 {
        to_lower(w)
    } else {
        "info".to_owned()
    }
}

fn int_severity_to_level(n: i64) -> (r: &'static str)
    ensures
        r@ == severity_level(n),
{
    if 0 <= n && n <= 2 {
        "fatal"
    } else if n == 3 || n == 4 {
        "error"
    } else if n == 5 || n == 6 {
        "warn"
    } else if 7 <= n && n <= 10 {
        "info"
    } else {
        "debug"
    }
}

/// The level that a free text suggests.
pub open spec fn suggested_level(s: Seq<char>) -> Seq<char> {
    let l = lower(s);
    if has_text(l, "error"@) || has_text(l, "exception"@) || has_text(l, "traceback"@) || has_text(
        l,
        "failed"@,
    ) || has_text(l, "fatal"@) {
        "error"@
    } else if has_text(l, "warn"@) {
        "warn"@
    } else if has_text(l, "debug"@) {
        "debug"@
    } else {
        "info"@
    }
}

fn infer_level_from_text(s: &str) -> (r: &'static str)
    ensures
        r@ == suggested_level(s@),
{
    let lowered = to_lower(s);
    let l = lowered.as_str();
    if contains_text(l, "error") || contains_text(l, "exception") || contains_text(l, "traceback")
        || contains_text(l, "failed") || contains_text(l, "fatal") {
        "error"
    } else if contains_text(l, "warn") {
        "warn"
    } else if contains_text(l, "debug") {
        "debug"
    } else {
        "info"
    }
}

// ---------------------------------------------------------------------
// Fields of an envelope
// ---------------------------------------------------------------------
/// The string under either of two names, the first before the second.
pub open spec fn either_text(m: Map<Seq<char>, JsonV>, a: Seq<char>, b: Seq<char>) -> Option<
    Seq<char>,
> {
    match text_in(member(m, a)) {
        Some(t) => Some(t),
        None => text_in(member(m, b)),
    }
}

fn pick_either<'a>(m: &'a JsonMap, a: &str, b: &str) -> (r: Option<&'a str>)
    ensures
        match r {
            Some(s) => either_text(m@, a@, b@) == Some(s@),
            None => either_text(m@, a@, b@) is None,
        },
{
    match m.get_str(a) {
        Some(s) => Some(s),
        None => m.get_str(b),
    }
}

/// The point in time that a text names, in one of several forms.
pub open spec fn time_of_text(s: Seq<char>) -> Option<Timestamp> {
    match rfc3339_read(s) {
        Some(p) => Some(at(p)),
        None => match naive_read(s, "%Y-%m-%dT%H:%M:%S%.3fZ"@) {
            Some(p) => Some(at(p)),
            None => match naive_read(s, "%Y-%m-%dT%H:%M:%SZ"@) {
                Some(p) => Some(at(p)),
                None => match naive_read(s, "%Y-%m-%d %H:%M:%S"@) {
                    Some(p) => Some(at(p)),
                    None => match naive_read(s, "%Y/%m/%d %H:%M:%S"@) {
                        Some(p) => Some(at(p)),
                        None => None,
                    },
                },
            },
        },
    }
}

/// The point in time at a number of seconds since the epoch.
pub open spec fn time_of_seconds(bits: u64) -> Option<Timestamp> {
    if in_range(to_i64(bits) as int, nanos_part(bits) as int) {
        Some(Timestamp { secs: to_i64(bits), nanos: nanos_part(bits) as u32 })
    } else {
        None
    }
}

/// The point in time that a value names: a text, or seconds since the epoch.
pub open spec fn time_of(v: JsonV) -> Option<Timestamp> {
    match v {
        JsonV::Str(s) => time_of_text(s),
        JsonV::Num(t) => match parse_i64_text(t) {
            Some(n) => if in_range(n as int, 0) {
                Some(Timestamp { secs: n, nanos: 0 })
            } else {
                None
            },
            None => match number_bits(t) {
                Some(bits) => time_of_seconds(bits),
                None => None,
            },
        },
        _ => None,
    }
}

/// The time under a name.
pub open spec fn time_under(m: Map<Seq<char>, JsonV>, key: Seq<char>) -> Option<Timestamp> {
    match member(m, key) {
        Some(v) => time_of(v),
        None => None,
    }
}

/// The first time that an envelope gives.
pub open spec fn envelope_time(m: Map<Seq<char>, JsonV>) -> Option<Timestamp> {
    match time_under(m, "ts"@) {
        Some(t) => Some(t),
        None => match time_under(m, "timestamp"@) {
            Some(t) => Some(t),
            None => match time_under(m, "time"@) {
                Some(t) => Some(t),
                None => time_under(m, "@timestamp"@),
            },
        },
    }
}

fn parse_flexible_ts(s: &str) -> (r: Option<Timestamp>)
    ensures
        r == time_of_text(s@),
        forall|t: Timestamp| #[trigger] is_stamp(s@, t) ==> r == Some(t),
{
    match read_rfc3339(s) {
        Some(t) => Some(t),
        None => match read_naive(s, "%Y-%m-%dT%H:%M:%S%.3fZ") {
            Some(t) => Some(t),
            None => match read_naive(s, "%Y-%m-%dT%H:%M:%SZ") {
                Some(t) => Some(t),
                None => match read_naive(s, "%Y-%m-%d %H:%M:%S") {
                    Some(t) => Some(t),
                    None => read_naive(s, "%Y/%m/%d %H:%M:%S"),
                },
            },
        },
    }
}

/// Whether a value is the text that is written for a point in time.
pub open spec fn is_stamp_value(v: JsonV, t: Timestamp) -> bool {
    v matches JsonV::Str(s) && is_stamp(s, t)
}

/// The point in time that a value names.
pub fn value_time(v: &Json) -> (r: Option<Timestamp>)
    ensures
        r == time_of(v@),
        forall|t: Timestamp| #[trigger] is_stamp_value(v@, t) ==> r == Some(t),
{
    match v {
        Json::Str(s) => parse_flexible_ts(s.as_str()),
        Json::Num(n) => match parse_i64(n.as_str()) {
            Some(secs) => Timestamp::new(secs, 0),
            None => match read_number(n.as_str()) {
                Some(bits) => Timestamp::new(cast_to_i64(bits), nanos_of(bits)),
                None => None,
            },
        },
        _ => None,
    }
}

/// Whether the text for a point in time stands under a name.
pub open spec fn is_stamped_under(m: Map<Seq<char>, JsonV>, key: Seq<char>, t: Timestamp) -> bool {
    member(m, key) matches Some(v) && is_stamp_value(v, t)
}

/// Whether an envelope was stamped with a point in time.
pub open spec fn is_stamped(m: Map<Seq<char>, JsonV>, t: Timestamp) -> bool {
    is_stamped_under(m, "ts"@, t)
}

/// Whether the point in time with which an envelope was stamped is the one that is
/// read out of it.
pub open spec fn stamp_is_read(m: Map<Seq<char>, JsonV>) -> bool {
    forall|t: Timestamp| #[trigger] is_stamped(m, t) ==> envelope_time(m) == Some(t)
}

fn time_at(m: &JsonMap, key: &str) -> (r: Option<Timestamp>)
    ensures
        r == time_under(m@, key@),
        forall|t: Timestamp| #[trigger] is_stamped_under(m@, key@, t) ==> r == Some(t),
{
    match m.get(key) {
        Some(v) => value_time(v),
        None => None,
    }
}

fn pick_ts(m: &JsonMap) -> (r: Option<Timestamp>)
    ensures
        r == envelope_time(m@),
        stamp_is_read(m@),
{
    match time_at(m, "ts") {
        Some(t) => Some(t),
        None => match time_at(m, "timestamp") {
            Some(t) => Some(t),
            None => match time_at(m, "time") {
                Some(t) => Some(t),
                None => time_at(m, "@timestamp"),
            },
        },
    }
}

/// The level that a value gives: a word, or a numeric severity.
pub open spec fn value_level(v: Option<JsonV>) -> Option<Seq<char>> {
    match v {
        Some(JsonV::Str(s)) => Some(level_of(s)),
        Some(JsonV::Num(t)) => Some(
            level_of(
                severity_level(
                    match parse_i64_text(t) {
                        Some(n) => n,
                        None => 0,
                    },
                ),
            ),
        ),
        _ => None,
    }
}

/// The first level that an envelope gives.
pub open spec fn envelope_level(m: Map<Seq<char>, JsonV>) -> Option<Seq<char>> {
    match value_level(member(m, "level"@)) {
        Some(l) => Some(l),
        None => match value_level(member(m, "severity"@)) {
            Some(l) => Some(l),
            None => match value_level(member(m, "loglevel"@)) {
                Some(l) => Some(l),
                None => value_level(member(m, "lvl"@)),
            },
        },
    }
}

fn level_at(m: &JsonMap, key: &str) -> (r: Option<String>)
    ensures
        opt_text(r) == value_level(member(m@, key@)),
{
    match m.get(key) {
        Some(Json::Str(s)) => Some(normalize_level_public(s.as_str())),
        Some(Json::Num(n)) => {
            let raw: i64 = match parse_i64(n.as_str()) {
                Some(i) => i,
                None => 0,
            };
            Some(normalize_level_public(int_severity_to_level(raw)))
        },
        _ => None,
    }
}

fn pick_level(m: &JsonMap) -> (r: Option<String>)
    ensures
        opt_text(r) == envelope_level(m@),
{
    match level_at(m, "level") {
        Some(l) => Some(l),
        None => match level_at(m, "severity") {
            Some(l) => Some(l),
            None => match level_at(m, "loglevel") {
                Some(l) => Some(l),
                None => level_at(m, "lvl"),
            },
        },
    }
}

/// The text that an envelope carries as its message.
pub open spec fn message_text(m: Map<Seq<char>, JsonV>) -> Option<Seq<char>> {
    match either_text(m, "msg"@, "message"@) {
        Some(t) => Some(t),
        None => text_in(member(m, "Message"@)),
    }
}

/// The object that a message holds as its text, where lifting is asked for.
pub open spec fn lifted(m: Map<Seq<char>, JsonV>, unwrap_message: bool) -> Option<
    Map<Seq<char>, JsonV>,
> {
    match message_text(m) {
        Some(t) => if unwrap_message {
            match json_read(t) {
                Ok(JsonV::Obj(inner)) => Some(inner),
                _ => None,
            }
        } else {
            None
        },
        None => None,
    }
}

/// The names that have a column or a meaning of their own, and are no attributes.
pub open spec fn reserved() -> Seq<Seq<char>> {
    seq![
        "ts"@,
        "timestamp"@,
        "time"@,
        "@timestamp"@,
        "host"@,
        "hostname"@,
        "service"@,
        "logger"@,
        "level"@,
        "severity"@,
        "msg"@,
        "message"@,
        "Message"@,
        "fingerprint"@,
        "trace_id"@,
        "traceId"@,
        "span_id"@,
        "spanId"@,
    ]
}

fn reserved_names() -> (r: Vec<String>)
    ensures
        texts(r@) == reserved(),
{
    let mut v: Vec<String> = Vec::new();
    v.push("ts".to_owned());
    v.push("timestamp".to_owned());
    v.push("time".to_owned());
    v.push("@timestamp".to_owned());
    v.push("host".to_owned());
    v.push("hostname".to_owned());
    v.push("service".to_owned());
    v.push("logger".to_owned());
    v.push("level".to_owned());
    v.push("severity".to_owned());
    v.push("msg".to_owned());
    v.push("message".to_owned());
    v.push("Message".to_owned());
    v.push("fingerprint".to_owned());
    v.push("trace_id".to_owned());
    v.push("traceId".to_owned());
    v.push("span_id".to_owned());
    v.push("spanId".to_owned());
    assert(texts(v@) == reserved());
    v
}

/// The members of the envelope over those of the lifted object.
pub open spec fn merged(
    m: Map<Seq<char>, JsonV>,
    inner: Option<Map<Seq<char>, JsonV>>,
) -> Map<Seq<char>, JsonV> {
    match inner {
        Some(i) => i.union_prefer_right(m),
        None => m,
    }
}

/// A path without its `$.`.
pub open spec fn path_leaf(path: Seq<char>) -> Seq<char> {
    match after_prefix(path, "$."@) {
        Some(rest) => rest,
        None => path,
    }
}

/// The value of a promoted attribute in an envelope.
pub open spec fn hot_found(all: Map<Seq<char>, JsonV>, a: HotAttributeV) -> Option<JsonV> {
    walk_keys(JsonV::Obj(all), path_keys(a.json_path))
}

/// The column value of a promoted attribute.
pub open spec fn hot_value(all: Map<Seq<char>, JsonV>, a: HotAttributeV) -> HotValueV {
    match hot_found(all, a) {
        Some(v) => coerced(v, a.duckdb_type),
        None => HotValueV::Null,
    }
}

/// The attributes without the top-level keys that were promoted.
pub open spec fn residue(
    attrs: Map<Seq<char>, JsonV>,
    all: Map<Seq<char>, JsonV>,
    hot: Seq<HotAttributeV>,
) -> Map<Seq<char>, JsonV>
    decreases hot.len(),
{
    if hot.len() == 0 {
        attrs
    } else {
        let a = hot.last();
        let rest = residue(attrs, all, hot.drop_last());
        if hot_found(all, a) is Some && !path_leaf(a.json_path).contains('.') {
            rest.remove(path_leaf(a.json_path))
        } else {
            rest
        }
    }
}

/// The first of several optional texts, or a default.
pub open spec fn first_of(
    a: Option<Seq<char>>,
    b: Option<Seq<char>>,
    default: Seq<char>,
) -> Seq<char> {
    match a {
        Some(t) => t,
        None => match b {
            Some(t) => t,
            None => default,
        },
    }
}

/// The host that a lifted object names.
pub open spec fn inner_host(inner: Option<Map<Seq<char>, JsonV>>) -> Option<Seq<char>> {
    match inner {
        Some(i) => text_in(
            match member(i, "host"@) {
                Some(v) => Some(v),
                None => member(i, "hostname"@),
            },
        ),
        None => None,
    }
}

/// The string under either of two names in a lifted object.
pub open spec fn inner_either(
    inner: Option<Map<Seq<char>, JsonV>>,
    a: Seq<char>,
    b: Seq<char>,
) -> Option<Seq<char>> {
    match inner {
        Some(i) => either_text(i, a, b),
        None => None,
    }
}

/// The row of a JSON envelope. Fields of the envelope count before those of an
/// object that its message holds.
pub open spec fn json_row(
    base: RowV,
    m: Map<Seq<char>, JsonV>,
    body: Seq<char>,
    hot: Seq<HotAttributeV>,
    unwrap_message: bool,
) -> RowV {
    let inner = lifted(m, unwrap_message);
    let all = merged(m, inner);
    RowV {
        ts: match envelope_time(m) {
            Some(t) => t,
            None => match inner {
                Some(i) => match envelope_time(i) {
                    Some(t) => t,
                    None => base.ts,
                },
                None => base.ts,
            },
        },
        source_host: first_of(text_in(member(m, "host"@)), inner_host(inner), base.source_host),
        service: first_of(
            either_text(m, "service"@, "logger"@),
            inner_either(inner, "service"@, "logger"@),
            base.service,
        ),
        level: first_of(
            envelope_level(m),
            match inner {
                Some(i) => envelope_level(i),
                None => None,
            },
            "info"@,
        ),
        message: match message_text(m) {
            Some(t) => t,
            None => first_chars(body, 2048),
        },
        fingerprint: first_of(
            text_in(member(m, "fingerprint"@)),
            match inner {
                Some(i) => text_in(member(i, "fingerprint"@)),
                None => None,
            },
            base.fingerprint,
        ),
        trace_id: first_of(
            either_text(m, "trace_id"@, "traceId"@),
            inner_either(inner, "trace_id"@, "traceId"@),
            base.trace_id,
        ),
        span_id: first_of(
            either_text(m, "span_id"@, "spanId"@),
            inner_either(inner, "span_id"@, "spanId"@),
            base.span_id,
        ),
        attributes: residue(all.remove_keys(reserved().to_set()), all, hot),
        hot: Seq::new(hot.len(), |i: int| hot_value(all, hot[i])),
        ..base
    }
}

fn read_inner(text: Option<&str>, unwrap_message: bool) -> (r: Option<JsonMap>)
    ensures
        match r {
            Some(i) => text matches Some(t) && unwrap_message && json_read(t@) == Ok::<
                JsonV,
                Seq<char>,
            >(JsonV::Obj(i@)),
            None => match text {
                Some(t) => !unwrap_message || !(json_read(t@) matches Ok(v) && v is Obj),
                None => true,
            },
        },
{
    broadcast use lemma_json_view;

    if !unwrap_message {
        return None;
    }
    match text {
        Some(t) => match read_json(t) {
            Ok(Json::Obj(m)) => Some(m),
            _ => None,
        },
        None => None,
    }
}

/// The first of two optional strings, or a default.
fn first_or(a: Option<&str>, b: Option<&str>, default: &str) -> (r: String)
    ensures
        r@ == first_of(
            match a {
                Some(t) => Some(t@),
                None => None,
            },
            match b {
                Some(t) => Some(t@),
                None => None,
            },
            default@,
        ),
{
    match a {
        Some(t) => t.to_owned(),
        None => match b {
            Some(t) => t.to_owned(),
            None => default.to_owned(),
        },
    }
}

fn inner_pick<'a>(inner: &'a Option<JsonMap>, a: &str, b: &str) -> (r: Option<&'a str>)
    ensures
        (match r {
            Some(s) => Some(s@),
            None => None,
        }) == inner_either(
            match *inner {
                Some(i) => Some(i@),
                None => None,
            },
            a@,
            b@,
        ),
{
    match inner {
        Some(i) => pick_either(i, a, b),
        None => None,
    }
}

fn inner_host_of<'a>(inner: &'a Option<JsonMap>) -> (r: Option<&'a str>)
    ensures
        (match r {
            Some(s) => Some(s@),
            None => None,
        }) == inner_host(
            match *inner {
                Some(i) => Some(i@),
                None => None,
            },
        ),
{
    match inner {
        Some(i) => {
            let v = match i.get("host") {
                Some(v) => Some(v),
                None => i.get("hostname"),
            };
            match v {
                Some(v) => v.as_str(),
                None => None,
            }
        },
        None => None,
    }
}

fn promote(attrs: JsonMap, all: JsonMap, hot: &[HotAttribute]) -> (r: (JsonMap, Vec<HotValue>))
    ensures
        r.0@ == residue(attrs@, all@, attrs_view(hot@)),
        hot_values_view(r.1@) == Seq::new(
            hot@.len(),
            |i: int| hot_value(all@, attrs_view(hot@)[i]),
        ),
{
    broadcast use lemma_json_view;

    let ghost start = attrs@;
    let ghost whole = all@;
    let ghost hv = attrs_view(hot@);
    let mut attrs = attrs;
    let root = Json::Obj(all);
    let mut values: Vec<HotValue> = Vec::new();
    for i in 0..hot.len()
        invariant
            hv == attrs_view(hot@),
            root@ == JsonV::Obj(whole),
            attrs@ == residue(start, whole, hv.take(i as int)),
            values@.len() == i,
            forall|j: int| 0 <= j < i ==> (#[trigger] values@[j])@ == hot_value(whole, hv[j]),
    {
        assert(hv.take(i + 1).drop_last() == hv.take(i as int));
        assert(hv.take(i + 1).last() == hot@[i as int]@);
        let a = &hot[i];
        match resolve_json_path(&root, a.json_path.as_str()) {
            Some(v) => {
                values.push(coerce(v, a.duckdb_type));
                let leaf = match strip_prefix(a.json_path.as_str(), "$.") {
                    Some(rest) => rest,
                    None => a.json_path.clone(),
                };
                if !contains_char(leaf.as_str(), '.') {
                    attrs.remove(leaf.as_str());
                }
            },
            None => {
                values.push(HotValue::Null);
            },
        }
    }
    assert(hv.take(hv.len() as int) == hv);
    assert(hot_values_view(values@) == Seq::new(
        hot@.len(),
        |i: int| hot_value(whole, attrs_view(hot@)[i]),
    ));
    (attrs, values)
}

/// Fills a row from a JSON envelope.
pub fn apply_json_object(
    row: LogRow,
    obj: &JsonMap,
    body: &str,
    hot: &[HotAttribute],
    unwrap_message_json: bool,
) -> (r: LogRow)
    ensures
        r@ == json_row(row@, obj@, body@, attrs_view(hot@), unwrap_message_json),
        stamp_is_read(obj@),
{
    let message = match pick_either(obj, "msg", "message") {
        Some(t) => Some(t),
        None => obj.get_str("Message"),
    };
    let inner = read_inner(message, unwrap_message_json);
    let ghost inner_v = lifted(obj@, unwrap_message_json);
    assert(inner_v == (match inner {
        Some(i) => Some(i@),
        None => None,
    }));
    let ts = match pick_ts(obj) {
        Some(t) => t,
        None => match &inner {
            Some(i) => match pick_ts(i) {
                Some(t) => t,
                None => row.ts,
            },
            None => row.ts,
        },
    };
    let source_host = first_or(
        obj.get_str("host"),
        inner_host_of(&inner),
        row.source_host.as_str(),
    );
    let service = first_or(
        pick_either(obj, "service", "logger"),
        inner_pick(&inner, "service", "logger"),
        row.service.as_str(),
    );
    let level = match pick_level(obj) {
        Some(l) => l,
        None => {
            let found = match &inner {
                Some(i) => pick_level(i),
                None => None,
            };
            match found {
                Some(l) => l,
                None => "info".to_owned(),
            }
        },
    };
    let text = match message {
        Some(t) => t.to_owned(),
        None => take_chars(body, 2048),
    };
    let inner_fingerprint = match &inner {
        Some(i) => i.get_str("fingerprint"),
        None => None,
    };
    let fingerprint = first_or(
        obj.get_str("fingerprint"),
        inner_fingerprint,
        row.fingerprint.as_str(),
    );
    let trace_id = first_or(
        pick_either(obj, "trace_id", "traceId"),
        inner_pick(&inner, "trace_id", "traceId"),
        row.trace_id.as_str(),
    );
    let span_id = first_or(
        pick_either(obj, "span_id", "spanId"),
        inner_pick(&inner, "span_id", "spanId"),
        row.span_id.as_str(),
    );
    let all = match inner {
        Some(i) => {
            let mut m = i;
            m.extend(obj);
            m
        },
        None => obj.clone(),
    };
    assert(all@ == merged(obj@, inner_v));
    let names = reserved_names();
    let attrs = all.without(names.as_slice());
    let (attributes, values) = promote(attrs, all, hot);
    let out = LogRow {
        ts,
        source_host,
        service,
        level,
        message: text,
        fingerprint,
        trace_id,
        span_id,
        attributes,
        hot: values,
        protocol: row.protocol,
        raw_len: row.raw_len,
        geo_country: row.geo_country,
    };
    assert(out@ =~= json_row(row@, obj@, body@, attrs_view(hot@), unwrap_message_json));
    out
}

// ---------------------------------------------------------------------
// Syslog
// ---------------------------------------------------------------------
/// The two forms of a syslog line.
#[derive(Debug, Clone, Copy, PartialEq, Eq, Structural)]
pub enum SyslogForm {
    Rfc5424,
    Rfc3164,
}

/// The parts of a syslog line.
#[derive(Debug)]
pub struct SyslogMessage {
    /// The name of the facility.
    pub facility: Option<String>,
    /// The severity, from 0, an emergency, to 7, for debugging.
    pub severity: Option<u8>,
    pub timestamp: Option<Timestamp>,
    pub hostname: Option<String>,
    pub appname: Option<String>,
    pub procid: Option<String>,
    pub msgid: Option<String>,
    /// The structured elements: an id, and names with their values.
    pub structured_data: Vec<(String, Vec<(String, String)>)>,
    pub msg: String,
}

/// Names with their values.
pub type ParamsV = Seq<(Seq<char>, Seq<char>)>;

/// What a [`SyslogMessage`] says.
#[verifier::ext_equal]
pub struct SyslogV {
    pub facility: Option<Seq<char>>,
    pub severity: Option<u8>,
    pub timestamp: Option<Timestamp>,
    pub hostname: Option<Seq<char>>,
    pub appname: Option<Seq<char>>,
    pub procid: Option<Seq<char>>,
    pub msgid: Option<Seq<char>>,
    pub structured_data: Seq<(Seq<char>, ParamsV)>,
    pub msg: Seq<char>,
}

/// Names with their values, as texts.
pub open spec fn params_view(v: Seq<(String, String)>) -> ParamsV {
    v.map_values(|p: (String, String)| (p.0@, p.1@))
}

/// Structured elements, as texts.
pub open spec fn elements_view(v: Seq<(String, Vec<(String, String)>)>) -> Seq<
    (Seq<char>, ParamsV),
> {
    v.map_values(|e: (String, Vec<(String, String)>)| (e.0@, params_view(e.1@)))
}

impl View for SyslogMessage {
    type V = SyslogV;

    open spec fn view(&self) -> SyslogV {
        SyslogV {
            facility: opt_text(self.facility),
            severity: self.severity,
            timestamp: self.timestamp,
            hostname: opt_text(self.hostname),
            appname: opt_text(self.appname),
            procid: opt_text(self.procid),
            msgid: opt_text(self.msgid),
            structured_data: elements_view(self.structured_data@),
            msg: self.msg@,
        }
    }
}

/// The parts of a line that is read in the newer form, that of RFC 5424.
pub uninterp spec fn rfc5424_read(text: Seq<char>) -> SyslogV;

/// The parts of a line that is read in the older form, that of RFC 3164, but for its
/// time: by the line, and by whether it had a time that could be read.
pub uninterp spec fn rfc3164_read(text: Seq<char>, dated: bool) -> SyslogV;

/// Whether two readings differ in their time at most.
pub open spec fn same_but_time(a: SyslogV, b: SyslogV) -> bool {
    a == (SyslogV { timestamp: a.timestamp, ..b })
}

/// `syslog_loose::parse_message`. What is read in the newer form depends on the line
/// alone. In the older form a date without a year is read in the current one, and a
/// time without a zone in the machine's; every other part depends on the line and on
/// whether a time could be read, and there is no message id. A severity is a number
/// from 0 to 7.
#[verifier::external_body]
fn syslog_parts(body: &str, form: SyslogForm) -> (r: SyslogMessage)
    ensures
        form is Rfc5424 ==> r@ == rfc5424_read(body@),
        form is Rfc3164 ==> same_but_time(r@, rfc3164_read(body@, r@.timestamp is Some)),
        form is Rfc3164 ==> r@.msgid is None,
        r@.severity matches Some(s) ==> s <= 7,
{
    let variant = match form {
        SyslogForm::Rfc5424 => syslog_loose::Variant::RFC5424,
        SyslogForm::Rfc3164 => syslog_loose::Variant::RFC3164,
    };
    let m: syslog_loose::Message<String> = syslog_loose::parse_message(body, variant).into();
    SyslogMessage {
        facility: m.facility.map(|f| format!("{f:?}")),
        severity: m.severity.map(|s| s as u8),
        timestamp: m.timestamp.map(|t| Timestamp { secs: t.timestamp(), nanos: t.timestamp_subsec_nanos() }),
        hostname: m.hostname, appname: m.appname, msgid: m.msgid, msg: m.msg,
        procid: m.procid.map(|p| p.to_string()),
        structured_data: m.structured_data.into_iter().map(|e| (e.id, e.params)).collect(),
    }
}

impl SyslogV {
    /// Whether the line was recognized as syslog.
    pub open spec fn recognized(self) -> bool {
        self.facility is Some || self.severity is Some || self.hostname is Some
    }

    /// Whether these can be the parts of a line that is read in the older form: they
    /// are those of the line, and only the time is the clock's and the machine's.
    pub open spec fn is_older(self, body: Seq<char>) -> bool {
        &&& same_but_time(self, rfc3164_read(body, self.timestamp is Some))
        &&& self.msgid is None
        &&& self.severity matches Some(s) ==> s <= 7
    }
}

impl SyslogMessage {
    fn is_recognized(&self) -> (r: bool)
        ensures
            r == self@.recognized(),
    {
        self.facility.is_some() || self.severity.is_some() || self.hostname.is_some()
    }
}

/// Which reading of a line counts: the newer form where it was recognized, else
/// the older one. A line that neither recognizes is syslog only if it begins with
/// a priority.
pub open spec fn chosen_reading(body: Seq<char>, newer: SyslogV, older: SyslogV) -> Option<
    SyslogV,
> {
    let chosen = if newer.recognized() {
        newer
    } else {
        older
    };
    if chosen.recognized() || begins(body, "<"@) {
        Some(chosen)
    } else {
        None
    }
}

/// The parts of a line, if it has any.
pub open spec fn reading_view(r: Option<SyslogMessage>) -> Option<SyslogV> {
    match r {
        Some(m) => Some(m@),
        None => None,
    }
}

/// Chooses between the two readings of a line.
pub fn choose_syslog(body: &str, newer: SyslogMessage, older: SyslogMessage) -> (r: Option<
    SyslogMessage,
>)
    ensures
        reading_view(r) == chosen_reading(body@, newer@, older@),
{
    let chosen = if newer.is_recognized() {
        newer
    } else {
        older
    };
    if chosen.is_recognized() || starts_with(body, "<") {
        Some(chosen)
    } else {
        None
    }
}

/// Whether a line was read so, for some reading in the older form.
pub open spec fn is_reading(r: Option<SyslogV>, body: Seq<char>) -> bool {
    exists|older: SyslogV|
        older.is_older(body) && r == #[trigger] chosen_reading(body, rfc5424_read(body), older)
}

fn parse_syslog(body: &str) -> (r: Option<SyslogMessage>)
    ensures
        is_reading(reading_view(r), body@),
{
    let newer = syslog_parts(body, SyslogForm::Rfc5424);
    let older = syslog_parts(body, SyslogForm::Rfc3164);
    let ghost o = older@;
    let r = choose_syslog(body, newer, older);
    assert(o.is_older(body@) && reading_view(r) == chosen_reading(body@, rfc5424_read(body@), o));
    r
}

/// The level that a syslog severity stands for.
pub open spec fn syslog_level(severity: Option<u8>) -> Seq<char> {
    match severity {
        None => "info"@,
        Some(s) => if s <= 2 {
            "fatal"@
        } else if s == 3 {
            "error"@
        } else if s == 4 {
            "warn"@
        } else if s <= 6 {
            "info"@
        } else {
            "debug"@
        },
    }
}

fn syslog_severity_to_level(severity: Option<u8>) -> (r: &'static str)
    ensures
        r@ == syslog_level(severity),
{
    match severity {
        None => "info",
        Some(s) => if s <= 2 {
            "fatal"
        } else if s == 3 {
            "error"
        } else if s == 4 {
            "warn"
        } else if s <= 6 {
            "info"
        } else {
            "debug"
        },
    }
}

/// A map with a string under a name, where there is one.
pub open spec fn with_text(
    m: Map<Seq<char>, JsonV>,
    key: Seq<char>,
    value: Option<Seq<char>>,
) -> Map<Seq<char>, JsonV> {
    match value {
        Some(t) => m.insert(key, JsonV::Str(t)),
        None => m,
    }
}

/// A map with the parameters of a structured element.
pub open spec fn with_params(
    m: Map<Seq<char>, JsonV>,
    id: Seq<char>,
    params: ParamsV,
) -> Map<Seq<char>, JsonV>
    decreases params.len(),
{
    if params.len() == 0 {
        m
    } else {
        let p = params.last();
        with_params(m, id, params.drop_last()).insert(
            "syslog_sd_"@ + id + "_"@ + p.0,
            JsonV::Str(p.1),
        )
    }
}

/// A map with the parameters of every structured element.
pub open spec fn with_elements(
    m: Map<Seq<char>, JsonV>,
    elements: Seq<(Seq<char>, ParamsV)>,
) -> Map<Seq<char>, JsonV>
    decreases elements.len(),
{
    if elements.len() == 0 {
        m
    } else {
        let e = elements.last();
        with_params(with_elements(m, elements.drop_last()), e.0, e.1)
    }
}

/// The row of a syslog line.
pub open spec fn syslog_row(base: RowV, msg: SyslogV) -> RowV {
    RowV {
        ts: match msg.timestamp {
            Some(t) => t,
            None => base.ts,
        },
        source_host: match msg.hostname {
            Some(h) => h,
            None => base.source_host,
        },
        service: match msg.appname {
            Some(a) => a,
            None => base.service,
        },
        level: syslog_level(msg.severity),
        message: msg.msg,
        attributes: with_elements(
            with_text(
                with_text(
                    with_text(base.attributes, "syslog_facility"@, msg.facility),
                    "syslog_procid"@,
                    msg.procid,
                ),
                "syslog_msgid"@,
                msg.msgid,
            ),
            msg.structured_data,
        ),
        ..base
    }
}

fn set_text(m: &mut JsonMap, key: &str, value: &Option<String>)
    ensures
        final(m)@ == with_text(old(m)@, key@, opt_text(*value)),
{
    match value {
        Some(t) => m.insert_str(key, t.as_str()),
        None => {},
    }
}

fn set_params(m: &mut JsonMap, id: &str, params: &Vec<(String, String)>)
    ensures
        final(m)@ == with_params(old(m)@, id@, params_view(params@)),
{
    let ghost start = m@;
    let ghost all = params_view(params@);
    for i in 0..params.len()
        invariant
            all == params_view(params@),
            m@ == with_params(start, id@, all.take(i as int)),
    {
        assert(all.take(i + 1).drop_last() == all.take(i as int));
        let mut key = cat3("syslog_sd_", id, "_");
        key.append(params[i].0.as_str());
        m.insert_str(key.as_str(), params[i].1.as_str());
    }
    assert(all.take(all.len() as int) == all);
}

fn set_elements(m: &mut JsonMap, elements: &Vec<(String, Vec<(String, String)>)>)
    ensures
        final(m)@ == with_elements(old(m)@, elements_view(elements@)),
{
    let ghost start = m@;
    let ghost all = elements_view(elements@);
    for i in 0..elements.len()
        invariant
            all == elements_view(elements@),
            m@ == with_elements(start, all.take(i as int)),
    {
        assert(all.take(i + 1).drop_last() == all.take(i as int));
        set_params(m, elements[i].0.as_str(), &elements[i].1);
    }
    assert(all.take(all.len() as int) == all);
}

/// Fills a row from a syslog line.
pub fn apply_syslog(row: LogRow, msg: SyslogMessage) -> (r: LogRow)
    ensures
        r@ == syslog_row(row@, msg@),
{
    let mut row = row;
    match msg.timestamp {
        Some(t) => {
            row.ts = t;
        },
        None => {},
    }
    match msg.hostname {
        Some(h) => {
            row.source_host = h;
        },
        None => {},
    }
    match msg.appname {
        Some(a) => {
            row.service = a;
        },
        None => {},
    }
    row.level = syslog_severity_to_level(msg.severity).to_owned();
    row.message = msg.msg;
    set_text(&mut row.attributes, "syslog_facility", &msg.facility);
    set_text(&mut row.attributes, "syslog_procid", &msg.procid);
    set_text(&mut row.attributes, "syslog_msgid", &msg.msgid);
    set_elements(&mut row.attributes, &msg.structured_data);
    row
}

// ---------------------------------------------------------------------
// The parser
// ---------------------------------------------------------------------
/// The row of a free text: its beginning, and the level that it suggests.
pub open spec fn free_text_row(base: RowV, body: Seq<char>) -> RowV {
    RowV { message: first_chars(body, 2048), level: suggested_level(body), ..base }
}

/// What a record gives before anything of its payload is read.
pub open spec fn base_row(rec: RawRecord, hot: Seq<HotAttributeV>) -> RowV {
    RowV {
        protocol: rec.protocol.name(),
        raw_len: wrapped_len(rec.raw@.len()),
        source_host: rec.source_addr@,
        hot: Seq::new(hot.len(), |i: int| HotValueV::Null),
        ..empty_row(rec.receive_ts)
    }
}

/// A length as `i32`, wrapping around at the end of the range.
pub open spec fn wrapped_len(n: nat) -> i32 {
    let low = (n % 0x1_0000_0000) as int;
    if low < 0x8000_0000 {
        low as i32
    } else {
        (low - 0x1_0000_0000) as i32
    }
}

fn wrap_len(n: usize) -> (r: i32)
    ensures
        r == wrapped_len(n as nat),
{
    let low: u64 = (n as u64) % 0x1_0000_0000;
    if low < 0x8000_0000 {
        low as i32
    } else {
        (low as i64 - 0x1_0000_0000) as i32
    }
}

/// What a payload is read as.
pub enum Payload {
    /// Bytes that are no text.
    Binary,
    /// A JSON envelope.
    Envelope(Map<Seq<char>, JsonV>),
    /// Any other text.
    Plain,
}

/// What a payload is read as, and its text.
pub open spec fn payload_of(raw: Seq<u8>) -> (Payload, Seq<char>) {
    if !valid_utf8(raw) {
        (Payload::Binary, Seq::empty())
    } else {
        let body = decode_utf8(raw);
        match json_read(body) {
            Ok(JsonV::Obj(m)) => (Payload::Envelope(m), body),
            _ => (Payload::Plain, body),
        }
    }
}

/// Whether a record came as syslog.
pub open spec fn is_syslog(p: Protocol) -> bool {
    p == Protocol::SyslogUdp || p == Protocol::SyslogTcp
}

/// Whether a row is what the record's payload is parsed to, before keys are
/// dropped. A syslog line that is not recognized in the newer form may be read in the
/// older one.
pub open spec fn is_parse_of(
    row: RowV,
    rec: RawRecord,
    hot: Seq<HotAttributeV>,
    unwrap_message: bool,
) -> bool {
    let base = base_row(rec, hot);
    let (payload, body) = payload_of(rec.raw@);
    match payload {
        Payload::Binary => row == (RowV {
            message: "<"@ + dec(rec.raw@.len()) + " non-utf8 bytes>"@,
            level: "info"@,
            ..base
        }),
        Payload::Envelope(m) => stamp_is_read(m) && row == json_row(
            base,
            m,
            body,
            hot,
            unwrap_message,
        ),
        Payload::Plain => if is_syslog(rec.protocol) {
            exists|reading: Option<SyslogV>| #[trigger]
                is_reading(reading, body) && row == (match reading {
                    Some(msg) => syslog_row(base, msg),
                    None => free_text_row(base, body),
                })
        } else {
            row == free_text_row(base, body)
        },
    }
}

/// A row without the dropped keys, and with a fingerprint if it is an error.
pub open spec fn finished(row: RowV, drop_keys: Seq<Seq<char>>) -> RowV {
    RowV {
        attributes: row.attributes.remove_keys(drop_keys.to_set()),
        fingerprint: if row.fingerprint.len() == 0 && is_error(row.level) {
            fingerprint("m"@, message_parts(row.service, row.message))
        } else {
            row.fingerprint
        },
        ..row
    }
}

/// Parses records into rows.
#[derive(Debug)]
pub struct Parser {
    hot: Vec<HotAttribute>,
    drop_keys: Vec<String>,
    unwrap_message_json: bool,
}

impl Parser {
    pub closed spec fn hot_view(&self) -> Seq<HotAttributeV> {
        attrs_view(self.hot@)
    }

    pub closed spec fn drop_view(&self) -> Seq<Seq<char>> {
        texts(self.drop_keys@)
    }

    pub closed spec fn unwraps(&self) -> bool {
        self.unwrap_message_json
    }

    /// A parser that promotes attributes, drops none, and lifts JSON messages.
    pub fn new(hot: Vec<HotAttribute>) -> (r: Self)
        ensures
            r.hot_view() == attrs_view(hot@),
            r.drop_view() == Seq::<Seq<char>>::empty(),
            r.unwraps(),
    {
        let drop_keys: Vec<String> = Vec::new();
        assert(texts(drop_keys@) == Seq::<Seq<char>>::empty());
        Parser { hot, drop_keys, unwrap_message_json: true }
    }

    /// A parser that promotes attributes, drops keys, and lifts JSON messages.
    pub fn with_drop(hot: Vec<HotAttribute>, drop_keys: Vec<String>) -> (r: Self)
        ensures
            r.hot_view() == attrs_view(hot@),
            r.drop_view() == texts(drop_keys@),
            r.unwraps(),
    {
        Parser { hot, drop_keys, unwrap_message_json: true }
    }

    /// A parser with every choice made.
    pub fn with_options(
        hot: Vec<HotAttribute>,
        drop_keys: Vec<String>,
        unwrap_message_json: bool,
    ) -> (r: Self)
        ensures
            r.hot_view() == attrs_view(hot@),
            r.drop_view() == texts(drop_keys@),
            r.unwraps() == unwrap_message_json,
    {
        Parser { hot, drop_keys, unwrap_message_json }
    }

    /// A parser that promotes and drops nothing.
    pub fn empty() -> (r: Self)
        ensures
            r.hot_view() == Seq::<HotAttributeV>::empty(),
            r.drop_view() == Seq::<Seq<char>>::empty(),
            r.unwraps(),
    {
        let hot: Vec<HotAttribute> = Vec::new();
        assert(attrs_view(hot@) == Seq::<HotAttributeV>::empty());
        Parser::new(hot)
    }

    /// The promoted attributes.
    pub fn hot(&self) -> (r: &[HotAttribute])
        ensures
            attrs_view(r@) == self.hot_view(),
    {
        self.hot.as_slice()
    }

    /// The dropped keys.
    pub fn drop_keys(&self) -> (r: &[String])
        ensures
            texts(r@) == self.drop_view(),
    {
        self.drop_keys.as_slice()
    }

    fn parse_inner(&self, rec: &RawRecord) -> (r: LogRow)
        ensures
            is_parse_of(r@, *rec, self.hot_view(), self.unwraps()),
    {
        broadcast use lemma_json_view;

        let mut row = LogRow::empty_at(rec.receive_ts);
        row.protocol = rec.protocol.as_str().to_owned();
        row.raw_len = wrap_len(rec.raw_len());
        row.source_host = rec.source_addr.clone();
        let mut values: Vec<HotValue> = Vec::new();
        for i in 0..self.hot.len()
            invariant
                values@.len() == i,
                forall|j: int| 0 <= j < i ==> (#[trigger] values@[j])@ == HotValueV::Null,
        {
            values.push(HotValue::Null);
        }
        row.hot = values;
        let ghost base = base_row(*rec, self.hot_view());
        assert(row@ =~= base) by {
            assert(hot_values_view(row.hot@) =~= Seq::new(
                self.hot_view().len(),
                |i: int| HotValueV::Null,
            ));
        }
        let body = match utf8_text(rec.raw.as_slice()) {
            Some(s) => s,
            None => {
                let n = dec_of(rec.raw.len() as u64);
                row.message = cat3("<", n.as_str(), " non-utf8 bytes>");
                row.level = "info".to_owned();
                return row;
            },
        };
        match read_json(body.as_str()) {
            Ok(Json::Obj(m)) => {
                return apply_json_object(
                    row,
                    &m,
                    body.as_str(),
                    self.hot.as_slice(),
                    self.unwrap_message_json,
                );
            },
            _ => {},
        }
        if rec.protocol == Protocol::SyslogUdp || rec.protocol == Protocol::SyslogTcp {
            let reading = parse_syslog(body.as_str());
            let ghost parts = reading_view(reading);
            let ghost base = row@;
            assert(is_reading(parts, payload_of(rec.raw@).1));
            match reading {
                Some(msg) => {
                    let out = apply_syslog(row, msg);
                    assert(out@ == (match parts {
                        Some(m) => syslog_row(base, m),
                        None => free_text_row(base, body@),
                    }));
                    return out;
                },
                None => {},
            }
        }
        row.message = take_chars(body.as_str(), 2048);
        row.level = infer_level_from_text(body.as_str()).to_owned();
        row
    }

    /// Parses a record: as a JSON envelope, else as syslog where it came as such,
    /// else as free text. Then drops keys, and gives an error a fingerprint.
    pub fn parse(&self, rec: &RawRecord) -> (r: LogRow)
        ensures
            exists|row: RowV|
                #[trigger] is_parse_of(row, *rec, self.hot_view(), self.unwraps()) && r@
                    == finished(row, self.drop_view()),
            is_error(r@.level) ==> r@.fingerprint.len() > 0,
    {
        let mut row = self.parse_inner(rec);
        let ghost parsed = row@;
        if self.drop_keys.len() > 0 {
            row.attributes = row.attributes.without(self.drop_keys.as_slice());
        } else {
            assert(texts(self.drop_keys@).to_set() =~= Set::<Seq<char>>::empty());
            assert(parsed.attributes.remove_keys(Set::<Seq<char>>::empty())
                =~= parsed.attributes);
        }
        if row.fingerprint.as_str().is_empty() && is_error_level(row.level.as_str()) {
            row.fingerprint = message_fingerprint(row.service.as_str(), row.message.as_str());
        }
        assert(row@ =~= finished(parsed, self.drop_view()));
        row
    }
}

/// Parses a record with nothing promoted or dropped.
pub fn parse(rec: &RawRecord) -> (r: LogRow)
    ensures
        exists|row: RowV|
            #[trigger] is_parse_of(row, *rec, Seq::empty(), true) && r@ == finished(
                row,
                Seq::empty(),
            ),
{
    Parser::empty().parse(rec)
}

} // verus!
