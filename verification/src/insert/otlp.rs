//! OpenTelemetry over HTTP: the choice of a wire encoding, the decoding of a
//! request, and the mapping of spans, log records and metric points to records.
use opentelemetry_proto::tonic as proto;
use vstd::prelude::*;
use vstd::string::*;
use vstd::utf8::{decode_utf8, valid_utf8};

use crate::{Protocol, RawRecord};
use crate::assoc::entry_map;
use crate::float::{float_bits, number_bits, read_float, read_number, round_to_double, rounded};
use crate::ingest::parse::{level_of, normalize_level_public};
use crate::insert::envelope::{base64_text, carries, envelope_record, to_base64};
use crate::insert::otlp_types::{
    AnyV, AnyVal, HistogramPoint, HistogramPointV, KeyV, KeyVal, MetricData, MetricDataV,
    NumberPoint, NumberPointV, NumberValue, OtelLog, OtelLogV, OtelMetric, OtelMetricV, OtelSpan,
    OtelSpanV, Resource, ResourceLogs, ResourceLogsV, ResourceMetrics, ResourceMetricsV,
    ResourceSpans, ResourceSpansV, ResourceV, Scope, ScopeLogs, ScopeLogsV, ScopeMetrics,
    ScopeMetricsV, ScopeSpans, ScopeSpansV, ScopeV, SpanEvent, SpanEventV, SummaryPoint,
    SummaryPointV, lemma_any_view, opt_view, views,
};
use crate::insert::otlp_wire::{
    logs_from_json, logs_of_json, logs_read, logs_view, metrics_from_json, metrics_of_json,
    metrics_read, metrics_view, read_logs, read_metrics, read_traces, traces_from_json,
    traces_of_json, traces_read, traces_view,
};
use crate::json::{
    Json, JsonMap, JsonV, double_value, entries_view, json_double, json_read_bytes, json_text,
    jsons_view, lemma_json_view, read_json_bytes, write_json,
};
use crate::text::{
    cat, contains_text, dec, dec_int, dec_of, dec_of_int, dec_of_wide, has_text, hex, hex_of,
    lower, opt_text, parse_i64, parse_i64_text, same, to_lower, utf8_text,
};
use crate::time::{Timestamp, rfc3339_text, to_rfc3339};

verus! {

/// How a request is encoded.
#[derive(Debug, Clone, Copy, PartialEq, Eq, Structural)]
pub enum Wire {
    Protobuf,
    Json,
}

/// The encoding that a content type names: JSON where it says so, else Protobuf.
pub fn detect_wire(content_type: &str) -> (r: Wire)
    ensures
        r == (if has_text(lower(content_type@), "json"@) {
            Wire::Json
        } else {
            Wire::Protobuf
        }),
{
    let t = to_lower(content_type);
    if contains_text(t.as_str(), "json") {
        Wire::Json
    } else {
        Wire::Protobuf
    }
}

/// Whether a text names one of the lists that a request holds.
pub open spec fn names_a_list(s: Seq<char>) -> bool {
    has_text(s, "\"resourceLogs\""@) || has_text(s, "\"resourceSpans\""@) || has_text(
        s,
        "\"resourceMetrics\""@,
    )
}

/// Whether a body looks like a request in JSON.
pub fn json_body_looks_like_otlp(body: &[u8]) -> (r: bool)
    ensures
        r == (valid_utf8(body@) && names_a_list(decode_utf8(body@))),
{
    match utf8_text(body) {
        Some(s) => {
            let t = s.as_str();
            contains_text(t, "\"resourceLogs\"") || contains_text(t, "\"resourceSpans\"")
                || contains_text(t, "\"resourceMetrics\"")
        },
        None => false,
    }
}

/// The content type of an encoding.
pub fn content_type_for(wire: Wire) -> (r: &'static str)
    ensures
        r@ == (match wire {
            Wire::Protobuf => "application/x-protobuf"@,
            Wire::Json => "application/json"@,
        }),
{
    match wire {
        Wire::Protobuf => "application/x-protobuf",
        Wire::Json => "application/json",
    }
}

/// The content type and the body of the answer to a request that was taken: an
/// empty message.
pub fn success_body(wire: Wire) -> (r: (&'static str, &'static str))
    ensures
        (r.0@, r.1@) == (match wire {
            Wire::Protobuf => ("application/x-protobuf"@, ""@),
            Wire::Json => ("application/json"@, "{}"@),
        }),
{
    match wire {
        Wire::Protobuf => ("application/x-protobuf", ""),
        Wire::Json => ("application/json", "{}"),
    }
}

// ---------------------------------------------------------------------
// The names of enumerations
// ---------------------------------------------------------------------
/// The names of the kinds of spans, by their numbers.
pub open spec fn kind_names() -> Seq<Seq<char>> {
    seq![
        "SPAN_KIND_UNSPECIFIED"@,
        "SPAN_KIND_INTERNAL"@,
        "SPAN_KIND_SERVER"@,
        "SPAN_KIND_CLIENT"@,
        "SPAN_KIND_PRODUCER"@,
        "SPAN_KIND_CONSUMER"@,
    ]
}

/// The names of the codes of a span's status, by their numbers.
pub open spec fn status_names() -> Seq<Seq<char>> {
    seq!["STATUS_CODE_UNSET"@, "STATUS_CODE_OK"@, "STATUS_CODE_ERROR"@]
}

/// The names of the ways in which points are aggregated, by their numbers.
pub open spec fn temporality_names() -> Seq<Seq<char>> {
    seq![
        "AGGREGATION_TEMPORALITY_UNSPECIFIED"@,
        "AGGREGATION_TEMPORALITY_DELTA"@,
        "AGGREGATION_TEMPORALITY_CUMULATIVE"@,
    ]
}

/// The name of a severity: four grades each of trace to fatal.
pub open spec fn severity_name(n: int) -> Seq<char> {
    let grades = seq!["TRACE"@, "DEBUG"@, "INFO"@, "WARN"@, "ERROR"@, "FATAL"@];
    "SEVERITY_NUMBER_"@ + (if n == 0 {
        "UNSPECIFIED"@
    } else if n % 4 == 1 {
        grades[(n - 1) / 4]
    } else {
        grades[(n - 1) / 4] + dec(((n - 1) % 4 + 1) as nat)
    })
}

/// The names of the severities, by their numbers.
pub open spec fn severity_names() -> Seq<Seq<char>> {
    Seq::new(25, |n: int| severity_name(n))
}

/// The name of a number.
pub open spec fn name_at(names: Seq<Seq<char>>, n: int) -> Option<Seq<char>> {
    if 0 <= n < names.len() {
        Some(names[n])
    } else {
        None
    }
}

/// The number of a name.
pub open spec fn number_of(names: Seq<Seq<char>>, text: Seq<char>) -> Option<i32> {
    if names.contains(text) {
        Some(names.index_of(text) as i32)
    } else {
        None
    }
}

/// `SpanKind::try_from` and `as_str_name`: the name of a kind of span.
#[verifier::external_body]
fn kind_name(n: i32) -> (r: Option<String>)
    ensures
        opt_text(r) == name_at(kind_names(), n as int),
{
    proto::trace::v1::span::SpanKind::try_from(n).ok().map(|k| k.as_str_name().to_string())
}

/// `StatusCode::try_from` and `as_str_name`: the name of a code.
#[verifier::external_body]
fn status_name(n: i32) -> (r: Option<String>)
    ensures
        opt_text(r) == name_at(status_names(), n as int),
{
    proto::trace::v1::status::StatusCode::try_from(n).ok().map(|c| c.as_str_name().to_string())
}

/// `SpanKind::from_str_name`: the number of a kind of span.
#[verifier::external_body]
fn kind_number(text: &str) -> (r: Option<i32>)
    ensures
        r == number_of(kind_names(), text@),
{
    proto::trace::v1::span::SpanKind::from_str_name(text).map(|k| k as i32)
}

/// `StatusCode::from_str_name`: the number of a code.
#[verifier::external_body]
fn status_number(text: &str) -> (r: Option<i32>)
    ensures
        r == number_of(status_names(), text@),
{
    proto::trace::v1::status::StatusCode::from_str_name(text).map(|c| c as i32)
}

/// `SeverityNumber::from_str_name`: the number of a severity.
#[verifier::external_body]
fn severity_number(text: &str) -> (r: Option<i32>)
    ensures
        r == number_of(severity_names(), text@),
{
    proto::logs::v1::SeverityNumber::from_str_name(text).map(|s| s as i32)
}

/// `AggregationTemporality::from_str_name`: the number of a way to aggregate.
#[verifier::external_body]
fn temporality_number(text: &str) -> (r: Option<i32>)
    ensures
        r == number_of(temporality_names(), text@),
{
    proto::metrics::v1::AggregationTemporality::from_str_name(text).map(|t| t as i32)
}

// ---------------------------------------------------------------------
// Decoding
// ---------------------------------------------------------------------
/// The number of an enumeration's name, under the keys of enumerations.
pub open spec fn enum_number(key: Seq<char>, text: Seq<char>) -> Option<i32> {
    if key == "kind"@ {
        number_of(kind_names(), text)
    } else if key == "code"@ {
        number_of(status_names(), text)
    } else if key == "severityNumber"@ {
        number_of(severity_names(), text)
    } else if key == "aggregationTemporality"@ {
        number_of(temporality_names(), text)
    } else {
        None
    }
}

/// The number of an enumeration's name, under the keys of enumerations.
pub fn enum_string_to_number(key: &str, s: &str) -> (r: Option<i32>)
    ensures
        r == enum_number(key@, s@),
{
    if same(key, "kind") {
        kind_number(s)
    } else if same(key, "code") {
        status_number(s)
    } else if same(key, "severityNumber") {
        severity_number(s)
    } else if same(key, "aggregationTemporality") {
        temporality_number(s)
    } else {
        None
    }
}

/// The number that a text under a key stands for: the name of an enumeration, or
/// an integer under `asInt`.
pub open spec fn spelled_number(key: Seq<char>, text: Seq<char>) -> Option<int> {
    match enum_number(key, text) {
        Some(n) => Some(n as int),
        None => if key == "asInt"@ {
            match parse_i64_text(text) {
                Some(i) => Some(i as int),
                None => None,
            }
        } else {
            None
        },
    }
}

/// A request in which numbers stand for the texts that mean them.
pub open spec fn normal(v: JsonV) -> JsonV
    decreases v,
{
    match v {
        JsonV::Obj(m) => JsonV::Obj(
            Map::new(
                |k: Seq<char>| m.dom().contains(k),
                |k: Seq<char>|
                    match m[k] {
                        JsonV::Str(s) => match spelled_number(k, s) {
                            Some(n) => JsonV::Num(dec_int(n)),
                            None => JsonV::Str(s),
                        },
                        other => if m.dom().contains(k) {
                            normal(m[k])
                        } else {
                            arbitrary()
                        },
                    },
            ),
        ),
        JsonV::Arr(items) => JsonV::Arr(
            Seq::new(
                items.len(),
                |i: int|
                    if 0 <= i < items.len() {
                        normal(items[i])
                    } else {
                        arbitrary()
                    },
            ),
        ),
        other => other,
    }
}

/// A member of a request, normal.
pub open spec fn normal_member(key: Seq<char>, v: JsonV) -> JsonV {
    match v {
        JsonV::Str(s) => match spelled_number(key, s) {
            Some(n) => JsonV::Num(dec_int(n)),
            None => JsonV::Str(s),
        },
        other => normal(other),
    }
}

/// Members of a request, normal.
pub open spec fn normal_members(m: Map<Seq<char>, JsonV>) -> Map<Seq<char>, JsonV> {
    Map::new(|k: Seq<char>| m.dom().contains(k), |k: Seq<char>| normal_member(k, m[k]))
}

/// Items of a request, normal.
pub open spec fn normal_items(items: Seq<JsonV>) -> Seq<JsonV> {
    Seq::new(items.len(), |i: int| normal(items[i]))
}

pub proof fn lemma_normal(v: JsonV)
    ensures
        v matches JsonV::Obj(m) ==> normal(v) == JsonV::Obj(normal_members(m)),
        v matches JsonV::Arr(items) ==> normal(v) == JsonV::Arr(normal_items(items)),
{
    match v {
        JsonV::Obj(m) => {
            let n = normal(v)->Obj_0;
            assert(n =~= normal_members(m));
        },
        JsonV::Arr(items) => {
            assert(normal(v)->Arr_0 =~= normal_items(items));
        },
        _ => {},
    }
}

/// Puts numbers for the texts that mean them.
pub fn normalize_otlp_json(v: &Json) -> (r: Json)
    ensures
        r@ == normal(v@),
    decreases v, 0nat,
{
    broadcast use lemma_json_view;

    proof {
        lemma_normal(v@);
    }
    match v {
        Json::Obj(m) => Json::Obj(normalize_members(m)),
        Json::Arr(items) => Json::Arr(normalize_items(items)),
        _ => v.clone(),
    }
}

fn normalize_members(m: &JsonMap) -> (r: JsonMap)
    ensures
        r@ == normal_members(m@),
    decreases m, 2nat,
{
    let mut out = JsonMap::new();
    let ghost all = entries_view(m.entries@);
    assert(normal_members(entry_map(all.take(0))) =~= Map::<Seq<char>, JsonV>::empty());
    for i in 0..m.entries.len()
        invariant
            all == entries_view(m.entries@),
            out@ == normal_members(entry_map(all.take(i as int))),
    {
        let ghost before = entry_map(all.take(i as int));
        let ghost e = all[i as int];
        assert(all.take(i + 1).drop_last() == all.take(i as int));
        let key = m.entries[i].0.as_str();
        let value = normalize_member(key, &m.entries[i].1);
        out.insert(key, value);
        assert(normal_members(before.insert(e.0, e.1)) =~= normal_members(before).insert(
            e.0,
            normal_member(e.0, e.1),
        ));
    }
    assert(all.take(all.len() as int) == all);
    out
}

fn normalize_member(key: &str, v: &Json) -> (r: Json)
    ensures
        r@ == normal_member(key@, v@),
    decreases v, 1nat,
{
    match v {
        Json::Str(s) => {
            if let Some(n) = enum_string_to_number(key, s.as_str()) {
                return Json::from_int(n as i64);
            }
            if same(key, "asInt") {
                if let Some(i) = parse_i64(s.as_str()) {
                    return Json::from_int(i);
                }
            }
            Json::Str(s.clone())
        },
        _ => normalize_otlp_json(v),
    }
}

fn normalize_items(items: &Vec<Json>) -> (r: Vec<Json>)
    ensures
        jsons_view(r@) == normal_items(jsons_view(items@)),
    decreases items, 2nat,
{
    let mut out: Vec<Json> = Vec::new();
    for i in 0..items.len()
        invariant
            out@.len() == i,
            forall|k: int| 0 <= k < i ==> (#[trigger] out@[k])@ == normal(items@[k]@),
    {
        out.push(normalize_otlp_json(&items[i]));
    }
    assert(jsons_view(out@) =~= normal_items(jsons_view(items@)));
    out
}

/// What a request to export spans holds, or why it cannot be read.
pub open spec fn traces_in(wire: Wire, body: Seq<u8>) -> Result<Seq<ResourceSpansV>, Seq<char>> {
    match wire {
        Wire::Protobuf => match traces_read(body) {
            Ok(v) => Ok(v),
            Err(m) => Err("otlp/traces protobuf decode failed: "@ + m),
        },
        Wire::Json => match json_read_bytes(body) {
            Err(m) => Err("otlp/traces json decode failed: "@ + m),
            Ok(v) => match traces_of_json(normal(v)) {
                Ok(v) => Ok(v),
                Err(m) => Err("otlp/traces json decode failed: "@ + m),
            },
        },
    }
}

/// Decodes a request to export spans.
pub fn decode_traces(wire: Wire, body: &[u8]) -> (r: Result<Vec<ResourceSpans>, String>)
    ensures
        traces_view(r) == traces_in(wire, body@),
{
    match wire {
        Wire::Protobuf => match read_traces(body) {
            Ok(v) => Ok(v),
            Err(m) => Err(cat("otlp/traces protobuf decode failed: ", m.as_str())),
        },
        Wire::Json => match read_json_bytes(body) {
            Err(m) => Err(cat("otlp/traces json decode failed: ", m.as_str())),
            Ok(v) => {
                let n = normalize_otlp_json(&v);
                match traces_from_json(&n) {
                    Ok(v) => Ok(v),
                    Err(m) => Err(cat("otlp/traces json decode failed: ", m.as_str())),
                }
            },
        },
    }
}

/// What a request to export log records holds, or why it cannot be read.
pub open spec fn logs_in(wire: Wire, body: Seq<u8>) -> Result<Seq<ResourceLogsV>, Seq<char>> {
    match wire {
        Wire::Protobuf => match logs_read(body) {
            Ok(v) => Ok(v),
            Err(m) => Err("otlp/logs protobuf decode failed: "@ + m),
        },
        Wire::Json => match json_read_bytes(body) {
            Err(m) => Err("otlp/logs json decode failed: "@ + m),
            Ok(v) => match logs_of_json(normal(v)) {
                Ok(v) => Ok(v),
                Err(m) => Err("otlp/logs json decode failed: "@ + m),
            },
        },
    }
}

/// Decodes a request to export log records.
pub fn decode_logs(wire: Wire, body: &[u8]) -> (r: Result<Vec<ResourceLogs>, String>)
    ensures
        logs_view(r) == logs_in(wire, body@),
{
    match wire {
        Wire::Protobuf => match read_logs(body) {
            Ok(v) => Ok(v),
            Err(m) => Err(cat("otlp/logs protobuf decode failed: ", m.as_str())),
        },
        Wire::Json => match read_json_bytes(body) {
            Err(m) => Err(cat("otlp/logs json decode failed: ", m.as_str())),
            Ok(v) => {
                let n = normalize_otlp_json(&v);
                match logs_from_json(&n) {
                    Ok(v) => Ok(v),
                    Err(m) => Err(cat("otlp/logs json decode failed: ", m.as_str())),
                }
            },
        },
    }
}

/// What a request to export metrics holds, or why it cannot be read.
pub open spec fn metrics_in(wire: Wire, body: Seq<u8>) -> Result<Seq<ResourceMetricsV>, Seq<char>> {
    match wire {
        Wire::Protobuf => match metrics_read(body) {
            Ok(v) => Ok(v),
            Err(m) => Err("otlp/metrics protobuf decode failed: "@ + m),
        },
        Wire::Json => match json_read_bytes(body) {
            Err(m) => Err("otlp/metrics json decode failed: "@ + m),
            Ok(v) => match metrics_of_json(normal(v)) {
                Ok(v) => Ok(v),
                Err(m) => Err("otlp/metrics json decode failed: "@ + m),
            },
        },
    }
}

/// Decodes a request to export metrics.
pub fn decode_metrics(wire: Wire, body: &[u8]) -> (r: Result<Vec<ResourceMetrics>, String>)
    ensures
        metrics_view(r) == metrics_in(wire, body@),
{
    match wire {
        Wire::Protobuf => match read_metrics(body) {
            Ok(v) => Ok(v),
            Err(m) => Err(cat("otlp/metrics protobuf decode failed: ", m.as_str())),
        },
        Wire::Json => match read_json_bytes(body) {
            Err(m) => Err(cat("otlp/metrics json decode failed: ", m.as_str())),
            Ok(v) => {
                let n = normalize_otlp_json(&v);
                match metrics_from_json(&n) {
                    Ok(v) => Ok(v),
                    Err(m) => Err(cat("otlp/metrics json decode failed: ", m.as_str())),
                }
            },
        },
    }
}

// ---------------------------------------------------------------------
// Values
// ---------------------------------------------------------------------
/// An integer, by its decimal text, as a floating-point number in JSON.
pub open spec fn whole_double(text: Seq<char>) -> JsonV {
    match number_bits(text) {
        Some(b) => double_value(b),
        None => JsonV::Null,
    }
}

fn json_whole_double(text: &str) -> (r: Json)
    ensures
        r@ == whole_double(text@),
{
    match read_number(text) {
        Some(b) => json_double(b),
        None => Json::Null,
    }
}

/// The value of an attribute in JSON.
pub open spec fn any_json(v: AnyV) -> JsonV
    decreases v,
{
    match v {
        AnyV::Empty => JsonV::Null,
        AnyV::Text(s) => JsonV::Str(s),
        AnyV::Bool(b) => JsonV::Bool(b),
        AnyV::Whole(i) => JsonV::Num(dec_int(i as int)),
        AnyV::Double(x) => double_value(x),
        AnyV::List(items) => JsonV::Arr(any_items(items)),
        AnyV::Dict(pairs) => JsonV::Obj(key_map(pairs)),
        AnyV::Bytes(b) => JsonV::Str(base64_text(b)),
    }
}

/// The values of a list in JSON.
pub open spec fn any_items(items: Seq<AnyV>) -> Seq<JsonV>
    decreases items,
{
    if items.len() == 0 {
        Seq::empty()
    } else {
        any_items(items.drop_last()).push(any_json(items.last()))
    }
}

/// Attributes as the members of an object. The last of two under one key counts.
pub open spec fn key_map(pairs: Seq<KeyV>) -> Map<Seq<char>, JsonV>
    decreases pairs,
{
    if pairs.len() == 0 {
        Map::empty()
    } else {
        key_map(pairs.drop_last()).insert(
            pairs.last().0,
            match pairs.last().1 {
                Some(x) => any_json(x),
                None => JsonV::Null,
            },
        )
    }
}

fn any_value_to_json(v: &AnyVal) -> (r: Json)
    ensures
        r@ == any_json(v@),
    decreases v,
{
    broadcast use {lemma_json_view, lemma_any_view};

    match v {
        AnyVal::Empty => Json::Null,
        AnyVal::Text(s) => Json::Str(s.clone()),
        AnyVal::Bool(b) => Json::Bool(*b),
        AnyVal::Whole(i) => Json::from_int(*i),
        AnyVal::Double(x) => json_double(*x),
        AnyVal::List(items) => Json::Arr(list_to_json(items)),
        AnyVal::Dict(pairs) => Json::Obj(keys_to_json(pairs)),
        AnyVal::Bytes(b) => Json::Str(to_base64(b.as_slice())),
    }
}

fn list_to_json(items: &Vec<AnyVal>) -> (r: Vec<Json>)
    ensures
        jsons_view(r@) == any_items(views(items@)),
    decreases items,
{
    let mut out: Vec<Json> = Vec::new();
    let ghost all = views(items@);
    assert(jsons_view(out@) == Seq::<JsonV>::empty());
    for i in 0..items.len()
        invariant
            all == views(items@),
            jsons_view(out@) == any_items(all.take(i as int)),
    {
        let ghost before = jsons_view(out@);
        out.push(any_value_to_json(&items[i]));
        assert(all.take(i + 1).drop_last() == all.take(i as int));
        assert(jsons_view(out@) == before.push(any_json(all[i as int])));
    }
    assert(all.take(all.len() as int) == all);
    out
}

fn keys_to_json(pairs: &Vec<KeyVal>) -> (r: JsonMap)
    ensures
        r@ == key_map(views(pairs@)),
    decreases pairs,
{
    let mut out = JsonMap::new();
    let ghost all = views(pairs@);
    for i in 0..pairs.len()
        invariant
            all == views(pairs@),
            out@ == key_map(all.take(i as int)),
    {
        let value = match &pairs[i].value {
            Some(x) => any_value_to_json(x),
            None => Json::Null,
        };
        out.insert(pairs[i].key.as_str(), value);
        assert(all.take(i + 1).drop_last() == all.take(i as int));
    }
    assert(all.take(all.len() as int) == all);
    out
}

/// The text of a log record's body: a string as it is, anything else in JSON.
pub open spec fn body_text(v: Option<AnyV>) -> Seq<char> {
    match v {
        None => Seq::empty(),
        Some(AnyV::Text(s)) => s,
        Some(other) => json_text(any_json(other)),
    }
}

fn any_value_display(v: &Option<AnyVal>) -> (r: String)
    ensures
        r@ == body_text(opt_view(*v)),
{
    match v {
        None => String::new(),
        Some(a) => match a {
            AnyVal::Text(s) => s.clone(),
            _ => {
                let j = any_value_to_json(a);
                write_json(&j)
            },
        },
    }
}

/// The point in time at a number of nanoseconds since the epoch. Zero says that
/// there is none.
pub open spec fn nanos_time(n: u64) -> Option<Timestamp> {
    if n == 0 {
        None
    } else {
        Some(
            Timestamp {
                secs: (n as int / 1_000_000_000) as i64,
                nanos: (n as int % 1_000_000_000) as u32,
            },
        )
    }
}

fn nanos_to_time(n: u64) -> (r: Option<Timestamp>)
    ensures
        r == nanos_time(n),
{
    if n == 0 {
        return None;
    }
    let r = Timestamp::new((n / 1_000_000_000) as i64, (n % 1_000_000_000) as u32);
    assert(r is Some);
    r
}

/// A time, or another where there is none.
pub open spec fn time_or(t: Option<Timestamp>, other: Timestamp) -> Timestamp {
    match t {
        Some(t) => t,
        None => other,
    }
}

/// The level of a severity by its number, or by its text where the number says
/// nothing.
pub open spec fn otel_level(number: i32, text: Seq<char>) -> Seq<char> {
    if 1 <= number <= 8 {
        "debug"@
    } else if 9 <= number <= 12 {
        "info"@
    } else if 13 <= number <= 16 {
        "warn"@
    } else if 17 <= number <= 20 {
        "error"@
    } else if 21 <= number <= 24 {
        "fatal"@
    } else if text.len() == 0 {
        "info"@
    } else {
        level_of(text)
    }
}

/// The level of a severity.
pub fn severity_to_level(number: i32, text: &str) -> (r: String)
    ensures
        r@ == otel_level(number, text@),
{
    if 1 <= number && number <= 8 {
        "debug".to_owned()
    } else if 9 <= number && number <= 12 {
        "info".to_owned()
    } else if 13 <= number && number <= 16 {
        "warn".to_owned()
    } else if 17 <= number && number <= 20 {
        "error".to_owned()
    } else if 21 <= number && number <= 24 {
        "fatal".to_owned()
    } else if text.is_empty() {
        "info".to_owned()
    } else {
        normalize_level_public(text)
    }
}

/// The name of a way to aggregate.
pub open spec fn temporality_text(t: i32) -> Seq<char> {
    if t == 1 {
        "delta"@
    } else if t == 2 {
        "cumulative"@
    } else {
        "unspecified"@
    }
}

fn temporality_str(t: i32) -> (r: &'static str)
    ensures
        r@ == temporality_text(t),
{
    if t == 1 {
        "delta"
    } else if t == 2 {
        "cumulative"
    } else {
        "unspecified"
    }
}

// ---------------------------------------------------------------------
// What all records share
// ---------------------------------------------------------------------
/// The service that attributes name, if any does by a text that is not empty.
pub open spec fn named_service(pairs: Seq<KeyV>) -> Seq<char>
    decreases pairs.len(),
{
    if pairs.len() == 0 {
        "unknown_service"@
    } else {
        match pairs[0].1 {
            Some(AnyV::Text(s)) => if pairs[0].0 == "service.name"@ && s.len() > 0 {
                s
            } else {
                named_service(pairs.drop_first())
            },
            _ => named_service(pairs.drop_first()),
        }
    }
}

/// The service of a resource.
pub open spec fn service_of_resource(r: Option<ResourceV>) -> Seq<char> {
    match r {
        Some(r) => named_service(r.attributes),
        None => "unknown_service"@,
    }
}

fn resource_service(r: &Option<Resource>) -> (s: String)
    ensures
        s@ == service_of_resource(opt_view(*r)),
{
    let x = match r {
        Some(x) => x,
        None => return "unknown_service".to_owned(),
    };
    let ghost all = views(x.attributes@);
    assert(all.subrange(0, all.len() as int) == all);
    for i in 0..x.attributes.len()
        invariant
            all == views(x.attributes@),
            service_of_resource(opt_view(*r)) == named_service(all),
            named_service(all.subrange(i as int, all.len() as int)) == named_service(all),
    {
        let ghost left = all.subrange(i as int, all.len() as int);
        assert(left.drop_first() == all.subrange(i + 1, all.len() as int));
        assert(left[0] == x.attributes@[i as int]@);
        if same(x.attributes[i].key.as_str(), "service.name") {
            if let Some(AnyVal::Text(s)) = &x.attributes[i].value {
                if !s.as_str().is_empty() {
                    return s.clone();
                }
            }
        }
    }
    "unknown_service".to_owned()
}

/// The attributes that a resource gives its records: all but its service and those
/// without a key.
pub open spec fn resource_attrs(r: Option<ResourceV>) -> Map<Seq<char>, JsonV> {
    match r {
        Some(r) => key_map(r.attributes).remove("service.name"@).remove(Seq::empty()),
        None => Map::empty(),
    }
}

/// The attributes that a resource and a scope give their records.
pub open spec fn shared_attrs(r: Option<ResourceV>, s: Option<ScopeV>) -> Map<Seq<char>, JsonV> {
    let base = resource_attrs(r);
    match s {
        None => base,
        Some(s) => unless_empty(
            unless_empty(base, "otel_scope_name"@, s.name),
            "otel_scope_version"@,
            s.version,
        ).union_prefer_right(key_map(s.attributes)),
    }
}

/// A text under a name, unless it is empty.
pub open spec fn unless_empty(
    m: Map<Seq<char>, JsonV>,
    name: Seq<char>,
    text: Seq<char>,
) -> Map<Seq<char>, JsonV> {
    if text.len() > 0 {
        m.insert(name, JsonV::Str(text))
    } else {
        m
    }
}

pub fn put_unless_empty(m: &mut JsonMap, name: &str, text: &str)
    ensures
        final(m)@ == unless_empty(old(m)@, name@, text@),
{
    if !text.is_empty() {
        m.insert_str(name, text);
    }
}

fn base_attrs(r: &Option<Resource>, s: &Option<Scope>) -> (m: JsonMap)
    ensures
        m@ == shared_attrs(opt_view(*r), opt_view(*s)),
{
    let mut m = match r {
        Some(r) => keys_to_json(&r.attributes),
        None => JsonMap::new(),
    };
    let none = String::new();
    m.remove("service.name");
    m.remove(none.as_str());
    assert(m@ =~= resource_attrs(opt_view(*r)));
    if let Some(s) = s {
        put_unless_empty(&mut m, "otel_scope_name", s.name.as_str());
        put_unless_empty(&mut m, "otel_scope_version", s.version.as_str());
        m.extend(&keys_to_json(&s.attributes));
    }
    m
}

/// The standard fields of a record.
pub open spec fn otel_base(
    service: Seq<char>,
    level: Seq<char>,
    msg: Seq<char>,
    ts: Timestamp,
) -> Map<Seq<char>, JsonV> {
    Map::<Seq<char>, JsonV>::empty().insert("service"@, JsonV::Str(service)).insert(
        "level"@,
        JsonV::Str(level),
    ).insert("msg"@, JsonV::Str(msg)).insert("ts"@, JsonV::Str(rfc3339_text(ts.secs, ts.nanos)))
}

fn base_record(service: &str, level: &str, msg: &str, ts: Timestamp) -> (m: JsonMap)
    ensures
        m@ == otel_base(service@, level@, msg@, ts),
{
    let mut m = JsonMap::new();
    m.insert_str("service", service);
    m.insert_str("level", level);
    m.insert_str("msg", msg);
    m.insert("ts", Json::Str(to_rfc3339(ts)));
    m
}

/// Whether records were added to a list, one for each envelope.
pub open spec fn added(
    before: Seq<RawRecord>,
    after: Seq<RawRecord>,
    now: Timestamp,
    peer: Seq<char>,
    protocol: Protocol,
    envelopes: Seq<Map<Seq<char>, JsonV>>,
) -> bool {
    &&& after.len() == before.len() + envelopes.len()
    &&& after.take(before.len() as int) == before
    &&& forall|i: int|
        before.len() <= i < after.len() ==> carries(
            #[trigger] after[i],
            now,
            peer,
            protocol,
            envelopes[i - before.len()],
        )
}

proof fn lemma_added(
    a: Seq<RawRecord>,
    b: Seq<RawRecord>,
    c: Seq<RawRecord>,
    now: Timestamp,
    peer: Seq<char>,
    protocol: Protocol,
    e: Seq<Map<Seq<char>, JsonV>>,
    f: Seq<Map<Seq<char>, JsonV>>,
)
    requires
        added(a, b, now, peer, protocol, e),
        added(b, c, now, peer, protocol, f),
    ensures
        added(a, c, now, peer, protocol, e + f),
{
    assert(c.take(a.len() as int) =~= c.take(b.len() as int).take(a.len() as int));
    assert forall|i: int| a.len() <= i < c.len() implies carries(
        #[trigger] c[i],
        now,
        peer,
        protocol,
        (e + f)[i - a.len()],
    ) by {
        if i < b.len() {
            assert(c.take(b.len() as int)[i] == b[i]);
        }
    }
}

/// Lists, one after the other.
pub open spec fn chain<T>(lists: Seq<Seq<T>>) -> Seq<T>
    decreases lists.len(),
{
    if lists.len() == 0 {
        Seq::empty()
    } else {
        chain(lists.drop_last()) + lists.last()
    }
}

// ---------------------------------------------------------------------
// Spans
// ---------------------------------------------------------------------
/// How long a span took, in milliseconds: its nanoseconds as a floating-point
/// number over a million. A span that has not ended took no time.
pub open spec fn span_duration(start: u64, end: u64) -> JsonV {
    if end >= start && end > 0 {
        match float_bits(dec(rounded((end - start) as nat)) + "e-6"@) {
            Some(b) => double_value(b),
            None => JsonV::Null,
        }
    } else {
        double_value(0)
    }
}

fn duration_json(start: u64, end: u64) -> (r: Json)
    ensures
        r@ == span_duration(start, end),
{
    if end >= start && end > 0 {
        let nanos = dec_of_wide(round_to_double((end - start) as u128));
        let text = cat(nanos.as_str(), "e-6");
        match read_float(text.as_str()) {
            Some(b) => json_double(b),
            None => Json::Null,
        }
    } else {
        json_double(0)
    }
}

/// An event of a span in JSON.
pub open spec fn event_json(e: SpanEventV) -> JsonV {
    JsonV::Obj(
        Map::<Seq<char>, JsonV>::empty().insert("name"@, JsonV::Str(e.name)).insert(
            "time_unix_nano"@,
            JsonV::Str(dec(e.time_unix_nano as nat)),
        ).insert("attributes"@, JsonV::Obj(key_map(e.attributes).remove(Seq::empty()))),
    )
}

/// The events of a span in JSON.
pub open spec fn events_json(events: Seq<SpanEventV>) -> Seq<JsonV> {
    Seq::new(events.len(), |i: int| event_json(events[i]))
}

fn event_to_json(e: &SpanEvent) -> (r: Json)
    ensures
        r@ == event_json(e@),
{
    broadcast use lemma_json_view;

    let mut attrs = keys_to_json(&e.attributes);
    let none = String::new();
    attrs.remove(none.as_str());
    let mut m = JsonMap::new();
    m.insert("name", Json::Str(e.name.clone()));
    m.insert("time_unix_nano", Json::Str(dec_of(e.time_unix_nano)));
    m.insert("attributes", Json::Obj(attrs));
    Json::Obj(m)
}

fn events_to_json(events: &Vec<SpanEvent>) -> (r: Vec<Json>)
    ensures
        jsons_view(r@) == events_json(views(events@)),
{
    let mut out: Vec<Json> = Vec::new();
    for i in 0..events.len()
        invariant
            out@.len() == i,
            forall|k: int| 0 <= k < i ==> (#[trigger] out@[k])@ == event_json(events@[k]@),
    {
        out.push(event_to_json(&events[i]));
    }
    assert(jsons_view(out@) =~= events_json(views(events@)));
    out
}

/// The name of a status code, or its number where it has none.
pub open spec fn status_text(code: i32) -> Seq<char> {
    match name_at(status_names(), code as int) {
        Some(t) => t,
        None => dec_int(code as int),
    }
}

/// What a span carries besides its standard fields.
pub open spec fn span_attrs(base: Map<Seq<char>, JsonV>, s: OtelSpanV) -> Map<Seq<char>, JsonV> {
    let keyed = unless_empty(
        base.union_prefer_right(key_map(s.attributes)),
        "parent_span_id"@,
        hex(s.parent_span_id),
    );
    let kinded = match name_at(kind_names(), s.kind as int) {
        Some(t) => keyed.insert("span_kind"@, JsonV::Str(t)),
        None => keyed,
    };
    let ended = match s.status {
        Some(st) => unless_empty(
            kinded.insert("status_code"@, JsonV::Str(status_text(st.code))),
            "status_message"@,
            st.message,
        ),
        None => kinded,
    };
    let stated = unless_empty(ended, "trace_state"@, s.trace_state);
    if s.events.len() > 0 {
        stated.insert("events"@, JsonV::Arr(events_json(s.events)))
    } else {
        stated
    }
}

/// The envelope of a span.
pub open spec fn span_envelope(
    service: Seq<char>,
    base: Map<Seq<char>, JsonV>,
    s: OtelSpanV,
    now: Timestamp,
) -> Map<Seq<char>, JsonV> {
    let level = match s.status {
        Some(st) => if st.code == 2 {
            "error"@
        } else {
            "info"@
        },
        None => "info"@,
    };
    unless_empty(
        unless_empty(
            otel_base(
                service,
                level,
                s.name,
                time_or(nanos_time(s.start_time_unix_nano), now),
            ).insert(
                "duration_ms"@,
                span_duration(s.start_time_unix_nano, s.end_time_unix_nano),
            ),
            "trace_id"@,
            hex(s.trace_id),
        ),
        "span_id"@,
        hex(s.span_id),
    ).union_prefer_right(span_attrs(base, s))
}

fn attrs_of_span(base: &JsonMap, s: &OtelSpan) -> (m: JsonMap)
    ensures
        m@ == span_attrs(base@, s@),
{
    broadcast use lemma_json_view;

    let mut m = base.clone();
    m.extend(&keys_to_json(&s.attributes));
    let parent = hex_of(s.parent_span_id.as_slice());
    put_unless_empty(&mut m, "parent_span_id", parent.as_str());
    if let Some(t) = kind_name(s.kind) {
        m.insert("span_kind", Json::Str(t));
    }
    if let Some(st) = &s.status {
        let t = match status_name(st.code) {
            Some(t) => t,
            None => dec_of_int(st.code as i64),
        };
        m.insert("status_code", Json::Str(t));
        put_unless_empty(&mut m, "status_message", st.message.as_str());
    }
    put_unless_empty(&mut m, "trace_state", s.trace_state.as_str());
    if s.events.len() > 0 {
        m.insert("events", Json::Arr(events_to_json(&s.events)));
    }
    m
}

fn time_else(t: Option<Timestamp>, other: Timestamp) -> (r: Timestamp)
    ensures
        r == time_or(t, other),
{
    match t {
        Some(t) => t,
        None => other,
    }
}

fn span_to_envelope(service: &str, base: &JsonMap, s: &OtelSpan, now: Timestamp) -> (m: JsonMap)
    ensures
        m@ == span_envelope(service@, base@, s@, now),
{
    let level = match &s.status {
        Some(st) => if st.code == 2 {
            "error"
        } else {
            "info"
        },
        None => "info",
    };
    let ts = time_else(nanos_to_time(s.start_time_unix_nano), now);
    let mut m = base_record(service, level, s.name.as_str(), ts);
    m.insert("duration_ms", duration_json(s.start_time_unix_nano, s.end_time_unix_nano));
    let trace = hex_of(s.trace_id.as_slice());
    put_unless_empty(&mut m, "trace_id", trace.as_str());
    let span = hex_of(s.span_id.as_slice());
    put_unless_empty(&mut m, "span_id", span.as_str());
    m.extend(&attrs_of_span(base, s));
    m
}

/// The envelopes of the spans of a scope.
pub open spec fn scope_trace_envelopes(
    r: Option<ResourceV>,
    s: ScopeSpansV,
    now: Timestamp,
) -> Seq<Map<Seq<char>, JsonV>> {
    Seq::new(
        s.spans.len(),
        |i: int| span_envelope(service_of_resource(r), shared_attrs(r, s.scope), s.spans[i], now),
    )
}

/// The envelopes of the spans of a resource.
pub open spec fn resource_trace_envelopes(r: ResourceSpansV, now: Timestamp) -> Seq<Map<Seq<char>, JsonV>> {
    chain(
        Seq::new(
            r.scope_spans.len(),
            |i: int| scope_trace_envelopes(r.resource, r.scope_spans[i], now),
        ),
    )
}

/// The envelopes of the spans of a request.
pub open spec fn trace_envelopes(req: Seq<ResourceSpansV>, now: Timestamp) -> Seq<Map<Seq<char>, JsonV>> {
    chain(Seq::new(req.len(), |i: int| resource_trace_envelopes(req[i], now)))
}

fn add_trace_scope(
    r: &Option<Resource>,
    s: &ScopeSpans,
    now: Timestamp,
    peer: &str,
    out: &mut Vec<RawRecord>,
)
    ensures
        added(
            old(out)@,
            final(out)@,
            now,
            peer@,
            Protocol::OtlpSpan,
            scope_trace_envelopes(opt_view(*r), s@, now),
        ),
{
    let service = resource_service(r);
    let base = base_attrs(r, &s.scope);
    let ghost start = out@;
    let ghost all = scope_trace_envelopes(opt_view(*r), s@, now);
    assert(out@.take(start.len() as int) =~= start);
    for i in 0..s.spans.len()
        invariant
            service@ == service_of_resource(opt_view(*r)),
            base@ == shared_attrs(opt_view(*r), opt_view(s.scope)),
            all == scope_trace_envelopes(opt_view(*r), s@, now),
            all.len() == s.spans@.len(),
            added(start, out@, now, peer@, Protocol::OtlpSpan, all.take(i as int)),
    {
        let ghost before = out@;
        let envelope = span_to_envelope(service.as_str(), &base, &s.spans[i], now);
        out.push(envelope_record(now, peer, Protocol::OtlpSpan, envelope));
        proof {
            assert(all[i as int] == envelope@);
            assert(out@.take(before.len() as int) =~= before);
            assert(all.take(i + 1) =~= all.take(i as int) + seq![all[i as int]]);
            assert(added(before, out@, now, peer@, Protocol::OtlpSpan, seq![all[i as int]]));
            lemma_added(
                start,
                before,
                out@,
                now,
                peer@,
                Protocol::OtlpSpan,
                all.take(i as int),
                seq![all[i as int]],
            );
        }
    }
    assert(all.take(all.len() as int) == all);
}

fn add_trace_resource(r: &ResourceSpans, now: Timestamp, peer: &str, out: &mut Vec<RawRecord>)
    ensures
        added(
            old(out)@,
            final(out)@,
            now,
            peer@,
            Protocol::OtlpSpan,
            resource_trace_envelopes(r@, now),
        ),
{
    let ghost start = out@;
    let ghost lists = Seq::new(
        r@.scope_spans.len(),
        |i: int| scope_trace_envelopes(r@.resource, r@.scope_spans[i], now),
    );
    assert(out@.take(start.len() as int) =~= start);
    for i in 0..r.scope_spans.len()
        invariant
            lists == Seq::new(
                r@.scope_spans.len(),
                |i: int| scope_trace_envelopes(r@.resource, r@.scope_spans[i], now),
            ),
            added(start, out@, now, peer@, Protocol::OtlpSpan, chain(lists.take(i as int))),
    {
        let ghost before = out@;
        add_trace_scope(&r.resource, &r.scope_spans[i], now, peer, out);
        proof {
            assert(lists.take(i + 1).drop_last() == lists.take(i as int));
            lemma_added(
                start,
                before,
                out@,
                now,
                peer@,
                Protocol::OtlpSpan,
                chain(lists.take(i as int)),
                lists[i as int],
            );
        }
    }
    assert(lists.take(lists.len() as int) == lists);
}

/// Maps the spans of a request to records.
pub fn traces_to_records(req: &[ResourceSpans], now: Timestamp, peer: &str) -> (out: Vec<
    RawRecord,
>)
    ensures
        added(
            Seq::empty(),
            out@,
            now,
            peer@,
            Protocol::OtlpSpan,
            trace_envelopes(views(req@), now),
        ),
{
    let mut out: Vec<RawRecord> = Vec::new();
    let ghost start = out@;
    let ghost lists = Seq::new(
        req@.len(),
        |i: int| resource_trace_envelopes(views(req@)[i], now),
    );
    assert(out@.take(0) =~= start);
    for i in 0..req.len()
        invariant
            start == Seq::<RawRecord>::empty(),
            lists == Seq::new(
                req@.len(),
                |i: int| resource_trace_envelopes(views(req@)[i], now),
            ),
            added(start, out@, now, peer@, Protocol::OtlpSpan, chain(lists.take(i as int))),
    {
        let ghost before = out@;
        add_trace_resource(&req[i], now, peer, &mut out);
        proof {
            assert(lists.take(i + 1).drop_last() == lists.take(i as int));
            lemma_added(
                start,
                before,
                out@,
                now,
                peer@,
                Protocol::OtlpSpan,
                chain(lists.take(i as int)),
                lists[i as int],
            );
        }
    }
    assert(lists.take(lists.len() as int) == lists);
    assert(lists =~= Seq::new(
        views(req@).len(),
        |i: int| resource_trace_envelopes(views(req@)[i], now),
    ));
    out
}

// ---------------------------------------------------------------------
// Log records
// ---------------------------------------------------------------------
/// The envelope of a log record.
pub open spec fn log_record_envelope(
    service: Seq<char>,
    base: Map<Seq<char>, JsonV>,
    l: OtelLogV,
    now: Timestamp,
) -> Map<Seq<char>, JsonV> {
    let ts = time_or(
        nanos_time(l.time_unix_nano),
        time_or(nanos_time(l.observed_time_unix_nano), now),
    );
    unless_empty(
        unless_empty(
            otel_base(
                service,
                otel_level(l.severity_number, l.severity_text),
                body_text(l.body),
                ts,
            ),
            "trace_id"@,
            hex(l.trace_id),
        ),
        "span_id"@,
        hex(l.span_id),
    ).union_prefer_right(
        unless_empty(
            unless_empty(
                base.union_prefer_right(key_map(l.attributes)),
                "severity_text"@,
                l.severity_text,
            ),
            "event_name"@,
            l.event_name,
        ),
    )
}

fn log_to_envelope(service: &str, base: &JsonMap, l: &OtelLog, now: Timestamp) -> (m: JsonMap)
    ensures
        m@ == log_record_envelope(service@, base@, l@, now),
{
    let ts = time_else(
        nanos_to_time(l.time_unix_nano),
        time_else(nanos_to_time(l.observed_time_unix_nano), now),
    );
    let level = severity_to_level(l.severity_number, l.severity_text.as_str());
    let msg = any_value_display(&l.body);
    let mut m = base_record(service, level.as_str(), msg.as_str(), ts);
    let trace = hex_of(l.trace_id.as_slice());
    put_unless_empty(&mut m, "trace_id", trace.as_str());
    let span = hex_of(l.span_id.as_slice());
    put_unless_empty(&mut m, "span_id", span.as_str());
    let mut attrs = base.clone();
    attrs.extend(&keys_to_json(&l.attributes));
    put_unless_empty(&mut attrs, "severity_text", l.severity_text.as_str());
    put_unless_empty(&mut attrs, "event_name", l.event_name.as_str());
    m.extend(&attrs);
    m
}

/// The envelopes of the log records of a scope.
pub open spec fn scope_log_envelopes(
    r: Option<ResourceV>,
    s: ScopeLogsV,
    now: Timestamp,
) -> Seq<Map<Seq<char>, JsonV>> {
    Seq::new(
        s.log_records.len(),
        |i: int| log_record_envelope(service_of_resource(r), shared_attrs(r, s.scope), s.log_records[i], now),
    )
}

/// The envelopes of the log records of a resource.
pub open spec fn resource_log_envelopes(r: ResourceLogsV, now: Timestamp) -> Seq<Map<Seq<char>, JsonV>> {
    chain(
        Seq::new(
            r.scope_logs.len(),
            |i: int| scope_log_envelopes(r.resource, r.scope_logs[i], now),
        ),
    )
}

/// The envelopes of the log records of a request.
pub open spec fn log_envelopes(req: Seq<ResourceLogsV>, now: Timestamp) -> Seq<Map<Seq<char>, JsonV>> {
    chain(Seq::new(req.len(), |i: int| resource_log_envelopes(req[i], now)))
}

fn add_log_scope(
    r: &Option<Resource>,
    s: &ScopeLogs,
    now: Timestamp,
    peer: &str,
    out: &mut Vec<RawRecord>,
)
    ensures
        added(
            old(out)@,
            final(out)@,
            now,
            peer@,
            Protocol::OtlpLog,
            scope_log_envelopes(opt_view(*r), s@, now),
        ),
{
    let service = resource_service(r);
    let base = base_attrs(r, &s.scope);
    let ghost start = out@;
    let ghost all = scope_log_envelopes(opt_view(*r), s@, now);
    assert(out@.take(start.len() as int) =~= start);
    for i in 0..s.log_records.len()
        invariant
            service@ == service_of_resource(opt_view(*r)),
            base@ == shared_attrs(opt_view(*r), opt_view(s.scope)),
            all == scope_log_envelopes(opt_view(*r), s@, now),
            all.len() == s.log_records@.len(),
            added(start, out@, now, peer@, Protocol::OtlpLog, all.take(i as int)),
    {
        let ghost before = out@;
        let envelope = log_to_envelope(service.as_str(), &base, &s.log_records[i], now);
        out.push(envelope_record(now, peer, Protocol::OtlpLog, envelope));
        proof {
            assert(all[i as int] == envelope@);
            assert(out@.take(before.len() as int) =~= before);
            assert(all.take(i + 1) =~= all.take(i as int) + seq![all[i as int]]);
            assert(added(before, out@, now, peer@, Protocol::OtlpLog, seq![all[i as int]]));
            lemma_added(
                start,
                before,
                out@,
                now,
                peer@,
                Protocol::OtlpLog,
                all.take(i as int),
                seq![all[i as int]],
            );
        }
    }
    assert(all.take(all.len() as int) == all);
}

fn add_log_resource(r: &ResourceLogs, now: Timestamp, peer: &str, out: &mut Vec<RawRecord>)
    ensures
        added(
            old(out)@,
            final(out)@,
            now,
            peer@,
            Protocol::OtlpLog,
            resource_log_envelopes(r@, now),
        ),
{
    let ghost start = out@;
    let ghost lists = Seq::new(
        r@.scope_logs.len(),
        |i: int| scope_log_envelopes(r@.resource, r@.scope_logs[i], now),
    );
    assert(out@.take(start.len() as int) =~= start);
    for i in 0..r.scope_logs.len()
        invariant
            lists == Seq::new(
                r@.scope_logs.len(),
                |i: int| scope_log_envelopes(r@.resource, r@.scope_logs[i], now),
            ),
            added(start, out@, now, peer@, Protocol::OtlpLog, chain(lists.take(i as int))),
    {
        let ghost before = out@;
        add_log_scope(&r.resource, &r.scope_logs[i], now, peer, out);
        proof {
            assert(lists.take(i + 1).drop_last() == lists.take(i as int));
            lemma_added(
                start,
                before,
                out@,
                now,
                peer@,
                Protocol::OtlpLog,
                chain(lists.take(i as int)),
                lists[i as int],
            );
        }
    }
    assert(lists.take(lists.len() as int) == lists);
}

/// Maps the log records of a request to records.
pub fn logs_to_records(req: &[ResourceLogs], now: Timestamp, peer: &str) -> (out: Vec<
    RawRecord,
>)
    ensures
        added(
            Seq::empty(),
            out@,
            now,
            peer@,
            Protocol::OtlpLog,
            log_envelopes(views(req@), now),
        ),
{
    let mut out: Vec<RawRecord> = Vec::new();
    let ghost start = out@;
    let ghost lists = Seq::new(
        req@.len(),
        |i: int| resource_log_envelopes(views(req@)[i], now),
    );
    assert(out@.take(0) =~= start);
    for i in 0..req.len()
        invariant
            start == Seq::<RawRecord>::empty(),
            lists == Seq::new(
                req@.len(),
                |i: int| resource_log_envelopes(views(req@)[i], now),
            ),
            added(start, out@, now, peer@, Protocol::OtlpLog, chain(lists.take(i as int))),
    {
        let ghost before = out@;
        add_log_resource(&req[i], now, peer, &mut out);
        proof {
            assert(lists.take(i + 1).drop_last() == lists.take(i as int));
            lemma_added(
                start,
                before,
                out@,
                now,
                peer@,
                Protocol::OtlpLog,
                chain(lists.take(i as int)),
                lists[i as int],
            );
        }
    }
    assert(lists.take(lists.len() as int) == lists);
    assert(lists =~= Seq::new(
        views(req@).len(),
        |i: int| resource_log_envelopes(views(req@)[i], now),
    ));
    out
}

// ---------------------------------------------------------------------
// Metrics
// ---------------------------------------------------------------------
/// What every point of a metric carries: its unit, its description and metadata.
pub open spec fn metric_common(m: Map<Seq<char>, JsonV>, x: OtelMetricV) -> Map<Seq<char>, JsonV> {
    unless_empty(
        unless_empty(m, "unit"@, x.unit),
        "description"@,
        x.description,
    ).union_prefer_right(key_map(x.metadata))
}

fn put_common(m: &mut JsonMap, x: &OtelMetric)
    ensures
        final(m)@ == metric_common(old(m)@, x@),
{
    put_unless_empty(m, "unit", x.unit.as_str());
    put_unless_empty(m, "description", x.description.as_str());
    m.extend(&keys_to_json(&x.metadata));
}

/// The number of a point in JSON; zero where there is none.
pub open spec fn point_number(v: Option<NumberValue>) -> JsonV {
    match v {
        Some(NumberValue::AsDouble(b)) => double_value(b),
        Some(NumberValue::AsInt(i)) => whole_double(dec_int(i as int)),
        None => double_value(0),
    }
}

fn number_point_value(v: Option<NumberValue>) -> (r: Json)
    ensures
        r@ == point_number(v),
{
    match v {
        Some(NumberValue::AsDouble(b)) => json_double(b),
        Some(NumberValue::AsInt(i)) => {
            let t = dec_of_int(i);
            json_whole_double(t.as_str())
        },
        None => json_double(0),
    }
}

/// A number under a name, if there is one.
pub open spec fn with_double(
    m: Map<Seq<char>, JsonV>,
    name: Seq<char>,
    bits: Option<u64>,
) -> Map<Seq<char>, JsonV> {
    match bits {
        Some(b) => m.insert(name, double_value(b)),
        None => m,
    }
}

fn put_double(m: &mut JsonMap, name: &str, bits: Option<u64>)
    ensures
        final(m)@ == with_double(old(m)@, name@, bits),
{
    if let Some(b) = bits {
        m.insert(name, json_double(b));
    }
}

/// What the point of a histogram carries. Its value is its sum, else its count.
pub open spec fn histogram_attrs(m: Map<Seq<char>, JsonV>, p: HistogramPointV) -> Map<
    Seq<char>,
    JsonV,
> {
    let counted = m.union_prefer_right(key_map(p.attributes)).insert(
        "hist_count"@,
        JsonV::Str(dec(p.count as nat)),
    );
    let summed = match p.sum {
        Some(b) => counted.insert("value"@, double_value(b)).insert("hist_sum"@, double_value(b)),
        None => counted.insert("value"@, whole_double(dec(p.count as nat))),
    };
    with_double(with_double(summed, "hist_min"@, p.min), "hist_max"@, p.max)
}

fn histogram_point_attrs(m: &mut JsonMap, p: &HistogramPoint)
    ensures
        final(m)@ == histogram_attrs(old(m)@, p@),
{
    m.extend(&keys_to_json(&p.attributes));
    let count = dec_of(p.count);
    m.insert_str("hist_count", count.as_str());
    match p.sum {
        Some(b) => {
            m.insert("value", json_double(b));
            m.insert("hist_sum", json_double(b));
        },
        None => m.insert("value", json_whole_double(count.as_str())),
    }
    put_double(m, "hist_min", p.min);
    put_double(m, "hist_max", p.max);
}

/// Whether a bit pattern is that of zero, of either sign.
pub open spec fn is_zero(bits: u64) -> bool {
    bits == 0 || bits == 0x8000_0000_0000_0000
}

/// What the point of a summary carries. Its value is its sum, else its count.
pub open spec fn summary_attrs(m: Map<Seq<char>, JsonV>, p: SummaryPointV) -> Map<
    Seq<char>,
    JsonV,
> {
    let counted = m.union_prefer_right(key_map(p.attributes)).insert(
        "summary_count"@,
        JsonV::Str(dec(p.count as nat)),
    );
    if is_zero(p.sum) {
        counted.insert("value"@, whole_double(dec(p.count as nat)))
    } else {
        counted.insert("value"@, double_value(p.sum)).insert("summary_sum"@, double_value(p.sum))
    }
}

fn summary_point_attrs(m: &mut JsonMap, p: &SummaryPoint)
    ensures
        final(m)@ == summary_attrs(old(m)@, p@),
{
    m.extend(&keys_to_json(&p.attributes));
    let count = dec_of(p.count);
    m.insert_str("summary_count", count.as_str());
    if p.sum == 0 || p.sum == 0x8000_0000_0000_0000 {
        m.insert("value", json_whole_double(count.as_str()));
    } else {
        m.insert("value", json_double(p.sum));
        m.insert("summary_sum", json_double(p.sum));
    }
}

/// The attributes of a point, and its number as the value.
pub open spec fn number_attrs(m: Map<Seq<char>, JsonV>, p: NumberPointV) -> Map<
    Seq<char>,
    JsonV,
> {
    m.union_prefer_right(key_map(p.attributes)).insert("value"@, point_number(p.value))
}

/// The envelope of a point with all that it carries.
pub open spec fn point_envelope(
    service: Seq<char>,
    name: Seq<char>,
    attrs: Map<Seq<char>, JsonV>,
    time: u64,
    now: Timestamp,
) -> Map<Seq<char>, JsonV> {
    otel_base(service, "info"@, name, time_or(nanos_time(time), now)).union_prefer_right(attrs)
}

/// A kind of metric, and how it aggregates.
pub open spec fn typed(
    base: Map<Seq<char>, JsonV>,
    kind: Seq<char>,
    temporality: Option<i32>,
) -> Map<Seq<char>, JsonV> {
    let m = base.insert("metric_type"@, JsonV::Str(kind));
    match temporality {
        Some(t) => m.insert("aggregation_temporality"@, JsonV::Str(temporality_text(t))),
        None => m,
    }
}

fn put_type(base: &JsonMap, kind: &str, temporality: Option<i32>) -> (m: JsonMap)
    ensures
        m@ == typed(base@, kind@, temporality),
{
    let mut m = base.clone();
    m.insert_str("metric_type", kind);
    if let Some(t) = temporality {
        m.insert_str("aggregation_temporality", temporality_str(t));
    }
    m
}

/// What all points of a metric carry.
pub open spec fn metric_attrs(base: Map<Seq<char>, JsonV>, x: OtelMetricV) -> Map<
    Seq<char>,
    JsonV,
> {
    metric_common(
        match x.data {
            Some(MetricDataV::Gauge(_)) => typed(base, "gauge"@, None),
            Some(MetricDataV::Sum(s)) => typed(
                base,
                "sum"@,
                Some(s.aggregation_temporality),
            ).insert("is_monotonic"@, JsonV::Bool(s.is_monotonic)),
            Some(MetricDataV::Histogram(h)) => typed(
                base,
                "histogram"@,
                Some(h.aggregation_temporality),
            ),
            Some(MetricDataV::ExponentialHistogram(h)) => typed(
                base,
                "exponential_histogram"@,
                Some(h.aggregation_temporality),
            ),
            Some(MetricDataV::Summary(_)) => typed(base, "summary"@, None),
            None => base,
        },
        x,
    )
}

/// The envelopes of points of numbers.
pub open spec fn number_envelopes(
    service: Seq<char>,
    name: Seq<char>,
    m: Map<Seq<char>, JsonV>,
    points: Seq<NumberPointV>,
    now: Timestamp,
) -> Seq<Map<Seq<char>, JsonV>> {
    Seq::new(
        points.len(),
        |i: int|
            point_envelope(
                service,
                name,
                number_attrs(m, points[i]),
                points[i].time_unix_nano,
                now,
            ),
    )
}

/// The envelopes of points of histograms.
pub open spec fn histogram_envelopes(
    service: Seq<char>,
    name: Seq<char>,
    m: Map<Seq<char>, JsonV>,
    points: Seq<HistogramPointV>,
    now: Timestamp,
) -> Seq<Map<Seq<char>, JsonV>> {
    Seq::new(
        points.len(),
        |i: int|
            point_envelope(
                service,
                name,
                histogram_attrs(m, points[i]),
                points[i].time_unix_nano,
                now,
            ),
    )
}

/// The envelopes of points of summaries.
pub open spec fn summary_envelopes(
    service: Seq<char>,
    name: Seq<char>,
    m: Map<Seq<char>, JsonV>,
    points: Seq<SummaryPointV>,
    now: Timestamp,
) -> Seq<Map<Seq<char>, JsonV>> {
    Seq::new(
        points.len(),
        |i: int|
            point_envelope(
                service,
                name,
                summary_attrs(m, points[i]),
                points[i].time_unix_nano,
                now,
            ),
    )
}

/// The envelopes of a metric, one for each of its points.
pub open spec fn metric_point_envelopes(
    service: Seq<char>,
    base: Map<Seq<char>, JsonV>,
    x: OtelMetricV,
    now: Timestamp,
) -> Seq<Map<Seq<char>, JsonV>> {
    let m = metric_attrs(base, x);
    match x.data {
        Some(MetricDataV::Gauge(p)) => number_envelopes(service, x.name, m, p, now),
        Some(MetricDataV::Sum(s)) => number_envelopes(service, x.name, m, s.data_points, now),
        Some(MetricDataV::Histogram(h)) => histogram_envelopes(
            service,
            x.name,
            m,
            h.data_points,
            now,
        ),
        Some(MetricDataV::ExponentialHistogram(h)) => histogram_envelopes(
            service,
            x.name,
            m,
            h.data_points,
            now,
        ),
        Some(MetricDataV::Summary(p)) => summary_envelopes(service, x.name, m, p, now),
        None => Seq::empty(),
    }
}

fn push_point(
    service: &str,
    name: &str,
    attrs: &JsonMap,
    time: u64,
    now: Timestamp,
    peer: &str,
    out: &mut Vec<RawRecord>,
)
    ensures
        added(
            old(out)@,
            final(out)@,
            now,
            peer@,
            Protocol::OtlpMetric,
            seq![point_envelope(service@, name@, attrs@, time, now)],
        ),
{
    let ghost before = out@;
    let mut m = base_record(service, "info", name, time_else(nanos_to_time(time), now));
    m.extend(attrs);
    out.push(envelope_record(now, peer, Protocol::OtlpMetric, m));
    assert(out@.take(before.len() as int) =~= before);
}

fn add_numbers(
    service: &str,
    name: &str,
    m: &JsonMap,
    points: &Vec<NumberPoint>,
    now: Timestamp,
    peer: &str,
    out: &mut Vec<RawRecord>,
)
    ensures
        added(
            old(out)@,
            final(out)@,
            now,
            peer@,
            Protocol::OtlpMetric,
            number_envelopes(service@, name@, m@, views(points@), now),
        ),
{
    let ghost start = out@;
    let ghost all = number_envelopes(service@, name@, m@, views(points@), now);
    assert(out@.take(start.len() as int) =~= start);
    for i in 0..points.len()
        invariant
            all == number_envelopes(service@, name@, m@, views(points@), now),
            added(start, out@, now, peer@, Protocol::OtlpMetric, all.take(i as int)),
    {
        let ghost before = out@;
        let mut attrs = m.clone();
        attrs.extend(&keys_to_json(&points[i].attributes));
        attrs.insert("value", number_point_value(points[i].value));
        push_point(service, name, &attrs, points[i].time_unix_nano, now, peer, out);
        proof {
            assert(all[i as int] == point_envelope(
                service@,
                name@,
                attrs@,
                points@[i as int].time_unix_nano,
                now,
            ));
            assert(all.take(i + 1) =~= all.take(i as int) + seq![all[i as int]]);
            lemma_added(
                start,
                before,
                out@,
                now,
                peer@,
                Protocol::OtlpMetric,
                all.take(i as int),
                seq![all[i as int]],
            );
        }
    }
    assert(all.take(all.len() as int) == all);
}

fn add_histograms(
    service: &str,
    name: &str,
    m: &JsonMap,
    points: &Vec<HistogramPoint>,
    now: Timestamp,
    peer: &str,
    out: &mut Vec<RawRecord>,
)
    ensures
        added(
            old(out)@,
            final(out)@,
            now,
            peer@,
            Protocol::OtlpMetric,
            histogram_envelopes(service@, name@, m@, views(points@), now),
        ),
{
    let ghost start = out@;
    let ghost all = histogram_envelopes(service@, name@, m@, views(points@), now);
    assert(out@.take(start.len() as int) =~= start);
    for i in 0..points.len()
        invariant
            all == histogram_envelopes(service@, name@, m@, views(points@), now),
            added(start, out@, now, peer@, Protocol::OtlpMetric, all.take(i as int)),
    {
        let ghost before = out@;
        let mut attrs = m.clone();
        histogram_point_attrs(&mut attrs, &points[i]);
        push_point(service, name, &attrs, points[i].time_unix_nano, now, peer, out);
        proof {
            assert(all[i as int] == point_envelope(
                service@,
                name@,
                attrs@,
                points@[i as int].time_unix_nano,
                now,
            ));
            assert(all.take(i + 1) =~= all.take(i as int) + seq![all[i as int]]);
            lemma_added(
                start,
                before,
                out@,
                now,
                peer@,
                Protocol::OtlpMetric,
                all.take(i as int),
                seq![all[i as int]],
            );
        }
    }
    assert(all.take(all.len() as int) == all);
}

fn add_summaries(
    service: &str,
    name: &str,
    m: &JsonMap,
    points: &Vec<SummaryPoint>,
    now: Timestamp,
    peer: &str,
    out: &mut Vec<RawRecord>,
)
    ensures
        added(
            old(out)@,
            final(out)@,
            now,
            peer@,
            Protocol::OtlpMetric,
            summary_envelopes(service@, name@, m@, views(points@), now),
        ),
{
    let ghost start = out@;
    let ghost all = summary_envelopes(service@, name@, m@, views(points@), now);
    assert(out@.take(start.len() as int) =~= start);
    for i in 0..points.len()
        invariant
            all == summary_envelopes(service@, name@, m@, views(points@), now),
            added(start, out@, now, peer@, Protocol::OtlpMetric, all.take(i as int)),
    {
        let ghost before = out@;
        let mut attrs = m.clone();
        summary_point_attrs(&mut attrs, &points[i]);
        push_point(service, name, &attrs, points[i].time_unix_nano, now, peer, out);
        proof {
            assert(all[i as int] == point_envelope(
                service@,
                name@,
                attrs@,
                points@[i as int].time_unix_nano,
                now,
            ));
            assert(all.take(i + 1) =~= all.take(i as int) + seq![all[i as int]]);
            lemma_added(
                start,
                before,
                out@,
                now,
                peer@,
                Protocol::OtlpMetric,
                all.take(i as int),
                seq![all[i as int]],
            );
        }
    }
    assert(all.take(all.len() as int) == all);
}

fn metric_to_records(
    service: &str,
    base: &JsonMap,
    x: &OtelMetric,
    now: Timestamp,
    peer: &str,
    out: &mut Vec<RawRecord>,
)
    ensures
        added(
            old(out)@,
            final(out)@,
            now,
            peer@,
            Protocol::OtlpMetric,
            metric_point_envelopes(service@, base@, x@, now),
        ),
{
    let name = x.name.as_str();
    match &x.data {
        Some(MetricData::Gauge(p)) => {
            let mut m = put_type(base, "gauge", None);
            put_common(&mut m, x);
            add_numbers(service, name, &m, p, now, peer, out);
        },
        Some(MetricData::Sum(s)) => {
            let mut m = put_type(base, "sum", Some(s.aggregation_temporality));
            m.insert("is_monotonic", Json::Bool(s.is_monotonic));
            put_common(&mut m, x);
            add_numbers(service, name, &m, &s.data_points, now, peer, out);
        },
        Some(MetricData::Histogram(h)) => {
            let mut m = put_type(base, "histogram", Some(h.aggregation_temporality));
            put_common(&mut m, x);
            add_histograms(service, name, &m, &h.data_points, now, peer, out);
        },
        Some(MetricData::ExponentialHistogram(h)) => {
            let mut m = put_type(base, "exponential_histogram", Some(h.aggregation_temporality));
            put_common(&mut m, x);
            add_histograms(service, name, &m, &h.data_points, now, peer, out);
        },
        Some(MetricData::Summary(p)) => {
            let mut m = put_type(base, "summary", None);
            put_common(&mut m, x);
            add_summaries(service, name, &m, p, now, peer, out);
        },
        None => {
            assert(out@.take(out@.len() as int) =~= out@);
        },
    }
}

/// The envelopes of the metrics of a scope.
pub open spec fn scope_metric_envelopes(
    r: Option<ResourceV>,
    s: ScopeMetricsV,
    now: Timestamp,
) -> Seq<Map<Seq<char>, JsonV>> {
    chain(
        Seq::new(
            s.metrics.len(),
            |i: int| metric_point_envelopes(service_of_resource(r), shared_attrs(r, s.scope), s.metrics[i], now),
        ),
    )
}

/// The envelopes of the metrics of a resource.
pub open spec fn resource_metric_envelopes(r: ResourceMetricsV, now: Timestamp) -> Seq<Map<Seq<char>, JsonV>> {
    chain(
        Seq::new(
            r.scope_metrics.len(),
            |i: int| scope_metric_envelopes(r.resource, r.scope_metrics[i], now),
        ),
    )
}

/// The envelopes of the metrics of a request.
pub open spec fn metric_envelopes(req: Seq<ResourceMetricsV>, now: Timestamp) -> Seq<Map<Seq<char>, JsonV>> {
    chain(Seq::new(req.len(), |i: int| resource_metric_envelopes(req[i], now)))
}

fn add_metric_scope(
    r: &Option<Resource>,
    s: &ScopeMetrics,
    now: Timestamp,
    peer: &str,
    out: &mut Vec<RawRecord>,
)
    ensures
        added(
            old(out)@,
            final(out)@,
            now,
            peer@,
            Protocol::OtlpMetric,
            scope_metric_envelopes(opt_view(*r), s@, now),
        ),
{
    let service = resource_service(r);
    let base = base_attrs(r, &s.scope);
    let ghost start = out@;
    let ghost lists = Seq::new(
        s@.metrics.len(),
        |i: int|
            metric_point_envelopes(
                service_of_resource(opt_view(*r)),
                shared_attrs(opt_view(*r), opt_view(s.scope)),
                s@.metrics[i],
                now,
            ),
    );
    assert(out@.take(start.len() as int) =~= start);
    for i in 0..s.metrics.len()
        invariant
            service@ == service_of_resource(opt_view(*r)),
            base@ == shared_attrs(opt_view(*r), opt_view(s.scope)),
            lists == Seq::new(
                s@.metrics.len(),
                |i: int|
                    metric_point_envelopes(
                        service_of_resource(opt_view(*r)),
                        shared_attrs(opt_view(*r), opt_view(s.scope)),
                        s@.metrics[i],
                        now,
                    ),
            ),
            added(start, out@, now, peer@, Protocol::OtlpMetric, chain(lists.take(i as int))),
    {
        let ghost before = out@;
        metric_to_records(service.as_str(), &base, &s.metrics[i], now, peer, out);
        proof {
            assert(lists.take(i + 1).drop_last() == lists.take(i as int));
            lemma_added(
                start,
                before,
                out@,
                now,
                peer@,
                Protocol::OtlpMetric,
                chain(lists.take(i as int)),
                lists[i as int],
            );
        }
    }
    assert(lists.take(lists.len() as int) == lists);
    assert(lists =~= Seq::new(
        s@.metrics.len(),
        |i: int|
            metric_point_envelopes(
                service_of_resource(opt_view(*r)),
                shared_attrs(opt_view(*r), s@.scope),
                s@.metrics[i],
                now,
            ),
    ));
}

fn add_metric_resource(r: &ResourceMetrics, now: Timestamp, peer: &str, out: &mut Vec<RawRecord>)
    ensures
        added(
            old(out)@,
            final(out)@,
            now,
            peer@,
            Protocol::OtlpMetric,
            resource_metric_envelopes(r@, now),
        ),
{
    let ghost start = out@;
    let ghost lists = Seq::new(
        r@.scope_metrics.len(),
        |i: int| scope_metric_envelopes(r@.resource, r@.scope_metrics[i], now),
    );
    assert(out@.take(start.len() as int) =~= start);
    for i in 0..r.scope_metrics.len()
        invariant
            lists == Seq::new(
                r@.scope_metrics.len(),
                |i: int| scope_metric_envelopes(r@.resource, r@.scope_metrics[i], now),
            ),
            added(start, out@, now, peer@, Protocol::OtlpMetric, chain(lists.take(i as int))),
    {
        let ghost before = out@;
        add_metric_scope(&r.resource, &r.scope_metrics[i], now, peer, out);
        proof {
            assert(lists.take(i + 1).drop_last() == lists.take(i as int));
            lemma_added(
                start,
                before,
                out@,
                now,
                peer@,
                Protocol::OtlpMetric,
                chain(lists.take(i as int)),
                lists[i as int],
            );
        }
    }
    assert(lists.take(lists.len() as int) == lists);
}

/// Maps the metrics of a request to records.
pub fn metrics_to_records(req: &[ResourceMetrics], now: Timestamp, peer: &str) -> (out: Vec<
    RawRecord,
>)
    ensures
        added(
            Seq::empty(),
            out@,
            now,
            peer@,
            Protocol::OtlpMetric,
            metric_envelopes(views(req@), now),
        ),
{
    let mut out: Vec<RawRecord> = Vec::new();
    let ghost start = out@;
    let ghost lists = Seq::new(
        req@.len(),
        |i: int| resource_metric_envelopes(views(req@)[i], now),
    );
    assert(out@.take(0) =~= start);
    for i in 0..req.len()
        invariant
            start == Seq::<RawRecord>::empty(),
            lists == Seq::new(
                req@.len(),
                |i: int| resource_metric_envelopes(views(req@)[i], now),
            ),
            added(start, out@, now, peer@, Protocol::OtlpMetric, chain(lists.take(i as int))),
    {
        let ghost before = out@;
        add_metric_resource(&req[i], now, peer, &mut out);
        proof {
            assert(lists.take(i + 1).drop_last() == lists.take(i as int));
            lemma_added(
                start,
                before,
                out@,
                now,
                peer@,
                Protocol::OtlpMetric,
                chain(lists.take(i as int)),
                lists[i as int],
            );
        }
    }
    assert(lists.take(lists.len() as int) == lists);
    assert(lists =~= Seq::new(
        views(req@).len(),
        |i: int| resource_metric_envelopes(views(req@)[i], now),
    ));
    out
}

} // verus!
