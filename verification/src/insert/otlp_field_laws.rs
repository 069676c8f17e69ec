//! What the envelope of a span, a log record or a metric point says: its time, its level,
//! its ids and its values are those that were sent.
use vstd::prelude::*;

use crate::float::{float_bits, rounded};
use crate::ingest::field_laws::says;
use crate::ingest::parse::{is_stamped, level_of};
use crate::insert::envelope::base64_text;
use crate::insert::otlp::{
    any_items, any_json, events_json, histogram_attrs, key_map, log_envelopes,
    log_record_envelope, metric_attrs, metric_envelopes, nanos_time, number_attrs, otel_level,
    point_envelope, resource_log_envelopes, resource_metric_envelopes, resource_trace_envelopes,
    scope_log_envelopes, scope_metric_envelopes, scope_trace_envelopes, service_of_resource,
    shared_attrs, span_duration, span_envelope, status_text, summary_attrs, temporality_text,
    trace_envelopes, whole_double,
};
use crate::insert::otlp_types::{
    AnyV, HistogramPointV, KeyV, MetricDataV, NumberPointV, NumberValue, OtelLogV, OtelMetricV,
    OtelSpanV, ResourceLogsV, ResourceMetricsV, ResourceSpansV, ResourceV, ScopeLogsV,
    ScopeMetricsV, ScopeSpansV, ScopeV, SpanEventV, SummaryPointV,
};
use crate::json::{JsonV, double_value};
use crate::text::{dec, dec_int, hex, lemma_hex_len};
use crate::time::{Timestamp, rfc3339_text};

verus! {

/// Whether none of the attributes that a record carries is under a name.
pub open spec fn is_free(base: Map<Seq<char>, JsonV>, own: Seq<KeyV>, name: Seq<char>) -> bool {
    !base.contains_key(name) && !key_map(own).contains_key(name)
}

/// The point in time at so many nanoseconds since the epoch.
pub open spec fn at_nanos(n: u64) -> Timestamp {
    Timestamp { secs: (n / 1_000_000_000) as i64, nanos: (n % 1_000_000_000) as u32 }
}

proof fn lemma_at_nanos(n: u64)
    ensures
        n != 0 ==> nanos_time(n) == Some(at_nanos(n)),
        n == 0 ==> nanos_time(n) is None,
        at_nanos(n).nanos < 1_000_000_000,
        0 <= at_nanos(n).secs <= 18_446_744_073,
{
}

proof fn lemma_names_apart()
    ensures
        "level"@ != "service"@,
        "msg"@ != "service"@,
        "msg"@ != "level"@,
        "ts"@ != "service"@,
        "ts"@ != "level"@,
        "ts"@ != "msg"@,
        "trace_id"@ != "service"@,
        "trace_id"@ != "level"@,
        "trace_id"@ != "msg"@,
        "trace_id"@ != "ts"@,
        "span_id"@ != "service"@,
        "span_id"@ != "level"@,
        "span_id"@ != "msg"@,
        "span_id"@ != "ts"@,
        "span_id"@ != "trace_id"@,
        "severity_text"@ != "service"@,
        "severity_text"@ != "level"@,
        "severity_text"@ != "msg"@,
        "severity_text"@ != "ts"@,
        "severity_text"@ != "trace_id"@,
        "severity_text"@ != "span_id"@,
        "event_name"@ != "service"@,
        "event_name"@ != "level"@,
        "event_name"@ != "msg"@,
        "event_name"@ != "ts"@,
        "event_name"@ != "trace_id"@,
        "event_name"@ != "span_id"@,
        "event_name"@ != "severity_text"@,
        "duration_ms"@ != "service"@,
        "duration_ms"@ != "level"@,
        "duration_ms"@ != "msg"@,
        "duration_ms"@ != "ts"@,
        "duration_ms"@ != "trace_id"@,
        "duration_ms"@ != "span_id"@,
        "duration_ms"@ != "severity_text"@,
        "duration_ms"@ != "event_name"@,
        "parent_span_id"@ != "service"@,
        "parent_span_id"@ != "level"@,
        "parent_span_id"@ != "msg"@,
        "parent_span_id"@ != "ts"@,
        "parent_span_id"@ != "trace_id"@,
        "parent_span_id"@ != "span_id"@,
        "parent_span_id"@ != "severity_text"@,
        "parent_span_id"@ != "event_name"@,
        "parent_span_id"@ != "duration_ms"@,
        "span_kind"@ != "service"@,
        "span_kind"@ != "level"@,
        "span_kind"@ != "msg"@,
        "span_kind"@ != "ts"@,
        "span_kind"@ != "trace_id"@,
        "span_kind"@ != "span_id"@,
        "span_kind"@ != "severity_text"@,
        "span_kind"@ != "event_name"@,
        "span_kind"@ != "duration_ms"@,
        "span_kind"@ != "parent_span_id"@,
        "status_code"@ != "service"@,
        "status_code"@ != "level"@,
        "status_code"@ != "msg"@,
        "status_code"@ != "ts"@,
        "status_code"@ != "trace_id"@,
        "status_code"@ != "span_id"@,
        "status_code"@ != "severity_text"@,
        "status_code"@ != "event_name"@,
        "status_code"@ != "duration_ms"@,
        "status_code"@ != "parent_span_id"@,
        "status_code"@ != "span_kind"@,
        "status_message"@ != "service"@,
        "status_message"@ != "level"@,
        "status_message"@ != "msg"@,
        "status_message"@ != "ts"@,
        "status_message"@ != "trace_id"@,
        "status_message"@ != "span_id"@,
        "status_message"@ != "severity_text"@,
        "status_message"@ != "event_name"@,
        "status_message"@ != "duration_ms"@,
        "status_message"@ != "parent_span_id"@,
        "status_message"@ != "span_kind"@,
        "status_message"@ != "status_code"@,
        "trace_state"@ != "service"@,
        "trace_state"@ != "level"@,
        "trace_state"@ != "msg"@,
        "trace_state"@ != "ts"@,
        "trace_state"@ != "trace_id"@,
        "trace_state"@ != "span_id"@,
        "trace_state"@ != "severity_text"@,
        "trace_state"@ != "event_name"@,
        "trace_state"@ != "duration_ms"@,
        "trace_state"@ != "parent_span_id"@,
        "trace_state"@ != "span_kind"@,
        "trace_state"@ != "status_code"@,
        "trace_state"@ != "status_message"@,
        "events"@ != "service"@,
        "events"@ != "level"@,
        "events"@ != "msg"@,
        "events"@ != "ts"@,
        "events"@ != "trace_id"@,
        "events"@ != "span_id"@,
        "events"@ != "severity_text"@,
        "events"@ != "event_name"@,
        "events"@ != "duration_ms"@,
        "events"@ != "parent_span_id"@,
        "events"@ != "span_kind"@,
        "events"@ != "status_code"@,
        "events"@ != "status_message"@,
        "events"@ != "trace_state"@,
{
    reveal_strlit("service");
    reveal_strlit("level");
    reveal_strlit("msg");
    reveal_strlit("ts");
    reveal_strlit("trace_id");
    reveal_strlit("span_id");
    reveal_strlit("severity_text");
    reveal_strlit("event_name");
    reveal_strlit("duration_ms");
    reveal_strlit("parent_span_id");
    reveal_strlit("span_kind");
    reveal_strlit("status_code");
    reveal_strlit("status_message");
    reveal_strlit("trace_state");
    reveal_strlit("events");
    assert("service"@.len() == 7);
    assert("level"@.len() == 5);
    assert("msg"@.len() == 3);
    assert("ts"@.len() == 2);
    assert("trace_id"@.len() == 8);
    assert("span_id"@.len() == 7);
    assert("severity_text"@.len() == 13);
    assert("event_name"@.len() == 10);
    assert("duration_ms"@.len() == 11);
    assert("parent_span_id"@.len() == 14);
    assert("span_kind"@.len() == 9);
    assert("status_code"@.len() == 11);
    assert("status_message"@.len() == 14);
    assert("trace_state"@.len() == 11);
    assert("events"@.len() == 6);
    assert("duration_ms"@[0] == 'd');
    assert("parent_span_id"@[0] == 'p');
    assert("service"@[1] == 'e');
    assert("span_id"@[1] == 'p');
    assert("status_code"@[0] == 's');
    assert("status_message"@[0] == 's');
    assert("trace_state"@[0] == 't');
}

// ---------------------------------------------------------------------
// Log records
// ---------------------------------------------------------------------
/// A log record is stamped with the time of its event, where that is known; else with the
/// time at which it was observed; and only where neither is known, with the time at which
/// it was received.
pub proof fn law_logs_have_the_time_of_their_event(
    service: Seq<char>,
    base: Map<Seq<char>, JsonV>,
    l: OtelLogV,
    now: Timestamp,
)
    requires
        is_free(base, l.attributes, "ts"@),
    ensures
        ({
            let m = log_record_envelope(service, base, l, now);
            &&& l.time_unix_nano != 0 ==> is_stamped(m, at_nanos(l.time_unix_nano))
            &&& l.time_unix_nano == 0 && l.observed_time_unix_nano != 0 ==> is_stamped(
                m,
                at_nanos(l.observed_time_unix_nano),
            )
            &&& l.time_unix_nano == 0 && l.observed_time_unix_nano == 0 ==> m.contains_key("ts"@)
                && m["ts"@] == JsonV::Str(rfc3339_text(now.secs, now.nanos))
        }),
{
    lemma_names_apart();
    lemma_at_nanos(l.time_unix_nano);
    lemma_at_nanos(l.observed_time_unix_nano);
}

/// A log record keeps its service, its level, its body and its ids, unless an attribute of
/// the same name says otherwise.
pub proof fn law_logs_keep_their_fields(
    service: Seq<char>,
    base: Map<Seq<char>, JsonV>,
    l: OtelLogV,
    now: Timestamp,
)
    ensures
        ({
            let m = log_record_envelope(service, base, l, now);
            &&& is_free(base, l.attributes, "service"@) ==> says(m, "service"@, service)
            &&& is_free(base, l.attributes, "level"@) ==> says(
                m,
                "level"@,
                otel_level(l.severity_number, l.severity_text),
            )
            &&& is_free(base, l.attributes, "msg"@) ==> (l.body matches Some(AnyV::Text(t))
                ==> says(m, "msg"@, t)) && (l.body is None ==> says(m, "msg"@, Seq::empty()))
            &&& is_free(base, l.attributes, "trace_id"@) && l.trace_id.len() > 0 ==> says(
                m,
                "trace_id"@,
                hex(l.trace_id),
            )
            &&& is_free(base, l.attributes, "span_id"@) && l.span_id.len() > 0 ==> says(
                m,
                "span_id"@,
                hex(l.span_id),
            )
            &&& l.severity_text.len() > 0 ==> says(m, "severity_text"@, l.severity_text)
            &&& l.event_name.len() > 0 ==> says(m, "event_name"@, l.event_name)
        }),
{
    lemma_names_apart();
    lemma_hex_len(l.trace_id);
    lemma_hex_len(l.span_id);
}

/// Every attribute of a log record, and every one that its resource and scope give it, is
/// a member of its envelope; its own counts first.
pub proof fn law_logs_keep_their_attributes(
    service: Seq<char>,
    base: Map<Seq<char>, JsonV>,
    l: OtelLogV,
    now: Timestamp,
    k: Seq<char>,
)
    requires
        k != "severity_text"@,
        k != "event_name"@,
    ensures
        ({
            let m = log_record_envelope(service, base, l, now);
            let own = key_map(l.attributes);
            &&& own.contains_key(k) ==> m.contains_key(k) && m[k] == own[k]
            &&& !own.contains_key(k) && base.contains_key(k) ==> m.contains_key(k) && m[k]
                == base[k]
        }),
{
}

/// The severities of log records: four numbers for each step.
pub proof fn law_severity_numbers(n: i32, text: Seq<char>)
    ensures
        1 <= n <= 8 ==> otel_level(n, text) == "debug"@,
        9 <= n <= 12 ==> otel_level(n, text) == "info"@,
        13 <= n <= 16 ==> otel_level(n, text) == "warn"@,
        17 <= n <= 20 ==> otel_level(n, text) == "error"@,
        21 <= n <= 24 ==> otel_level(n, text) == "fatal"@,
        (n < 1 || n > 24) && text.len() > 0 ==> otel_level(n, text) == level_of(text),
        (n < 1 || n > 24) && text.len() == 0 ==> otel_level(n, text) == "info"@,
{
}

// ---------------------------------------------------------------------
// Spans
// ---------------------------------------------------------------------
/// A span is stamped with the time at which it began, independently of when it was
/// received; only where it does not say, with the time of receipt.
pub proof fn law_spans_have_the_time_of_their_start(
    service: Seq<char>,
    base: Map<Seq<char>, JsonV>,
    s: OtelSpanV,
    now: Timestamp,
)
    requires
        is_free(base, s.attributes, "ts"@),
    ensures
        ({
            let m = span_envelope(service, base, s, now);
            &&& s.start_time_unix_nano != 0 ==> is_stamped(m, at_nanos(s.start_time_unix_nano))
            &&& s.start_time_unix_nano == 0 ==> m.contains_key("ts"@) && m["ts"@] == JsonV::Str(
                rfc3339_text(now.secs, now.nanos),
            )
        }),
{
    lemma_names_apart();
    lemma_at_nanos(s.start_time_unix_nano);
}

/// A span keeps its name, its service, its ids and its parent, unless an attribute of the
/// same name says otherwise; and it is an error exactly where its status says so.
pub proof fn law_spans_keep_their_fields(
    service: Seq<char>,
    base: Map<Seq<char>, JsonV>,
    s: OtelSpanV,
    now: Timestamp,
)
    ensures
        ({
            let m = span_envelope(service, base, s, now);
            &&& is_free(base, s.attributes, "service"@) ==> says(m, "service"@, service)
            &&& is_free(base, s.attributes, "msg"@) ==> says(m, "msg"@, s.name)
            &&& is_free(base, s.attributes, "level"@) ==> says(
                m,
                "level"@,
                if s.status is Some && s.status->0.code == 2 {
                    "error"@
                } else {
                    "info"@
                },
            )
            &&& is_free(base, s.attributes, "trace_id"@) && s.trace_id.len() > 0 ==> says(
                m,
                "trace_id"@,
                hex(s.trace_id),
            )
            &&& is_free(base, s.attributes, "span_id"@) && s.span_id.len() > 0 ==> says(
                m,
                "span_id"@,
                hex(s.span_id),
            )
            &&& s.parent_span_id.len() > 0 ==> says(m, "parent_span_id"@, hex(s.parent_span_id))
            &&& s.trace_state.len() > 0 ==> says(m, "trace_state"@, s.trace_state)
            &&& s.status matches Some(st) ==> says(m, "status_code"@, status_text(st.code)) && (
            st.message.len() > 0 ==> says(m, "status_message"@, st.message))
            &&& is_free(base, s.attributes, "duration_ms"@) ==> m.contains_key("duration_ms"@)
                && m["duration_ms"@] == span_duration(s.start_time_unix_nano, s.end_time_unix_nano)
            &&& s.events.len() > 0 ==> m.contains_key("events"@) && (m["events"@] matches JsonV::Arr(
                items,
            ) && items.len() == s.events.len())
        }),
{
    lemma_names_apart();
    lemma_hex_len(s.trace_id);
    lemma_hex_len(s.span_id);
    lemma_hex_len(s.parent_span_id);
}

/// A span that has not ended, or that ended before it began, took no time; one that did
/// takes its nanoseconds over a million.
pub proof fn law_durations_are_end_minus_start(start: u64, end: u64)
    ensures
        end == 0 || end < start ==> span_duration(start, end) == double_value(0),
        end > 0 && end >= start ==> span_duration(start, end) == (match float_bits(
            dec(rounded((end - start) as nat)) + "e-6"@,
        ) {
            Some(b) => double_value(b),
            None => JsonV::Null,
        }),
{
}

/// What an event of a span says is kept.
pub proof fn law_events_are_kept(events: Seq<SpanEventV>, i: int)
    requires
        0 <= i < events.len(),
    ensures
        events_json(events)[i] matches JsonV::Obj(m) && says(m, "name"@, events[i].name) && says(
            m,
            "time_unix_nano"@,
            dec(events[i].time_unix_nano as nat),
        ) && m.contains_key("attributes"@),
{
    reveal_strlit("name");
    reveal_strlit("time_unix_nano");
    reveal_strlit("attributes");
    assert("name"@.len() == 4);
    assert("time_unix_nano"@.len() == 14);
    assert("attributes"@.len() == 10);
}

// ---------------------------------------------------------------------
// Metric points
// ---------------------------------------------------------------------
/// A metric point is stamped with its own time, and carries the metric's name and the
/// level `info`.
pub proof fn law_points_have_their_time_and_name(
    service: Seq<char>,
    name: Seq<char>,
    attrs: Map<Seq<char>, JsonV>,
    time: u64,
    now: Timestamp,
)
    ensures
        ({
            let m = point_envelope(service, name, attrs, time, now);
            &&& !attrs.contains_key("ts"@) && time != 0 ==> is_stamped(m, at_nanos(time))
            &&& !attrs.contains_key("ts"@) && time == 0 ==> says(
                m,
                "ts"@,
                rfc3339_text(now.secs, now.nanos),
            )
            &&& !attrs.contains_key("msg"@) ==> says(m, "msg"@, name)
            &&& !attrs.contains_key("service"@) ==> says(m, "service"@, service)
            &&& !attrs.contains_key("level"@) ==> says(m, "level"@, "info"@)
        }),
{
    lemma_names_apart();
    lemma_at_nanos(time);
}

/// The value of a gauge or of a sum is the number that was sent, and its attributes are
/// kept.
pub proof fn law_numbers_are_values(
    m: Map<Seq<char>, JsonV>,
    p: NumberPointV,
    k: Seq<char>,
)
    ensures
        ({
            let r = number_attrs(m, p);
            &&& r.contains_key("value"@)
            &&& p.value matches Some(NumberValue::AsDouble(b)) ==> r["value"@] == double_value(b)
            &&& p.value matches Some(NumberValue::AsInt(i)) ==> r["value"@] == whole_double(
                dec_int(i as int),
            )
            &&& p.value is None ==> r["value"@] == double_value(0)
            &&& k != "value"@ && key_map(p.attributes).contains_key(k) ==> r.contains_key(k)
                && r[k] == key_map(p.attributes)[k]
        }),
{
}

/// A histogram is told by its count, its sum, and its least and greatest value; its value
/// is the sum, where there is one, else the count.
pub proof fn law_histograms_are_told(m: Map<Seq<char>, JsonV>, p: HistogramPointV)
    ensures
        ({
            let r = histogram_attrs(m, p);
            &&& says(r, "hist_count"@, dec(p.count as nat))
            &&& p.sum matches Some(b) ==> r.contains_key("hist_sum"@) && r["hist_sum"@]
                == double_value(b) && r.contains_key("value"@) && r["value"@] == double_value(b)
            &&& p.sum is None ==> r.contains_key("value"@) && r["value"@] == whole_double(
                dec(p.count as nat),
            )
            &&& p.min matches Some(b) ==> r.contains_key("hist_min"@) && r["hist_min"@]
                == double_value(b)
            &&& p.max matches Some(b) ==> r.contains_key("hist_max"@) && r["hist_max"@]
                == double_value(b)
        }),
{
    reveal_strlit("hist_count");
    reveal_strlit("hist_sum");
    reveal_strlit("hist_min");
    reveal_strlit("hist_max");
    reveal_strlit("value");
    assert("hist_count"@.len() == 10);
    assert("hist_sum"@.len() == 8);
    assert("hist_min"@.len() == 8);
    assert("hist_max"@.len() == 8);
    assert("value"@.len() == 5);
    assert("hist_max"@[5] == 'm');
    assert("hist_max"@[6] == 'a');
    assert("hist_min"@[5] == 'm');
    assert("hist_min"@[6] == 'i');
    assert("hist_sum"@[5] == 's');
}

/// A summary is told by its count and its sum; its value is the sum, where it is not zero,
/// else the count.
pub proof fn law_summaries_are_told(m: Map<Seq<char>, JsonV>, p: SummaryPointV)
    ensures
        ({
            let r = summary_attrs(m, p);
            let zero = p.sum == 0 || p.sum == 0x8000_0000_0000_0000;
            &&& says(r, "summary_count"@, dec(p.count as nat))
            &&& !zero ==> r.contains_key("summary_sum"@) && r["summary_sum"@] == double_value(p.sum)
                && r.contains_key("value"@) && r["value"@] == double_value(p.sum)
            &&& zero ==> r.contains_key("value"@) && r["value"@] == whole_double(
                dec(p.count as nat),
            )
        }),
{
    reveal_strlit("summary_count");
    reveal_strlit("summary_sum");
    reveal_strlit("value");
    assert("summary_count"@.len() == 13);
    assert("summary_sum"@.len() == 11);
    assert("value"@.len() == 5);
}

/// A metric names its kind, and how it aggregates where it does.
pub proof fn law_metrics_name_their_kind(base: Map<Seq<char>, JsonV>, x: OtelMetricV)
    requires
        key_map(x.metadata) == Map::<Seq<char>, JsonV>::empty(),
    ensures
        ({
            let r = metric_attrs(base, x);
            &&& x.data matches Some(MetricDataV::Gauge(_)) ==> says(r, "metric_type"@, "gauge"@)
            &&& x.data matches Some(MetricDataV::Sum(s)) ==> says(r, "metric_type"@, "sum"@)
                && says(r, "aggregation_temporality"@, temporality_text(s.aggregation_temporality))
                && r.contains_key("is_monotonic"@) && r["is_monotonic"@] == JsonV::Bool(
                s.is_monotonic,
            )
            &&& x.data matches Some(MetricDataV::Histogram(h)) ==> says(
                r,
                "metric_type"@,
                "histogram"@,
            ) && says(r, "aggregation_temporality"@, temporality_text(h.aggregation_temporality))
            &&& x.data matches Some(MetricDataV::ExponentialHistogram(h)) ==> says(
                r,
                "metric_type"@,
                "exponential_histogram"@,
            ) && says(r, "aggregation_temporality"@, temporality_text(h.aggregation_temporality))
            &&& x.data matches Some(MetricDataV::Summary(_)) ==> says(r, "metric_type"@, "summary"@)
            &&& x.unit.len() > 0 ==> says(r, "unit"@, x.unit)
            &&& x.description.len() > 0 ==> says(r, "description"@, x.description)
        }),
{
    reveal_strlit("metric_type");
    reveal_strlit("aggregation_temporality");
    reveal_strlit("is_monotonic");
    reveal_strlit("unit");
    reveal_strlit("description");
    assert("metric_type"@.len() == 11);
    assert("aggregation_temporality"@.len() == 23);
    assert("is_monotonic"@.len() == 12);
    assert("unit"@.len() == 4);
    assert("description"@.len() == 11);
    assert("description"@[0] == 'd');
    assert("metric_type"@[0] == 'm');
}

/// The ways to aggregate, by their numbers.
pub proof fn law_temporalities(t: i32)
    ensures
        t == 1 ==> temporality_text(t) == "delta"@,
        t == 2 ==> temporality_text(t) == "cumulative"@,
        t != 1 && t != 2 ==> temporality_text(t) != "delta"@ && temporality_text(t)
            != "cumulative"@,
{
    reveal_strlit("delta");
    reveal_strlit("cumulative");
    reveal_strlit("unspecified");
    assert("delta"@.len() == 5);
    assert("cumulative"@.len() == 10);
    assert("unspecified"@.len() == 11);
}

// ---------------------------------------------------------------------
// Resources
// ---------------------------------------------------------------------
/// The service of a resource is its first attribute `service.name`, where that says
/// something; without a resource it is unknown.
pub proof fn law_services_are_named(pairs: Seq<KeyV>, i: int, value: Seq<char>)
    requires
        0 <= i < pairs.len(),
        pairs[i] == ("service.name"@, Some(AnyV::Text(value))),
        value.len() > 0,
        forall|j: int| 0 <= j < i ==> (#[trigger] pairs[j]).0 != "service.name"@,
    ensures
        service_of_resource(Some(ResourceV { attributes: pairs })) == value,
        service_of_resource(None) == "unknown_service"@,
    decreases i,
{
    if i > 0 {
        assert(pairs[0].0 != "service.name"@);
        let rest = pairs.drop_first();
        assert forall|j: int| 0 <= j < i - 1 implies (#[trigger] rest[j]).0 != "service.name"@ by {
            assert(pairs[j + 1].0 != "service.name"@);
        }
        law_services_are_named(rest, i - 1, value);
    }
}

/// A resource without the attribute `service.name` has no known service.
pub proof fn law_services_may_be_unknown(pairs: Seq<KeyV>)
    requires
        forall|j: int| 0 <= j < pairs.len() ==> (#[trigger] pairs[j]).0 != "service.name"@,
    ensures
        service_of_resource(Some(ResourceV { attributes: pairs })) == "unknown_service"@,
    decreases pairs.len(),
{
    if pairs.len() > 0 {
        assert(pairs[0].0 != "service.name"@);
        let rest = pairs.drop_first();
        assert forall|j: int| 0 <= j < rest.len() implies (#[trigger] rest[j]).0
            != "service.name"@ by {
            assert(pairs[j + 1].0 != "service.name"@);
        }
        law_services_may_be_unknown(rest);
    }
}

/// An attribute keeps its name and its value, each kind of value as the kind of JSON value
/// that it is; of two attributes of one name the last counts.
pub proof fn law_attributes_keep_their_values(pairs: Seq<KeyV>, i: int, v: AnyV)
    requires
        0 <= i < pairs.len(),
        pairs[i].1 == Some(v),
        forall|j: int| i < j < pairs.len() ==> (#[trigger] pairs[j]).0 != pairs[i].0,
    ensures
        key_map(pairs).contains_key(pairs[i].0),
        v matches AnyV::Text(t) ==> key_map(pairs)[pairs[i].0] == JsonV::Str(t),
        v matches AnyV::Bool(b) ==> key_map(pairs)[pairs[i].0] == JsonV::Bool(b),
        v matches AnyV::Whole(n) ==> key_map(pairs)[pairs[i].0] == JsonV::Num(dec_int(n as int)),
        v matches AnyV::Double(x) ==> key_map(pairs)[pairs[i].0] == double_value(x),
        v matches AnyV::Bytes(b) ==> key_map(pairs)[pairs[i].0] == JsonV::Str(base64_text(b)),
        v matches AnyV::Dict(d) ==> key_map(pairs)[pairs[i].0] == JsonV::Obj(key_map(d)),
        v is Empty ==> key_map(pairs)[pairs[i].0] == JsonV::Null,
    decreases pairs.len(),
{
    if i < pairs.len() - 1 {
        assert(pairs[pairs.len() - 1].0 != pairs[i].0);
        let d = pairs.drop_last();
        assert forall|j: int| i < j < d.len() implies (#[trigger] d[j]).0 != d[i].0 by {
            assert(pairs[j].0 != pairs[i].0);
        }
        law_attributes_keep_their_values(d, i, v);
    } else {
        lemma_last_key(pairs, v);
    }
}

proof fn lemma_last_key(pairs: Seq<KeyV>, v: AnyV)
    requires
        pairs.len() > 0,
        pairs.last().1 == Some(v),
    ensures
        key_map(pairs).contains_key(pairs.last().0),
        key_map(pairs)[pairs.last().0] == any_json(v),
        v matches AnyV::Text(t) ==> any_json(v) == JsonV::Str(t),
        v matches AnyV::Bool(b) ==> any_json(v) == JsonV::Bool(b),
        v matches AnyV::Whole(n) ==> any_json(v) == JsonV::Num(dec_int(n as int)),
        v matches AnyV::Double(x) ==> any_json(v) == double_value(x),
        v matches AnyV::Bytes(b) ==> any_json(v) == JsonV::Str(base64_text(b)),
        v matches AnyV::Dict(d) ==> any_json(v) == JsonV::Obj(key_map(d)),
        v is Empty ==> any_json(v) == JsonV::Null,
{
    match v {
        AnyV::Text(t) => {
            assert(any_json(AnyV::Text(t)) == JsonV::Str(t));
        },
        AnyV::Bool(b) => {
            assert(any_json(AnyV::Bool(b)) == JsonV::Bool(b));
        },
        _ => {},
    }
}

/// A list of values keeps their number and their order.
pub proof fn law_lists_keep_their_values(items: Seq<AnyV>, i: int)
    requires
        0 <= i < items.len(),
    ensures
        any_json(AnyV::List(items)) matches JsonV::Arr(r) && r.len() == items.len() && r[i]
            == any_json(items[i]),
    decreases items.len(),
{
    lemma_items_len(items);
    let d = items.drop_last();
    if i < d.len() {
        law_lists_keep_their_values(d, i);
        lemma_items_len(d);
    } else {
        lemma_items_len(d);
    }
}

proof fn lemma_items_len(items: Seq<AnyV>)
    ensures
        any_items(items).len() == items.len(),
    decreases items.len(),
{
    if items.len() > 0 {
        lemma_items_len(items.drop_last());
    }
}

/// What a resource and a scope say of themselves is given to every record of theirs.
pub proof fn law_scopes_are_named(r: Option<ResourceV>, s: ScopeV)
    requires
        key_map(s.attributes) == Map::<Seq<char>, JsonV>::empty(),
    ensures
        s.name.len() > 0 ==> says(shared_attrs(r, Some(s)), "otel_scope_name"@, s.name),
        s.version.len() > 0 ==> says(shared_attrs(r, Some(s)), "otel_scope_version"@, s.version),
{
    reveal_strlit("otel_scope_name");
    reveal_strlit("otel_scope_version");
    assert("otel_scope_name"@.len() == 15);
    assert("otel_scope_version"@.len() == 18);
}

/// The attributes of a resource, all but its service and those without a name, are given to
/// every record of it.
pub proof fn law_resources_give_their_attributes(r: ResourceV, k: Seq<char>)
    requires
        key_map(r.attributes).contains_key(k),
        k != "service.name"@,
        k.len() > 0,
    ensures
        shared_attrs(Some(r), None).contains_key(k),
        shared_attrs(Some(r), None)[k] == key_map(r.attributes)[k],
{
}

/// The log records of a request come out in the order in which its resources, and the
/// scopes of a resource, were sent.
pub proof fn law_logs_keep_their_order(req: Seq<ResourceLogsV>, r: ResourceLogsV, s: ScopeLogsV, now: Timestamp)
    ensures
        log_envelopes(Seq::empty(), now).len() == 0,
        log_envelopes(req.push(r), now) == log_envelopes(req, now) + resource_log_envelopes(r, now),
        ({
            let longer = ResourceLogsV { resource: r.resource, scope_logs: r.scope_logs.push(s) };
            resource_log_envelopes(longer, now) == resource_log_envelopes(r, now) + scope_log_envelopes(r.resource, s, now)
        }),
{
    let longer = ResourceLogsV { resource: r.resource, scope_logs: r.scope_logs.push(s) };
    let all = Seq::new(req.push(r).len(), |i: int| resource_log_envelopes(req.push(r)[i], now));
    assert(all.drop_last() =~= Seq::new(req.len(), |i: int| resource_log_envelopes(req[i], now)));
    let own = Seq::new(
        longer.scope_logs.len(),
        |i: int| scope_log_envelopes(longer.resource, longer.scope_logs[i], now),
    );
    assert(own.drop_last() =~= Seq::new(
        r.scope_logs.len(),
        |i: int| scope_log_envelopes(r.resource, r.scope_logs[i], now),
    ));
}

/// The spans of a request come out in the order in which its resources, and the scopes of
/// a resource, were sent.
pub proof fn law_spans_keep_their_order(req: Seq<ResourceSpansV>, r: ResourceSpansV, s: ScopeSpansV, now: Timestamp)
    ensures
        trace_envelopes(Seq::empty(), now).len() == 0,
        trace_envelopes(req.push(r), now) == trace_envelopes(req, now) + resource_trace_envelopes(r, now),
        ({
            let longer = ResourceSpansV { resource: r.resource, scope_spans: r.scope_spans.push(s) };
            resource_trace_envelopes(longer, now) == resource_trace_envelopes(r, now) + scope_trace_envelopes(r.resource, s, now)
        }),
{
    let longer = ResourceSpansV { resource: r.resource, scope_spans: r.scope_spans.push(s) };
    let all = Seq::new(req.push(r).len(), |i: int| resource_trace_envelopes(req.push(r)[i], now));
    assert(all.drop_last() =~= Seq::new(req.len(), |i: int| resource_trace_envelopes(req[i], now)));
    let own = Seq::new(
        longer.scope_spans.len(),
        |i: int| scope_trace_envelopes(longer.resource, longer.scope_spans[i], now),
    );
    assert(own.drop_last() =~= Seq::new(
        r.scope_spans.len(),
        |i: int| scope_trace_envelopes(r.resource, r.scope_spans[i], now),
    ));
}

/// The metric points of a request come out in the order in which its resources, and the
/// scopes of a resource, were sent.
pub proof fn law_points_keep_their_order(req: Seq<ResourceMetricsV>, r: ResourceMetricsV, s: ScopeMetricsV, now: Timestamp)
    ensures
        metric_envelopes(Seq::empty(), now).len() == 0,
        metric_envelopes(req.push(r), now) == metric_envelopes(req, now) + resource_metric_envelopes(r, now),
        ({
            let longer = ResourceMetricsV { resource: r.resource, scope_metrics: r.scope_metrics.push(s) };
            resource_metric_envelopes(longer, now) == resource_metric_envelopes(r, now) + scope_metric_envelopes(r.resource, s, now)
        }),
{
    let longer = ResourceMetricsV { resource: r.resource, scope_metrics: r.scope_metrics.push(s) };
    let all = Seq::new(req.push(r).len(), |i: int| resource_metric_envelopes(req.push(r)[i], now));
    assert(all.drop_last() =~= Seq::new(req.len(), |i: int| resource_metric_envelopes(req[i], now)));
    let own = Seq::new(
        longer.scope_metrics.len(),
        |i: int| scope_metric_envelopes(longer.resource, longer.scope_metrics[i], now),
    );
    assert(own.drop_last() =~= Seq::new(
        r.scope_metrics.len(),
        |i: int| scope_metric_envelopes(r.resource, r.scope_metrics[i], now),
    ));
}

} // verus!
