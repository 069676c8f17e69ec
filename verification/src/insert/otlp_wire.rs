//! The decoding of OpenTelemetry messages by the generated types of
//! `opentelemetry-proto`, and what they hold, field by field.
use opentelemetry_proto::tonic as proto;
use opentelemetry_proto::tonic::common::v1::any_value::Value;
use opentelemetry_proto::tonic::metrics::v1::metric::Data;
use vstd::prelude::*;
use vstd::string::*;

use crate::insert::otlp_types::{
    AnyVal, HistogramData, HistogramPoint, KeyVal, MetricData, NumberPoint, NumberValue, OtelLog,
    OtelMetric, OtelSpan, Resource, ResourceLogs, ResourceLogsV, ResourceMetrics,
    ResourceMetricsV, ResourceSpans, ResourceSpansV, Scope, ScopeLogs, ScopeMetrics, ScopeSpans,
    SpanEvent, SpanStatus, SumData, SummaryPoint, views,
};
use crate::json::{Json, JsonV, json_to_value};

verus! {

/// `AnyValue` of `opentelemetry-proto`.
#[verifier::external_type_specification]
#[verifier::external_body]
pub struct ExAnyValue(proto::common::v1::AnyValue);

/// `KeyValue` of `opentelemetry-proto`.
#[verifier::external_type_specification]
#[verifier::external_body]
pub struct ExKeyValue(proto::common::v1::KeyValue);

/// `InstrumentationScope` of `opentelemetry-proto`.
#[verifier::external_type_specification]
#[verifier::external_body]
pub struct ExInstrumentationScope(proto::common::v1::InstrumentationScope);

/// `Span` of `opentelemetry-proto`.
#[verifier::external_type_specification]
#[verifier::external_body]
pub struct ExSpan(proto::trace::v1::Span);

/// `LogRecord` of `opentelemetry-proto`.
#[verifier::external_type_specification]
#[verifier::external_body]
pub struct ExLogRecord(proto::logs::v1::LogRecord);

/// `NumberDataPoint` of `opentelemetry-proto`.
#[verifier::external_type_specification]
#[verifier::external_body]
pub struct ExNumberDataPoint(proto::metrics::v1::NumberDataPoint);

/// `HistogramDataPoint` of `opentelemetry-proto`.
#[verifier::external_type_specification]
#[verifier::external_body]
pub struct ExHistogramDataPoint(proto::metrics::v1::HistogramDataPoint);

/// `ExponentialHistogramDataPoint` of `opentelemetry-proto`.
#[verifier::external_type_specification]
#[verifier::external_body]
pub struct ExExponentialHistogramDataPoint(proto::metrics::v1::ExponentialHistogramDataPoint);

/// `SummaryDataPoint` of `opentelemetry-proto`.
#[verifier::external_type_specification]
#[verifier::external_body]
pub struct ExSummaryDataPoint(proto::metrics::v1::SummaryDataPoint);

/// `Data` of `opentelemetry-proto`.
#[verifier::external_type_specification]
#[verifier::external_body]
pub struct ExMetricData(proto::metrics::v1::metric::Data);

/// `Metric` of `opentelemetry-proto`.
#[verifier::external_type_specification]
#[verifier::external_body]
pub struct ExMetric(proto::metrics::v1::Metric);

/// `ExportTraceServiceRequest` of `opentelemetry-proto`.
#[verifier::external_type_specification]
#[verifier::external_body]
pub struct ExTraceRequest(proto::collector::trace::v1::ExportTraceServiceRequest);

/// `ExportLogsServiceRequest` of `opentelemetry-proto`.
#[verifier::external_type_specification]
#[verifier::external_body]
pub struct ExLogsRequest(proto::collector::logs::v1::ExportLogsServiceRequest);

/// `ExportMetricsServiceRequest` of `opentelemetry-proto`.
#[verifier::external_type_specification]
#[verifier::external_body]
pub struct ExMetricsRequest(proto::collector::metrics::v1::ExportMetricsServiceRequest);

/// An `AnyValue`, variant by variant. A reference into a table of strings counts as
/// no value.
#[verifier::external_body]
fn any_from(v: proto::common::v1::AnyValue) -> AnyVal {
    match v.value {
        Some(Value::StringValue(s)) => AnyVal::Text(s),
        Some(Value::BoolValue(b)) => AnyVal::Bool(b),
        Some(Value::IntValue(i)) => AnyVal::Whole(i),
        Some(Value::DoubleValue(d)) => AnyVal::Double(d.to_bits()),
        Some(Value::ArrayValue(a)) => AnyVal::List(a.values.into_iter().map(any_from).collect()),
        Some(Value::KvlistValue(l)) => AnyVal::Dict(keys_from(l.values)),
        Some(Value::BytesValue(b)) => AnyVal::Bytes(b),
        Some(Value::StringValueStrindex(_)) | None => AnyVal::Empty,
    }
}

/// A list of `KeyValue`, field by field.
#[verifier::external_body]
fn keys_from(v: Vec<proto::common::v1::KeyValue>) -> Vec<KeyVal> {
    v.into_iter().map(|k| KeyVal { key: k.key, value: k.value.map(any_from) }).collect()
}

/// An `InstrumentationScope`, field by field.
#[verifier::external_body]
fn scope_from(s: proto::common::v1::InstrumentationScope) -> Scope {
    Scope { name: s.name, version: s.version, attributes: keys_from(s.attributes) }
}

/// A `Span`, field by field.
#[verifier::external_body]
fn span_from(s: proto::trace::v1::Span) -> OtelSpan {
    OtelSpan {
        trace_id: s.trace_id,
        span_id: s.span_id,
        trace_state: s.trace_state,
        parent_span_id: s.parent_span_id,
        name: s.name,
        kind: s.kind,
        start_time_unix_nano: s.start_time_unix_nano,
        end_time_unix_nano: s.end_time_unix_nano,
        attributes: keys_from(s.attributes),
        events: s.events.into_iter().map(|e| SpanEvent { time_unix_nano: e.time_unix_nano, name: e.name, attributes: keys_from(e.attributes) }).collect(),
        status: s.status.map(|st| SpanStatus { message: st.message, code: st.code }),
    }
}

/// A `LogRecord`, field by field.
#[verifier::external_body]
fn log_from(l: proto::logs::v1::LogRecord) -> OtelLog {
    OtelLog {
        time_unix_nano: l.time_unix_nano,
        observed_time_unix_nano: l.observed_time_unix_nano,
        severity_number: l.severity_number,
        severity_text: l.severity_text,
        body: l.body.map(any_from),
        attributes: keys_from(l.attributes),
        trace_id: l.trace_id,
        span_id: l.span_id,
        event_name: l.event_name,
    }
}

/// A list of `NumberDataPoint`, field by field.
#[verifier::external_body]
fn numbers_from(v: Vec<proto::metrics::v1::NumberDataPoint>) -> Vec<NumberPoint> {
    v.into_iter().map(|p| NumberPoint {
        attributes: keys_from(p.attributes),
        time_unix_nano: p.time_unix_nano,
        value: p.value.map(|v| match v {
            proto::metrics::v1::number_data_point::Value::AsDouble(d) => NumberValue::AsDouble(d.to_bits()),
            proto::metrics::v1::number_data_point::Value::AsInt(i) => NumberValue::AsInt(i),
        }),
    }).collect()
}

/// A `HistogramDataPoint`, field by field.
#[verifier::external_body]
fn histogram_from(p: proto::metrics::v1::HistogramDataPoint) -> HistogramPoint {
    HistogramPoint {
        attributes: keys_from(p.attributes),
        time_unix_nano: p.time_unix_nano,
        count: p.count,
        sum: p.sum.map(|x| x.to_bits()),
        min: p.min.map(|x| x.to_bits()),
        max: p.max.map(|x| x.to_bits()),
    }
}

/// An `ExponentialHistogramDataPoint`, field by field.
#[verifier::external_body]
fn exponential_from(p: proto::metrics::v1::ExponentialHistogramDataPoint) -> HistogramPoint {
    HistogramPoint {
        attributes: keys_from(p.attributes),
        time_unix_nano: p.time_unix_nano,
        count: p.count,
        sum: p.sum.map(|x| x.to_bits()),
        min: p.min.map(|x| x.to_bits()),
        max: p.max.map(|x| x.to_bits()),
    }
}

/// A `SummaryDataPoint`, field by field.
#[verifier::external_body]
fn summary_from(p: proto::metrics::v1::SummaryDataPoint) -> SummaryPoint {
    SummaryPoint {
        attributes: keys_from(p.attributes),
        time_unix_nano: p.time_unix_nano,
        count: p.count,
        sum: p.sum.to_bits(),
    }
}

/// The `Data` of a `Metric`, variant by variant.
#[verifier::external_body]
fn data_from(d: proto::metrics::v1::metric::Data) -> MetricData {
    match d {
        Data::Gauge(g) => MetricData::Gauge(numbers_from(g.data_points)),
        Data::Sum(s) => MetricData::Sum(SumData {
            data_points: numbers_from(s.data_points),
            aggregation_temporality: s.aggregation_temporality,
            is_monotonic: s.is_monotonic,
        }),
        Data::Histogram(h) => MetricData::Histogram(HistogramData { data_points: h.data_points.into_iter().map(histogram_from).collect(), aggregation_temporality: h.aggregation_temporality }),
        Data::ExponentialHistogram(h) => MetricData::ExponentialHistogram(HistogramData { data_points: h.data_points.into_iter().map(exponential_from).collect(), aggregation_temporality: h.aggregation_temporality }),
        Data::Summary(s) => MetricData::Summary(s.data_points.into_iter().map(summary_from).collect()),
    }
}

/// A `Metric`, field by field.
#[verifier::external_body]
fn metric_from(m: proto::metrics::v1::Metric) -> OtelMetric {
    OtelMetric {
        name: m.name,
        description: m.description,
        unit: m.unit,
        metadata: keys_from(m.metadata),
        data: m.data.map(data_from),
    }
}

/// An `ExportTraceServiceRequest`, field by field.
#[verifier::external_body]
fn resource_spans_from(m: proto::collector::trace::v1::ExportTraceServiceRequest) -> Vec<ResourceSpans> {
    m.resource_spans.into_iter().map(|r| ResourceSpans {
        resource: r.resource.map(|x| Resource { attributes: keys_from(x.attributes) }),
        scope_spans: r.scope_spans.into_iter().map(|s| ScopeSpans {
            scope: s.scope.map(scope_from),
            spans: s.spans.into_iter().map(span_from).collect(),
        }).collect(),
    }).collect()
}

/// What a request to export spans holds, encoded in Protobuf.
pub uninterp spec fn traces_read(bytes: Seq<u8>) -> Result<Seq<ResourceSpansV>, Seq<char>>;

/// What a request to export spans holds, encoded in JSON.
pub uninterp spec fn traces_of_json(v: JsonV) -> Result<Seq<ResourceSpansV>, Seq<char>>;

/// What a decoded request says.
pub open spec fn traces_view(r: Result<Vec<ResourceSpans>, String>) -> Result<Seq<ResourceSpansV>, Seq<char>> {
    match r {
        Ok(v) => Ok(views(v@)),
        Err(m) => Err(m@),
    }
}

/// `prost`'s `decode` of an `ExportTraceServiceRequest`, or the text of its error. What
/// comes out depends on the bytes alone.
#[verifier::external_body]
pub(crate) fn read_traces(bytes: &[u8]) -> (r: Result<Vec<ResourceSpans>, String>)
    ensures
        traces_view(r) == traces_read(bytes@),
{
    prost::Message::decode(bytes).map(resource_spans_from).map_err(|e: prost::DecodeError| e.to_string())
}

/// `serde_json::from_value` into an `ExportTraceServiceRequest`, or the text of its
/// error. What comes out depends on the value alone.
#[verifier::external_body]
pub(crate) fn traces_from_json(v: &Json) -> (r: Result<Vec<ResourceSpans>, String>)
    ensures
        traces_view(r) == traces_of_json(v@),
{
    serde_json::from_value(json_to_value(v)).map(resource_spans_from).map_err(|e| e.to_string())
}

/// An `ExportLogsServiceRequest`, field by field.
#[verifier::external_body]
fn resource_logs_from(m: proto::collector::logs::v1::ExportLogsServiceRequest) -> Vec<ResourceLogs> {
    m.resource_logs.into_iter().map(|r| ResourceLogs {
        resource: r.resource.map(|x| Resource { attributes: keys_from(x.attributes) }),
        scope_logs: r.scope_logs.into_iter().map(|s| ScopeLogs {
            scope: s.scope.map(scope_from),
            log_records: s.log_records.into_iter().map(log_from).collect(),
        }).collect(),
    }).collect()
}

/// What a request to export log records holds, encoded in Protobuf.
pub uninterp spec fn logs_read(bytes: Seq<u8>) -> Result<Seq<ResourceLogsV>, Seq<char>>;

/// What a request to export log records holds, encoded in JSON.
pub uninterp spec fn logs_of_json(v: JsonV) -> Result<Seq<ResourceLogsV>, Seq<char>>;

/// What a decoded request says.
pub open spec fn logs_view(r: Result<Vec<ResourceLogs>, String>) -> Result<Seq<ResourceLogsV>, Seq<char>> {
    match r {
        Ok(v) => Ok(views(v@)),
        Err(m) => Err(m@),
    }
}

/// `prost`'s `decode` of an `ExportLogsServiceRequest`, or the text of its error. What
/// comes out depends on the bytes alone.
#[verifier::external_body]
pub(crate) fn read_logs(bytes: &[u8]) -> (r: Result<Vec<ResourceLogs>, String>)
    ensures
        logs_view(r) == logs_read(bytes@),
{
    prost::Message::decode(bytes).map(resource_logs_from).map_err(|e: prost::DecodeError| e.to_string())
}

/// `serde_json::from_value` into an `ExportLogsServiceRequest`, or the text of its
/// error. What comes out depends on the value alone.
#[verifier::external_body]
pub(crate) fn logs_from_json(v: &Json) -> (r: Result<Vec<ResourceLogs>, String>)
    ensures
        logs_view(r) == logs_of_json(v@),
{
    serde_json::from_value(json_to_value(v)).map(resource_logs_from).map_err(|e| e.to_string())
}

/// An `ExportMetricsServiceRequest`, field by field.
#[verifier::external_body]
fn resource_metrics_from(m: proto::collector::metrics::v1::ExportMetricsServiceRequest) -> Vec<ResourceMetrics> {
    m.resource_metrics.into_iter().map(|r| ResourceMetrics {
        resource: r.resource.map(|x| Resource { attributes: keys_from(x.attributes) }),
        scope_metrics: r.scope_metrics.into_iter().map(|s| ScopeMetrics {
            scope: s.scope.map(scope_from),
            metrics: s.metrics.into_iter().map(metric_from).collect(),
        }).collect(),
    }).collect()
}

/// What a request to export metrics holds, encoded in Protobuf.
pub uninterp spec fn metrics_read(bytes: Seq<u8>) -> Result<Seq<ResourceMetricsV>, Seq<char>>;

/// What a request to export metrics holds, encoded in JSON.
pub uninterp spec fn metrics_of_json(v: JsonV) -> Result<Seq<ResourceMetricsV>, Seq<char>>;

/// What a decoded request says.
pub open spec fn metrics_view(r: Result<Vec<ResourceMetrics>, String>) -> Result<Seq<ResourceMetricsV>, Seq<char>> {
    match r {
        Ok(v) => Ok(views(v@)),
        Err(m) => Err(m@),
    }
}

/// `prost`'s `decode` of an `ExportMetricsServiceRequest`, or the text of its error. What
/// comes out depends on the bytes alone.
#[verifier::external_body]
pub(crate) fn read_metrics(bytes: &[u8]) -> (r: Result<Vec<ResourceMetrics>, String>)
    ensures
        metrics_view(r) == metrics_read(bytes@),
{
    prost::Message::decode(bytes).map(resource_metrics_from).map_err(|e: prost::DecodeError| e.to_string())
}

/// `serde_json::from_value` into an `ExportMetricsServiceRequest`, or the text of its
/// error. What comes out depends on the value alone.
#[verifier::external_body]
pub(crate) fn metrics_from_json(v: &Json) -> (r: Result<Vec<ResourceMetrics>, String>)
    ensures
        metrics_view(r) == metrics_of_json(v@),
{
    serde_json::from_value(json_to_value(v)).map(resource_metrics_from).map_err(|e| e.to_string())
}

} // verus!
