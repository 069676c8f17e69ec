//! OpenTelemetry requests.
use central_logs::insert::otlp::{
    content_type_for, decode_logs, decode_metrics, decode_traces, detect_wire,
    enum_string_to_number, json_body_looks_like_otlp, logs_to_records, metrics_to_records,
    normalize_otlp_json, severity_to_level, success_body, traces_to_records, Wire,
};
use central_logs::insert::otlp_types::{
    AnyVal, HistogramData, HistogramPoint, KeyVal, MetricData, NumberPoint, NumberValue, OtelLog,
    OtelMetric, OtelSpan, Resource, ResourceLogs, ResourceMetrics, ResourceSpans, Scope,
    ScopeLogs, ScopeMetrics, ScopeSpans, SpanStatus, SumData, SummaryPoint,
};
use central_logs::json::Json;
use central_logs::time::Timestamp;
use central_logs::{Protocol, RawRecord};
use opentelemetry_proto::tonic::collector::trace::v1::ExportTraceServiceRequest;
use opentelemetry_proto::tonic::common::v1::{any_value::Value, AnyValue, KeyValue};
use opentelemetry_proto::tonic::logs::v1::SeverityNumber;
use opentelemetry_proto::tonic::trace::v1 as trace;
use prost::Message;

fn now() -> Timestamp {
    Timestamp::new(1_700_000_000, 0).unwrap()
}

fn env(rec: &RawRecord) -> serde_json::Value {
    serde_json::from_slice(&rec.raw).unwrap()
}

fn key(key: &str, value: AnyVal) -> KeyVal {
    KeyVal { key: key.into(), value: Some(value) }
}

fn svc() -> Resource {
    Resource { attributes: vec![key("service.name", AnyVal::Text("checkout".into()))] }
}

fn span() -> OtelSpan {
    OtelSpan {
        trace_id: Vec::new(),
        span_id: Vec::new(),
        trace_state: String::new(),
        parent_span_id: Vec::new(),
        name: String::new(),
        kind: 0,
        start_time_unix_nano: 0,
        end_time_unix_nano: 0,
        attributes: Vec::new(),
        events: Vec::new(),
        status: None,
    }
}

fn spans(span: OtelSpan) -> Vec<ResourceSpans> {
    vec![ResourceSpans {
        resource: Some(svc()),
        scope_spans: vec![ScopeSpans { scope: None, spans: vec![span] }],
    }]
}

#[test]
fn trace_envelope_has_core_fields() {
    let span = OtelSpan {
        trace_id: vec![0xab; 16],
        span_id: vec![0xcd; 8],
        parent_span_id: vec![0x11; 8],
        name: "GET /checkout".into(),
        kind: 2,
        start_time_unix_nano: 1_700_000_000_000_000_000,
        end_time_unix_nano: 1_700_000_000_150_000_000,
        status: Some(SpanStatus { message: "db timeout".into(), code: 2 }),
        attributes: vec![key("http.status_code", AnyVal::Whole(500))],
        ..span()
    };
    let recs = traces_to_records(&spans(span), now(), "1.2.3.4:5");
    assert_eq!(recs.len(), 1);
    assert_eq!(recs[0].protocol, Protocol::OtlpSpan);
    let v = env(&recs[0]);
    assert_eq!(v["service"], "checkout");
    assert_eq!(v["level"], "error");
    assert_eq!(v["msg"], "GET /checkout");
    assert_eq!(v["trace_id"], "abababababababababababababababab");
    assert_eq!(v["span_id"], "cdcdcdcdcdcdcdcd");
    assert_eq!(v["parent_span_id"], "1111111111111111");
    assert_eq!(v["duration_ms"], 150.0);
    assert_eq!(v["http.status_code"], 500);
    assert_eq!(v["span_kind"], "SPAN_KIND_SERVER");
}

fn log() -> OtelLog {
    OtelLog {
        time_unix_nano: 0,
        observed_time_unix_nano: 0,
        severity_number: 0,
        severity_text: String::new(),
        body: None,
        attributes: Vec::new(),
        trace_id: Vec::new(),
        span_id: Vec::new(),
        event_name: String::new(),
    }
}

fn logs(l: OtelLog) -> Vec<ResourceLogs> {
    vec![ResourceLogs {
        resource: Some(svc()),
        scope_logs: vec![ScopeLogs { scope: None, log_records: vec![l] }],
    }]
}

#[test]
fn log_envelope_maps_severity_and_body() {
    let lr = OtelLog {
        time_unix_nano: 1_700_000_000_000_000_000,
        severity_number: 13,
        severity_text: "WARN".into(),
        body: Some(AnyVal::Text("queue lag 12s".into())),
        trace_id: vec![0x01; 16],
        span_id: vec![0x02; 8],
        ..log()
    };
    let recs = logs_to_records(&logs(lr), now(), "");
    assert_eq!(recs[0].protocol, Protocol::OtlpLog);
    let v = env(&recs[0]);
    assert_eq!(v["service"], "checkout");
    assert_eq!(v["level"], "warn");
    assert_eq!(v["msg"], "queue lag 12s");
    assert_eq!(v["trace_id"], "01010101010101010101010101010101");
    assert_eq!(v["severity_text"], "WARN");
}

fn metric(data: MetricData) -> Vec<ResourceMetrics> {
    vec![ResourceMetrics {
        resource: Some(svc()),
        scope_metrics: vec![ScopeMetrics {
            scope: Some(Scope {
                name: "lib".into(),
                version: "1".into(),
                attributes: Vec::new(),
            }),
            metrics: vec![OtelMetric {
                name: "http.server.duration".into(),
                description: String::new(),
                unit: "ms".into(),
                metadata: Vec::new(),
                data: Some(data),
            }],
        }],
    }]
}

fn point(value: Option<NumberValue>) -> NumberPoint {
    NumberPoint {
        time_unix_nano: 1_700_000_000_000_000_000,
        value,
        attributes: vec![key("route", AnyVal::Text("/health".into()))],
    }
}

#[test]
fn metric_envelope_value_and_labels() {
    let p = point(Some(NumberValue::AsDouble(42.5f64.to_bits())));
    let recs = metrics_to_records(&metric(MetricData::Gauge(vec![p])), now(), "");
    assert_eq!(recs[0].protocol, Protocol::OtlpMetric);
    let v = env(&recs[0]);
    assert_eq!(v["msg"], "http.server.duration");
    assert_eq!(v["value"], 42.5);
    assert_eq!(v["route"], "/health");
    assert_eq!(v["metric_type"], "gauge");
    assert_eq!(v["unit"], "ms");
    assert_eq!(v["otel_scope_name"], "lib");
}

#[test]
fn protobuf_and_json_requests_round_trip() {
    let service = KeyValue {
        key: "service.name".into(),
        value: Some(AnyValue { value: Some(Value::StringValue("checkout".into())) }),
        key_strindex: 0,
    };
    let req = ExportTraceServiceRequest {
        resource_spans: vec![trace::ResourceSpans {
            resource: Some(opentelemetry_proto::tonic::resource::v1::Resource {
                attributes: vec![service],
                ..Default::default()
            }),
            scope_spans: vec![trace::ScopeSpans {
                spans: vec![trace::Span {
                    trace_id: vec![0x07; 16],
                    span_id: vec![0x08; 8],
                    name: "root".into(),
                    start_time_unix_nano: 1_700_000_000_000_000_000,
                    end_time_unix_nano: 1_700_000_000_010_000_000,
                    ..Default::default()
                }],
                ..Default::default()
            }],
            ..Default::default()
        }],
    };
    let mut buf = Vec::new();
    req.encode(&mut buf).unwrap();
    let decoded = decode_traces(Wire::Protobuf, &buf).expect("protobuf decode");
    let recs = traces_to_records(&decoded, now(), "");
    assert_eq!(recs.len(), 1);
    let v = env(&recs[0]);
    assert_eq!(v["service"], "checkout");
    assert_eq!(v["trace_id"], "07070707070707070707070707070707");

    let json = serde_json::to_vec(&req).unwrap();
    let decoded = decode_traces(Wire::Json, &json).expect("json decode");
    let recs = traces_to_records(&decoded, now(), "");
    assert_eq!(recs.len(), 1);
}

#[test]
fn otlp_json_accepts_string_enum_names() {
    let json = br#"{
      "resourceSpans": [{
        "resource": {"attributes": [
          {"key": "service.name", "value": {"stringValue": "svc"}}
        ]},
        "scopeSpans": [{
          "spans": [{
            "traceId": "01010101010101010101010101010101",
            "spanId": "0202020202020202",
            "name": "root",
            "kind": "SPAN_KIND_SERVER",
            "startTimeUnixNano": "1700000000000000000",
            "endTimeUnixNano": "1700000000050000000",
            "status": {"code": "STATUS_CODE_ERROR", "message": "boom"}
          }]
        }]
      }]
    }"#;
    let req = decode_traces(Wire::Json, json).expect("decode string enums");
    let recs = traces_to_records(&req, now(), "");
    let v = env(&recs[0]);
    assert_eq!(v["service"], "svc");
    assert_eq!(v["span_kind"], "SPAN_KIND_SERVER");
    assert_eq!(v["status_code"], "STATUS_CODE_ERROR");
    assert_eq!(v["level"], "error");
}

#[test]
fn otlp_json_accepts_asint_as_decimal_string() {
    let json = br#"{
      "resourceMetrics": [{
        "resource": {"attributes": [
          {"key": "service.name", "value": {"stringValue": "java-app"}}
        ]},
        "scopeMetrics": [{
          "metrics": [{
            "name": "jvm_memory_used_bytes",
            "gauge": {"dataPoints": [
              {"timeUnixNano": "1700000000000000000", "asInt": "512000000",
               "attributes": [{"key": "pool", "value": {"stringValue": "heap"}}]}
            ]}
          }]
        }]
      }]
    }"#;
    let req = decode_metrics(Wire::Json, json).expect("decode asInt string");
    let recs = metrics_to_records(&req, now(), "");
    let v = env(&recs[0]);
    assert_eq!(v["value"], 512000000.0);
    assert_eq!(v["metric_type"], "gauge");
    assert_eq!(v["pool"], "heap");
}

#[test]
fn detects_wire_and_otlp_json() {
    assert_eq!(detect_wire("application/x-protobuf"), Wire::Protobuf);
    assert_eq!(detect_wire("application/json"), Wire::Json);
    assert!(json_body_looks_like_otlp(br#"{"resourceLogs":[]}"#));
    assert!(!json_body_looks_like_otlp(br#"{"service":"x","msg":"plain"}"#));
}

#[test]
fn answers_are_empty_messages() {
    assert_eq!(success_body(Wire::Protobuf), ("application/x-protobuf", ""));
    assert_eq!(success_body(Wire::Json), ("application/json", "{}"));
    assert_eq!(content_type_for(Wire::Json), "application/json");
}

#[test]
fn requests_that_cannot_be_read_are_told() {
    assert!(decode_traces(Wire::Protobuf, &[0xff])
        .unwrap_err()
        .starts_with("otlp/traces protobuf decode failed: "));
    assert!(decode_logs(Wire::Json, b"x")
        .unwrap_err()
        .starts_with("otlp/logs json decode failed: "));
    assert!(decode_metrics(Wire::Json, br#"{"resourceMetrics": 7}"#)
        .unwrap_err()
        .starts_with("otlp/metrics json decode failed: "));
    assert!(decode_logs(Wire::Protobuf, b"").unwrap().is_empty());
}

#[test]
fn names_of_enumerations_have_numbers() {
    for n in 0..25 {
        let name = SeverityNumber::try_from(n).unwrap().as_str_name();
        assert_eq!(enum_string_to_number("severityNumber", name), Some(n));
    }
    assert_eq!(enum_string_to_number("kind", "SPAN_KIND_CONSUMER"), Some(5));
    assert_eq!(enum_string_to_number("code", "STATUS_CODE_OK"), Some(1));
    assert_eq!(
        enum_string_to_number("aggregationTemporality", "AGGREGATION_TEMPORALITY_DELTA"),
        Some(1)
    );
    assert_eq!(enum_string_to_number("kind", "x"), None);
    assert_eq!(enum_string_to_number("other", "STATUS_CODE_OK"), None);
    let v = Json::parse(r#"{"a":[{"asInt":"-7","kind":"SPAN_KIND_CLIENT","x":"9"}]}"#).unwrap();
    assert_eq!(
        normalize_otlp_json(&v).to_text(),
        r#"{"a":[{"asInt":-7,"kind":3,"x":"9"}]}"#
    );
}

#[test]
fn severities_have_levels() {
    for (n, level) in [(1, "debug"), (8, "debug"), (9, "info"), (16, "warn"), (17, "error"), (24, "fatal")] {
        assert_eq!(severity_to_level(n, ""), level);
    }
    assert_eq!(severity_to_level(0, ""), "info");
    assert_eq!(severity_to_level(99, "WARNING"), "warn");
}

#[test]
fn durations_are_those_of_floating_point() {
    for nanos in [0u64, 1, 999_999, 1_234_567, 150_000_000, 9_007_199_254_740_993, 1 << 62] {
        let s = OtelSpan { start_time_unix_nano: 1, end_time_unix_nano: 1 + nanos, ..span() };
        let v = env(&traces_to_records(&spans(s), now(), "")[0]);
        assert_eq!(v["duration_ms"].as_f64().unwrap(), nanos as f64 / 1_000_000.0, "{nanos}");
    }
    let s = OtelSpan { start_time_unix_nano: 9, end_time_unix_nano: 3, ..span() };
    assert_eq!(env(&traces_to_records(&spans(s), now(), "")[0])["duration_ms"], 0.0);
}

#[test]
fn points_of_every_kind_have_values() {
    let value = |d: MetricData| env(&metrics_to_records(&metric(d), now(), "")[0]);
    let v = value(MetricData::Sum(SumData {
        data_points: vec![point(Some(NumberValue::AsInt(7)))],
        aggregation_temporality: 2,
        is_monotonic: true,
    }));
    assert_eq!(v["value"], 7.0);
    assert_eq!(v["aggregation_temporality"], "cumulative");
    assert_eq!(v["is_monotonic"], true);
    let h = |sum: Option<f64>| HistogramPoint {
        attributes: Vec::new(),
        time_unix_nano: 0,
        count: 3,
        sum: sum.map(f64::to_bits),
        min: Some(0.5f64.to_bits()),
        max: None,
    };
    let hist = |sum| HistogramData { data_points: vec![h(sum)], aggregation_temporality: 1 };
    let v = value(MetricData::Histogram(hist(Some(1.5))));
    assert_eq!((v["value"].clone(), v["hist_sum"].clone()), (1.5.into(), 1.5.into()));
    assert_eq!(v["hist_count"], "3");
    assert_eq!(v["hist_min"], 0.5);
    assert!(v.get("hist_max").is_none());
    let v = value(MetricData::ExponentialHistogram(hist(None)));
    assert_eq!(v["value"], 3.0);
    assert_eq!(v["metric_type"], "exponential_histogram");
    let s = |sum: f64| SummaryPoint {
        attributes: Vec::new(),
        time_unix_nano: 0,
        count: 4,
        sum: sum.to_bits(),
    };
    assert_eq!(value(MetricData::Summary(vec![s(2.5)]))["summary_sum"], 2.5);
    let v = value(MetricData::Summary(vec![s(-0.0)]));
    assert_eq!(v["value"], 4.0);
    assert!(v.get("summary_sum").is_none());
}

#[test]
fn attribute_values_keep_their_kinds() {
    let l = OtelLog {
        body: Some(AnyVal::List(vec![AnyVal::Whole(1), AnyVal::Empty])),
        attributes: vec![
            key("b", AnyVal::Bytes(vec![1, 2, 3])),
            key("d", AnyVal::Dict(vec![key("x", AnyVal::Bool(true))])),
            key("f", AnyVal::Double(0.25f64.to_bits())),
            KeyVal { key: "n".into(), value: None },
        ],
        ..log()
    };
    let v = env(&logs_to_records(&logs(l), now(), "")[0]);
    assert_eq!(v["msg"], "[1,null]");
    assert_eq!(v["b"], "AQID");
    assert_eq!(v["d"]["x"], true);
    assert_eq!(v["f"], 0.25);
    assert!(v["n"].is_null());
    assert_eq!(v["ts"], "2023-11-14T22:13:20+00:00");
}

#[test]
fn names_and_numbers_mean_the_same() {
    let named = Json::parse(r#"{"resourceSpans":[{"scopeSpans":[{"spans":[{"kind":"SPAN_KIND_SERVER"}]}]}]}"#).unwrap();
    let numbered = Json::parse(r#"{"resourceSpans":[{"scopeSpans":[{"spans":[{"kind":2}]}]}]}"#).unwrap();
    let once = normalize_otlp_json(&named);
    assert_eq!(once.to_text(), numbered.to_text());
    assert_eq!(normalize_otlp_json(&once).to_text(), once.to_text());
    assert_eq!(normalize_otlp_json(&numbered).to_text(), once.to_text());
}
