//! The messages of OpenTelemetry, as far as they are stored: what a request to
//! export spans, log records or metrics holds.
use vstd::prelude::*;
use vstd::string::*;

verus! {

/// What the items of a list say.
pub open spec fn views<T: View>(v: Seq<T>) -> Seq<T::V> {
    Seq::new(v.len(), |i: int| v[i]@)
}

/// What a value that may be there says.
pub open spec fn opt_view<T: View>(o: Option<T>) -> Option<T::V> {
    match o {
        Some(x) => Some(x@),
        None => None,
    }
}

// ---------------------------------------------------------------------
// Attributes
// ---------------------------------------------------------------------
/// The value of an attribute.
#[derive(Debug)]
pub enum AnyVal {
    /// No value, or one that refers to a table of strings.
    Empty,
    Text(String),
    Bool(bool),
    Whole(i64),
    /// A floating-point number, as its double-precision bit pattern.
    Double(u64),
    List(Vec<AnyVal>),
    Dict(Vec<KeyVal>),
    Bytes(Vec<u8>),
}

/// An attribute.
#[derive(Debug)]
pub struct KeyVal {
    pub key: String,
    pub value: Option<AnyVal>,
}

/// What an [`AnyVal`] says.
pub enum AnyV {
    Empty,
    Text(Seq<char>),
    Bool(bool),
    Whole(i64),
    Double(u64),
    List(Seq<AnyV>),
    Dict(Seq<(Seq<char>, Option<AnyV>)>),
    Bytes(Seq<u8>),
}

/// What a [`KeyVal`] says.
pub type KeyV = (Seq<char>, Option<AnyV>);

/// What an [`AnyVal`] says.
pub open spec fn any_view(v: AnyVal) -> AnyV
    decreases v,
{
    match v {
        AnyVal::Empty => AnyV::Empty,
        AnyVal::Text(s) => AnyV::Text(s@),
        AnyVal::Bool(b) => AnyV::Bool(b),
        AnyVal::Whole(i) => AnyV::Whole(i),
        AnyVal::Double(x) => AnyV::Double(x),
        AnyVal::List(items) => AnyV::List(
            Seq::new(
                items@.len(),
                |i: int|
                    if 0 <= i < items.len() {
                        any_view(items[i])
                    } else {
                        arbitrary()
                    },
            ),
        ),
        AnyVal::Dict(pairs) => AnyV::Dict(
            Seq::new(
                pairs@.len(),
                |i: int|
                    if 0 <= i < pairs.len() {
                        (
                            pairs[i].key@,
                            match pairs[i].value {
                                Some(x) => Some(any_view(x)),
                                None => None,
                            },
                        )
                    } else {
                        arbitrary()
                    },
            ),
        ),
        AnyVal::Bytes(b) => AnyV::Bytes(b@),
    }
}

impl View for AnyVal {
    type V = AnyV;

    open spec fn view(&self) -> AnyV {
        any_view(*self)
    }
}

impl View for KeyVal {
    type V = KeyV;

    open spec fn view(&self) -> KeyV {
        (self.key@, opt_view(self.value))
    }
}

/// The view of a list or a map is made of the views of its parts.
pub broadcast proof fn lemma_any_view(v: AnyVal)
    ensures
        v matches AnyVal::List(items) ==> #[trigger] any_view(v) == AnyV::List(views(items@)),
        v matches AnyVal::Dict(pairs) ==> any_view(v) == AnyV::Dict(views(pairs@)),
{
    match v {
        AnyVal::List(items) => {
            assert(any_view(v)->List_0 =~= views(items@));
        },
        AnyVal::Dict(pairs) => {
            assert(any_view(v)->Dict_0 =~= views(pairs@));
        },
        _ => {},
    }
}

// ---------------------------------------------------------------------
// Messages
// ---------------------------------------------------------------------
/// What produced the telemetry.
#[derive(Debug)]
pub struct Resource {
    pub attributes: Vec<KeyVal>,
}

/// What a [`Resource`] says.
#[verifier::ext_equal]
pub struct ResourceV {
    pub attributes: Seq<KeyV>,
}

impl View for Resource {
    type V = ResourceV;

    open spec fn view(&self) -> ResourceV {
        ResourceV {
            attributes: views(self.attributes@),
        }
    }
}

/// The library that recorded the telemetry.
#[derive(Debug)]
pub struct Scope {
    pub name: String,
    pub version: String,
    pub attributes: Vec<KeyVal>,
}

/// What a [`Scope`] says.
#[verifier::ext_equal]
pub struct ScopeV {
    pub name: Seq<char>,
    pub version: Seq<char>,
    pub attributes: Seq<KeyV>,
}

impl View for Scope {
    type V = ScopeV;

    open spec fn view(&self) -> ScopeV {
        ScopeV {
            name: self.name@,
            version: self.version@,
            attributes: views(self.attributes@),
        }
    }
}

/// Something that happened during a span.
#[derive(Debug)]
pub struct SpanEvent {
    pub time_unix_nano: u64,
    pub name: String,
    pub attributes: Vec<KeyVal>,
}

/// What a [`SpanEvent`] says.
#[verifier::ext_equal]
pub struct SpanEventV {
    pub time_unix_nano: u64,
    pub name: Seq<char>,
    pub attributes: Seq<KeyV>,
}

impl View for SpanEvent {
    type V = SpanEventV;

    open spec fn view(&self) -> SpanEventV {
        SpanEventV {
            time_unix_nano: self.time_unix_nano,
            name: self.name@,
            attributes: views(self.attributes@),
        }
    }
}

/// How a span ended.
#[derive(Debug)]
pub struct SpanStatus {
    pub message: String,
    pub code: i32,
}

/// What a [`SpanStatus`] says.
#[verifier::ext_equal]
pub struct SpanStatusV {
    pub message: Seq<char>,
    pub code: i32,
}

impl View for SpanStatus {
    type V = SpanStatusV;

    open spec fn view(&self) -> SpanStatusV {
        SpanStatusV {
            message: self.message@,
            code: self.code,
        }
    }
}

/// An operation of a trace.
#[derive(Debug)]
pub struct OtelSpan {
    pub trace_id: Vec<u8>,
    pub span_id: Vec<u8>,
    pub trace_state: String,
    pub parent_span_id: Vec<u8>,
    pub name: String,
    pub kind: i32,
    pub start_time_unix_nano: u64,
    pub end_time_unix_nano: u64,
    pub attributes: Vec<KeyVal>,
    pub events: Vec<SpanEvent>,
    pub status: Option<SpanStatus>,
}

/// What a [`OtelSpan`] says.
#[verifier::ext_equal]
pub struct OtelSpanV {
    pub trace_id: Seq<u8>,
    pub span_id: Seq<u8>,
    pub trace_state: Seq<char>,
    pub parent_span_id: Seq<u8>,
    pub name: Seq<char>,
    pub kind: i32,
    pub start_time_unix_nano: u64,
    pub end_time_unix_nano: u64,
    pub attributes: Seq<KeyV>,
    pub events: Seq<SpanEventV>,
    pub status: Option<SpanStatusV>,
}

impl View for OtelSpan {
    type V = OtelSpanV;

    open spec fn view(&self) -> OtelSpanV {
        OtelSpanV {
            trace_id: self.trace_id@,
            span_id: self.span_id@,
            trace_state: self.trace_state@,
            parent_span_id: self.parent_span_id@,
            name: self.name@,
            kind: self.kind,
            start_time_unix_nano: self.start_time_unix_nano,
            end_time_unix_nano: self.end_time_unix_nano,
            attributes: views(self.attributes@),
            events: views(self.events@),
            status: opt_view(self.status),
        }
    }
}

/// The spans of one scope.
#[derive(Debug)]
pub struct ScopeSpans {
    pub scope: Option<Scope>,
    pub spans: Vec<OtelSpan>,
}

/// What a [`ScopeSpans`] says.
#[verifier::ext_equal]
pub struct ScopeSpansV {
    pub scope: Option<ScopeV>,
    pub spans: Seq<OtelSpanV>,
}

impl View for ScopeSpans {
    type V = ScopeSpansV;

    open spec fn view(&self) -> ScopeSpansV {
        ScopeSpansV {
            scope: opt_view(self.scope),
            spans: views(self.spans@),
        }
    }
}

/// The spans of one resource.
#[derive(Debug)]
pub struct ResourceSpans {
    pub resource: Option<Resource>,
    pub scope_spans: Vec<ScopeSpans>,
}

/// What a [`ResourceSpans`] says.
#[verifier::ext_equal]
pub struct ResourceSpansV {
    pub resource: Option<ResourceV>,
    pub scope_spans: Seq<ScopeSpansV>,
}

impl View for ResourceSpans {
    type V = ResourceSpansV;

    open spec fn view(&self) -> ResourceSpansV {
        ResourceSpansV {
            resource: opt_view(self.resource),
            scope_spans: views(self.scope_spans@),
        }
    }
}

/// A log record.
#[derive(Debug)]
pub struct OtelLog {
    pub time_unix_nano: u64,
    pub observed_time_unix_nano: u64,
    pub severity_number: i32,
    pub severity_text: String,
    pub body: Option<AnyVal>,
    pub attributes: Vec<KeyVal>,
    pub trace_id: Vec<u8>,
    pub span_id: Vec<u8>,
    pub event_name: String,
}

/// What a [`OtelLog`] says.
#[verifier::ext_equal]
pub struct OtelLogV {
    pub time_unix_nano: u64,
    pub observed_time_unix_nano: u64,
    pub severity_number: i32,
    pub severity_text: Seq<char>,
    pub body: Option<AnyV>,
    pub attributes: Seq<KeyV>,
    pub trace_id: Seq<u8>,
    pub span_id: Seq<u8>,
    pub event_name: Seq<char>,
}

impl View for OtelLog {
    type V = OtelLogV;

    open spec fn view(&self) -> OtelLogV {
        OtelLogV {
            time_unix_nano: self.time_unix_nano,
            observed_time_unix_nano: self.observed_time_unix_nano,
            severity_number: self.severity_number,
            severity_text: self.severity_text@,
            body: opt_view(self.body),
            attributes: views(self.attributes@),
            trace_id: self.trace_id@,
            span_id: self.span_id@,
            event_name: self.event_name@,
        }
    }
}

/// The log records of one scope.
#[derive(Debug)]
pub struct ScopeLogs {
    pub scope: Option<Scope>,
    pub log_records: Vec<OtelLog>,
}

/// What a [`ScopeLogs`] says.
#[verifier::ext_equal]
pub struct ScopeLogsV {
    pub scope: Option<ScopeV>,
    pub log_records: Seq<OtelLogV>,
}

impl View for ScopeLogs {
    type V = ScopeLogsV;

    open spec fn view(&self) -> ScopeLogsV {
        ScopeLogsV {
            scope: opt_view(self.scope),
            log_records: views(self.log_records@),
        }
    }
}

/// The log records of one resource.
#[derive(Debug)]
pub struct ResourceLogs {
    pub resource: Option<Resource>,
    pub scope_logs: Vec<ScopeLogs>,
}

/// What a [`ResourceLogs`] says.
#[verifier::ext_equal]
pub struct ResourceLogsV {
    pub resource: Option<ResourceV>,
    pub scope_logs: Seq<ScopeLogsV>,
}

impl View for ResourceLogs {
    type V = ResourceLogsV;

    open spec fn view(&self) -> ResourceLogsV {
        ResourceLogsV {
            resource: opt_view(self.resource),
            scope_logs: views(self.scope_logs@),
        }
    }
}

/// A number, as an integer or as a double-precision bit pattern.
#[derive(Debug, Clone, Copy)]
pub enum NumberValue {
    AsDouble(u64),
    AsInt(i64),
}

/// A number that was measured.
#[derive(Debug)]
pub struct NumberPoint {
    pub attributes: Vec<KeyVal>,
    pub time_unix_nano: u64,
    pub value: Option<NumberValue>,
}

/// What a [`NumberPoint`] says.
#[verifier::ext_equal]
pub struct NumberPointV {
    pub attributes: Seq<KeyV>,
    pub time_unix_nano: u64,
    pub value: Option<NumberValue>,
}

impl View for NumberPoint {
    type V = NumberPointV;

    open spec fn view(&self) -> NumberPointV {
        NumberPointV {
            attributes: views(self.attributes@),
            time_unix_nano: self.time_unix_nano,
            value: self.value,
        }
    }
}

/// A distribution that was measured. Numbers stand as double-precision bit
/// patterns.
#[derive(Debug)]
pub struct HistogramPoint {
    pub attributes: Vec<KeyVal>,
    pub time_unix_nano: u64,
    pub count: u64,
    pub sum: Option<u64>,
    pub min: Option<u64>,
    pub max: Option<u64>,
}

/// What a [`HistogramPoint`] says.
#[verifier::ext_equal]
pub struct HistogramPointV {
    pub attributes: Seq<KeyV>,
    pub time_unix_nano: u64,
    pub count: u64,
    pub sum: Option<u64>,
    pub min: Option<u64>,
    pub max: Option<u64>,
}

impl View for HistogramPoint {
    type V = HistogramPointV;

    open spec fn view(&self) -> HistogramPointV {
        HistogramPointV {
            attributes: views(self.attributes@),
            time_unix_nano: self.time_unix_nano,
            count: self.count,
            sum: self.sum,
            min: self.min,
            max: self.max,
        }
    }
}

/// A summary that was measured. Its sum stands as a double-precision bit pattern.
#[derive(Debug)]
pub struct SummaryPoint {
    pub attributes: Vec<KeyVal>,
    pub time_unix_nano: u64,
    pub count: u64,
    pub sum: u64,
}

/// What a [`SummaryPoint`] says.
#[verifier::ext_equal]
pub struct SummaryPointV {
    pub attributes: Seq<KeyV>,
    pub time_unix_nano: u64,
    pub count: u64,
    pub sum: u64,
}

impl View for SummaryPoint {
    type V = SummaryPointV;

    open spec fn view(&self) -> SummaryPointV {
        SummaryPointV {
            attributes: views(self.attributes@),
            time_unix_nano: self.time_unix_nano,
            count: self.count,
            sum: self.sum,
        }
    }
}

/// The points of a metric, by what they are.
#[derive(Debug)]
pub enum MetricData {
    Gauge(Vec<NumberPoint>),
    Sum(SumData),
    Histogram(HistogramData),
    ExponentialHistogram(HistogramData),
    Summary(Vec<SummaryPoint>),
}

/// What a [`MetricData`] says.
pub enum MetricDataV {
    Gauge(Seq<NumberPointV>),
    Sum(SumDataV),
    Histogram(HistogramDataV),
    ExponentialHistogram(HistogramDataV),
    Summary(Seq<SummaryPointV>),
}

impl View for MetricData {
    type V = MetricDataV;

    open spec fn view(&self) -> MetricDataV {
        match *self {
            MetricData::Gauge(p) => MetricDataV::Gauge(views(p@)),
            MetricData::Sum(s) => MetricDataV::Sum(s@),
            MetricData::Histogram(h) => MetricDataV::Histogram(h@),
            MetricData::ExponentialHistogram(h) => MetricDataV::ExponentialHistogram(h@),
            MetricData::Summary(p) => MetricDataV::Summary(views(p@)),
        }
    }
}

/// The points of a sum.
#[derive(Debug)]
pub struct SumData {
    pub data_points: Vec<NumberPoint>,
    pub aggregation_temporality: i32,
    pub is_monotonic: bool,
}

/// What a [`SumData`] says.
#[verifier::ext_equal]
pub struct SumDataV {
    pub data_points: Seq<NumberPointV>,
    pub aggregation_temporality: i32,
    pub is_monotonic: bool,
}

impl View for SumData {
    type V = SumDataV;

    open spec fn view(&self) -> SumDataV {
        SumDataV {
            data_points: views(self.data_points@),
            aggregation_temporality: self.aggregation_temporality,
            is_monotonic: self.is_monotonic,
        }
    }
}

/// The points of a histogram.
#[derive(Debug)]
pub struct HistogramData {
    pub data_points: Vec<HistogramPoint>,
    pub aggregation_temporality: i32,
}

/// What a [`HistogramData`] says.
#[verifier::ext_equal]
pub struct HistogramDataV {
    pub data_points: Seq<HistogramPointV>,
    pub aggregation_temporality: i32,
}

impl View for HistogramData {
    type V = HistogramDataV;

    open spec fn view(&self) -> HistogramDataV {
        HistogramDataV {
            data_points: views(self.data_points@),
            aggregation_temporality: self.aggregation_temporality,
        }
    }
}

/// A metric and its points.
#[derive(Debug)]
pub struct OtelMetric {
    pub name: String,
    pub description: String,
    pub unit: String,
    pub metadata: Vec<KeyVal>,
    pub data: Option<MetricData>,
}

/// What a [`OtelMetric`] says.
#[verifier::ext_equal]
pub struct OtelMetricV {
    pub name: Seq<char>,
    pub description: Seq<char>,
    pub unit: Seq<char>,
    pub metadata: Seq<KeyV>,
    pub data: Option<MetricDataV>,
}

impl View for OtelMetric {
    type V = OtelMetricV;

    open spec fn view(&self) -> OtelMetricV {
        OtelMetricV {
            name: self.name@,
            description: self.description@,
            unit: self.unit@,
            metadata: views(self.metadata@),
            data: opt_view(self.data),
        }
    }
}

/// The metrics of one scope.
#[derive(Debug)]
pub struct ScopeMetrics {
    pub scope: Option<Scope>,
    pub metrics: Vec<OtelMetric>,
}

/// What a [`ScopeMetrics`] says.
#[verifier::ext_equal]
pub struct ScopeMetricsV {
    pub scope: Option<ScopeV>,
    pub metrics: Seq<OtelMetricV>,
}

impl View for ScopeMetrics {
    type V = ScopeMetricsV;

    open spec fn view(&self) -> ScopeMetricsV {
        ScopeMetricsV {
            scope: opt_view(self.scope),
            metrics: views(self.metrics@),
        }
    }
}

/// The metrics of one resource.
#[derive(Debug)]
pub struct ResourceMetrics {
    pub resource: Option<Resource>,
    pub scope_metrics: Vec<ScopeMetrics>,
}

/// What a [`ResourceMetrics`] says.
#[verifier::ext_equal]
pub struct ResourceMetricsV {
    pub resource: Option<ResourceV>,
    pub scope_metrics: Seq<ScopeMetricsV>,
}

impl View for ResourceMetrics {
    type V = ResourceMetricsV;

    open spec fn view(&self) -> ResourceMetricsV {
        ResourceMetricsV {
            resource: opt_view(self.resource),
            scope_metrics: views(self.scope_metrics@),
        }
    }
}

} // verus!
