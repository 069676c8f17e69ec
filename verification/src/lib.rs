//! The core of a centralized logging server: the filter language, parsing and
//! normalization of log records, error grouping, alert rules and configuration.
use vstd::prelude::*;
use vstd::string::*;

pub mod ai;
pub mod alerts;
pub mod alerts_laws;
pub mod analytics;
pub mod assoc;
pub mod audit;
pub mod audit_laws;
pub mod backup;
pub mod calendar;
pub mod client;
pub mod collector;
pub mod config;
pub mod dashboard;
pub mod dashboard_laws;
pub mod double;
pub mod error;
pub mod errors;
pub mod errors_group_laws;
pub mod errors_laws;
pub mod float;
pub mod hot;
pub mod ingest;
pub mod insert;
pub mod ip;
pub mod json;
pub mod load;
pub mod mcp;
pub mod normalize_laws;
pub mod prompts;
pub mod query;
pub mod query_laws;
pub mod query_operator_laws;
pub mod query_text_laws;
pub mod row;
pub mod settings_laws;
pub mod text;
pub mod text_laws;
pub mod time;
pub mod tools_laws;
pub mod units;
pub mod units_laws;
pub mod validate;
pub mod wire_laws;

verus! {

/// A record as it was received, before it is parsed.
#[derive(Debug, Clone)]
pub struct RawRecord {
    pub receive_ts: time::Timestamp,
    /// Where the record came from, if known.
    pub source_addr: String,
    /// How the record arrived.
    pub protocol: Protocol,
    /// The payload: a JSON envelope, a syslog line, or any other bytes.
    pub raw: Vec<u8>,
}

impl RawRecord {
    /// The length of the payload.
    pub fn raw_len(&self) -> (r: usize)
        ensures
            r == self.raw@.len(),
    {
        self.raw.len()
    }
}

/// How a record arrived.
#[derive(Debug, Clone, Copy, PartialEq, Eq, Hash, Structural)]
pub enum Protocol {
    HttpJson,
    SyslogUdp,
    SyslogTcp,
    /// Error events of Sentry clients.
    Sentry,
    /// OpenTelemetry log records.
    OtlpLog,
    /// OpenTelemetry spans.
    OtlpSpan,
    /// OpenTelemetry metric points.
    OtlpMetric,
    /// Graylog messages.
    Gelf,
    /// The forward protocol of Fluentd.
    Fluentd,
    /// Events for a Splunk HTTP event collector.
    SplunkHec,
    /// Audit events of a Kubernetes API server.
    K8sAudit,
    /// Container log lines pulled from the Docker Engine.
    DockerApi,
    /// Pod log lines pulled from Kubernetes.
    K8sApi,
}

impl Protocol {
    /// The name under which the protocol is stored.
    pub open spec fn name(self) -> Seq<char> {
        match self {
            Protocol::HttpJson => "http_json"@,
            Protocol::SyslogUdp => "syslog_udp"@,
            Protocol::SyslogTcp => "syslog_tcp"@,
            Protocol::Sentry => "sentry"@,
            Protocol::OtlpLog => "otlp_log"@,
            Protocol::OtlpSpan => "otlp_span"@,
            Protocol::OtlpMetric => "otlp_metric"@,
            Protocol::Gelf => "gelf"@,
            Protocol::Fluentd => "fluentd"@,
            Protocol::SplunkHec => "splunk_hec"@,
            Protocol::K8sAudit => "k8s_audit"@,
            Protocol::DockerApi => "docker_api"@,
            Protocol::K8sApi => "k8s_api"@,
        }
    }

    /// The name under which the protocol is stored.
    pub fn as_str(&self) -> (r: &'static str)
        ensures
            r@ == self.name(),
    {
        match self {
            Protocol::HttpJson => "http_json",
            Protocol::SyslogUdp => "syslog_udp",
            Protocol::SyslogTcp => "syslog_tcp",
            Protocol::Sentry => "sentry",
            Protocol::OtlpLog => "otlp_log",
            Protocol::OtlpSpan => "otlp_span",
            Protocol::OtlpMetric => "otlp_metric",
            Protocol::Gelf => "gelf",
            Protocol::Fluentd => "fluentd",
            Protocol::SplunkHec => "splunk_hec",
            Protocol::K8sAudit => "k8s_audit",
            Protocol::DockerApi => "docker_api",
            Protocol::K8sApi => "k8s_api",
        }
    }
}

/// What was received, in all and by protocol.
#[derive(Debug, Clone)]
pub struct InsertCounters {
    pub records_total: u64,
    pub bytes_total: u64,
    pub errors_total: u64,
    pub per_protocol: Vec<(&'static str, ProtocolCounters)>,
}

/// What was received by one protocol.
#[derive(Debug, Clone, Copy)]
pub struct ProtocolCounters {
    pub records: u64,
    pub bytes: u64,
}

} // verus!
