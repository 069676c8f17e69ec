//! Configuration: its defaults, what the command line changes, and what makes it
//! acceptable.
use vstd::prelude::*;
use vstd::string::*;

use crate::Protocol;
use crate::ai::LlmConfig;
use crate::error::{Error, ErrorV};
use crate::errors::ErrorTrackingConfig;
use crate::hot::HotAttribute;
use crate::text::{
    all_digits, begins, cat3, chars_of, contains_char, dec, dec_of, ends, only_digits, opt_text,
    rsplit_once, rsplit_once_at, same, split, split_on, starts_with, strip_suffix, texts, trim,
    trimmed,
};
use crate::units::{
    Schedule, duration_of, parse_duration, parse_schedule, parse_size, schedule_of, size_of,
};

verus! {

// ---------------------------------------------------------------------
// Settings
// ---------------------------------------------------------------------
/// How the tool server is reached.
#[derive(Debug, Clone, Copy, PartialEq, Eq, Structural)]
pub enum McpMode {
    Off,
    Stdio,
    /// Not implemented: a configuration that asks for it is refused.
    Sse,
}

/// How long the records of matching services are kept. The first rule that
/// matches counts.
#[derive(Debug, Clone, PartialEq)]
pub struct ServiceRetention {
    pub pattern: String,
    pub days: u64,
}

/// How long a window may be queried for matching services.
#[derive(Debug, Clone, PartialEq)]
pub struct ServiceQueryLimit {
    pub pattern: String,
    pub max_window_secs: u64,
}

/// The mail relay for alerts.
#[derive(Debug, Clone, PartialEq)]
pub struct SmtpConfig {
    pub host: String,
    pub port: u16,
    pub username: String,
    pub password: String,
    pub from: String,
    /// Whether the connection is upgraded to TLS, rather than made with it.
    pub starttls: bool,
}

/// The archive of old records in an object store.
#[derive(Debug, Clone, PartialEq)]
pub struct ColdStorageConfig {
    pub enabled: bool,
    /// `s3` or `gcs`.
    pub backend: String,
    pub bucket: String,
    pub prefix: String,
    pub endpoint: Option<String>,
    pub region: Option<String>,
    pub keep_local: bool,
}

/// How much is kept where.
#[derive(Debug, Clone, PartialEq)]
pub struct RetentionConfig {
    /// Age at which records leave the hot tier.
    pub hot_max_age: Option<String>,
    /// Size at which the oldest records leave the hot tier.
    pub hot_max_bytes: Option<String>,
    /// Size of the write-ahead log at which inserts are refused.
    pub wal_max_bytes: Option<String>,
}

/// Backups.
#[derive(Debug, Clone, PartialEq)]
pub struct BackupConfig {
    pub enabled: bool,
    /// `daily@HH:MM`, in `timezone`, or `size:<N>`.
    pub schedule: String,
    pub timezone: String,
    /// `s3`, `gcs`, or empty for local copies only.
    pub backend: String,
    pub bucket: String,
    pub prefix: String,
    pub endpoint: Option<String>,
    pub region: Option<String>,
    pub keep_local_copy: bool,
    pub local_backup_dir: Option<String>,
    pub keep_last: usize,
    pub instance_id: Option<String>,
}

/// Graylog listeners.
#[derive(Debug, Clone, PartialEq)]
pub struct GelfIngestConfig {
    pub enabled: bool,
    pub udp_bind: String,
    pub tcp_bind: String,
    pub chunk_timeout_secs: u64,
}

/// The Fluentd listener.
#[derive(Debug, Clone, PartialEq)]
pub struct FluentdIngestConfig {
    pub enabled: bool,
    pub tcp_bind: String,
    pub ack: bool,
}

/// The Splunk endpoint.
#[derive(Debug, Clone, PartialEq)]
pub struct SplunkHecIngestConfig {
    pub enabled: bool,
    pub token: String,
}

/// The Kubernetes audit endpoint.
#[derive(Debug, Clone, PartialEq)]
pub struct K8sAuditIngestConfig {
    pub enabled: bool,
    /// Stages whose events are dropped.
    pub omit_stages: Vec<String>,
}

/// Listeners and endpoints that records are pushed to.
#[derive(Debug, Clone, PartialEq)]
pub struct IngestConfig {
    pub gelf: GelfIngestConfig,
    pub fluentd: FluentdIngestConfig,
    pub splunk_hec: SplunkHecIngestConfig,
    pub k8s_audit: K8sAuditIngestConfig,
}

/// The Docker collector.
#[derive(Debug, Clone, PartialEq)]
pub struct DockerCollectorConfig {
    pub enabled: bool,
    pub socket: String,
    pub api_version: String,
    pub include_names: Vec<String>,
    pub exclude: Vec<String>,
    pub refresh_secs: u64,
    pub tail_lines: u64,
}

/// The Kubernetes collector.
#[derive(Debug, Clone, PartialEq)]
pub struct K8sCollectorConfig {
    pub enabled: bool,
    pub api_url: String,
    pub token: String,
    pub token_file: String,
    pub ca_file: String,
    pub insecure_tls: bool,
    pub namespaces: Vec<String>,
    pub label_selector: String,
    pub refresh_secs: u64,
    pub tail_lines: u64,
}

/// Collectors that pull records.
#[derive(Debug, Clone, PartialEq)]
pub struct CollectorConfig {
    pub docker: DockerCollectorConfig,
    pub kubernetes: K8sCollectorConfig,
}

/// The whole configuration.
#[derive(Debug, Clone)]
pub struct Config {
    pub data_dir: String,
    pub duckdb_path: String,
    pub parquet_dir: String,
    pub http_bind: String,
    pub http_port: u16,
    pub syslog_udp_enabled: bool,
    pub syslog_udp_bind: String,
    pub syslog_tcp_enabled: bool,
    pub syslog_tcp_bind: String,
    pub mcp_mode: McpMode,
    pub mcp_http_bind: String,
    pub mcp_api_key: String,
    pub http_api_key: String,
    pub http_max_body_bytes: usize,
    pub enable_alert_mcp_tool: bool,
    pub alert_eval_interval_secs: u64,
    pub wal_segment_max_bytes: u64,
    pub wal_batch_max_records: usize,
    pub wal_batch_max_delay_ms: u64,
    pub insert_channel_depth: usize,
    pub insert_backpressure_timeout_ms: u64,
    pub ingest_workers: usize,
    pub ingest_batch_size: usize,
    pub ingest_flush_interval_ms: u64,
    pub rollup_interval_secs: u64,
    pub compaction_interval_secs: u64,
    pub hot_tier_hours: u64,
    pub retention_days: u64,
    pub service_retention: Vec<ServiceRetention>,
    pub parquet_compression: String,
    pub duckdb_memory_limit: String,
    pub duckdb_threads: usize,
    pub drop_attributes: Vec<String>,
    pub unwrap_message_json: bool,
    pub service_query_limits: Vec<ServiceQueryLimit>,
    pub cold_storage: ColdStorageConfig,
    pub retention: RetentionConfig,
    pub backup: BackupConfig,
    pub forecast_every_n_rollups: u32,
    pub hot_attributes: Vec<HotAttribute>,
    pub llm: LlmConfig,
    pub smtp: SmtpConfig,
    pub geoip_db_path: Option<String>,
    pub error_tracking: ErrorTrackingConfig,
    pub ingest: IngestConfig,
    pub collector: CollectorConfig,
    pub log_filter: String,
}

/// What the command line can say.
#[derive(Debug, Clone)]
pub struct Cli {
    pub config: Option<String>,
    pub data_dir: Option<String>,
    pub http_port: Option<u16>,
    pub mcp_mode: Option<String>,
    pub enable_alert_mcp_tool: bool,
    pub no_syslog_udp: bool,
    pub no_syslog_tcp: bool,
    pub http_api_key: Option<String>,
    pub no_sentry_ingest: bool,
    pub backup_now: bool,
    pub restore_from: Option<String>,
    pub restore_force_wipe: bool,
    pub print_config: bool,
    /// `name:type[:json_path]`, each.
    pub hot_attributes: Vec<String>,
    pub drop_attributes: Vec<String>,
    pub no_unwrap_message_json: bool,
    /// `GLOB=DAYS`, each.
    pub service_retention: Vec<String>,
    /// `GLOB=DURATION`, each.
    pub service_query_limits: Vec<String>,
    pub duckdb_memory_limit: Option<String>,
    pub duckdb_threads: Option<usize>,
}

// ---------------------------------------------------------------------
// Defaults
// ---------------------------------------------------------------------
impl Default for SmtpConfig {
    fn default() -> (r: Self)
        ensures
            r.host@.len() == 0 && r.port == 587 && r.username@.len() == 0 && r.password@.len() == 0
                && r.from@.len() == 0 && r.starttls,
    {
        SmtpConfig {
            host: String::new(),
            port: 587,
            username: String::new(),
            password: String::new(),
            from: String::new(),
            starttls: true,
        }
    }
}

impl Default for ColdStorageConfig {
    fn default() -> (r: Self)
        ensures
            !r.enabled && r.backend@ == "s3"@ && r.bucket@.len() == 0 && r.prefix@
                == "central-logs/parquet"@ && r.endpoint is None && r.region is None
                && r.keep_local,
    {
        ColdStorageConfig {
            enabled: false,
            backend: "s3".to_owned(),
            bucket: String::new(),
            prefix: "central-logs/parquet".to_owned(),
            endpoint: None,
            region: None,
            keep_local: true,
        }
    }
}

impl Default for RetentionConfig {
    fn default() -> (r: Self)
        ensures
            r.hot_max_age is None && r.hot_max_bytes is None && r.wal_max_bytes is None,
    {
        RetentionConfig { hot_max_age: None, hot_max_bytes: None, wal_max_bytes: None }
    }
}

impl BackupConfig {
    /// The settings of a configuration that says nothing of backups.
    pub open spec fn is_default(self) -> bool {
        !self.enabled && self.schedule@ == "daily@01:30"@ && self.timezone@ == "UTC"@
            && self.backend@.len() == 0 && self.bucket@.len() == 0 && self.prefix@
            == "central-logs/backups"@ && self.endpoint is None && self.region is None
            && self.keep_local_copy && self.local_backup_dir is None && self.keep_last == 14
            && self.instance_id is None
    }
}

impl Default for BackupConfig {
    fn default() -> (r: Self)
        ensures
            r.is_default(),
    {
        BackupConfig {
            enabled: false,
            schedule: "daily@01:30".to_owned(),
            timezone: "UTC".to_owned(),
            backend: String::new(),
            bucket: String::new(),
            prefix: "central-logs/backups".to_owned(),
            endpoint: None,
            region: None,
            keep_local_copy: true,
            local_backup_dir: None,
            keep_last: 14,
            instance_id: None,
        }
    }
}

impl IngestConfig {
    /// The settings of a configuration that says nothing of listeners.
    pub open spec fn is_default(self) -> bool {
        &&& !self.gelf.enabled && self.gelf.udp_bind@ == "0.0.0.0:12201"@ && self.gelf.tcp_bind@
            == "0.0.0.0:12201"@ && self.gelf.chunk_timeout_secs == 5
        &&& !self.fluentd.enabled && self.fluentd.tcp_bind@ == "0.0.0.0:24224"@ && self.fluentd.ack
        &&& !self.splunk_hec.enabled && self.splunk_hec.token@.len() == 0
        &&& !self.k8s_audit.enabled && self.k8s_audit.omit_stages@.len() == 0
    }
}

impl Default for GelfIngestConfig {
    fn default() -> (r: Self)
        ensures
            !r.enabled && r.udp_bind@ == "0.0.0.0:12201"@ && r.tcp_bind@ == "0.0.0.0:12201"@
                && r.chunk_timeout_secs == 5,
    {
        GelfIngestConfig {
            enabled: false,
            udp_bind: "0.0.0.0:12201".to_owned(),
            tcp_bind: "0.0.0.0:12201".to_owned(),
            chunk_timeout_secs: 5,
        }
    }
}

impl Default for FluentdIngestConfig {
    fn default() -> (r: Self)
        ensures
            !r.enabled && r.tcp_bind@ == "0.0.0.0:24224"@ && r.ack,
    {
        FluentdIngestConfig { enabled: false, tcp_bind: "0.0.0.0:24224".to_owned(), ack: true }
    }
}

impl Default for SplunkHecIngestConfig {
    fn default() -> (r: Self)
        ensures
            !r.enabled && r.token@.len() == 0,
    {
        SplunkHecIngestConfig { enabled: false, token: String::new() }
    }
}

impl Default for K8sAuditIngestConfig {
    fn default() -> (r: Self)
        ensures
            !r.enabled && r.omit_stages@.len() == 0,
    {
        K8sAuditIngestConfig { enabled: false, omit_stages: Vec::new() }
    }
}

impl Default for IngestConfig {
    fn default() -> (r: Self)
        ensures
            r.is_default(),
    {
        IngestConfig {
            gelf: GelfIngestConfig::default(),
            fluentd: FluentdIngestConfig::default(),
            splunk_hec: SplunkHecIngestConfig::default(),
            k8s_audit: K8sAuditIngestConfig::default(),
        }
    }
}

impl DockerCollectorConfig {
    /// The settings of a configuration that says nothing of the collector.
    pub open spec fn is_default(self) -> bool {
        !self.enabled && self.socket@ == "unix:///var/run/docker.sock"@ && self.api_version@
            == "v1.41"@ && self.include_names@.len() == 0 && self.exclude@.len() == 0
            && self.refresh_secs == 30 && self.tail_lines == 0
    }
}

impl Default for DockerCollectorConfig {
    fn default() -> (r: Self)
        ensures
            r.is_default(),
    {
        DockerCollectorConfig {
            enabled: false,
            socket: "unix:///var/run/docker.sock".to_owned(),
            api_version: "v1.41".to_owned(),
            include_names: Vec::new(),
            exclude: Vec::new(),
            refresh_secs: 30,
            tail_lines: 0,
        }
    }
}

impl K8sCollectorConfig {
    /// The settings of a configuration that says nothing of the collector.
    pub open spec fn is_default(self) -> bool {
        !self.enabled && self.api_url@ == "https://kubernetes.default.svc"@ && self.token@.len()
            == 0 && self.token_file@ == "/var/run/secrets/kubernetes.io/serviceaccount/token"@
            && self.ca_file@ == "/var/run/secrets/kubernetes.io/serviceaccount/ca.crt"@
            && !self.insecure_tls && self.namespaces@.len() == 0 && self.label_selector@.len() == 0
            && self.refresh_secs == 30 && self.tail_lines == 0
    }
}

impl Default for K8sCollectorConfig {
    fn default() -> (r: Self)
        ensures
            r.is_default(),
    {
        K8sCollectorConfig {
            enabled: false,
            api_url: "https://kubernetes.default.svc".to_owned(),
            token: String::new(),
            token_file: "/var/run/secrets/kubernetes.io/serviceaccount/token".to_owned(),
            ca_file: "/var/run/secrets/kubernetes.io/serviceaccount/ca.crt".to_owned(),
            insecure_tls: false,
            namespaces: Vec::new(),
            label_selector: String::new(),
            refresh_secs: 30,
            tail_lines: 0,
        }
    }
}

impl Default for CollectorConfig {
    fn default() -> (r: Self)
        ensures
            r.docker.is_default() && r.kubernetes.is_default(),
    {
        CollectorConfig {
            docker: DockerCollectorConfig::default(),
            kubernetes: K8sCollectorConfig::default(),
        }
    }
}

impl Default for Config {
    fn default() -> (r: Self)
        ensures
            r.data_dir@ == "./data"@ && r.duckdb_path@ == "./data/central.duckdb"@ && r.parquet_dir@
                == "./data/parquet"@,
            r.http_bind@ == "0.0.0.0"@ && r.http_port == 8080,
            r.syslog_udp_enabled && r.syslog_udp_bind@ == "0.0.0.0:5140"@,
            r.syslog_tcp_enabled && r.syslog_tcp_bind@ == "0.0.0.0:5140"@,
            r.mcp_mode == McpMode::Off && r.mcp_http_bind@ == "0.0.0.0:8081"@
                && r.mcp_api_key@.len() == 0,
            r.http_api_key@.len() == 0 && r.http_max_body_bytes == 16_777_216,
            !r.enable_alert_mcp_tool && r.alert_eval_interval_secs == 30,
            r.wal_segment_max_bytes == 268_435_456 && r.wal_batch_max_records == 4096
                && r.wal_batch_max_delay_ms == 10,
            r.insert_channel_depth == 65536 && r.insert_backpressure_timeout_ms == 250,
            r.ingest_workers == 2 && r.ingest_batch_size == 2048 && r.ingest_flush_interval_ms
                == 1000,
            r.rollup_interval_secs == 60 && r.compaction_interval_secs == 3600 && r.hot_tier_hours
                == 48 && r.retention_days == 30,
            r.service_retention@.len() == 0 && r.parquet_compression@ == "zstd"@,
            r.duckdb_memory_limit@.len() == 0 && r.duckdb_threads == 0,
            r.drop_attributes@.len() == 0 && r.unwrap_message_json && r.service_query_limits@.len()
                == 0,
            !r.cold_storage.enabled && r.cold_storage.backend@ == "s3"@
                && r.cold_storage.bucket@.len() == 0 && r.cold_storage.prefix@
                == "central-logs/parquet"@ && r.cold_storage.endpoint is None
                && r.cold_storage.region is None && r.cold_storage.keep_local,
            opt_text(r.retention.hot_max_age) == Some("2mo"@) && r.retention.hot_max_bytes is None
                && r.retention.wal_max_bytes is None,
            r.backup.is_default() && r.forecast_every_n_rollups == 5,
            r.hot_attributes@.len() == 0 && r.llm is Off && r.geoip_db_path is None,
            r.smtp.host@.len() == 0 && r.smtp.port == 587 && r.smtp.username@.len() == 0
                && r.smtp.password@.len() == 0 && r.smtp.from@.len() == 0 && r.smtp.starttls,
            r.error_tracking.enabled && r.error_tracking.projects@.len() == 0
                && r.error_tracking.stack_max_frames == 100 && r.error_tracking.stack_max_bytes
                == 8192 && r.error_tracking.samples_per_group == 3
                && r.error_tracking.reconcile_interval_secs == 3600,
            r.error_tracking.notify.on_new_group && r.error_tracking.notify.on_regression
                && r.error_tracking.notify.min_level@ == "error"@
                && r.error_tracking.notify.webhooks@.len() == 0,
            r.ingest.is_default() && r.collector.docker.is_default()
                && r.collector.kubernetes.is_default(),
            r.log_filter@ == "info,central_logs=debug"@,
    {
        Config {
            data_dir: "./data".to_owned(),
            duckdb_path: "./data/central.duckdb".to_owned(),
            parquet_dir: "./data/parquet".to_owned(),
            http_bind: "0.0.0.0".to_owned(),
            http_port: 8080,
            syslog_udp_enabled: true,
            syslog_udp_bind: "0.0.0.0:5140".to_owned(),
            syslog_tcp_enabled: true,
            syslog_tcp_bind: "0.0.0.0:5140".to_owned(),
            mcp_mode: McpMode::Off,
            mcp_http_bind: "0.0.0.0:8081".to_owned(),
            mcp_api_key: String::new(),
            http_api_key: String::new(),
            http_max_body_bytes: 16_777_216,
            enable_alert_mcp_tool: false,
            alert_eval_interval_secs: 30,
            wal_segment_max_bytes: 268_435_456,
            wal_batch_max_records: 4096,
            wal_batch_max_delay_ms: 10,
            insert_channel_depth: 65536,
            insert_backpressure_timeout_ms: 250,
            ingest_workers: 2,
            ingest_batch_size: 2048,
            ingest_flush_interval_ms: 1000,
            rollup_interval_secs: 60,
            compaction_interval_secs: 3600,
            hot_tier_hours: 48,
            retention_days: 30,
            service_retention: Vec::new(),
            parquet_compression: "zstd".to_owned(),
            duckdb_memory_limit: String::new(),
            duckdb_threads: 0,
            drop_attributes: Vec::new(),
            unwrap_message_json: true,
            service_query_limits: Vec::new(),
            cold_storage: ColdStorageConfig::default(),
            retention: RetentionConfig {
                hot_max_age: Some("2mo".to_owned()),
                hot_max_bytes: None,
                wal_max_bytes: None,
            },
            backup: BackupConfig::default(),
            forecast_every_n_rollups: 5,
            hot_attributes: Vec::new(),
            llm: LlmConfig::default(),
            smtp: SmtpConfig::default(),
            geoip_db_path: None,
            error_tracking: ErrorTrackingConfig::default(),
            ingest: IngestConfig::default(),
            collector: CollectorConfig::default(),
            log_filter: "info,central_logs=debug".to_owned(),
        }
    }
}

// ---------------------------------------------------------------------
// Reading settings
// ---------------------------------------------------------------------
impl SmtpConfig {
    /// Whether mail can be sent: there is a relay and a sender.
    pub fn is_configured(&self) -> (r: bool)
        ensures
            r == (trim(self.host@).len() > 0 && trim(self.from@).len() > 0),
    {
        !is_blank(self.host.as_str()) && !is_blank(self.from.as_str())
    }
}

fn is_blank(s: &str) -> (r: bool)
    ensures
        r == (trim(s@).len() == 0),
{
    let t = trimmed(s);
    t.as_str().is_empty()
}

/// The size that a setting gives, where it is one.
pub open spec fn size_setting(s: Option<String>) -> Option<u64> {
    match s {
        Some(t) => match size_of(t@) {
            Ok(n) => Some(n),
            Err(_) => None,
        },
        None => None,
    }
}

fn read_size(s: &Option<String>) -> (r: Option<u64>)
    ensures
        r == size_setting(*s),
{
    match s {
        Some(t) => match parse_size(t.as_str()) {
            Ok(n) => Some(n),
            Err(_) => None,
        },
        None => None,
    }
}

impl RetentionConfig {
    /// The age in seconds at which records leave the hot tier. An age of its own
    /// counts before the number of hours; one that is no duration means a day.
    pub fn hot_max_age_duration(&self, hot_tier_hours: u64) -> (r: i64)
        requires
            hot_tier_hours <= 2_562_047_788_015,
        ensures
            r == (match self.hot_max_age {
                Some(s) => match duration_of(s@) {
                    Ok(n) => n as int,
                    Err(_) => 86400,
                },
                None => if hot_tier_hours == 0 {
                    3600
                } else {
                    hot_tier_hours * 3600
                },
            }),
    {
        match &self.hot_max_age {
            Some(s) => match parse_duration(s.as_str()) {
                Ok(n) => n,
                Err(_) => 86400,
            },
            None => if hot_tier_hours == 0 {
                3600
            } else {
                (hot_tier_hours * 3600) as i64
            },
        }
    }

    /// The size at which the oldest records leave the hot tier.
    pub fn hot_max_bytes_value(&self) -> (r: Option<u64>)
        ensures
            r == size_setting(self.hot_max_bytes),
    {
        read_size(&self.hot_max_bytes)
    }

    /// The size of the write-ahead log at which inserts are refused.
    pub fn wal_max_bytes_value(&self) -> (r: Option<u64>)
        ensures
            r == size_setting(self.wal_max_bytes),
    {
        read_size(&self.wal_max_bytes)
    }
}

/// Whether a text names a time zone.
pub uninterp spec fn zone_known(text: Seq<char>) -> bool;

/// `str::parse::<chrono_tz::Tz>`: whether the text is the name of a time zone,
/// which depends on the text alone.
#[verifier::external_body]
pub(crate) fn is_zone(text: &str) -> (r: bool)
    ensures
        r == zone_known(text@),
{
    text.parse::<chrono_tz::Tz>().is_ok()
}

impl BackupConfig {
    /// When a backup is made.
    pub fn parsed_schedule(&self) -> (r: Result<Schedule, Error>)
        ensures
            match r {
                Ok(x) => schedule_of(self.schedule@) == Ok::<Schedule, ErrorV>(x),
                Err(e) => schedule_of(self.schedule@) == Err::<Schedule, ErrorV>(e@),
            },
    {
        parse_schedule(self.schedule.as_str())
    }

    /// The name of the zone that the schedule is in: `UTC` where the setting names
    /// none.
    pub fn tz(&self) -> (r: &str)
        ensures
            r@ == (if zone_known(self.timezone@) {
                self.timezone@
            } else {
                "UTC"@
            }),
    {
        if is_zone(self.timezone.as_str()) {
            self.timezone.as_str()
        } else {
            "UTC"
        }
    }

    /// What backups of this instance are named by: its own id, or the host, where
    /// it is known, and the port.
    pub fn resolved_instance_id(&self, hostname: Option<&str>, http_port: u16) -> (r: String)
        ensures
            r@ == (match self.instance_id {
                Some(id) => id@,
                None => (match hostname {
                    Some(h) => h@,
                    None => "localhost"@,
                }) + "-"@ + dec(http_port as nat),
            }),
    {
        match &self.instance_id {
            Some(id) => id.clone(),
            None => {
                let host = match hostname {
                    Some(h) => h,
                    None => "localhost",
                };
                let port = dec_of(http_port as u64);
                cat3(host, "-", port.as_str())
            },
        }
    }

    /// The object store that backups also go to, if any.
    pub fn remote_store(&self) -> (r: Option<ColdStorageConfig>)
        ensures
            match r {
                None => trim(self.backend@).len() == 0,
                Some(c) => trim(self.backend@).len() > 0 && c.enabled && c.backend@
                    == self.backend@ && c.bucket@ == self.bucket@ && c.prefix@ == self.prefix@
                    && opt_text(c.endpoint) == opt_text(self.endpoint) && opt_text(c.region)
                    == opt_text(self.region) && c.keep_local,
            },
    {
        if is_blank(self.backend.as_str()) {
            return None;
        }
        Some(
            ColdStorageConfig {
                enabled: true,
                backend: self.backend.clone(),
                bucket: self.bucket.clone(),
                prefix: self.prefix.clone(),
                endpoint: self.endpoint.clone(),
                region: self.region.clone(),
                keep_local: true,
            },
        )
    }
}

impl Config {
    /// How long a batch of the write-ahead log waits, in milliseconds.
    pub fn wal_batch_delay(&self) -> (r: u64)
        ensures
            r == self.wal_batch_max_delay_ms,
    {
        self.wal_batch_max_delay_ms
    }

    /// How long an insert waits for room, in milliseconds.
    pub fn insert_backpressure_timeout(&self) -> (r: u64)
        ensures
            r == self.insert_backpressure_timeout_ms,
    {
        self.insert_backpressure_timeout_ms
    }

    /// How often rows are written, in milliseconds.
    pub fn ingest_flush_interval(&self) -> (r: u64)
        ensures
            r == self.ingest_flush_interval_ms,
    {
        self.ingest_flush_interval_ms
    }

    /// How often rollups are made, in seconds.
    pub fn rollup_interval(&self) -> (r: u64)
        ensures
            r == self.rollup_interval_secs,
    {
        self.rollup_interval_secs
    }

    /// How often the hot tier is compacted, in seconds.
    pub fn compaction_interval(&self) -> (r: u64)
        ensures
            r == self.compaction_interval_secs,
    {
        self.compaction_interval_secs
    }

    /// How often alert rules are evaluated, in seconds.
    pub fn alert_eval_interval(&self) -> (r: u64)
        ensures
            r == self.alert_eval_interval_secs,
    {
        self.alert_eval_interval_secs
    }

    /// The address of the HTTP server. Its port counts before one that the bind
    /// address names.
    pub fn http_listen(&self) -> (r: String)
        ensures
            r@ == without_port(self.http_bind@) + ":"@ + dec(self.http_port as nat),
    {
        let host = strip_port(self.http_bind.as_str());
        let port = dec_of(self.http_port as u64);
        cat3(host.as_str(), ":", port.as_str())
    }

    /// The name of a protocol.
    pub fn protocol_of(&self, p: Protocol) -> (r: &'static str)
        ensures
            r@ == p.name(),
    {
        p.as_str()
    }
}

/// A listen address without its port. An IPv6 address has one only behind brackets.
pub open spec fn without_port(bind: Seq<char>) -> Seq<char> {
    match rsplit_once(bind, ':') {
        Some((host, port)) => if port.len() > 0 && all_digits(port) && (!host.contains(':')
            || ends(host, "]"@)) {
            host
        } else {
            bind
        },
        None => bind,
    }
}

fn strip_port(bind: &str) -> (r: String)
    ensures
        r@ == without_port(bind@),
{
    if let Some((host, port)) = rsplit_once_at(bind, ':') {
        let digits = chars_of(port.as_str());
        if digits.len() > 0 && only_digits(digits.as_slice()) && (!contains_char(host.as_str(), ':')
            || strip_suffix(host.as_str(), "]").is_some()) {
            return host;
        }
    }
    bind.to_owned()
}

/// Whether a listen address is one of this host alone: `127.0.0.1` or `localhost`,
/// with or without what follows a colon, or `::1`, which takes brackets before a
/// port.
pub open spec fn is_loopback(bind: Seq<char>) -> bool {
    let host = trim(split(bind, ':')[0]);
    let all = trim(bind);
    ||| host == "127.0.0.1"@
    ||| host == "localhost"@
    ||| all == "::1"@
    ||| all == "[::1]"@
    ||| begins(all, "[::1]:"@)
}

/// Whether a listen address is one of this host alone.
pub fn is_loopback_bind(bind: &str) -> (r: bool)
    ensures
        r == is_loopback(bind@),
{
    let parts = split_on(bind, ':');
    assert(texts(parts@)[0] == parts@[0]@);
    let host = trimmed(parts[0].as_str());
    let h = host.as_str();
    let whole = trimmed(bind);
    let all = whole.as_str();
    same(h, "127.0.0.1") || same(h, "localhost") || same(all, "::1") || same(all, "[::1]")
        || starts_with(all, "[::1]:")
}

} // verus!
