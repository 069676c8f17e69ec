//! The wire formats in which records arrive.
pub mod counters;
pub mod envelope;
pub mod field_laws;
pub mod fluentd;
pub mod gelf;
pub mod gelf_laws;
pub mod http;
pub mod k8s_audit;
pub mod msgpack;
pub mod msgpack_laws;
pub mod otlp;
pub mod otlp_field_laws;
pub mod otlp_laws;
pub mod otlp_types;
pub mod otlp_wire;
pub mod splunk_hec;
pub mod syslog;
