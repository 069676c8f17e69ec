//! Configuration: sizes, durations, schedules, and what is refused.
use central_logs::ai::LlmConfig;
use central_logs::config::{
    is_loopback_bind, Cli, Config, McpMode, ServiceQueryLimit, ServiceRetention,
};
use central_logs::error::Error;
use central_logs::hot::HotAttribute;
use central_logs::load::{choose_llm, load, LlmEnv};
use central_logs::Protocol;
use central_logs::units::{
    parse_duration, parse_duration_secs, parse_schedule, parse_size, Schedule,
};

fn base_valid_cfg() -> Config {
    Config::default()
}

#[test]
fn validate_rejects_hot_attr_shadowing_builtin() {
    let mut cfg = base_valid_cfg();
    cfg.hot_attributes
        .push(HotAttribute::parse_shorthand("trace_id:varchar").unwrap());
    let err = cfg.validate().unwrap_err();
    assert!(
        matches!(err, Error::Config(_)),
        "expected Config error, got {err:?}"
    );
    assert!(
        err.message().contains("shadows a built-in"),
        "expected shadowing hint, got: {}", err.message()
    );
}

#[test]
fn validate_rejects_duplicate_hot_attrs() {
    let mut cfg = base_valid_cfg();
    cfg.hot_attributes
        .push(HotAttribute::parse_shorthand("user_id:bigint").unwrap());
    cfg.hot_attributes
        .push(HotAttribute::parse_shorthand("user_id:bigint").unwrap());
    let err = cfg.validate().unwrap_err();
    assert!(err.message().contains("defined twice"));
}

#[test]
fn validate_accepts_non_reserved_hot_attrs() {
    let mut cfg = base_valid_cfg();
    cfg.hot_attributes
        .push(HotAttribute::parse_shorthand("user_id:bigint").unwrap());
    cfg.hot_attributes
        .push(HotAttribute::parse_shorthand("env:varchar").unwrap());
    cfg.validate().unwrap();
}

#[test]
fn validate_rejects_unknown_parquet_codec() {
    let mut cfg = base_valid_cfg();
    cfg.parquet_compression = "brotli99".into();
    let err = cfg.validate().unwrap_err();
    assert!(err.message().contains("parquet_compression"));
}

#[test]
fn validate_accepts_codec_case_insensitively() {
    let mut cfg = base_valid_cfg();
    cfg.parquet_compression = "ZSTD".into();
    cfg.validate().unwrap();
}

#[test]
fn validate_rejects_drop_and_hot_overlap() {
    let mut cfg = base_valid_cfg();
    cfg.hot_attributes
        .push(HotAttribute::parse_shorthand("user_id:bigint").unwrap());
    cfg.drop_attributes.push("user_id".into());
    let err = cfg.validate().unwrap_err();
    assert!(err
        .message()
        .contains("both as a hot attribute and a drop attribute"));
}

#[test]
fn validate_rejects_empty_drop_key() {
    let mut cfg = base_valid_cfg();
    cfg.drop_attributes.push("   ".into());
    let err = cfg.validate().unwrap_err();
    assert!(err.message().contains("drop_attributes"));
}

#[test]
fn validate_accepts_service_retention_rules() {
    let mut cfg = base_valid_cfg();
    cfg.service_retention = vec![
        ServiceRetention {
            pattern: "audit_*".into(),
            days: 90,
        },
        ServiceRetention {
            pattern: "debug_?".into(),
            days: 3,
        },
    ];
    cfg.validate().unwrap();
}

#[test]
fn validate_rejects_bad_service_retention() {
    let mut cfg = base_valid_cfg();
    cfg.service_retention = vec![ServiceRetention {
        pattern: "a/b".into(),
        days: 7,
    }];
    assert!(cfg
        .validate()
        .unwrap_err()
        .message()
        .contains("must not contain '/'"));

    let mut cfg = base_valid_cfg();
    cfg.service_retention = vec![ServiceRetention {
        pattern: "audit".into(),
        days: 0,
    }];
    assert!(cfg
        .validate()
        .unwrap_err()
        .message()
        .contains("days >= 1"));
}

#[test]
fn duration_parser_accepts_units_and_bare_seconds() {
    assert_eq!(parse_duration_secs("90").unwrap(), 90);
    assert_eq!(parse_duration_secs("30s").unwrap(), 30);
    assert_eq!(parse_duration_secs("10m").unwrap(), 600);
    assert_eq!(parse_duration_secs("24H").unwrap(), 86400);
    assert_eq!(parse_duration_secs("7d").unwrap(), 604800);
    assert!(parse_duration_secs("abc").is_err());
    assert!(parse_duration_secs("").is_err());
}

#[test]
fn duckdb_tuning_validation() {
    // Defaults (empty limit, 0 threads) are always valid.
    let mut cfg = base_valid_cfg();
    cfg.validate().unwrap();

    for good in ["512MB", "2GB", "1073741824", "1.5gb"] {
        let mut cfg = base_valid_cfg();
        cfg.duckdb_memory_limit = good.to_string();
        cfg.duckdb_threads = 4;
        cfg.validate()
            .unwrap_or_else(|e| panic!("{good} should be valid: {}", e.message()));
    }

    for bad in ["four gigabytes", "1QB", "-2GB", "'; DROP TABLE logs", "GB"] {
        let mut cfg = base_valid_cfg();
        cfg.duckdb_memory_limit = bad.to_string();
        assert!(cfg.validate().is_err(), "{bad} should be rejected");
    }

    let mut cfg = base_valid_cfg();
    cfg.duckdb_threads = 5000;
    assert!(cfg.validate().is_err());
}

#[test]
fn validate_rejects_bad_query_limits() {
    let mut cfg = base_valid_cfg();
    cfg.service_query_limits.push(ServiceQueryLimit {
        pattern: "a/b".into(),
        max_window_secs: 60,
    });
    assert!(cfg.validate().unwrap_err().message().contains("no '/'"));

    let mut cfg = base_valid_cfg();
    cfg.service_query_limits.push(ServiceQueryLimit {
        pattern: "svc".into(),
        max_window_secs: 0,
    });
    assert!(cfg
        .validate()
        .unwrap_err()
        .message()
        .contains("max_window_secs >= 1"));
}

#[test]
fn validate_rejects_sse_mcp_mode() {
    let mut cfg = base_valid_cfg();
    cfg.mcp_mode = McpMode::Sse;
    let err = cfg.validate().unwrap_err();
    assert!(err.message().contains("not implemented"), "got: {}", err.message());
}

#[test]
fn validate_rejects_cold_storage_without_feature() {
    let mut cfg = base_valid_cfg();
    cfg.cold_storage.enabled = true;
    cfg.cold_storage.bucket = "b".into();
    let res = cfg.validate();
    let err = res.unwrap_err().message();
    assert!(err.contains("object-storage"), "got: {err}");
    // With the archive built in, this configuration is valid.
    assert!(cfg.validate_for(true).is_ok());
}

#[test]
fn sizes_are_read_with_their_units() {
    assert_eq!(parse_size("512").unwrap(), 512);
    assert_eq!(parse_size("1kb").unwrap(), 1000);
    assert_eq!(parse_size("1.5GiB").unwrap(), 1_610_612_736);
    assert!(parse_size("many").is_err());
    assert!(parse_size("").is_err());
    assert!(parse_size("-1kb").is_err());
}

#[test]
fn durations_are_read_with_their_units() {
    assert_eq!(parse_duration("90s").unwrap(), 90);
    assert_eq!(parse_duration("2h").unwrap(), 7200);
    assert!(parse_duration("soon").is_err());
}

#[test]
fn schedules_are_daily_or_by_size() {
    assert!(matches!(
        parse_schedule("daily@03:30").unwrap(),
        Schedule::Daily { hour: 3, minute: 30 }
    ));
    assert!(matches!(parse_schedule("size:1kib").unwrap(), Schedule::Size(1024)));
    assert!(parse_schedule("daily@25:00").is_err());
    assert!(parse_schedule("hourly").is_err());
}

#[test]
fn loopback_addresses_are_known() {
    for bind in ["127.0.0.1", "127.0.0.1:8080", " localhost ", "::1", "[::1]", "[::1]:8080"] {
        assert!(is_loopback_bind(bind), "{bind}");
    }
    assert!(!is_loopback_bind(""));
    assert!(!is_loopback_bind("::"));
    assert!(!is_loopback_bind("0.0.0.0:8080"));
}

#[test]
fn zones_that_are_not_known_count_as_utc() {
    let mut cfg = Config::default().backup;
    cfg.timezone = "Europe/Berlin".into();
    assert_eq!(cfg.tz(), "Europe/Berlin");
    cfg.timezone = "Middle/Earth".into();
    assert_eq!(cfg.tz(), "UTC");
}

#[test]
fn a_model_is_chosen_from_the_environment() {
    let env = LlmEnv {
        api_key: Some("k".into()),
        provider: Some("openai".into()),
        model: Some("m".into()),
        base_url: None,
        anthropic_model: "a".into(),
    };
    match choose_llm(LlmConfig::Off, &env).unwrap() {
        LlmConfig::Openai { api_key, model, .. } => {
            assert_eq!(api_key, "k");
            assert_eq!(model, "m");
        }
        other => panic!("expected openai, got {other:?}"),
    }
    let env = LlmEnv {
        api_key: Some(" k ".into()),
        provider: None,
        model: Some("  ".into()),
        base_url: None,
        anthropic_model: "a".into(),
    };
    match choose_llm(LlmConfig::Off, &env).unwrap() {
        LlmConfig::Anthropic { api_key, model, .. } => {
            assert_eq!(api_key, "k");
            assert_eq!(model, "a");
        }
        other => panic!("expected anthropic, got {other:?}"),
    }
}

#[test]
fn the_port_counts_before_that_of_the_bind_address() {
    let listen = |bind: &str| {
        let mut cfg = Config::default();
        cfg.http_bind = bind.into();
        cfg.http_port = 9000;
        cfg.http_listen()
    };
    assert_eq!(listen("0.0.0.0"), "0.0.0.0:9000");
    assert_eq!(listen("0.0.0.0:80"), "0.0.0.0:9000");
    assert_eq!(listen("[::1]:80"), "[::1]:9000");
    assert_eq!(listen("[::1]"), "[::1]:9000");
}

#[test]
fn settings_have_derived_values() {
    let cfg = Config::default();
    assert_eq!(cfg.wal_batch_delay(), 10);
    assert_eq!(cfg.insert_backpressure_timeout(), 250);
    assert_eq!(cfg.ingest_flush_interval(), 1000);
    assert_eq!(cfg.rollup_interval(), 60);
    assert_eq!(cfg.compaction_interval(), 3600);
    assert_eq!(cfg.alert_eval_interval(), 30);
    assert_eq!(cfg.protocol_of(Protocol::Gelf), "gelf");
    let mut r = cfg.retention.clone();
    assert_eq!(r.hot_max_age_duration(48), 60 * 86_400);
    r.hot_max_age = None;
    assert_eq!(r.hot_max_age_duration(48), 48 * 3600);
    r.hot_max_bytes = Some("10MB".into());
    assert_eq!(r.hot_max_bytes_value(), Some(10_000_000));
    assert_eq!(r.wal_max_bytes_value(), None);
    let mut b = cfg.backup.clone();
    assert_eq!(b.resolved_instance_id(Some("h"), 80), "h-80");
    assert_eq!(b.resolved_instance_id(None, 80), "localhost-80");
    b.instance_id = Some("me".into());
    assert_eq!(b.resolved_instance_id(Some("h"), 80), "me");
    assert!(b.remote_store().is_none());
    b.backend = "s3".into();
    b.bucket = "x".into();
    assert_eq!(b.remote_store().unwrap().bucket, "x");
}

#[test]
fn every_complaint_is_made() {
    let complaint = |change: &dyn Fn(&mut Config)| {
        let mut cfg = Config::default();
        change(&mut cfg);
        cfg.validate_for(true).unwrap_err().message()
    };
    let cases: Vec<(&dyn Fn(&mut Config), &str)> = vec![
        (&|c| c.wal_batch_max_records = 0, "wal_batch_max_records must be > 0"),
        (&|c| c.ingest_workers = 0, "ingest_workers must be > 0"),
        (&|c| c.hot_tier_hours = 0, "hot_tier_hours must be >= 1"),
        (&|c| c.duckdb_threads = 5000, "duckdb_threads must be between 0"),
        (&|c| c.drop_attributes = vec!["x".repeat(256)], "drop attribute key too long"),
        (&|c| c.http_max_body_bytes = 0, "http_max_body_bytes must be > 0"),
        (&|c| c.retention.hot_max_age = Some("x".into()), "retention.hot_max_age"),
        (&|c| c.retention.hot_max_bytes = Some("x".into()), "retention.hot_max_bytes"),
        (&|c| c.retention.wal_max_bytes = Some("x".into()), "retention.wal_max_bytes"),
        (&|c| { c.backup.enabled = true; c.backup.schedule = "x".into() }, "backup."),
        (
            &|c| { c.backup.enabled = true; c.backup.timezone = "X/Y".into() },
            "backup.timezone 'X/Y' is not a valid IANA timezone",
        ),
        (&|c| { c.backup.enabled = true; c.backup.backend = "ftp".into() }, "'s3' or 'gcs'"),
        (&|c| { c.backup.enabled = true; c.backup.backend = "s3".into() }, "backup.bucket"),
        (&|c| { c.backup.enabled = true; c.backup.keep_last = 0 }, "backup.keep_last"),
        (&|c| { c.cold_storage.enabled = true; c.cold_storage.backend = "x".into() }, "'s3' or"),
        (&|c| { c.cold_storage.enabled = true; c.cold_storage.bucket = "".into() }, "bucket"),
        (&|c| c.error_tracking.samples_per_group = 0, "samples_per_group must be >= 1"),
        (
            &|c| {
                c.ingest.gelf.enabled = true;
                c.ingest.gelf.udp_bind = "".into();
                c.ingest.gelf.tcp_bind = " ".into();
            },
            "both udp_bind and tcp_bind are empty",
        ),
        (
            &|c| { c.ingest.fluentd.enabled = true; c.ingest.fluentd.tcp_bind = "".into() },
            "tcp_bind is empty",
        ),
        (
            &|c| {
                c.ingest.k8s_audit.enabled = true;
                c.ingest.k8s_audit.omit_stages = vec!["Nope".into()];
            },
            "'Nope' is not a valid audit stage",
        ),
        (
            &|c| { c.collector.docker.enabled = true; c.collector.docker.socket = "x".into() },
            "collector.docker.socket",
        ),
        (
            &|c| { c.collector.docker.enabled = true; c.collector.docker.refresh_secs = 0 },
            "collector.docker.refresh_secs",
        ),
        (
            &|c| { c.collector.kubernetes.enabled = true; c.collector.kubernetes.api_url = "x".into() },
            "collector.kubernetes.api_url",
        ),
        (
            &|c| { c.collector.kubernetes.enabled = true; c.collector.kubernetes.refresh_secs = 0 },
            "collector.kubernetes.refresh_secs",
        ),
        (
            &|c| c.error_tracking.notify.webhooks = vec!["ftp://x".into()],
            "must be http(s) URLs (got 'ftp://x')",
        ),
    ];
    for (change, words) in cases {
        let got = complaint(change);
        assert!(got.contains(words), "{got:?} lacks {words:?}");
    }
    assert!(Config::default().validate_for(true).is_ok());
}

fn cli() -> Cli {
    Cli {
        config: None,
        data_dir: None,
        http_port: None,
        mcp_mode: None,
        enable_alert_mcp_tool: false,
        no_syslog_udp: false,
        no_syslog_tcp: false,
        http_api_key: None,
        no_sentry_ingest: false,
        backup_now: false,
        restore_from: None,
        restore_force_wipe: false,
        print_config: false,
        hot_attributes: vec![],
        drop_attributes: vec![],
        no_unwrap_message_json: false,
        service_retention: vec![],
        service_query_limits: vec![],
        duckdb_memory_limit: None,
        duckdb_threads: None,
    }
}

fn no_llm() -> LlmEnv {
    LlmEnv {
        api_key: None,
        provider: None,
        model: None,
        base_url: None,
        anthropic_model: "m".into(),
    }
}

#[test]
fn flags_count_before_settings() {
    let flags = Cli {
        data_dir: Some("/d".into()),
        http_port: Some(1),
        mcp_mode: Some("stdio".into()),
        no_syslog_udp: true,
        http_api_key: Some("k".into()),
        no_sentry_ingest: true,
        hot_attributes: vec!["user_id:bigint".into()],
        drop_attributes: vec!["x".into()],
        no_unwrap_message_json: true,
        service_retention: vec!["a_*=90".into()],
        service_query_limits: vec!["b=2h".into()],
        duckdb_threads: Some(3),
        ..cli()
    };
    let cfg = load(Config::default(), &no_llm(), &flags, false).unwrap();
    assert_eq!(cfg.data_dir, "/d");
    assert_eq!(cfg.duckdb_path, "/d/central.duckdb");
    assert_eq!(cfg.parquet_dir, "/d/parquet");
    assert_eq!((cfg.http_port, cfg.mcp_mode), (1, McpMode::Stdio));
    assert!(!cfg.syslog_udp_enabled && cfg.syslog_tcp_enabled);
    assert_eq!(cfg.http_api_key, "k");
    assert!(!cfg.error_tracking.enabled && !cfg.unwrap_message_json);
    assert_eq!(cfg.hot_attributes[0].name, "user_id");
    assert_eq!(cfg.drop_attributes, vec!["x"]);
    assert_eq!((cfg.service_retention[0].pattern.as_str(), cfg.service_retention[0].days), ("a_*", 90));
    assert_eq!(cfg.service_query_limits[0].max_window_secs, 7200);
    assert_eq!(cfg.duckdb_threads, 3);
    assert_eq!(load(Config::default(), &no_llm(), &cli(), false).unwrap().http_port, 8080);
}

#[test]
fn bad_flags_are_refused_in_words() {
    let fault = |flags: Cli| load(Config::default(), &no_llm(), &flags, false).unwrap_err().message();
    let with = |f: &dyn Fn(&mut Cli)| {
        let mut c = cli();
        f(&mut c);
        fault(c)
    };
    assert!(with(&|c| c.mcp_mode = Some("x".into())).contains("unknown mcp_mode: x"));
    assert!(with(&|c| c.hot_attributes = vec!["a:b:c:d:e".into(), "".into()]).contains("--hot-attribute"));
    assert!(with(&|c| c.service_retention = vec!["x".into()]).contains("expects GLOB=DAYS, got 'x'"));
    assert!(with(&|c| c.service_retention = vec!["x=y".into()]).contains("positive integer, got 'y'"));
    assert!(with(&|c| c.service_query_limits = vec!["x".into()]).contains("expects GLOB=DURATION"));
    assert!(with(&|c| c.service_query_limits = vec!["x=y".into()]).contains("--service-query-limit: "));
    let env = LlmEnv { api_key: Some("k".into()), provider: Some("x".into()), ..no_llm() };
    let err = load(Config::default(), &env, &cli(), false).unwrap_err().message();
    assert!(err.contains("(got 'x')"));
}
