//! Audit, collectors, tools, schedules and the client.
use augurs_core::{Fit, Predict};
use central_logs::analytics::{
    check_forecast, day_before, forecast_times, judge_scores, model_name, seasonal_periods,
    severity_from_score, AnomalyMethod, Scores,
};
use central_logs::audit::{
    action_category, event_record, resolve_peer, serialize_event, AuditEvent, PeerHeaders,
};
use central_logs::backup::{
    bind_address, choose_run, hec_token, is_local_everywhere, needs_bootstrap, next_daily, over_cap, restore_refusal,
    restore_step, static_key, BackupPlan, RestoreStep,
};
use central_logs::calendar::format_utc;
use central_logs::client::{json_escape, read_answer, CentralLogs, Flush, Json as Field};
use central_logs::collector::docker::{
    containers_path, discover, inspect_path, inspect_tty, line_record, logs_path, next_frame,
    Container, Endpoint, LogStream,
};
use central_logs::collector::kubernetes::{
    api_url, discover_pods, discovery_paths, log_path, pod_record, pods_of, pods_path, read_token,
    selector_query, urlencoding_lite, PodContainer,
};
use central_logs::collector::{
    api_json, api_refusal, drain_lines, glob_match, log_envelope, match_any,
    split_timestamp_prefix,
};
use central_logs::config::{DockerCollectorConfig, K8sCollectorConfig, SplunkHecIngestConfig};
use central_logs::ingest::parse::Parser;
use central_logs::insert::http::record_from_json;
use central_logs::ip::is_plausible_ip;
use central_logs::json::{Json, JsonMap};
use central_logs::mcp::{
    default_query_limit, granularity_table, narrative_hints, parse_horizon_count, query_logs,
    rows_result, rule_condition, rule_created, rule_row, series_sql, summary_stats, summary_window,
    CentralLogsMcpServer, CreateAlertRuleParams, DashboardSummaryParams, QueryLogsParams,
    QueryLogsRow,
};
use central_logs::time::Timestamp;
use central_logs::Protocol;

fn now() -> Timestamp {
    Timestamp::new(1_700_000_000, 0).unwrap()
}

fn json(text: &str) -> Json {
    Json::parse(text).unwrap()
}

fn value(bytes: &[u8]) -> serde_json::Value {
    serde_json::from_slice(bytes).unwrap()
}

// ---------------------------------------------------------------------
// Audit
// ---------------------------------------------------------------------
#[test]
fn envelope_shape_matches_ingest_parser() {
    let e = AuditEvent::new("auth.login.success", now())
        .actor_key(7, "ci-reader")
        .via("bearer")
        .source_ip("10.0.0.5")
        .field("filter", Json::text("service:api"));
    let v = value(&serialize_event(&e));
    assert_eq!(v["service"], "central-logs");
    assert_eq!(v["level"], "info");
    assert_eq!(v["msg"], "auth.login.success");
    assert_eq!(v["host"], "10.0.0.5");
    assert_eq!(v["action"], "auth.login.success");
    assert_eq!(v["outcome"], "success");
    assert_eq!(v["category"], "auth");
    assert_eq!(v["actor_key_id"], 7);
    assert_eq!(v["actor_key_name"], "ci-reader");
    assert_eq!(v["actor_via"], "bearer");
    assert_eq!(v["source_ip"], "10.0.0.5");
    assert_eq!(v["filter"], "service:api");
}

#[test]
fn failed_event_flips_outcome_and_warn_level() {
    let e = AuditEvent::new("auth.login.failed", now())
        .source_ip("10.0.0.5")
        .failed("invalid api key");
    let v = value(&serialize_event(&e));
    assert_eq!(v["level"], "warn");
    assert_eq!(v["outcome"], "failure");
    assert_eq!(v["reason"], "invalid api key");
}

#[test]
fn raw_credentials_never_leak_into_envelope() {
    let e = AuditEvent::new("apikey.create", now())
        .actor_key(1, "bootstrap-admin")
        .via("cookie")
        .field("new_key_id", Json::from_int(42))
        .field("new_key_prefix", Json::text("abc12345"));
    let raw = serialize_event(&e);
    let s = std::str::from_utf8(&raw).unwrap();
    assert!(!s.contains("clk_"), "raw key material must not appear");
    assert!(!s.contains("Bearer "), "Authorization header must not appear");
    assert!(!s.contains("cl_session="), "session cookie value must not appear");
}

#[test]
fn categories_partition_actions() {
    assert_eq!(action_category("auth.login.success"), "auth");
    assert_eq!(action_category("apikey.create"), "apikey");
    assert_eq!(action_category("dashboard.update"), "dashboard");
    assert_eq!(action_category("alert.approve"), "alert");
    assert_eq!(action_category("ai.query"), "ai");
    assert_eq!(action_category("view.logs"), "view");
    assert_eq!(action_category("unknown.thing"), "other");
}

#[test]
fn events_become_records() {
    let e = AuditEvent::new("x", now()).level("error").failed("r").actor(None, "k", "Cookie");
    let rec = event_record(&e);
    assert_eq!(rec.protocol, Protocol::HttpJson);
    assert_eq!(rec.source_addr, "");
    let v = value(&rec.raw);
    assert_eq!(v["level"], "error");
    assert_eq!(v["host"], "internal");
    assert_eq!(v["actor_via"], "cookie");
    assert!(v.get("actor_key_id").is_none());
}

#[test]
fn events_are_read_back_as_rows() {
    let e = AuditEvent::new("auth.login.failed", now())
        .source_ip("10.0.0.5")
        .failed("no such key")
        .field("n", Json::from_int(3));
    let row = Parser::empty().parse(&event_record(&e));
    assert_eq!(row.message, "auth.login.failed");
    assert_eq!(row.service, "central-logs");
    assert_eq!(row.level, "warn");
    assert_eq!(row.source_host, "10.0.0.5");
    assert_eq!(row.attributes.get_str("action"), Some("auth.login.failed"));
    assert_eq!(row.attributes.get_str("outcome"), Some("failure"));
    assert_eq!(row.attributes.get_str("category"), Some("auth"));
    assert_eq!(row.attributes.get("n").unwrap().to_text(), "3");
    assert_eq!(row.protocol, "http_json");
    // From the first to the last second of the years with four digits.
    for (secs, nanos) in [(-62_167_219_200, 0), (0, 1), (253_402_300_799, 999_999_999)] {
        let ts = Timestamp::new(secs, nanos).unwrap();
        let row = Parser::empty().parse(&event_record(&AuditEvent::new("x", ts)));
        assert_eq!(row.ts, ts);
    }
}

#[test]
fn collected_lines_are_read_back_as_rows() {
    let c = Container { id: "a".into(), name: "web".into(), image: "i".into() };
    let line = "2026-09-23T12:00:00Z quote \" and \\ and \u{2028}é";
    let row = Parser::empty().parse(&line_record(&c, "stderr", line, now()).unwrap());
    assert_eq!(row.message, "quote \" and \\ and \u{2028}é");
    assert_eq!((row.service.as_str(), row.level.as_str()), ("web", "error"));
    assert_eq!(row.source_host, "");
    // As deep as it is read, and one level deeper.
    for (levels, whole) in [(126, true), (127, false)] {
        let mut deep = Json::Arr(vec![]);
        for _ in 1..levels {
            deep = Json::Arr(vec![deep]);
        }
        let mut m = JsonMap::new();
        m.insert_str("msg", "m");
        m.insert("deep", deep);
        let rec = record_from_json(&Json::Obj(m), now(), "").unwrap();
        assert_eq!(Parser::empty().parse(&rec).message == "m", whole);
    }
}

fn headers(cf: &str, real: &str, forwarded: &str, xff: &str) -> PeerHeaders {
    let some = |s: &str| if s.is_empty() { None } else { Some(s.to_string()) };
    PeerHeaders {
        cf_connecting_ip: some(cf),
        x_real_ip: some(real),
        forwarded: some(forwarded),
        x_forwarded_for: some(xff),
    }
}

#[test]
fn peer_resolution_prefers_cf_connecting_ip() {
    let h = headers("203.0.113.5", "10.0.0.99", "", "203.0.113.5, 10.0.0.99");
    assert_eq!(resolve_peer(&h, None), "203.0.113.5");
}

#[test]
fn peer_resolution_uses_x_real_ip_when_no_cf() {
    let h = headers("", "198.51.100.7", "", "198.51.100.7");
    assert_eq!(resolve_peer(&h, None), "198.51.100.7");
}

#[test]
fn peer_resolution_uses_rfc7239_forwarded() {
    let h = headers("", "", "for=192.0.2.60;proto=http;by=203.0.113.43", "");
    assert_eq!(resolve_peer(&h, None), "192.0.2.60");
}

#[test]
fn peer_resolution_forwarded_strips_port_and_brackets() {
    let h = headers("", "", "for=192.0.2.60:47028", "");
    assert_eq!(resolve_peer(&h, None), "192.0.2.60");
    let h = headers("", "", "for=\"[2001:db8::1]:3960\"", "");
    assert_eq!(resolve_peer(&h, None), "2001:db8::1");
}

#[test]
fn peer_resolution_forwarded_skips_obfuscated() {
    let h = headers("", "", "for=_hidden", "192.0.2.99");
    assert_eq!(resolve_peer(&h, None), "192.0.2.99");
}

#[test]
fn peer_resolution_xff_takes_leftmost() {
    let h = headers("", "", "", "203.0.113.5, 10.0.0.1, 10.0.0.2");
    assert_eq!(resolve_peer(&h, None), "203.0.113.5");
}

#[test]
fn peer_resolution_xff_skips_empty_entries() {
    let h = headers("", "", "", "  , 203.0.113.5 ");
    assert_eq!(resolve_peer(&h, None), "203.0.113.5");
}

#[test]
fn peer_resolution_falls_back_to_socket_addr() {
    let h = headers("", "", "", "");
    assert_eq!(resolve_peer(&h, Some("127.0.0.1")), "127.0.0.1");
}

#[test]
fn peer_resolution_empty_when_nothing_available() {
    let h = headers("", "", "", "");
    assert_eq!(resolve_peer(&h, None), "");
}

#[test]
fn peer_resolution_precedence_cf_beats_real_ip_beats_forwarded_beats_xff() {
    let h = headers("1.1.1.1", "2.2.2.2", "for=3.3.3.3", "4.4.4.4");
    assert_eq!(resolve_peer(&h, None), "1.1.1.1");
    let h = headers("", "2.2.2.2", "for=3.3.3.3", "4.4.4.4");
    assert_eq!(resolve_peer(&h, None), "2.2.2.2");
    let h = headers("", "", "for=3.3.3.3", "4.4.4.4");
    assert_eq!(resolve_peer(&h, None), "3.3.3.3");
    let h = headers("", "", "", "4.4.4.4");
    assert_eq!(resolve_peer(&h, None), "4.4.4.4");
}

#[test]
fn headers_without_an_address_are_passed_over() {
    let h = headers("garbage", "unknown", "for=_x", "proxy, 1.2.3.4");
    assert_eq!(resolve_peer(&h, Some("127.0.0.1")), "127.0.0.1");
    let h = headers("garbage", " 2.2.2.2 ", "", "");
    assert_eq!(resolve_peer(&h, None), "2.2.2.2");
}

#[test]
fn addresses_are_those_of_the_standard_library() {
    for s in [
        "1.2.3.4", "01.2.3.4", "1.2.3", "256.1.1.1", "1.2.3.4.5", "", "::", "::1", "1::", "1::2",
        ":::", "1:2:3:4:5:6:7:8", "1:2:3:4:5:6:7::", "1:2:3:4:5:6:7:8::", "::1:2:3:4:5:6:7:8",
        "1:2:3:4:5:6:1.2.3.4", "::ffff:1.2.3.4", "1.2.3.4::", "::1.2.3", "12345::", "g::", "1:",
        ":1", "1::2::3", "1:2:3:4:5:6:7", "::1.2.3.4:5", "1:2:3:4:5:6:7:1.2.3.4", "0.0.0.0",
        "1.2.3.00", "+1.2.3.4", "fe80::1%eth0", "[::1]", "ABCD::ef01", "::0:1.2.3.4",
    ] {
        assert_eq!(is_plausible_ip(s), s.parse::<core::net::IpAddr>().is_ok(), "{s:?}");
    }
}

// ---------------------------------------------------------------------
// Collectors
// ---------------------------------------------------------------------
#[test]
fn endpoint_parse() {
    assert!(matches!(
        Endpoint::parse("unix:///var/run/docker.sock"),
        Ok(Endpoint::Unix(p)) if p == "/var/run/docker.sock"
    ));
    assert!(matches!(
        Endpoint::parse("tcp://127.0.0.1:2375"),
        Ok(Endpoint::Tcp(a)) if a == "127.0.0.1:2375"
    ));
    assert!(Endpoint::parse("/var/run/docker.sock").is_err());
}

#[test]
fn api_paths() {
    let mut cfg = DockerCollectorConfig::default();
    assert_eq!(containers_path(&cfg, "/containers/json"), "/v1.41/containers/json");
    cfg.api_version = String::new();
    assert_eq!(containers_path(&cfg, "/containers/json"), "/containers/json");
    cfg.tail_lines = 5;
    assert_eq!(inspect_path(&cfg, "x"), "/containers/x/json");
    assert!(logs_path(&cfg, "x").ends_with("&timestamps=true&tail=5"));
}

fn frames() -> Vec<u8> {
    let mut buf: Vec<u8> = Vec::new();
    for (stype, text) in [(1u8, "hello\n".as_bytes()), (2u8, "oops\n".as_bytes())] {
        buf.extend_from_slice(&[stype, 0, 0, 0]);
        buf.extend_from_slice(&(text.len() as u32).to_be_bytes());
        buf.extend_from_slice(text);
    }
    buf
}

#[test]
fn stdcopy_frame_demux() {
    // Two frames in one buffer: stdout "hello\n", stderr "oops\n".
    let mut buf = frames();
    let (payload, stype) = next_frame(&mut buf).unwrap();
    assert_eq!(stype, 1);
    assert_eq!(payload.len(), 6);
    assert_eq!(payload, b"hello\n");
    assert_eq!(next_frame(&mut buf).unwrap(), (b"oops\n".to_vec(), 2));
    assert!(next_frame(&mut buf).is_none());
}

#[test]
fn streams_may_be_cut_anywhere() {
    let all = frames();
    for k in 0..=all.len() {
        let mut s = LogStream::new();
        s.receive(false, &all[..k]);
        s.receive(false, &all[k..]);
        let lines = s.take_lines();
        assert_eq!(
            lines,
            vec![("hello".to_string(), "stdout"), ("oops".to_string(), "stderr")],
            "{k}"
        );
        assert_eq!(s.remainder(), None);
    }
    let mut s = LogStream::new();
    s.receive(true, b"a\r\nb");
    s.receive(true, b"c");
    assert_eq!(s.take_lines(), vec![("a".to_string(), "")]);
    assert_eq!(s.remainder().as_deref(), Some("bc"));
    let mut s = LogStream::new();
    s.receive(false, &[3, 0, 0, 0, 0, 0, 0, 1, b'x']);
    assert!(s.stopped);
    let mut corrupt = vec![1, 0, 0, 0, 0xff, 0xff, 0xff, 0xff];
    assert!(next_frame(&mut corrupt).is_none());
    assert!(corrupt.is_empty());
}

#[test]
fn new_containers_are_found_once() {
    let cfg = DockerCollectorConfig {
        include_names: vec!["web-*".into()],
        exclude: vec!["*-2".into()],
        ..DockerCollectorConfig::default()
    };
    let list = json(
        r#"[{"Id":"a","Names":["/web-1"],"Image":"i"},{"Id":"b","Names":["/web-2"]},
            {"Id":"a","Names":["/web-1"]},{"Id":"c","Names":["/db"]},{"Id":"d","Names":["/web-3"]},{}]"#,
    );
    let found = discover(&list, &cfg, &["d".to_string()]).unwrap();
    assert_eq!(found.len(), 1);
    assert_eq!((found[0].name.as_str(), found[0].image.as_str()), ("web-1", "i"));
    assert!(discover(&json("{}"), &cfg, &[]).is_err());
    assert!(inspect_tty(&json(r#"{"Config":{"Tty":true}}"#)));
    assert!(!inspect_tty(&json("{}")));
    let c = Container { id: "a".into(), name: "web-1".into(), image: String::new() };
    let rec = line_record(&c, "stderr", "2026-09-23T12:00:00Z boom", now()).unwrap();
    let v = value(&rec.raw);
    assert_eq!((v["message"].clone(), v["level"].clone()), ("boom".into(), "error".into()));
    assert_eq!(v["ts"], "2026-09-23T12:00:00+00:00");
    assert!(v.get("image").is_none());
    assert!(line_record(&c, "stdout", "", now()).is_none());
}

#[test]
fn label_selector_percent_encoding() {
    assert_eq!(urlencoding_lite("app=web,env=prod"), "app%3Dweb%2Cenv%3Dprod");
    assert_eq!(urlencoding_lite("app.kubernetes.io/name"), "app.kubernetes.io%2Fname");
    assert_eq!(urlencoding_lite("simple"), "simple");
    assert_eq!(urlencoding_lite("é"), "%C3%A9");
}

#[test]
fn selector_query_empty_when_unset() {
    let cfg = K8sCollectorConfig::default();
    assert_eq!(selector_query(&cfg), "");
    let mut cfg = cfg;
    cfg.label_selector = "app=web".into();
    assert_eq!(selector_query(&cfg), "?labelSelector=app%3Dweb");
    assert_eq!(pods_path(&cfg, Some("ns")), "/api/v1/namespaces/ns/pods?labelSelector=app%3Dweb");
    assert_eq!(pods_path(&cfg, None), "/api/v1/pods?labelSelector=app%3Dweb");
    assert_eq!(discovery_paths(&cfg), vec!["/api/v1/pods?labelSelector=app%3Dweb"]);
    cfg.namespaces = vec!["a".into(), "b".into()];
    cfg.label_selector = " ".into();
    assert_eq!(
        discovery_paths(&cfg),
        vec!["/api/v1/namespaces/a/pods", "/api/v1/namespaces/b/pods"]
    );
}

#[test]
fn token_resolution_prefers_literal_then_file() {
    let mut cfg = K8sCollectorConfig::default();
    cfg.token = " literal ".into();
    assert_eq!(read_token(&cfg, Some("file")), "literal");
    cfg.token = String::new();
    cfg.token_file = "/nonexistent/token".into();
    assert_eq!(read_token(&cfg, None), "");
    assert_eq!(read_token(&cfg, Some(" held\n")), "held");
}

#[test]
fn pods_are_followed_by_container() {
    let answer = json(
        r#"{"items":[{"metadata":{"name":"p"},"spec":{"nodeName":"n",
            "containers":[{"name":"a"},{"name":"b"},{"name":"a"},{}]}},{"spec":{}}]}"#,
    );
    let pods = pods_of(&answer);
    assert_eq!(pods.len(), 2);
    let found = discover_pods(&pods, &["default/p/b".to_string()]);
    assert_eq!(found.len(), 1);
    assert_eq!(found[0].key(), "default/p/a");
    let v = value(&pod_record(&found[0], "hi", now()).raw);
    assert_eq!((v["host"].clone(), v["node"].clone()), ("n".into(), "n".into()));
    let mut cfg = K8sCollectorConfig::default();
    cfg.tail_lines = 3;
    assert!(log_path(&cfg, "ns", "p", "c").ends_with("?container=c&follow=true&timestamps=true&tailLines=3"));
    assert_eq!(api_url("https://k/", "/x"), "https://k/x");
    let c = PodContainer {
        namespace: "ns".into(),
        pod: "p".into(),
        container: "c".into(),
        node: String::new(),
    };
    assert!(value(&pod_record(&c, "hi", now()).raw).get("host").is_none());
}

#[test]
fn envelope_flattens_extras() {
    let mut attrs = JsonMap::new();
    attrs.insert_str("pod", "web-1");
    let env = log_envelope("hi", "info", "web-1", None, now(), &attrs);
    assert_eq!(env.get_str("message"), Some("hi"));
    assert_eq!(env.get_str("pod"), Some("web-1"));
    assert!(env.get("attributes").is_none(), "no double nesting");
}

#[test]
fn glob_patterns() {
    assert!(glob_match("web-*", "web-1"));
    assert!(glob_match("*", "anything"));
    assert!(glob_match("db?", "db1"));
    assert!(!glob_match("web-*", "api-1"));
    assert!(!glob_match("exact", "exactly"));
    assert!(glob_match("exact", "exact"));
    assert!(match_any(&vec!["x".into(), "a*b".into()], "axxb"));
    assert!(!match_any(&Vec::new(), ""));
}

#[test]
fn timestamp_prefix_parsed() {
    let line = "2026-09-23T12:00:00.123456789Z hello world";
    let (ts, rest) = split_timestamp_prefix(line);
    let ts = ts.unwrap();
    assert_eq!(ts.secs * 1000 + (ts.nanos / 1_000_000) as i64, 1_790_164_800_123);
    assert_eq!(rest, "hello world");
    let (ts, rest) = split_timestamp_prefix("no timestamp here");
    assert!(ts.is_none());
    assert_eq!(rest, "no timestamp here");
}

#[test]
fn lines_and_answers_of_interfaces() {
    let mut buf = b"a\nb\nc".to_vec();
    assert_eq!(drain_lines(&mut buf), vec![b"a".to_vec(), b"b".to_vec()]);
    assert_eq!(buf, b"c");
    assert_eq!(api_refusal("/x", "404 Not Found", b"no"), "GET /x → 404 Not Found: no");
    assert!(api_json("/x", b"?").unwrap_err().starts_with("GET /x: bad JSON: "));
    assert!(api_json("/x", b"[]").is_ok());
}

// ---------------------------------------------------------------------
// Analytics
// ---------------------------------------------------------------------
#[test]
fn seasonality_gates() {
    // By the minute, a day has 1440 points and a week 10080.
    assert!(seasonal_periods(1000, 60).is_empty(), "under 2 days");
    assert_eq!(seasonal_periods(1440 * 2, 60), vec![1440], "2 days: daily only");
    assert_eq!(
        seasonal_periods(10080 * 2, 60),
        vec![1440, 10080],
        "2 weeks: daily + weekly"
    );
    // By the hour, a day has 24 points.
    assert_eq!(seasonal_periods(24 * 2, 3600), vec![24]);
    // With a step of a day there is no season within it.
    assert!(seasonal_periods(100, 86400).is_empty());
}

#[test]
fn rejects_short_series_and_bad_params() {
    let level = 0.95f64.to_bits();
    assert!(check_forecast(2, 5, level).is_err());
    assert!(check_forecast(5, 0, level).is_err());
    assert!(check_forecast(5, 3, 1.5f64.to_bits()).is_err());
    assert!(check_forecast(5, 3, f64::NAN.to_bits()).is_err());
    assert!(check_forecast(5, 3, level).is_ok());
    assert_eq!(model_name(&Vec::new()), "ets(non-seasonal)");
    assert_eq!(model_name(&vec![24, 168]), "mstl-ets(s=[24,168])");
}

#[test]
fn non_seasonal_forecast_runs() {
    let series = vec![1.0, 3.0, 2.0, 4.0, 3.0, 5.0, 4.0, 6.0];
    let start = chrono::DateTime::parse_from_rfc3339("2026-09-15T00:00:00Z").unwrap();
    let start = Timestamp::new(start.timestamp(), 0).unwrap();
    check_forecast(series.len(), 4, 0.95f64.to_bits()).unwrap();
    let periods = seasonal_periods(series.len(), 60);
    assert_eq!(model_name(&periods), "ets(non-seasonal)");
    let model = augurs_ets::AutoETS::new(1, "ZZN").unwrap().fit(&series).unwrap();
    let forecast = model.predict(4, 0.95).unwrap();
    assert_eq!(forecast.point.len(), 4);
    let times = forecast_times(start, 60, forecast.point.len()).unwrap();
    let text = |t: &Timestamp| {
        chrono::DateTime::from_timestamp(t.secs, t.nanos).unwrap().to_rfc3339()
    };
    // Anchored at the requested start + interval steps.
    assert_eq!(text(&times[0]), "2026-09-15T00:01:00+00:00");
    assert_eq!(text(&times[3]), "2026-09-15T00:04:00+00:00");
    let bounds = forecast.intervals.unwrap();
    for (lower, upper) in bounds.lower.iter().zip(&bounds.upper) {
        assert!(lower <= upper);
    }
}

#[test]
fn forecasts_step_from_their_start() {
    let t = forecast_times(now(), 60, 2).unwrap();
    assert_eq!((t[0].secs, t[1].secs), (now().secs + 60, now().secs + 120));
    assert_eq!(forecast_times(now(), 0, 1).unwrap()[0].secs, now().secs + 1);
    assert!(forecast_times(now(), i64::MAX, 2).is_none());
}

#[test]
fn scores_are_anomalies_where_they_are_large() {
    let scores = Scores {
        mad: Some((-4.5f64).to_bits()),
        rate_of_change: Some(2.0f64.to_bits()),
        seasonal: Some(1.0f64.to_bits()),
    };
    let out = judge_scores(60, scores, 3.0f64.to_bits(), "vol", now());
    assert_eq!(out.len(), 2);
    assert_eq!((out[0].method, out[0].severity.as_str()), (AnomalyMethod::Mad, "high"));
    assert_eq!((out[1].method, out[1].severity.as_str()), (AnomalyMethod::Seasonal, "low"));
    assert!(judge_scores(4, scores, 3.0f64.to_bits(), "vol", now()).is_empty());
    assert_eq!(severity_from_score(6.0f64.to_bits()), "critical");
    assert_eq!(severity_from_score(3.5f64.to_bits()), "medium");
    assert_eq!(AnomalyMethod::RateOfChange.as_str(), "rate_of_change");
    assert_eq!(day_before(2879), None);
    assert_eq!(day_before(2880), Some(1439));
}

// ---------------------------------------------------------------------
// Tools
// ---------------------------------------------------------------------
#[test]
fn rows_are_asked_for_within_limits() {
    let p = QueryLogsParams {
        query: Some(" level = 'error' ; ".into()),
        from: Some("a".into()),
        to: None,
        limit: 5000,
    };
    assert_eq!(
        query_logs(&p),
        "SELECT ts, service, level, message FROM logs_all WHERE (level = 'error' ) AND ts >= 'a' ORDER BY ts DESC LIMIT 1000"
    );
    let none = QueryLogsParams { query: None, from: None, to: None, limit: default_query_limit() };
    assert!(query_logs(&none).ends_with("FROM logs_all  ORDER BY ts DESC LIMIT 100"));
    let row = QueryLogsRow { ts: "t".into(), service: None, level: None, message: None };
    let r = rows_result(vec![row], 0);
    assert_eq!((r.total_matched, r.truncated), (1, true));
}

#[test]
fn horizons_are_counted_in_points() {
    assert_eq!(parse_horizon_count("6h", None), Some(360));
    assert_eq!(parse_horizon_count("6h", Some("hour")), Some(6));
    assert_eq!(parse_horizon_count("30m", None), Some(60));
    assert_eq!(parse_horizon_count("180m", Some("hour")), Some(3));
    assert_eq!(parse_horizon_count("2d", Some("hour")), Some(48));
    assert_eq!(parse_horizon_count("0h", None), Some(1));
    assert_eq!(parse_horizon_count("many", Some("hour")), Some(6));
    assert_eq!(parse_horizon_count("7ч", Some("hour")), Some(7));
    assert_eq!(parse_horizon_count("18446744073709551615d", None), None);
    assert_eq!(parse_horizon_count("30min", Some("hour")), Some(6));
    assert_eq!(parse_horizon_count("7h ", Some("hour")), Some(7));
    assert_eq!(parse_horizon_count(" 7h", Some("hour")), Some(6));
    assert_eq!(parse_horizon_count("  7h", Some("hour")), None);
    assert_eq!(parse_horizon_count("12", Some("hour")), Some(12));
    for n in [
        0, 59, 60, 119, 120, 1 << 53, (1 << 53) + 59, 540_431_955_284_459_519, u64::MAX,
        u64::MAX - 59, 9_007_199_254_740_999, 8_999_999_999_999_999_999, 1 << 59, (1 << 60) - 1,
    ] {
        let hours = (n as f64 / 60.0).max(1.0) as usize;
        assert_eq!(parse_horizon_count(&format!("{n}m"), Some("hour")), Some(hours), "{n}");
    }
    assert_eq!(granularity_table(Some("hour")), (3600, "rollup_1h"));
    assert_eq!(granularity_table(None), (60, "rollup_1m"));
    assert!(series_sql("rollup_1m", 5).ends_with("LIMIT 60"));
    assert!(series_sql("rollup_1m", 100).ends_with("LIMIT 400"));
}

#[test]
fn summaries_hint_at_what_matters() {
    let b = |x: f64| x.to_bits();
    let p = DashboardSummaryParams { metric: "volume".into(), from: None, to: Some("x".into()) };
    assert_eq!(
        summary_window(&p, now()),
        ("2023-11-14T21:13:20+00:00".to_string(), "x".to_string())
    );
    assert_eq!(narrative_hints(b(0.25), b(25.0), 8), vec!["Error rate is high (25.00%)."]);
    assert!(narrative_hints(b(0.05), b(5.0), 8).is_empty());
    assert_eq!(narrative_hints(b(0.0), b(0.0), 0), vec!["No log volume in the requested window."]);
    let v: serde_json::Value =
        serde_json::from_str(&summary_stats("volume", 8, 2, b(0.25), "a", "b").to_text()).unwrap();
    assert_eq!(v["error_rate"], 0.25);
    assert_eq!(v["window"]["to"], "b");
}

#[test]
fn rules_of_agents_wait_for_approval() {
    assert!(CentralLogsMcpServer { enable_alert_tool: true }.rule_obstacle().is_none());
    assert!(CentralLogsMcpServer { enable_alert_tool: false }.rule_obstacle().is_some());
    let r = rule_created(9);
    assert_eq!((r.rule_id, r.status.as_str()), (9, "pending_approval"));
    let p = CreateAlertRuleParams {
        name: "n".into(),
        metric: "volume".into(),
        condition: json(r#"{ "type": "anomaly" }"#),
        notification_channel: String::new(),
    };
    assert_eq!(rule_condition(&p), r#"{"type":"anomaly"}"#);
    let row = rule_row(9, &p);
    assert_eq!((row.id, row.name.as_str(), row.status.as_str()), (9, "n", "pending_approval"));
    assert_eq!(row.condition_json, r#"{"type":"anomaly"}"#);
}

// ---------------------------------------------------------------------
// Backups and starts
// ---------------------------------------------------------------------
#[test]
fn daily_backups_follow_the_clock_of_their_zone() {
    // 22:13:20 UTC is 23:13:20 in Berlin.
    let t = next_daily("Europe/Berlin", now(), 23, 30);
    assert_eq!(t.secs, now().secs + 1000);
    let t = next_daily("Europe/Berlin", now(), 23, 0);
    assert_eq!(t.secs, now().secs + 86_400 - 800);
    assert_eq!(next_daily("Middle/Earth", now(), 1, 0), now());
    assert!(is_local_everywhere(now()));
    assert!(!is_local_everywhere(Timestamp { secs: 8_210_266_876_799, nanos: 0 }));
    // At either end of a day within the range, every zone has a time of its own.
    for secs in [-8_334_601_142_400, 8_210_266_790_399] {
        let edge = Timestamp { secs, nanos: 0 };
        for zone in ["Pacific/Kiritimati", "Pacific/Pago_Pago", "UTC"] {
            next_daily(zone, edge, 0, 0);
        }
    }
    let later = Timestamp::new(now().secs + 5, 0).unwrap();
    assert_eq!(choose_run(None, Some(later), now()), later);
}

#[test]
fn backups_are_due_once() {
    let mut plan = BackupPlan::new();
    let next = Timestamp::new(now().secs + 10, 0).unwrap();
    assert!(!plan.daily_due(next, now()));
    assert_eq!(plan.next, Some(next));
    assert!(plan.daily_due(now(), next));
    assert_eq!(plan.next, None);
    assert!(!plan.size_due(99, 100));
    assert!(plan.size_due(100, 100));
    assert!(!plan.size_due(199, 100));
    assert!(plan.size_due(250, 100));
    assert_eq!(plan.last_bytes, 250);
}

#[test]
fn starts_settle_their_questions() {
    assert_eq!(restore_step(false, true, false), RestoreStep::Create);
    assert_eq!(restore_step(true, true, false), RestoreStep::Use);
    assert_eq!(restore_step(true, false, true), RestoreStep::Wipe);
    assert_eq!(restore_step(true, false, false), RestoreStep::Refuse);
    assert!(restore_refusal("/d").contains("/d is not empty"));
    assert!(needs_bootstrap(true, " "));
    assert!(!needs_bootstrap(true, "k"));
    assert_eq!(static_key(" "), None);
    assert_eq!(static_key("k").as_deref(), Some("k"));
    let mut cfg = SplunkHecIngestConfig::default();
    cfg.token = " t ".into();
    assert_eq!(hec_token(&cfg).as_deref(), Some("t"));
    assert_eq!(bind_address(" "), None);
    assert_eq!(bind_address("0.0.0.0:1"), Some("0.0.0.0:1"));
    assert!(over_cap(5, 5) && !over_cap(4, 5));
}

// ---------------------------------------------------------------------
// The client
// ---------------------------------------------------------------------
#[test]
fn escapes_json_strings() {
    assert_eq!(json_escape("a\"b\\c\nd"), "\"a\\\"b\\\\c\\nd\"");
    assert_eq!(json_escape("\u{1f}\t"), "\"\\u001f\\t\"");
}

#[test]
fn formats_timestamp() {
    let ts = format_utc(1_700_000_000);
    assert_eq!(ts.len(), 20);
    assert!(ts.ends_with('Z'));
    assert_eq!(ts, "2023-11-14T22:13:20Z");
}

#[test]
fn dates_are_those_of_the_calendar() {
    let mut secs: u64 = 0;
    while secs < 20_000_000_000 {
        let t = chrono::DateTime::from_timestamp(secs as i64, 0).unwrap();
        assert_eq!(format_utc(secs), t.format("%Y-%m-%dT%H:%M:%SZ").to_string());
        secs += 86_400 * 7 + 12_345;
    }
    assert_eq!(format_utc(951_782_400), "2000-02-29T00:00:00Z");
    assert_eq!(format_utc(4_107_542_400), "2100-03-01T00:00:00Z");
}

#[test]
fn batches_are_sent_or_reported() {
    let mut c = CentralLogs::new("http://localhost:8080/", "k", "svc");
    assert!(matches!(c.flush(), Flush::Nothing));
    let fields = [("n".to_string(), Field::integer(3)), ("f".to_string(), Field::float(f64::NAN.to_bits()))];
    assert!(matches!(c.log_kv("warn", "m", &fields, 0, 10, 2), Flush::Nothing));
    assert_eq!(
        c.queue[0],
        r#"{"service":"svc","level":"warn","msg":"m","ts":"1970-01-01T00:00:00Z","n":3,"f":null}"#
    );
    match c.log("info", "x", 0, 10, 2) {
        Flush::Send(lines, req) => {
            assert_eq!(lines.len(), 2);
            assert_eq!((req.host.as_str(), req.port), ("localhost", 8080));
            assert!(req.text.starts_with("POST /v1/logs HTTP/1.1\r\nHost: localhost:8080\r\n"));
            let body = lines.join("\n");
            assert!(req.text.contains(&format!("Content-Length: {}\r\n", body.len())));
            assert!(req.text.ends_with(&body));
        }
        other => panic!("expected a request, got {other:?}"),
    }
    assert!(c.queue.is_empty());
    // The oldest line makes room.
    for i in 0..5 {
        c.log("info", &format!("{i}"), 0, 3, 100);
    }
    assert_eq!(c.queue.len(), 3);
    assert!(c.queue[0].contains("\"msg\":\"2\""));
    c.api_key = String::new();
    assert!(matches!(c.close(), Flush::Report(lines, _) if lines.len() == 3));
    assert!(c.closed);
    let mut bad = CentralLogs::new("https://x", "k", "s");
    bad.log("info", "x", 0, 3, 100);
    assert!(matches!(bad.flush(), Flush::Report(_, why) if why.starts_with("unsupported URL")));
    let mut bad = CentralLogs::new("http://x:y", "k", "s");
    bad.log("info", "x", 0, 3, 100);
    assert!(matches!(bad.flush(), Flush::Report(_, why) if why == "bad port"));
}

#[test]
fn answers_are_read_by_their_status() {
    assert!(read_answer("HTTP/1.1 200 OK\r\n\r\n").is_ok());
    assert_eq!(read_answer("HTTP/1.1 503 X").unwrap_err(), "HTTP 503: HTTP/1.1 503 X");
    assert_eq!(read_answer("").unwrap_err(), "HTTP 000: ");
    assert_eq!(Field::boolean(true).to_json(), "true");
    assert_eq!(Field::text("a").to_json(), "\"a\"");
    assert_eq!(Field::float(1.5f64.to_bits()).to_json(), "1.5");
}

#[test]
fn json_strings_read_back() {
    let all: String = (0..0x30u8).map(char::from).chain("\\\"\u{e9}\u{1f600}/".chars()).collect();
    let text = json_escape(&all);
    assert!(text.chars().all(|c| c >= ' '));
    assert_eq!(serde_json::from_str::<String>(&text).unwrap(), all);
}

#[test]
fn frames_are_taken_off_one_by_one() {
    let mut buf = frames();
    let mut rest = frames();
    rest.truncate(10);
    buf.extend_from_slice(&frames());
    buf.extend_from_slice(&rest);
    let mut kinds = Vec::new();
    while let Some((payload, kind)) = next_frame(&mut buf) {
        assert_eq!(payload, if kind == 1 { b"hello\n".to_vec() } else { b"oops\n".to_vec() });
        kinds.push(kind);
    }
    assert_eq!(kinds, [1, 2, 1, 2]);
    assert_eq!(buf, rest);
}

#[test]
fn very_many_small_frames_are_taken_apart() {
    let mut all = Vec::new();
    for _ in 0..200_000 {
        all.extend_from_slice(&[1, 0, 0, 0, 0, 0, 0, 1, b'\n']);
    }
    let mut s = LogStream::new();
    s.receive(false, &all);
    assert_eq!(s.lines.len(), 200_000);
    let mut s = LogStream::new();
    s.receive(false, &all[..9 * 50 + 4]);
    s.receive(false, &all[9 * 50 + 4..9 * 2000]);
    assert_eq!(s.lines.len(), 2000);
}
