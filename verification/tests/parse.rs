//! From records to rows.
use central_logs::hot::{HotAttribute, HotValue};
use central_logs::ingest::enrich::Enricher;
use central_logs::ingest::parse::{normalize_level_public, Parser};
use central_logs::ingest::worker::{
    owns_segment, parse_ip_from_addr, Checkpoint, Worker,
};
use central_logs::json::JsonMap;
use central_logs::time::Timestamp;
use central_logs::{Protocol, RawRecord};

fn ts() -> Timestamp {
    Timestamp::new(1_700_000_000, 0).unwrap()
}

fn raw(body: &str, proto: Protocol) -> RawRecord {
    RawRecord {
        receive_ts: ts(),
        source_addr: "1.2.3.4:5".into(),
        protocol: proto,
        raw: body.as_bytes().to_vec(),
    }
}

fn int_at(m: &JsonMap, key: &str) -> Option<i64> {
    m.get(key).and_then(|v| v.as_i64())
}

#[test]
fn parses_json_envelope() {
    let body = r#"{"@timestamp":"2026-08-11T10:00:00Z","service":"api","level":"error","msg":"boom","user_id":42}"#;
    let r = Parser::empty().parse(&raw(body, Protocol::HttpJson));
    assert_eq!(r.service, "api");
    assert_eq!(r.level, "error");
    assert_eq!(r.message, "boom");
    assert_eq!(int_at(&r.attributes, "user_id"), Some(42));
    let t = chrono::DateTime::from_timestamp(r.ts.secs, r.ts.nanos).unwrap();
    assert_eq!(t.to_rfc3339(), "2026-08-11T10:00:00+00:00");
}

#[test]
fn parses_syslog() {
    let body = "<134>Aug 11 10:00:00 host1 app[4321]: hello world";
    let r = Parser::empty().parse(&raw(body, Protocol::SyslogUdp));
    assert!(r.message.contains("hello") || r.message.contains("Aug"));
    assert_eq!(r.source_host, "host1");
}

#[test]
fn the_newer_form_of_syslog_is_read_first() {
    let body = r#"<34>1 2003-10-11T22:14:15.003Z mymachine su 77 ID47 [ex@1 a="b"] message"#;
    let r = Parser::empty().parse(&raw(body, Protocol::SyslogTcp));
    assert_eq!(r.source_host, "mymachine");
    assert_eq!(r.service, "su");
    assert_eq!(r.level, "fatal");
    assert_eq!(r.message, "message");
    assert_eq!((r.ts.secs, r.ts.nanos), (1_065_910_455, 3_000_000));
    assert_eq!(r.attributes.get_str("syslog_facility"), Some("LOG_AUTH"));
    assert_eq!(r.attributes.get_str("syslog_procid"), Some("77"));
    assert_eq!(r.attributes.get_str("syslog_msgid"), Some("ID47"));
    assert_eq!(r.attributes.get_str("syslog_sd_ex@1_a"), Some("b"));
    // What neither form recognizes is syslog only with a priority before it.
    let r = Parser::empty().parse(&raw("plain error", Protocol::SyslogUdp));
    assert_eq!((r.message.as_str(), r.level.as_str()), ("plain error", "error"));
    let r = Parser::empty().parse(&raw("<plain error", Protocol::SyslogUdp));
    assert_eq!((r.message.as_str(), r.level.as_str()), ("<plain error", "info"));
}

#[test]
fn free_text_level_inference() {
    let body = "2026-08-11 something failed: connection refused";
    let r = Parser::empty().parse(&raw(body, Protocol::HttpJson));
    assert_eq!(r.level, "error");
}

#[test]
fn hot_keys_extracted_and_removed_from_residue() {
    // user_id, env and canary are promoted; canary is not in the payload.
    let hot = vec![
        HotAttribute::parse_shorthand("user_id:bigint").unwrap(),
        HotAttribute::parse_shorthand("env:varchar").unwrap(),
        HotAttribute::parse_shorthand("canary:varchar").unwrap(),
    ];
    let parser = Parser::new(hot);
    let body = r#"{"service":"api","msg":"hi","user_id":42,"env":"prod","extra":"keep"}"#;
    let r = parser.parse(&raw(body, Protocol::HttpJson));
    assert_eq!(r.hot[0], HotValue::Bigint(42));
    assert_eq!(r.hot[1], HotValue::Varchar("prod".into()));
    assert_eq!(r.hot[2], HotValue::Null);
    assert!(r.attributes.get("user_id").is_none());
    assert!(r.attributes.get("env").is_none());
    assert_eq!(r.attributes.get_str("extra"), Some("keep"));
}

#[test]
fn hot_keys_coerce_quoted_numbers() {
    let hot = vec![HotAttribute::parse_shorthand("user_id:bigint").unwrap()];
    let parser = Parser::new(hot);
    let body = r#"{"msg":"x","user_id":"42"}"#;
    let r = parser.parse(&raw(body, Protocol::HttpJson));
    assert_eq!(r.hot[0], HotValue::Bigint(42));
}

#[test]
fn hot_keys_dotted_path() {
    let hot = vec![HotAttribute::parse_shorthand("route:varchar:$.request.route").unwrap()];
    let parser = Parser::new(hot);
    let body = r#"{"msg":"x","request":{"route":"/health"}}"#;
    let r = parser.parse(&raw(body, Protocol::HttpJson));
    assert_eq!(r.hot[0], HotValue::Varchar("/health".into()));
    // The nested parent stays among the attributes.
    let request = r.attributes.get("request").unwrap();
    assert_eq!(request.get_str("route"), Some("/health"));
}

#[test]
fn hot_keys_type_mismatch_yields_null() {
    let hot = vec![HotAttribute::parse_shorthand("user_id:bigint").unwrap()];
    let parser = Parser::new(hot);
    let body = r#"{"msg":"x","user_id":[1,2,3]}"#;
    let r = parser.parse(&raw(body, Protocol::HttpJson));
    assert_eq!(r.hot[0], HotValue::Null);
}

#[test]
fn drop_keys_stripped_from_residue() {
    let parser = Parser::with_drop(
        Vec::new(),
        vec!["debug_payload".into(), "thread_local".into()],
    );
    let body = r#"{"service":"api","msg":"hi","debug_payload":{"big":"blob"},"thread_local":"x","keep":"me"}"#;
    let r = parser.parse(&raw(body, Protocol::HttpJson));
    let obj = &r.attributes;
    assert!(obj.get("debug_payload").is_none(), "dropped key must not persist");
    assert!(obj.get("thread_local").is_none(), "dropped key must not persist");
    assert_eq!(obj.get_str("keep"), Some("me"));
}

#[test]
fn drop_keys_never_touch_reserved_fields() {
    // Keys are dropped from the attributes alone.
    let parser = Parser::with_drop(Vec::new(), vec!["message".into()]);
    let body = r#"{"service":"api","message":"hello"}"#;
    let r = parser.parse(&raw(body, Protocol::HttpJson));
    assert_eq!(r.message, "hello");
}

#[test]
fn message_json_lifted_into_attributes() {
    let parser = Parser::empty();
    let body = r#"{"service":"api","message":"{\"order_id\":\"ORD-123\",\"status\":\"delivered\",\"duration_ms\":42}"}"#;
    let r = parser.parse(&raw(body, Protocol::HttpJson));
    assert_eq!(r.service, "api");
    assert!(r.message.contains("ORD-123"));
    assert_eq!(r.attributes.get_str("order_id"), Some("ORD-123"));
    assert_eq!(r.attributes.get_str("status"), Some("delivered"));
    assert_eq!(int_at(&r.attributes, "duration_ms"), Some(42));
}

#[test]
fn message_json_reserved_fields_backfill_columns() {
    let parser = Parser::empty();
    let body =
        r#"{"message":"{\"level\":\"error\",\"service\":\"worker\",\"trace_id\":\"abc\"}"}"#;
    let r = parser.parse(&raw(body, Protocol::HttpJson));
    assert_eq!(r.level, "error");
    assert_eq!(r.service, "worker");
    assert_eq!(r.trace_id, "abc");
    assert!(r.attributes.get("level").is_none());
}

#[test]
fn message_json_hot_attr_extracted_from_inner() {
    let hot = vec![HotAttribute::parse_shorthand("order_id:varchar").unwrap()];
    let parser = Parser::new(hot);
    let body = r#"{"service":"api","message":"{\"order_id\":\"ORD-9\",\"status\":\"ok\"}"}"#;
    let r = parser.parse(&raw(body, Protocol::HttpJson));
    assert_eq!(r.hot[0], HotValue::Varchar("ORD-9".into()));
    assert!(r.attributes.get("order_id").is_none());
    assert_eq!(r.attributes.get_str("status"), Some("ok"));
}

#[test]
fn message_json_outer_wins_collision() {
    let parser = Parser::empty();
    let body = r#"{"user_id":42,"message":"{\"user_id\":7,\"status\":\"ok\"}"}"#;
    let r = parser.parse(&raw(body, Protocol::HttpJson));
    assert_eq!(int_at(&r.attributes, "user_id"), Some(42), "outer key must win");
}

#[test]
fn message_json_disabled_via_config() {
    let parser = Parser::with_options(Vec::new(), Vec::new(), false);
    let body = r#"{"service":"api","message":"{\"order_id\":\"ORD-1\"}"}"#;
    let r = parser.parse(&raw(body, Protocol::HttpJson));
    assert!(r.attributes.is_empty());
    assert!(r.message.contains("order_id"));
}

#[test]
fn message_json_non_object_strings_untouched() {
    let parser = Parser::empty();
    for msg in ["hello world", "[1,2,3]", "42"] {
        let body = format!(
            r#"{{"service":"api","message":{}}}"#,
            serde_json::Value::from(msg)
        );
        let r = parser.parse(&raw(&body, Protocol::HttpJson));
        assert!(r.attributes.is_empty(), "message {msg:?} must not be lifted");
        assert_eq!(r.message, msg);
    }
}

#[test]
fn bytes_that_are_no_text_are_counted() {
    let rec = RawRecord {
        receive_ts: ts(),
        source_addr: String::new(),
        protocol: Protocol::HttpJson,
        raw: vec![0xff, 0xfe, 0x00],
    };
    let r = Parser::empty().parse(&rec);
    assert_eq!(r.message, "<3 non-utf8 bytes>");
    assert_eq!(r.level, "info");
    assert_eq!(r.raw_len, 3);
}

#[test]
fn errors_get_fingerprints() {
    let r = Parser::empty().parse(&raw(r#"{"level":"error","msg":"x"}"#, Protocol::HttpJson));
    assert_eq!(r.fingerprint.len(), 16);
    let r = Parser::empty().parse(&raw(r#"{"level":"info","msg":"x"}"#, Protocol::HttpJson));
    assert_eq!(r.fingerprint, "");
    let own = r#"{"level":"error","msg":"x","fingerprint":"mine"}"#;
    let r = Parser::empty().parse(&raw(own, Protocol::HttpJson));
    assert_eq!(r.fingerprint, "mine");
}

#[test]
fn levels_have_many_names() {
    assert_eq!(normalize_level_public("WARNING"), "warn");
    assert_eq!(normalize_level_public("ERR"), "error");
}

#[test]
fn rows_get_defaults() {
    let e = Enricher::new("unknown", "localhost");
    let mut row = Parser::empty().parse(&raw("plain", Protocol::HttpJson));
    row.service = String::new();
    row.source_host = String::new();
    row.level = String::new();
    e.enrich(&mut row, Some("DE"));
    assert_eq!(row.service, "unknown");
    assert_eq!(row.source_host, "localhost");
    assert_eq!(row.level, "info");
    assert_eq!(row.geo_country, "DE");
}

#[test]
fn shard_ownership_partitions_segments() {
    // Every segment belongs to exactly one worker.
    for total in 1usize..6 {
        let mut owner_counts = vec![0usize; total];
        for seg in 0u64..50 {
            let owner = (0..total as u64)
                .filter(|w| owns_segment(seg, *w, total))
                .count();
            assert_eq!(owner, 1, "seg {seg} total {total}");
            owner_counts[(seg % total as u64) as usize] += 1;
        }
        assert!(owner_counts.iter().all(|c| *c > 0));
    }
    assert!(owns_segment(4, 0, 2));
    assert!(!owns_segment(5, 0, 2));
    assert!(owns_segment(5, 1, 2));
}

#[test]
fn workers_ingest_every_record_once() {
    let parser = Parser::empty();
    let enricher = Enricher::new("unknown", "localhost");
    let mut workers: Vec<Worker> = (0..3).map(|w| Worker::new(w, 3, 32, 1_000, 0)).collect();
    let mut written: Vec<String> = Vec::new();
    for i in 0..300u64 {
        let rec = raw(&format!(r#"{{"service":"t","msg":"row-{i}"}}"#), Protocol::HttpJson);
        let next = Checkpoint { segment_id: i / 7, offset: i };
        for w in workers.iter_mut() {
            if w.on_record(&rec, next, 0, &parser, &enricher, None) {
                let n = w.buf.len();
                written.extend(w.buf.iter().map(|r| r.message.clone()));
                assert_eq!(w.on_written(n, ts(), 0), Some(next));
            }
        }
    }
    for w in workers.iter_mut() {
        assert_eq!(w.on_caught_up(1_000), !w.buf.is_empty());
        written.extend(w.buf.iter().map(|r| r.message.clone()));
    }
    written.sort();
    written.dedup();
    assert_eq!(written.len(), 300);
}

#[test]
fn a_batch_that_is_not_written_stays() {
    let mut w = Worker::new(0, 1, 1, 1_000, 0);
    let next = Checkpoint { segment_id: 0, offset: 9 };
    let rec = raw("x", Protocol::HttpJson);
    let e = Enricher::new("s", "h");
    assert!(w.on_record(&rec, next, 5, &Parser::empty(), &e, None));
    w.on_write_failed(5);
    assert_eq!(w.buf.len(), 1);
    assert_eq!(w.stats.insert_errors, 1);
    // Behind a row that is not written, no position is recorded.
    let later = Checkpoint { segment_id: next.segment_id, offset: next.offset + 9 };
    assert_eq!(w.on_bad_frame(later), None);
    assert_eq!(w.stats.parse_errors, 1);
    assert_eq!(w.on_written(1, Timestamp::new(0, 0).unwrap(), 6), Some(later));
    assert_eq!(w.on_bad_frame(next), Some(next));
}

#[test]
fn the_address_of_a_source_is_found() {
    assert_eq!(parse_ip_from_addr("1.2.3.4:5").as_deref(), Some("1.2.3.4"));
    assert_eq!(parse_ip_from_addr("1.2.3.4").as_deref(), Some("1.2.3.4"));
    assert_eq!(parse_ip_from_addr("host:80"), None);
    assert_eq!(parse_ip_from_addr(""), None);
}

#[test]
fn points_in_time_have_bounds() {
    for (secs, nanos) in [
        (0i64, 0u32),
        (-8_334_601_228_800, 0),
        (-8_334_601_228_801, 0),
        (8_210_266_876_799, 999_999_999),
        (8_210_266_876_800, 0),
        (59, 1_500_000_000),
        (58, 1_500_000_000),
        (59, 2_000_000_000),
        (i64::MAX, 0),
        (i64::MIN, 0),
    ] {
        assert_eq!(
            Timestamp::new(secs, nanos).is_some(),
            chrono::DateTime::from_timestamp(secs, nanos).is_some(),
            "{secs} {nanos}"
        );
    }
}

#[test]
fn messages_are_opened_and_keys_promoted() {
    let hot = vec![
        HotAttribute::parse_shorthand("order_id:varchar").unwrap(),
        HotAttribute::parse_shorthand("city:varchar:$.address.city").unwrap(),
    ];
    let body = r#"{"message":"{\"order_id\":\"ORD-1\",\"x\":1,\"y\":2}","x":9,"address":{"city":"B"}}"#;
    let r = Parser::new(hot).parse(&raw(body, Protocol::HttpJson));
    assert_eq!(r.hot[0], HotValue::Varchar("ORD-1".into()));
    assert_eq!(r.hot[1], HotValue::Varchar("B".into()));
    assert!(r.attributes.get("order_id").is_none());
    assert!(r.attributes.get("address").is_some());
    assert_eq!(int_at(&r.attributes, "x"), Some(9));
    assert_eq!(int_at(&r.attributes, "y"), Some(2));
}

#[test]
fn levels_are_settled() {
    for raw in [" WARNING ", "Crit", "Audit", "trace", "\u{c9}TAGE", "", &"X".repeat(33)] {
        let level = normalize_level_public(raw);
        assert_eq!(normalize_level_public(&level), level);
        assert!(level.len() <= 32 && !level.contains(|c: char| c.is_ascii_uppercase()));
    }
    assert_eq!(normalize_level_public(" Audit "), "audit");
}
