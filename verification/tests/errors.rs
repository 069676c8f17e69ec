//! Error tracking.
use central_logs::errors::{
    client_fingerprint, event_of_row, exception_fingerprint, kept_samples, level_meets,
    list_groups, message_fingerprint, normalize_text, notify_event, notify_kind, resolved_at,
    spark_window, truncate_stack, upsert_group, variant_hash, ErrorNotifyConfig, ErrorTracker,
    ErrorTrackingConfig, GroupEvent, GroupWrite, ListParams, StoredGroup, TrackStep, Transition,
};
use central_logs::ingest::parse::Parser;
use central_logs::time::Timestamp;
use central_logs::{Protocol, RawRecord};

#[test]
fn normalize_strips_numbers_hex_and_quotes() {
    assert_eq!(normalize_text("user 42 failed"), "user N failed");
    assert_eq!(normalize_text("id deadbeef1234 end"), "id H end");
    assert_eq!(normalize_text("db: \"connection refused\""), "db: 'S");
    // Three hexadecimal digits are no id.
    assert_eq!(normalize_text("caf fit"), "caf fit");
    assert_eq!(normalize_text("a   \n  b"), "a b");
}

#[test]
fn fingerprints_are_stable_across_noise() {
    let a = message_fingerprint("api", "connection refused for user 4811");
    let b = message_fingerprint("api", "connection refused for user 9999");
    assert_eq!(a, b, "volatile numbers must not split groups");
    let c = message_fingerprint("api", "disk full");
    assert_ne!(a, c);
    // The service counts too.
    let d = message_fingerprint("worker", "connection refused for user 4811");
    assert_ne!(a, d);
}

#[test]
fn client_fingerprint_wins_and_is_stable() {
    let f1 = client_fingerprint(&["payment-gateway".into(), "timeout".into()]);
    let f2 = client_fingerprint(&["payment-gateway".into(), "timeout".into()]);
    assert_eq!(f1, f2);
    assert_eq!(f1.len(), 16);
    assert_ne!(f1, exception_fingerprint("Timeout", "t", &[]));
}

#[test]
fn exception_fingerprint_ignores_line_numbers() {
    let frames_a = vec![("m".to_string(), "handle".to_string(), "app.py".to_string())];
    let frames_b = vec![("m".to_string(), "handle".to_string(), "app.py:117".to_string())];
    let v1 = exception_fingerprint("ValueError", "bad input 42", &frames_a);
    let v2 = exception_fingerprint("ValueError", "bad input 77", &frames_a);
    assert_eq!(v1, v2);
    let _ = frames_b;
}

#[test]
fn truncate_stack_respects_frames_and_bytes() {
    let stack = (0..200).map(|i| format!("frame {i}")).collect::<Vec<_>>().join("\n");
    let (out, truncated) = truncate_stack(&stack, 100, 1 << 20);
    assert!(truncated);
    assert_eq!(out.lines().count(), 100);
    let tiny = "short";
    let (out2, truncated2) = truncate_stack(tiny, 100, 1 << 20);
    assert!(!truncated2);
    assert_eq!(out2, "short");
    let (out3, truncated3) = truncate_stack("x".repeat(100).as_str(), 1000, 10);
    assert!(truncated3);
    assert_eq!(out3.len(), 10);
}

#[test]
fn level_meets_ranks_correctly() {
    assert!(level_meets("error", "error"));
    assert!(level_meets("fatal", "error"));
    assert!(!level_meets("warn", "error"));
    assert!(level_meets("fatal", "fatal"));
    assert!(!level_meets("error", "fatal"));
}

fn now() -> Timestamp {
    Timestamp::new(1_700_000_000, 0).unwrap()
}

fn sample_ev(fp: &str, stack: Option<&str>) -> GroupEvent {
    GroupEvent {
        fingerprint: fp.into(),
        service: "api".into(),
        level: "error".into(),
        title: "Boom: something broke".into(),
        exception_type: Some("Boom".into()),
        ts: now(),
        stack: stack.map(String::from),
    }
}

/// The stored row of one group, as writes change it.
fn fold(row: &mut Option<StoredGroup>, max: usize, ev: &GroupEvent) -> Transition {
    let (write, t) = upsert_group(row.as_ref(), max, ev).unwrap();
    *row = Some(match write {
        GroupWrite::Insert {
            level, total_count, status, title, samples, variant_hashes, ..
        } => StoredGroup {
            level: Some(level),
            status,
            resolved_at: None,
            total_count,
            title: Some(title),
            samples: Some(samples),
            variant_hashes: Some(variant_hashes),
        },
        GroupWrite::Update {
            level, total_count, status, resolved_at, title, samples, variant_hashes, ..
        } => StoredGroup {
            level: Some(level),
            status,
            resolved_at,
            total_count,
            title: Some(title),
            samples: Some(samples),
            variant_hashes: Some(variant_hashes),
        },
    });
    t
}

#[test]
fn upsert_create_then_update_and_regression() {
    let mut row = None;
    let ev = sample_ev("fp1", Some("line1\nline2"));
    assert_eq!(fold(&mut row, 3, &ev), Transition::Created);
    // A variant that is known counts, and changes nothing else.
    assert_eq!(fold(&mut row, 3, &ev), Transition::Updated);
    assert_eq!(row.as_ref().unwrap().total_count, 2);

    // An event on a resolved group opens it again.
    row.as_mut().unwrap().status = "resolved".into();
    row.as_mut().unwrap().resolved_at = resolved_at("resolved", now());
    assert_eq!(fold(&mut row, 3, &ev), Transition::Regressed);
    let row = row.unwrap();
    assert_eq!(row.status, "unresolved");
    assert_eq!(row.resolved_at, None);
    assert_eq!(row.total_count, 3);
    assert_eq!(kept_samples(&row.samples).as_array().unwrap().len(), 1);
}

#[test]
fn samples_keep_first_and_latest_distinct_variants() {
    let mut row = None;
    for text in ["variant one", "variant two", "variant three", "variant four"] {
        fold(&mut row, 3, &sample_ev("fp2", Some(text)));
    }
    let samples = kept_samples(&row.unwrap().samples);
    let arr = samples.as_array().unwrap();
    assert_eq!(arr.len(), 3, "capped at samples_per_group");
    assert_eq!(arr[0].get_str("stack"), Some("variant one"), "first sample is kept");
    assert_eq!(arr[1].get_str("stack"), Some("variant three"), "oldest non-first rotated out");
    assert_eq!(arr[2].get_str("stack"), Some("variant four"), "newest variant is last");
}

#[test]
fn a_level_never_falls() {
    let mut row = None;
    let mut level = |l: &str| {
        fold(&mut row, 3, &GroupEvent { level: l.into(), ..sample_ev("fp4", None) });
        row.as_ref().unwrap().level.clone().unwrap()
    };
    assert_eq!(level("error"), "error");
    assert_eq!(level("fatal"), "fatal");
    assert_eq!(level("error"), "fatal");
}

#[test]
fn list_groups_filters_and_sorts() {
    let p = ListParams {
        window_secs: 3600,
        status: None,
        service: None,
        q: None,
        sort: "recent".into(),
        limit: 50,
        offset: 0,
    };
    // The groups that are not resolved are listed where no status is asked for.
    let q = list_groups(&p, now());
    assert!(q.page_sql.contains("status = 'unresolved'"));
    assert_eq!(q.page_binds, vec!["2023-11-14T21:13:20+00:00", "50", "0"]);
    assert_eq!(
        q.count_sql,
        "SELECT COUNT(*) FROM error_groups WHERE last_seen >= ? AND status = 'unresolved'"
    );
    assert_eq!(q.count_binds, vec!["2023-11-14T21:13:20+00:00"]);
    let any = ListParams { status: Some("all".into()), ..p };
    let q = list_groups(&any, now());
    assert!(!q.page_sql.contains("status ="));
    assert_eq!(q.count_sql, "SELECT COUNT(*) FROM error_groups WHERE last_seen >= ?");
    assert_eq!(q.count_binds, vec!["2023-11-14T21:13:20+00:00"]);
    let asked = ListParams { service: Some("api".into()), q: Some("x".into()), ..any };
    let q = list_groups(&asked, now());
    assert!(q.count_sql.ends_with(
        "last_seen >= ? AND service = ? AND (title ILIKE ? OR exception_type ILIKE ?)"
    ));
    assert_eq!(q.count_binds[1..], ["api", "%x%", "%x%"]);
}

#[test]
fn numbers_at_the_start_of_a_word_do_not_count() {
    for (a, b) in [
        ("took 17ms", "took 17ms"),
        ("port 80: refused", "port 443: refused"),
        ("1 of 2", "3 of 4"),
        ("say \"12\" now", "say \"13\" now"),
    ] {
        assert_eq!(normalize_text(a), normalize_text(b));
    }
    assert_ne!(normalize_text("took 17ms"), normalize_text("took 18ms"));
}

#[test]
fn kinds_of_fingerprints_differ() {
    let same = ["x".to_string()];
    assert_ne!(client_fingerprint(&same), variant_hash("x"));
}

#[test]
fn events_are_notified_by_their_transition() {
    let cfg = ErrorNotifyConfig::default();
    assert_eq!(notify_kind(&cfg, Transition::Updated, "error"), None);
    let on = ErrorNotifyConfig {
        on_new_group: true,
        on_regression: true,
        min_level: "error".into(),
        webhooks: Vec::new(),
    };
    assert_eq!(notify_kind(&on, Transition::Created, "error"), Some("group.created"));
    assert_eq!(notify_kind(&on, Transition::Regressed, "fatal"), Some("group.regressed"));
    assert_eq!(notify_kind(&on, Transition::Created, "warn"), None);
}

#[test]
fn error_rows_become_events() {
    let rec = |body: &str| RawRecord {
        receive_ts: now(),
        source_addr: String::new(),
        protocol: Protocol::HttpJson,
        raw: body.as_bytes().to_vec(),
    };
    let parser = Parser::empty();
    let row = parser.parse(&rec(
        r#"{"level":"error","service":"api","msg":"boom","stack":"a\nb","exception_type":"E"}"#,
    ));
    let ev = event_of_row(&row).unwrap();
    assert_eq!(ev.title, "boom");
    assert_eq!(ev.stack.as_deref(), Some("a\nb"));
    assert_eq!(ev.exception_type.as_deref(), Some("E"));
    assert!(event_of_row(&parser.parse(&rec(r#"{"msg":"fine"}"#))).is_none());
}

#[test]
fn rows_are_tracked_and_told_of() {
    let parser = Parser::empty();
    let rec = |raw: &str| RawRecord {
        receive_ts: now(),
        source_addr: String::new(),
        protocol: Protocol::HttpJson,
        raw: raw.as_bytes().to_vec(),
    };
    let row = parser.parse(&rec(r#"{"level":"fatal","msg":"boom"}"#));
    let tracker = ErrorTracker { cfg: ErrorTrackingConfig::default() };
    let (ev, kind) = match tracker.track(&row, None) {
        TrackStep::Write(ev, GroupWrite::Insert { .. }, kind) => (ev, kind),
        other => panic!("expected a new group, got {other:?}"),
    };
    assert_eq!(kind, Some("group.created"));
    let told = notify_event("group.created", &ev, None);
    assert_eq!((told.count, told.first_seen.as_str()), (0, "2023-11-14T22:13:20+00:00"));
    let told = notify_event("group.created", &ev, Some((4, Timestamp::new(0, 0).unwrap())));
    assert_eq!((told.count, told.first_seen.as_str()), (4, "1970-01-01T00:00:00+00:00"));
    let broken = StoredGroup {
        level: None,
        status: "resolved".into(),
        resolved_at: None,
        total_count: 1,
        title: Some("t".into()),
        samples: Some("[1,2,3]".into()),
        variant_hashes: None,
    };
    assert!(matches!(tracker.track(&row, Some(&broken)), TrackStep::Contradiction(_)));
    let fine = parser.parse(&rec(r#"{"msg":"fine"}"#));
    assert!(matches!(tracker.track(&fine, None), TrackStep::Nothing));
}

#[test]
fn windows_and_times_of_groups() {
    assert_eq!(spark_window(5), 60);
    assert_eq!(spark_window(3600), 3600);
    assert_eq!(resolved_at("ignored", now()), None);
    assert_eq!(resolved_at("resolved", now()), Some(now()));
}

#[test]
fn normalizing_settles() {
    let cases = [
        ("  user  42 failed\tat 0xdeadbeef99 ", "user N failed at 0xdeadbeef99"),
        ("id deadbeef1234-7", "id H-N"),
        ("a_1 12345678 1a2b3c4d", "a_1 N H"),
        ("", ""),
    ];
    for (text, want) in cases {
        assert_eq!(normalize_text(text), want);
        assert_eq!(normalize_text(want), want);
    }
    // A quoted part leaves a quote behind, which opens another one.
    assert_eq!(normalize_text("a 'b' c"), "a 'S c");
    assert_eq!(normalize_text("a 'S c"), "a");
}

#[test]
fn messages_are_kept_apart() {
    let m = "connection refused for user 4811";
    let fp = message_fingerprint("api", m);
    assert_eq!(fp, message_fingerprint("api", "connection refused for user 9999"));
    assert_ne!(fp, message_fingerprint("worker", m));
    assert_ne!(fp, message_fingerprint("api", "disk full"));
    assert_ne!(message_fingerprint("a", "b c"), message_fingerprint("a b", "c"));
}
