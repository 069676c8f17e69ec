//! Alert rules.
use central_logs::alerts::{
    alert_text, anomaly_sql, bad_condition, channel_ids, channel_target, compare, cooldown_elapsed,
    count_matching, cycle_stats, deliver, delivery_refusal, email_check, email_subject,
    error_group_count, evaluate_anomaly, evaluate_rule, load_channel_targets, metric_sql,
    severity_rank, sort_outcomes, stored_severity, targets_for, telegram_refusal,
    telegram_request, webhook_request, with_channel, ActiveRule, AlertCondition, ChannelTarget,
    Delivery, EvalOutcome, FiredAlert, ThresholdEntry,
};
use central_logs::config::SmtpConfig;
use central_logs::query::ColumnWhitelist;
use central_logs::time::{window_start, Timestamp};

fn at(secs: i64) -> Timestamp {
    Timestamp::new(secs, 0).unwrap()
}

fn bits(x: f64) -> u64 {
    x.to_bits()
}

fn rule(metric: &str) -> ActiveRule {
    ActiveRule {
        id: 7,
        name: "r".into(),
        metric: metric.into(),
        channel: "https://hooks.example.com/x".into(),
        channels_json: None,
        last_fired_at: None,
        last_severity: None,
    }
}

fn threshold(comparator: &str, value: f64, steps: Vec<ThresholdEntry>) -> AlertCondition {
    AlertCondition::Threshold {
        comparator: comparator.into(),
        value: bits(value),
        window_secs: 300,
        cooldown_secs: 900,
        thresholds: steps,
    }
}

fn step(severity: &str, value: f64) -> ThresholdEntry {
    ThresholdEntry { comparator: ">=".into(), value: bits(value), severity: severity.into() }
}

fn fired(o: EvalOutcome) -> FiredAlert {
    match o {
        EvalOutcome::Fired(f) => f,
        other => panic!("expected Fired, got {other:?}"),
    }
}

#[test]
fn threshold_fires_when_breached() {
    let f = fired(evaluate_rule(
        &rule("volume"),
        &threshold(">", 100.0, vec![]),
        Ok(Some(bits(500.0))),
    ));
    assert_eq!(f.rule_id, 7);
    assert_eq!(f.value, bits(500.0));
    assert_eq!(
        f.message,
        "r crossed 'alert' threshold: volume > 100 over the last 300s (current: 500.000)"
    );
}

#[test]
fn threshold_not_breached_below_value() {
    assert!(matches!(
        evaluate_rule(&rule("volume"), &threshold(">", 100.0, vec![]), Ok(Some(bits(10.0)))),
        EvalOutcome::NotBreached { .. }
    ));
}

#[test]
fn no_repeat_notification_while_severity_unchanged() {
    let mut r = rule("volume");
    // A sustained breach stays silent.
    r.last_severity = Some("alert".into());
    assert!(matches!(
        evaluate_rule(&r, &threshold(">", 100.0, vec![]), Ok(Some(bits(500.0)))),
        EvalOutcome::NotBreached { .. }
    ));
}

#[test]
fn recovery_notifies_once_then_silence() {
    let mut r = rule("volume");
    r.last_severity = Some("alert".into());
    let cond = threshold(">", 100.0, vec![]);
    let f = fired(evaluate_rule(&r, &cond, Ok(Some(bits(0.0)))));
    assert_eq!(f.severity, "ok");
    assert!(f.message.contains("RECOVERED"));
    r.last_severity = stored_severity(&f);
    assert_eq!(r.last_severity, None);
    assert!(matches!(
        evaluate_rule(&r, &cond, Ok(Some(bits(0.0)))),
        EvalOutcome::NotBreached { .. }
    ));
}

#[test]
fn multi_threshold_escalation_and_recovery() {
    let cond = threshold(">", 0.0, vec![step("warning", 50.0), step("critical", 200.0)]);
    let mut r = rule("volume");
    let mut eval = |n: f64| -> String {
        match evaluate_rule(&r, &cond, Ok(Some(bits(n)))) {
            EvalOutcome::Fired(f) => {
                r.last_severity = stored_severity(&f);
                f.severity
            }
            EvalOutcome::NotBreached { .. } => "silent".into(),
            other => panic!("unexpected {other:?}"),
        }
    };
    assert_eq!(eval(60.0), "warning");
    assert_eq!(eval(60.0), "silent");
    assert_eq!(eval(250.0), "critical");
    assert_eq!(eval(300.0), "silent");
    assert_eq!(eval(60.0), "warning");
    assert_eq!(eval(1.0), "ok");
    assert_eq!(eval(1.0), "silent");
    assert_eq!(eval(80.0), "warning");
}

#[test]
fn unsupported_metric_is_an_error_not_a_silent_skip() {
    assert!(metric_sql("not_a_real_metric").is_none());
    match evaluate_rule(&rule("not_a_real_metric"), &threshold(">", 1.0, vec![]), Ok(None)) {
        EvalOutcome::Error { error, .. } => assert!(error.contains("unsupported metric")),
        other => panic!("expected Error, got {other:?}"),
    }
}

fn anomaly(min: &str) -> AlertCondition {
    AlertCondition::Anomaly { min_severity: min.into(), window_secs: 300, cooldown_secs: 900 }
}

#[test]
fn anomaly_condition_fires_on_matching_severity() {
    let rows = Ok(vec![(bits(3.5), "high".to_string()), (bits(5.0), "critical".to_string())]);
    let f = fired(evaluate_anomaly(&rule("volume"), &anomaly("high"), rows, at(1000)));
    // The most severe one counts.
    assert_eq!(f.severity, "critical");
    assert_eq!(
        f.message,
        "anomaly on 'volume': severity critical (score 5.00) within the last 300s"
    );
}

#[test]
fn anomaly_condition_ignores_low_severity() {
    let rows = Ok(vec![(bits(3.1), "low".to_string())]);
    assert!(matches!(
        evaluate_anomaly(&rule("volume"), &anomaly("high"), rows, at(1000)),
        EvalOutcome::NotBreached { .. }
    ));
}

#[test]
fn anomalies_rest_between_firings() {
    let mut r = rule("volume");
    r.last_fired_at = Some(at(1000));
    let rows = || Ok(vec![(bits(5.0), "critical".to_string())]);
    let go = |now| evaluate_anomaly(&r, &anomaly("low"), rows(), at(now));
    assert!(matches!(go(1899), EvalOutcome::NotBreached { .. }));
    assert!(matches!(go(1900), EvalOutcome::Fired(_)));
    assert!(cooldown_elapsed(None, at(0), 900));
    assert!(cooldown_elapsed(Some(at(5)), at(5), -3));
    assert!(!cooldown_elapsed(Some(at(50)), at(5), 0));
    // Times before the epoch and within leap seconds, as the calendar counts them.
    let times: Vec<Timestamp> = [
        (-1, 0), (-1, 1_500_000_000), (-61, 1_000_000_000), (59, 1_999_999_999), (59, 999_999_999),
        (60, 0), (119, 1_250_000_000), (86_399, 1_000_000_000), (86_400, 0), (86_459, 1_100_000_000),
    ]
    .iter()
    .map(|(s, n)| Timestamp::new(*s, *n).unwrap())
    .collect();
    let date = |t: Timestamp| chrono::DateTime::from_timestamp(t.secs, t.nanos).unwrap();
    for a in &times {
        for b in &times {
            let secs = (date(*b) - date(*a)).num_seconds();
            for k in [secs - 1, secs, secs + 1] {
                let want = secs >= k.max(0);
                assert_eq!(cooldown_elapsed(Some(*a), *b, k), want, "{a:?} {b:?} {k}");
            }
        }
    }
}

#[test]
fn bad_condition_json_is_reported_not_panicked() {
    let e = serde_json::from_str::<serde_json::Value>("not json").unwrap_err().to_string();
    match bad_condition(&rule("volume"), &e) {
        EvalOutcome::Error { error, .. } => {
            assert!(error.contains("bad condition_json"));
            assert_eq!(error, format!("bad condition_json: {e}"));
        }
        other => panic!("expected Error, got {other:?}"),
    }
}

fn count(filter: &str, n: f64) -> AlertCondition {
    AlertCondition::Count {
        filter: filter.into(),
        comparator: ">=".into(),
        count: bits(n),
        window_secs: 0,
        cooldown_secs: 900,
        thresholds: vec![],
    }
}

#[test]
fn count_condition_fires_on_matching_rows() {
    let whitelist = ColumnWhitelist::standard(&[]);
    let filter = "service:api level:error";
    let (sql, params) = count_matching(filter, &whitelist, at(0), at(60)).unwrap();
    assert_eq!(
        sql,
        "SELECT COUNT(*) FROM logs WHERE (service = ? AND level = ?) AND ts >= ? AND ts <= ?"
    );
    assert_eq!(
        params,
        vec!["api", "error", "1970-01-01T00:00:00+00:00", "1970-01-01T00:01:00+00:00"]
    );
    let f = fired(evaluate_rule(
        &rule("events_matching_filter"),
        &count(filter, 3.0),
        Ok(Some(bits(5.0))),
    ));
    assert_eq!(f.value, bits(5.0));
    assert_eq!(f.severity, "alert");
    assert!(f.message.contains("rows matching 'service:api level:error'"));
    assert!(f.message.contains("over the last 1s"));
}

#[test]
fn count_condition_rejects_bad_filter_as_eval_error() {
    let whitelist = ColumnWhitelist::standard(&[]);
    let err = count_matching("totally_bogus_column:1", &whitelist, at(0), at(60)).unwrap_err();
    let r = rule("events_matching_filter");
    match evaluate_rule(&r, &count("totally_bogus_column:1", 1.0), Err(err.message())) {
        EvalOutcome::Error { error, .. } => {
            assert!(error.contains("invalid filter") || error.contains("unknown"))
        }
        other => panic!("expected Error, got {other:?}"),
    }
}

#[test]
fn comparator_rejects_unknown_operator() {
    assert!(compare(bits(1.0), ">", bits(0.0)).unwrap());
    assert!(compare(bits(1.0), "bogus", bits(0.0)).is_err());
}

#[test]
fn comparisons_are_those_of_floating_point() {
    let numbers = [
        0.0, -0.0, 1.0, -1.0, 1e-9, 1.0000000001e-9, 9.999999999999999e-10, 1e-10, 1e-300, 5e-324,
        -5e-324, 1.5, 1.5 + 5e-10, 1.5 - 2e-9, 1e15, 1e15 + 1.0, 1e300, f64::MAX, f64::MIN,
        f64::INFINITY, f64::NEG_INFINITY, f64::NAN, 2.220446049250313e-16, 0.1 + 0.2, 0.3,
        2.0e-9, 1.9999999999999998e-9,
    ];
    for a in numbers {
        for b in numbers {
            let c = |op: &str| compare(bits(a), op, bits(b)).unwrap();
            assert_eq!(c(">"), a > b, "{a} > {b}");
            assert_eq!(c(">="), a >= b, "{a} >= {b}");
            assert_eq!(c("<"), a < b, "{a} < {b}");
            assert_eq!(c("<="), a <= b, "{a} <= {b}");
            assert_eq!(c("=="), (a - b).abs() < 1e-9, "{a} == {b}");
            assert_eq!(c("="), (a - b).abs() < 1e-9, "{a} = {b}");
        }
    }
}

fn alert(channel: &str) -> FiredAlert {
    FiredAlert {
        rule_id: 1,
        name: "r".into(),
        metric: "volume".into(),
        value: bits(1.0),
        message: "m".into(),
        severity: "alert".into(),
        channel: channel.into(),
        channel_ids: vec![],
    }
}

#[test]
fn webhook_channel_validation_rejects_non_http() {
    let err = webhook_request(&alert("slack:#ops"), at(0)).map(|_| ()).unwrap_err();
    assert!(err.contains("only http(s)"));
    let err = webhook_request(&alert("  "), at(0)).map(|_| ()).unwrap_err();
    assert_eq!(err, "no notification channel configured");
    let post = webhook_request(&alert(" https://x/y "), at(0)).unwrap();
    assert_eq!(post.url, "https://x/y");
    let body: serde_json::Value = serde_json::from_str(&post.body.to_text()).unwrap();
    assert_eq!(body["value"], 1.0);
    assert_eq!(body["fired_at"], "1970-01-01T00:00:00+00:00");
    assert_eq!(with_channel(&alert("a"), "b").channel, "b");
}

#[test]
fn telegram_requests_name_the_bot() {
    let post = telegram_request(" t ", "5", "https://api/", &alert("")).unwrap();
    assert_eq!(post.url, "https://api/bott/sendMessage");
    assert!(telegram_request("", "5", "x", &alert("")).is_err());
    assert_eq!(
        telegram_refusal(401, "401 Unauthorized", "Unauthorized"),
        "telegram HTTP 401 Unauthorized (unauthorized — check bot_token)"
    );
    assert_eq!(telegram_refusal(500, "500 X", "oops"), "telegram HTTP 500 X");
    assert_eq!(alert_text(&alert("")), "🚨 central-logs: r\nm\nrule #1 · volume");
    assert_eq!(email_subject(&alert("")), "[central-logs] r");
}

#[test]
fn mail_needs_a_relay_and_recipients() {
    let to = vec!["a@b".to_string()];
    assert!(email_check(&None, &to).unwrap().contains("SMTP is not configured"));
    assert!(email_check(&Some(SmtpConfig::default()), &to).is_some());
    let smtp = SmtpConfig { host: "h".into(), from: "f@x".into(), ..SmtpConfig::default() };
    assert_eq!(
        email_check(&Some(smtp.clone()), &[]).as_deref(),
        Some("email channel has no recipients")
    );
    assert_eq!(email_check(&Some(smtp), &to), None);
}

#[test]
fn channels_are_read_from_their_settings() {
    assert!(matches!(
        channel_target("webhook", r#"{"url":"u"}"#),
        Some(ChannelTarget::Webhook { url }) if url == "u"
    ));
    assert!(matches!(
        channel_target("telegram", "no json"),
        Some(ChannelTarget::Telegram { api_base, .. }) if api_base == "https://api.telegram.org"
    ));
    assert!(matches!(
        channel_target("email", r#"{"recipients":["a",1,"b"]}"#),
        Some(ChannelTarget::Email { recipients }) if recipients == ["a", "b"]
    ));
    assert!(channel_target("pager", "{}").is_none());
    assert_eq!(channel_ids(&Some("[1, 2]".into())), vec![1, 2]);
    assert!(channel_ids(&Some("[1, 2.5]".into())).is_empty());
    assert!(channel_ids(&None).is_empty());
}

#[test]
fn alerts_go_to_their_channels() {
    let row = |n: &str, k: &str, c: &str| Some((n.to_string(), k.to_string(), c.to_string()));
    let rows = vec![
        row("hook", "webhook", r#"{"url":"http://h"}"#),
        None,
        row("odd", "pager", "{}"),
        row("bot", "telegram", r#"{"bot_token":"t","chat_id":"5"}"#),
        row("mail", "email", r#"{"recipients":["a@b"]}"#),
    ];
    let targets = targets_for(load_channel_targets(&rows), &alert("http://x"));
    let names: Vec<&str> = targets.iter().map(|t| t.0.as_str()).collect();
    assert_eq!(names, ["hook", "bot", "mail"]);
    let smtp = Some(SmtpConfig { host: "h".into(), from: "f@x".into(), ..SmtpConfig::default() });
    let a = alert("http://x");
    assert!(matches!(
        deliver(&smtp, &targets[0].1, &a, at(0)),
        Ok(Delivery::Request(p)) if p.url == "http://h"
    ));
    assert!(matches!(
        deliver(&smtp, &targets[1].1, &a, at(0)),
        Ok(Delivery::Request(p)) if p.url == "https://api.telegram.org/bott/sendMessage"
    ));
    assert!(matches!(
        deliver(&smtp, &targets[2].1, &a, at(0)),
        Ok(Delivery::Mail { recipients, .. }) if recipients == ["a@b"]
    ));
    assert!(deliver(&None, &targets[2].1, &a, at(0)).is_err());
    assert_eq!(delivery_refusal(&targets[0].1, 500, "500 X", ""), "webhook HTTP 500 X");
    assert!(delivery_refusal(&targets[1].1, 404, "404 X", "").contains("check bot_token/api_base"));
    // Without channels of its own, a rule's webhook is used.
    let targets = targets_for(load_channel_targets(&vec![None]), &a);
    assert_eq!(targets.len(), 1);
    assert!(matches!(&targets[0].1, ChannelTarget::Webhook { url } if url == "http://x"));
}

#[test]
fn questions_of_rules() {
    assert!(metric_sql("p95_latency").unwrap().contains("SUM(p95 * n)"));
    assert!(metric_sql("volume").unwrap().starts_with("SELECT COALESCE(SUM(n), 0)"));
    assert!(anomaly_sql().ends_with("WHERE metric = ? AND ts >= ? ORDER BY ts DESC"));
    let (sql, params) = error_group_count(&Some("fp".into()), "fatal", at(0), at(1));
    assert!(sql.ends_with(" AND level = 'fatal' AND fingerprint = ?"));
    assert_eq!(params.len(), 3);
    let (sql, params) = error_group_count(&None, "error", at(0), at(1));
    assert!(sql.ends_with(" AND level IN ('error', 'fatal')"));
    assert_eq!(params.len(), 2);
    assert_eq!(window_start(at(1000), 300), Some(at(700)));
    assert_eq!(window_start(at(0), i64::MAX), None);
    assert_eq!(severity_rank("critical"), 3);
    assert_eq!(severity_rank("odd"), 0);
}

#[test]
fn a_cycle_is_summed_up() {
    let all = vec![
        EvalOutcome::Fired(alert("")),
        EvalOutcome::NotBreached { rule_id: 1 },
        EvalOutcome::Error { rule_id: 2, error: "e".into() },
    ];
    let s = cycle_stats(&all, &vec![true, false]);
    assert_eq!((s.evaluated, s.fired, s.notified), (3, 1, 1));
    let sorted = sort_outcomes(&all);
    assert_eq!(sorted.fired.len(), 1);
    assert_eq!(sorted.quiet, vec![1]);
    assert_eq!(sorted.failed, vec![(2, "e".to_string())]);
}

#[test]
fn a_second_cycle_is_silent() {
    let cond = threshold(">", 100.0, vec![]);
    let mut rules = vec![rule("volume"), rule("volume"), rule("odd")];
    rules[1].last_severity = Some("critical".into());
    let values = || [Ok(Some(bits(500.0))), Ok(Some(bits(5.0))), Ok(None)];
    let cycle = |rules: &Vec<_>| -> Vec<EvalOutcome> {
        rules.iter().zip(values()).map(|(r, v)| evaluate_rule(r, &cond, v)).collect()
    };
    let first = cycle(&rules);
    assert_eq!(cycle_stats(&first, &Vec::new()).fired, 2);
    for (r, o) in rules.iter_mut().zip(&first) {
        if let EvalOutcome::Fired(a) = o {
            r.last_severity = stored_severity(a);
        }
    }
    let s = cycle_stats(&cycle(&rules), &Vec::new());
    assert_eq!((s.evaluated, s.fired, s.notified), (3, 0, 0));
}
