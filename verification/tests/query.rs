//! The filter language.
use central_logs::hot::HotAttribute;
use central_logs::query::{
    params_as_duck, parse_filter, BoundValue, Clause, ColumnType, ColumnWhitelist, FilterError, Op,
};

fn whitelist() -> ColumnWhitelist {
    ColumnWhitelist::standard(&[
        HotAttribute::parse_shorthand("user_id:bigint").unwrap(),
        HotAttribute::parse_shorthand("env:varchar").unwrap(),
        HotAttribute::parse_shorthand("is_canary:boolean").unwrap(),
        HotAttribute::parse_shorthand("duration_ms:double").unwrap(),
    ])
}

#[test]
fn empty_input() {
    let f = parse_filter("").unwrap();
    assert!(f.is_empty());
    let f = parse_filter("   ").unwrap();
    assert!(f.is_empty());
}

#[test]
fn simple_key_value_pairs() {
    let f = parse_filter("service:api level:error").unwrap();
    let (sql, params) = f.to_sql(&whitelist()).unwrap();
    assert_eq!(sql, "service = ? AND level = ?");
    assert_eq!(params, vec!["api".to_string(), "error".to_string()]);
}

#[test]
fn bare_text_implicit_message_ilike() {
    let f = parse_filter("timeout").unwrap();
    let (sql, params) = f.to_sql(&whitelist()).unwrap();
    assert_eq!(sql, "message ILIKE ?");
    assert_eq!(params, vec!["%timeout%".to_string()]);
}

#[test]
fn mixed_filters_and_text() {
    let f = parse_filter("service:api timeout").unwrap();
    let (sql, params) = f.to_sql(&whitelist()).unwrap();
    assert_eq!(sql, "service = ? AND message ILIKE ?");
    assert_eq!(params, vec!["api".to_string(), "%timeout%".to_string()]);
}

#[test]
fn numeric_operators() {
    let f = parse_filter("duration_ms>1000").unwrap();
    let (sql, params) = f.to_sql(&whitelist()).unwrap();
    assert_eq!(sql, "duration_ms > ?");
    assert_eq!(params, vec!["1000".to_string()]);

    let f = parse_filter("raw_len>=1024").unwrap();
    let (sql, _) = f.to_sql(&whitelist()).unwrap();
    assert_eq!(sql, "raw_len >= ?");
}

#[test]
fn numeric_value_cast_inference() {
    // Bigint column → param still a string, DuckDB casts at bind time.
    let f = parse_filter("user_id:42").unwrap();
    let (sql, params) = f.to_sql(&whitelist()).unwrap();
    assert_eq!(sql, "user_id = ?");
    assert_eq!(params, vec!["42".to_string()]);
}

#[test]
fn unknown_column_rejected() {
    let f = parse_filter("evil_col:1").unwrap();
    let err = f.to_sql(&whitelist()).unwrap_err();
    assert!(matches!(err, FilterError::UnknownColumn(_)));
}

#[test]
fn numeric_op_on_text_rejected() {
    let f = parse_filter("service>foo").unwrap();
    let err = f.to_sql(&whitelist()).unwrap_err();
    assert!(matches!(err, FilterError::NumericOpOnText { .. }));
}

#[test]
fn invalid_numeric_value_rejected_at_parse_time() {
    let f = parse_filter("user_id:abc").unwrap();
    let err = f.to_sql(&whitelist()).unwrap_err();
    assert!(matches!(err, FilterError::ValueParseError { .. }));
}

#[test]
fn sql_injection_via_key_rejected() {
    // Even if the user tries `1=1 OR foo:bar`, the key `1=1 OR foo`
    // contains spaces and won't tokenize as a single key. And even if they
    // wrote `evil:bar`, the whitelist check rejects unknown keys.
    let f = parse_filter("evil:bar").unwrap();
    assert!(matches!(f.to_sql(&whitelist()), Err(FilterError::UnknownColumn(_))));
}

#[test]
fn sql_injection_via_value_is_safe() {
    // Even with malicious value content, the output is a bound parameter —
    // the value never reaches the SQL string as raw text. The value
    // `api';--` (with no spaces) stays as one token and becomes the param.
    let f = parse_filter("service:api';--").unwrap();
    let (sql, params) = f.to_sql(&whitelist()).unwrap();
    assert_eq!(sql, "service = ?");
    assert_eq!(params, vec!["api';--".to_string()]);
    // The critical safety property: no DROP TABLE / OR 1=1 / semicolons in
    // the SQL string itself — everything is `?` placeholders.
    assert!(!sql.contains(';'), "no semicolons in generated SQL");
    assert!(!sql.contains("DROP"), "no DROP in generated SQL");
    assert!(!sql.contains(" OR "), "no OR in generated SQL");
}

#[test]
fn quoted_value_with_spaces() {
    // Bare quoted string → message ILIKE.
    let f = parse_filter(r#""connection refused""#).unwrap();
    let (sql, params) = f.to_sql(&whitelist()).unwrap();
    assert_eq!(sql, "message ILIKE ?");
    assert_eq!(params, vec!["%connection refused%".to_string()]);
}

#[test]
fn key_with_quoted_value() {
    // `message:"connection refused"` should parse as ONE clause
    // (the tokenizer merges `message:` + the quoted string).
    let f = parse_filter(r#"message:"connection refused""#).unwrap();
    let (sql, params) = f.to_sql(&whitelist()).unwrap();
    assert_eq!(sql, "message = ?");
    assert_eq!(params, vec!["connection refused".to_string()]);
}

#[test]
fn key_with_quoted_value_and_other_clauses() {
    let f = parse_filter(r#"service:api message:"connection refused" user_id:42"#).unwrap();
    let (sql, params) = f.to_sql(&whitelist()).unwrap();
    assert_eq!(sql, "service = ? AND message = ? AND user_id = ?");
    assert_eq!(
        params,
        vec![
            "api".to_string(),
            "connection refused".to_string(),
            "42".to_string(),
        ]
    );
}

#[test]
fn like_operator_explicit() {
    let f = parse_filter("message~timeout").unwrap();
    let (sql, params) = f.to_sql(&whitelist()).unwrap();
    assert_eq!(sql, "message ILIKE ?");
    assert_eq!(params, vec!["%timeout%".to_string()]);
}

#[test]
fn like_on_numeric_rejected() {
    let f = parse_filter("user_id~42").unwrap();
    let err = f.to_sql(&whitelist()).unwrap_err();
    assert!(matches!(err, FilterError::LikeOnNonText(_)));
}

// ------------------------------------------------------------------
// AND / OR / parens / exclusion
// ------------------------------------------------------------------

#[test]
fn explicit_and_is_same_as_implicit() {
    let f = parse_filter("service:api AND level:error").unwrap();
    let (sql, params) = f.to_sql(&whitelist()).unwrap();
    assert_eq!(sql, "service = ? AND level = ?");
    assert_eq!(params, vec!["api".to_string(), "error".to_string()]);
}

#[test]
fn lowercase_connectors_also_work() {
    let f = parse_filter("service:api or service:web").unwrap();
    let (sql, _) = f.to_sql(&whitelist()).unwrap();
    assert_eq!(sql, "service = ? OR service = ?");
}

#[test]
fn and_binds_tighter_than_or() {
    // `a b OR c` → (a AND b) OR c
    let f = parse_filter("service:api level:error OR service:web").unwrap();
    let (sql, params) = f.to_sql(&whitelist()).unwrap();
    assert_eq!(sql, "(service = ? AND level = ?) OR service = ?");
    assert_eq!(
        params,
        vec!["api".to_string(), "error".to_string(), "web".to_string()]
    );

    // `a OR b c` → a OR (b AND c)
    let f = parse_filter("service:api OR service:web level:error").unwrap();
    let (sql, _) = f.to_sql(&whitelist()).unwrap();
    assert_eq!(sql, "service = ? OR (service = ? AND level = ?)");
}

#[test]
fn parens_group_expressions() {
    let f = parse_filter("(service:api OR service:web) level:error").unwrap();
    let (sql, params) = f.to_sql(&whitelist()).unwrap();
    assert_eq!(sql, "(service = ? OR service = ?) AND level = ?");
    assert_eq!(
        params,
        vec!["api".to_string(), "web".to_string(), "error".to_string()]
    );
}

#[test]
fn nested_parens() {
    let f =
        parse_filter("((service:api OR service:web) OR service:db) -level:debug").unwrap();
    let (sql, _) = f.to_sql(&whitelist()).unwrap();
    assert_eq!(sql, "(service = ? OR service = ? OR service = ?) AND level != ?");
}

#[test]
fn quoted_and_stays_literal_text() {
    let f = parse_filter(r#"service:api "and""#).unwrap();
    let (sql, params) = f.to_sql(&whitelist()).unwrap();
    assert_eq!(sql, "service = ? AND message ILIKE ?");
    assert_eq!(params, vec!["api".to_string(), "%and%".to_string()]);
}

#[test]
fn dangling_connectors_rejected() {
    assert!(parse_filter("OR service:api").is_err());
    assert!(parse_filter("service:api OR").is_err());
    assert!(parse_filter("service:api OR OR service:web").is_err());
    assert!(parse_filter("AND").is_err());
}

#[test]
fn unbalanced_parens_rejected() {
    assert!(parse_filter("(service:api OR service:web").is_err());
    assert!(parse_filter("service:api)").is_err());
    assert!(parse_filter(")(").is_err());
}

#[test]
fn exclude_comparison() {
    let f = parse_filter("-service:central-logs").unwrap();
    let (sql, params) = f.to_sql(&whitelist()).unwrap();
    assert_eq!(sql, "service != ?");
    assert_eq!(params, vec!["central-logs".to_string()]);
}

#[test]
fn exclude_combined_with_clauses() {
    let f = parse_filter("level:error -service:central-logs").unwrap();
    let (sql, params) = f.to_sql(&whitelist()).unwrap();
    assert_eq!(sql, "level = ? AND service != ?");
    assert_eq!(params, vec!["error".to_string(), "central-logs".to_string()]);
}

#[test]
fn exclude_bare_text_uses_not_ilike() {
    let f = parse_filter("-timeout").unwrap();
    let (sql, params) = f.to_sql(&whitelist()).unwrap();
    assert_eq!(sql, "NOT (message ILIKE ?)");
    assert_eq!(params, vec!["%timeout%".to_string()]);
}

#[test]
fn exclude_like_operator() {
    let f = parse_filter("-message~health").unwrap();
    let (sql, params) = f.to_sql(&whitelist()).unwrap();
    assert_eq!(sql, "message NOT ILIKE ?");
    assert_eq!(params, vec!["%health%".to_string()]);
}

#[test]
fn exclude_flips_numeric_ops() {
    let f = parse_filter("-duration_ms>1000").unwrap();
    let (sql, params) = f.to_sql(&whitelist()).unwrap();
    assert_eq!(sql, "duration_ms <= ?");
    assert_eq!(params, vec!["1000".to_string()]);
}

#[test]
fn exclude_negated_group() {
    let f = parse_filter("level:error -(service:api OR service:web)").unwrap();
    let (sql, _) = f.to_sql(&whitelist()).unwrap();
    assert_eq!(sql, "level = ? AND NOT (service = ? OR service = ?)");
}

#[test]
fn negative_numeric_value_not_treated_as_exclusion() {
    let f = parse_filter("user_id:-42").unwrap();
    let (sql, params) = f.to_sql(&whitelist()).unwrap();
    assert_eq!(sql, "user_id = ?");
    assert_eq!(params, vec!["-42".to_string()]);
}

#[test]
fn terms_walks_the_tree() {
    let f = parse_filter("(service:api OR service:web) -service:central-logs").unwrap();
    let terms = f.terms();
    assert_eq!(terms.len(), 3);
    let pinned: Vec<&str> = terms
        .iter()
        .filter_map(|c| match c {
            Clause::Comparison { key, op: Op::Eq, value, negated: false }
                if key == "service" =>
            {
                Some(value.as_str())
            }
            _ => None,
        })
        .collect();
    assert_eq!(pinned, vec!["api", "web"]);
}

#[test]
fn filter_errors_are_told_in_words() {
    let err = parse_filter("evil:1").unwrap().to_sql(&whitelist()).unwrap_err();
    assert_eq!(err.message(), "unknown column 'evil' (not in whitelist)");
    let err = parse_filter("service>1").unwrap().to_sql(&whitelist()).unwrap_err();
    assert_eq!(err.message(), "numeric operator Gt not valid for text column 'service'");
    let err = parse_filter("user_id~1").unwrap().to_sql(&whitelist()).unwrap_err();
    assert!(matches!(err, FilterError::LikeOnNonText(_)));
    let err = parse_filter("user_id:abc").unwrap().to_sql(&whitelist()).unwrap_err();
    assert!(matches!(err, FilterError::ValueParseError { .. }));
    let err = parse_filter("service:api)").unwrap_err();
    assert!(matches!(err, FilterError::Syntax { .. }));
    assert!(err.message().starts_with("syntax error at position "));
}

#[test]
fn there_is_one_placeholder_for_each_value() {
    for text in [
        "service:api level:error",
        "(service:api OR service:web) -level:debug timeout",
        "-(user_id:1 OR message~x) duration_ms<=2.5",
    ] {
        let (sql, params) = parse_filter(text).unwrap().to_sql(&whitelist()).unwrap();
        assert_eq!(sql.matches('?').count(), params.len(), "{text}");
    }
}

#[test]
fn columns_have_their_types() {
    let w = whitelist();
    assert_eq!(w.get("service"), Some(ColumnType::Text));
    assert_eq!(w.get("user_id"), Some(ColumnType::Bigint));
    assert_eq!(w.get("duration_ms"), Some(ColumnType::Double));
    assert_eq!(w.get("is_canary"), Some(ColumnType::Boolean));
    assert_eq!(w.get("nope"), None);
    assert!(w.keys().contains(&"env"));
}

#[test]
fn parameters_are_bound_by_what_they_spell() {
    let words = ["api", "42", "2.5", "2024-01-02", "2024-01-02T03:04:05Z", "1234-56789T"];
    let values: Vec<String> = words.iter().map(|w| w.to_string()).collect();
    let bound = params_as_duck(&values);
    for i in 3..6 {
        assert!(matches!(&bound[i], BoundValue::Text(s) if s == words[i]));
    }
    assert!(matches!(&bound[0], BoundValue::Text(s) if s == "api"));
    assert!(matches!(&bound[1], BoundValue::BigInt(42)));
    assert!(matches!(&bound[2], BoundValue::Double(s) if s == "2.5"));
}

#[test]
fn a_minus_turns_a_negation_over() {
    let sql = |text: &str| parse_filter(text).unwrap().to_sql(&whitelist()).unwrap().0;
    assert_eq!(sql("-(-service:api)"), "service = ?");
    assert_eq!(sql("-(-timeout)"), "message ILIKE ?");
    assert_eq!(sql("-(-(-service:api))"), "service != ?");
    assert_eq!(sql("-(-(service:api OR timeout))"), "NOT (NOT (service = ? OR message ILIKE ?))");
}

#[test]
fn an_and_may_be_left_out() {
    let read = |text: &str| parse_filter(text).unwrap();
    for (a, b) in [
        ("service:api", "level:error"),
        ("a OR b", "c OR -d"),
        (" (x) ", "\"two words\" "),
        ("env~\"a b\"", "\"c\""),
        ("-(a b)", "(c OR d)"),
    ] {
        let bare = read(&format!("{a} {b}"));
        assert_eq!(read(&format!("{a} AND {b}")), bare);
        assert_eq!(read(&format!("{a} and {b}")), bare);
    }
    // A quoted string after an operator is its value.
    assert_eq!(read("env: \"a\"").terms().len(), 1);
}

#[test]
fn values_are_bound_in_the_order_of_the_terms() {
    let of = |text: &str| {
        let f = parse_filter(text).unwrap();
        let (sql, values) = f.to_sql(&whitelist()).unwrap();
        assert_eq!(values.len(), f.terms().len());
        assert_eq!(sql.matches('?').count(), values.len());
        (sql, values)
    };
    let (sql, values) = of("service:api (timeout OR -env~prod) user_id>5");
    assert_eq!(values, ["api", "%timeout%", "%prod%", "5"]);
    let (other, values) = of("service:? (? OR -env~x) user_id>7");
    assert_eq!(other, sql);
    assert_eq!(values, ["?", "%?%", "%x%", "7"]);
}
