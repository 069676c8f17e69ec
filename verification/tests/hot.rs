//! Promoted attributes.
use central_logs::hot::{coerce, resolve_json_path, HotAttribute, HotType, HotValue};
use central_logs::json::Json;

fn json(text: &str) -> Json {
    Json::parse(text).unwrap()
}

#[test]
fn parse_shorthand_short() {
    let h = HotAttribute::parse_shorthand("user_id:bigint").unwrap();
    assert_eq!(h.name, "user_id");
    assert_eq!(h.duckdb_type, HotType::Bigint);
    assert_eq!(h.json_path, "$.user_id");
}

#[test]
fn parse_shorthand_full() {
    let h = HotAttribute::parse_shorthand("route:varchar:$.request.route").unwrap();
    assert_eq!(h.name, "route");
    assert_eq!(h.json_path, "$.request.route");
}

#[test]
fn parse_shorthand_default_type() {
    let h = HotAttribute::parse_shorthand("env").unwrap();
    assert_eq!(h.duckdb_type, HotType::Varchar);
}

#[test]
fn parse_shorthand_rejects_bad_name() {
    assert!(HotAttribute::parse_shorthand("1abc:int").is_err());
    assert!(HotAttribute::parse_shorthand("col with space:int").is_err());
    assert!(HotAttribute::parse_shorthand("; DROP TABLE:bigint").is_err());
}

#[test]
fn resolve_dotted() {
    let v = json(r#"{"ctx": {"user_id": 42}}"#);
    let r = resolve_json_path(&v, "$.ctx.user_id").unwrap();
    assert_eq!(r, &json("42"));
}

#[test]
fn resolve_bare() {
    let v = json(r#"{"user_id": 7}"#);
    let r = resolve_json_path(&v, "user_id").unwrap();
    assert_eq!(r, &json("7"));
}

#[test]
fn coerce_int_from_float_string() {
    let v = json(r#""42""#);
    let got = coerce(&v, HotType::Bigint);
    assert_eq!(got, HotValue::Bigint(42));
}

#[test]
fn coerce_returns_null_on_type_mismatch() {
    let v = json("[1, 2, 3]");
    let got = coerce(&v, HotType::Bigint);
    assert_eq!(got, HotValue::Null);
}

#[test]
fn coerce_string_to_bool() {
    assert_eq!(coerce(&json(r#""true""#), HotType::Boolean), HotValue::Boolean(true));
    assert_eq!(coerce(&json(r#""no""#), HotType::Boolean), HotValue::Boolean(false));
    assert_eq!(coerce(&json(r#""maybe""#), HotType::Boolean), HotValue::Null);
}

#[test]
fn types_have_names_in_definitions() {
    assert_eq!(HotType::Bigint.ddl(), "BIGINT");
    assert_eq!(HotType::Double.ddl(), "DOUBLE");
    assert_eq!(HotType::Varchar.ddl(), "VARCHAR");
    assert_eq!(HotType::Boolean.ddl(), "BOOLEAN");
}
