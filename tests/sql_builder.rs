use polydb::error::DbError;
use polydb::sql_builder::{build_select_sql, build_update_sql, escape_value, validate_identifier, QuoteStyle};
use polydb::value::Value;

fn text(s: &str) -> Value {
    Value::Str(s.to_string())
}

fn number(s: &str) -> Value {
    Value::Number(s.to_string())
}

#[test]
fn test_validate_identifier_valid() {
    assert!(validate_identifier("valid_name").is_ok());
    assert!(validate_identifier("_underscore").is_ok());
    assert!(validate_identifier("table.column").is_ok());
}

#[test]
fn test_validate_identifier_invalid() {
    assert!(validate_identifier("").is_err());
    assert!(validate_identifier("1number").is_err());
    assert!(validate_identifier("dash-char").is_err());
    assert!(validate_identifier("space char").is_err());
    assert!(validate_identifier("semi;colon").is_err());
}

#[test]
fn validate_identifier_error_kind_and_ascii_only() {
    assert!(matches!(validate_identifier(""), Err(DbError::InvalidIdentifier(_))));
    assert!(matches!(validate_identifier("a;b"), Err(DbError::InvalidIdentifier(_))));
    assert!(validate_identifier("é").is_err());
    assert!(validate_identifier("A9_.z").is_ok());
    assert!(validate_identifier(".a").is_err());
}

#[test]
fn test_quote_style_double() {
    let style = QuoteStyle::DoubleQuote;
    assert_eq!(style.quote("table"), "\"table\"");
    assert_eq!(style.quote("ta\"ble"), "\"ta\"\"ble\"");
}

#[test]
fn test_quote_style_backtick() {
    let style = QuoteStyle::Backtick;
    assert_eq!(style.quote("table"), "`table`");
    assert_eq!(style.quote("ta`ble"), "`ta``ble`");
}

#[test]
fn test_escape_value() {
    assert_eq!(escape_value(&number("123")), "123");
    assert_eq!(escape_value(&number("12.34")), "12.34");
    assert_eq!(escape_value(&Value::Bool(true)), "true");
    assert_eq!(escape_value(&Value::Bool(false)), "false");
    assert_eq!(escape_value(&Value::Null), "NULL");
    assert_eq!(escape_value(&text("string")), "'string'");
    assert_eq!(escape_value(&text("O'Reilly")), "'O''Reilly'");
}

#[test]
fn escape_value_of_structured_values_quotes_their_json() {
    let arr = Value::Array(vec![number("1"), text("it's")]);
    assert_eq!(escape_value(&arr), "'[1,\"it''s\"]'");
    let obj = Value::Object(vec![("k".to_string(), Value::Null)]);
    assert_eq!(escape_value(&obj), "'{\"k\":null}'");
}

#[test]
fn test_build_update_sql() {
    let changes = vec![("col1".to_string(), text("val1")), ("col2".to_string(), number("10"))];
    let pks = vec![("id".to_string(), number("1"))];

    let sql = build_update_sql("users", &changes, &pks, QuoteStyle::DoubleQuote).unwrap();

    assert!(sql.starts_with("UPDATE \"users\" SET"));
    assert!(sql.contains("\"col1\" = 'val1'"));
    assert!(sql.contains("\"col2\" = 10"));
    assert!(sql.contains("WHERE \"id\" = 1"));
}

#[test]
fn build_update_sql_exact_text() {
    let changes = vec![("a".to_string(), text("x")), ("b".to_string(), Value::Null)];
    let pks = vec![("id".to_string(), number("7")), ("k".to_string(), Value::Null)];
    let sql = build_update_sql("t", &changes, &pks, QuoteStyle::Backtick).unwrap();
    assert_eq!(sql, "UPDATE `t` SET `a` = 'x', `b` = NULL WHERE `id` = 7 AND `k` IS NULL");
}

#[test]
fn build_update_sql_errors() {
    let changes = vec![("a".to_string(), text("x"))];
    let pks = vec![("id".to_string(), number("1"))];
    let none: Vec<(String, Value)> = Vec::new();
    assert!(matches!(
        build_update_sql("bad table", &changes, &pks, QuoteStyle::DoubleQuote),
        Err(DbError::InvalidIdentifier(_))
    ));
    assert!(matches!(build_update_sql("t", &none, &pks, QuoteStyle::DoubleQuote), Err(DbError::Config(_))));
    assert!(matches!(build_update_sql("t", &changes, &none, QuoteStyle::DoubleQuote), Err(DbError::Config(_))));
    let bad_col = vec![("a;drop".to_string(), text("x"))];
    assert!(matches!(
        build_update_sql("t", &bad_col, &pks, QuoteStyle::DoubleQuote),
        Err(DbError::InvalidIdentifier(_))
    ));
}

#[test]
fn test_build_select_sql() {
    let sql = build_select_sql("users", 10, 0, QuoteStyle::Backtick).unwrap();

    assert_eq!(sql, "SELECT * FROM `users` LIMIT 10 OFFSET 0");
}

#[test]
fn build_select_sql_negative_and_invalid() {
    let sql = build_select_sql("users", -1, 2147483647, QuoteStyle::DoubleQuote).unwrap();
    assert_eq!(sql, "SELECT * FROM \"users\" LIMIT -1 OFFSET 2147483647");
    assert!(matches!(build_select_sql("1x", 1, 1, QuoteStyle::DoubleQuote), Err(DbError::InvalidIdentifier(_))));
}

#[test]
fn error_messages() {
    assert_eq!(DbError::NotConnected.message(), "Not connected");
    assert_eq!(DbError::ConnectionNotFound("c1".to_string()).message(), "Connection c1 not found");
    assert_eq!(DbError::Config("x".to_string()).message(), "Configuration error: x");
}

#[test]
fn malformed_number_text_is_quoted() {
    assert_eq!(escape_value(&number("1; DROP TABLE t")), "'1; DROP TABLE t'");
    assert_eq!(escape_value(&number("-1.5e3")), "-1.5e3");
    assert_eq!(escape_value(&number("")), "''");
}

#[test]
fn build_update_sql_reports_invalid_names_before_missing_keys() {
    let bad = vec![("bad-name".to_string(), text("x"))];
    let none: Vec<(String, Value)> = Vec::new();
    assert!(matches!(build_update_sql("t", &bad, &none, QuoteStyle::DoubleQuote), Err(DbError::InvalidIdentifier(_))));
    match build_update_sql("t", &none, &none, QuoteStyle::DoubleQuote) {
        Err(DbError::Config(m)) => assert_eq!(m, "No changes provided"),
        other => panic!("unexpected {:?}", other),
    }
    let good = vec![("c".to_string(), text("x"))];
    match build_update_sql("t", &good, &none, QuoteStyle::DoubleQuote) {
        Err(DbError::Config(m)) => assert_eq!(m, "No primary keys provided"),
        other => panic!("unexpected {:?}", other),
    }
}
