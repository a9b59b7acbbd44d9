use polydb::coerce::{canonical_cell, decode_plan, first_decoded, format_money, Decoded, Decoder};
use polydb::models::DatabaseDriver;
use polydb::value::{canonical_i64, canonical_u64, to_json_text, Value};

fn is_str(v: &Value, s: &str) -> bool {
    matches!(v, Value::Str(t) if t == s)
}

fn is_num(v: &Value, s: &str) -> bool {
    matches!(v, Value::Number(t) if t == s)
}

#[test]
fn wide_integers_become_strings() {
    assert!(is_num(&canonical_i64(9007199254740991), "9007199254740991"));
    assert!(is_str(&canonical_i64(9007199254740992), "9007199254740992"));
    assert!(is_str(&canonical_i64(9223372036854775807), "9223372036854775807"));
    assert!(is_str(&canonical_i64(i64::MIN), "-9223372036854775808"));
    assert!(is_num(&canonical_i64(-42), "-42"));
    assert!(is_str(&canonical_u64(18446744073709551615), "18446744073709551615"));
    assert!(is_num(&canonical_u64(0), "0"));
}

#[test]
fn decode_plans_by_type_name() {
    assert_eq!(decode_plan(DatabaseDriver::Mysql, "TINYINT"), vec![Decoder::I8, Decoder::Bool, Decoder::I16, Decoder::Text]);
    assert_eq!(decode_plan(DatabaseDriver::Mysql, "tinyint"), vec![Decoder::I8, Decoder::Bool, Decoder::I16, Decoder::Text]);
    assert_eq!(decode_plan(DatabaseDriver::Mysql, "LONGBLOB"), vec![Decoder::Bytes]);
    assert_eq!(decode_plan(DatabaseDriver::Mysql, "GEOMETRY"), vec![Decoder::Text]);
    assert_eq!(decode_plan(DatabaseDriver::Postgres, "NUMERIC"), vec![Decoder::Decimal, Decoder::Text]);
    assert_eq!(decode_plan(DatabaseDriver::Postgres, "_int4"), vec![Decoder::I32Array]);
    assert_eq!(decode_plan(DatabaseDriver::Postgres, "money"), vec![Decoder::Money, Decoder::MoneyCents, Decoder::Text]);
    assert_eq!(decode_plan(DatabaseDriver::Mysql, "DECIMAL"), vec![Decoder::Decimal, Decoder::Text]);
    assert_eq!(decode_plan(DatabaseDriver::Mysql, "double"), vec![Decoder::F64, Decoder::Text]);
    assert_eq!(decode_plan(DatabaseDriver::Clickhouse, "UInt64"), vec![Decoder::Json]);
}

#[test]
fn cells_become_canonical_values() {
    assert!(is_str(&canonical_cell(Decoded::Bytes(16)), "(binary 16 bytes)"));
    assert!(is_str(&canonical_cell(Decoded::Money(10050)), "100.50"));
    assert!(is_str(&canonical_cell(Decoded::Money(-5)), "-0.05"));
    assert!(is_str(&canonical_cell(Decoded::Bits(vec![true, false, true, false, true])), "10101"));
    assert!(is_str(&canonical_cell(Decoded::Interval(1, 2, 3)), "1 months, 2 days, 3 us"));
    assert!(is_str(&canonical_cell(Decoded::Decimal("123.45".to_string())), "123.45"));
    assert!(matches!(canonical_cell(Decoded::Float(None)), Value::Null));
    let arr = canonical_cell(Decoded::IntArray(vec![1, 9007199254740993]));
    assert_eq!(to_json_text(&arr), "[1,\"9007199254740993\"]");
    assert_eq!(format_money(i64::MIN), "-92233720368547758.08");
}

#[test]
fn first_successful_decode_wins() {
    let v = first_decoded(vec![None, Some(Decoded::Bool(true)), Some(Decoded::Int(3))]);
    assert!(matches!(v, Value::Bool(true)));
    assert!(matches!(first_decoded(vec![None, None]), Value::Null));
    assert!(matches!(first_decoded(vec![]), Value::Null));
}

#[test]
fn json_text_escapes() {
    let v = Value::Object(vec![
        ("a\"b".to_string(), Value::Str("line\nnext\u{1}".to_string())),
        ("n".to_string(), Value::Array(vec![])),
    ]);
    assert_eq!(to_json_text(&v), "{\"a\\\"b\":\"line\\nnext\\u0001\",\"n\":[]}");
}

#[test]
fn money_read_as_cents_is_still_money_text() {
    let v = first_decoded(vec![None, Some(Decoded::Money(12345))]);
    assert!(is_str(&v, "123.45"));
}
