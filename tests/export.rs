use polydb::export::{export_csv, export_format, export_json, export_sql, ExportFormat};
use polydb::models::QueryResult;
use polydb::value::Value;

fn create_sample_result() -> QueryResult {
    let row1 = vec![
        ("id".to_string(), Value::Number("1".to_string())),
        ("name".to_string(), Value::Str("Alice".to_string())),
    ];
    let row2 = vec![
        ("id".to_string(), Value::Number("2".to_string())),
        ("name".to_string(), Value::Str("Bob, O'Neil".to_string())),
    ];
    QueryResult {
        rows: vec![row1, row2],
        columns: vec!["id".to_string(), "name".to_string()],
        error: None,
        duration_micros: 100,
    }
}

#[test]
fn test_export_csv() {
    let result = create_sample_result();
    let content = export_csv(&result);

    assert!(content.contains("id,name"));
    assert!(content.contains("1,Alice"));
    assert!(content.contains("2,\"Bob, O'Neil\""));
}

#[test]
fn export_csv_exact_and_quotes() {
    let mut result = create_sample_result();
    result.rows[0].push(("extra".to_string(), Value::Null));
    result.rows[1][1].1 = Value::Str("say \"hi\"".to_string());
    let content = export_csv(&result);
    assert_eq!(content, "id,name\n1,Alice\n2,\"say \"\"hi\"\"\"\n");
}

#[test]
fn test_export_json() {
    let result = create_sample_result();
    let content = export_json(&result);

    let json: serde_json::Value = serde_json::from_str(&content).unwrap();
    assert!(json.is_array());
    assert_eq!(json.as_array().unwrap().len(), 2);
}

#[test]
fn export_json_exact_layout() {
    let result = create_sample_result();
    let content = export_json(&result);
    assert_eq!(
        content,
        "[\n  {\n    \"id\": 1,\n    \"name\": \"Alice\"\n  },\n  {\n    \"id\": 2,\n    \"name\": \"Bob, O'Neil\"\n  }\n]"
    );
    let empty = QueryResult::empty();
    assert_eq!(export_json(&empty), "[]");
}

#[test]
fn test_export_sql() {
    let result = create_sample_result();
    let content = export_sql(&result);

    assert!(content.contains("INSERT INTO export_table"));
    assert!(content.contains("'Alice'"));
    assert!(content.contains("'Bob, O''Neil'"));
}

#[test]
fn export_sql_exact_text() {
    let mut result = create_sample_result();
    result.rows.truncate(1);
    result.rows[0][0].1 = Value::Bool(true);
    result.columns.push("missing".to_string());
    assert_eq!(
        export_sql(&result),
        "INSERT INTO export_table (\"id\", \"name\", \"missing\") VALUES (TRUE, 'Alice', NULL);\n"
    );
}

#[test]
fn export_format_choice() {
    let result = create_sample_result();
    assert_eq!(export_format(&result, "csv"), Ok(ExportFormat::Csv));
    assert_eq!(export_format(&result, "json"), Ok(ExportFormat::Json));
    assert_eq!(export_format(&result, "sql"), Ok(ExportFormat::Sql));
    assert_eq!(export_format(&result, "xml"), Err("Unsupported format".to_string()));
    let failed = QueryResult::with_error("boom".to_string(), 5);
    assert_eq!(export_format(&failed, "csv"), Err("boom".to_string()));
}

#[test]
fn export_csv_special_cells() {
    let result = QueryResult {
        rows: vec![
            vec![("a".to_string(), Value::Null)],
            vec![("a".to_string(), Value::Str("line\nbreak".to_string()))],
            vec![("a".to_string(), Value::Str("x\ry".to_string()))],
        ],
        columns: vec!["a".to_string()],
        error: None,
        duration_micros: 0,
    };
    assert_eq!(export_csv(&result), "a\n\"\"\n\"line\nbreak\"\n\"x\ry\"\n");
    let no_columns = QueryResult { rows: vec![vec![]], columns: vec![], error: None, duration_micros: 0 };
    assert_eq!(export_csv(&no_columns), "\"\"\n\"\"\n");
}
