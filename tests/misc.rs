use polydb::catalog::{apply_exclude_list, group_schema, needs_switch, split_table_ref};
use polydb::metrics::{first_count_or_zero, first_text_or, format_uptime, text_column};
use polydb::models::{DataRequest, SortItem, UpdateResult};
use polydb::parse::{count_or, parse_decimal, parse_optional_port, parse_port};
use polydb::settings::{AppSettings, AppStateData};
use polydb::sql_builder::QuoteStyle;
use polydb::statements::{build_table_page_sql, columns_sql, http_endpoint, http_params, kill_query_sql, show_tables_sql, tag_pattern, tag_sql};
use polydb::tunnel::{after_read, after_write, plan_tunnel, AuthMethod, ReadOutcome, RelayStep, SshTunnelService, TunnelPhase, WriteOutcome, WriteStep};
use polydb::models::{ConnectionConfig, DatabaseDriver};
use polydb::value::Value;

#[test]
fn uptime_formatting() {
    assert_eq!(format_uptime(0), "00:00:00");
    assert_eq!(format_uptime(3661), "01:01:01");
    assert_eq!(format_uptime(90061), "1d 01:01:01");
    assert_eq!(format_uptime(-5), "00:00:-5");
}

#[test]
fn update_result_success() {
    let r = UpdateResult::success(7);
    assert!(r.success);
    assert_eq!(r.affected_rows, 7);
    assert!(r.error.is_none());
}

#[test]
fn settings_defaults() {
    let s = AppSettings::default();
    assert_eq!(s.theme, "atom-one-dark");
    assert_eq!(s.locale, "en");
    assert_eq!(s.font_size, 14);
    let st = AppStateData::default();
    assert_eq!(st.tabs.next_tab_id, 1);
    assert_eq!(st.ui.sidebar_width, 250);
    assert_eq!(st.ui.editor_height, 300);
}

#[test]
fn ports_and_counts() {
    assert_eq!(parse_port("5432"), Some(5432));
    assert_eq!(parse_port("+22"), Some(22));
    assert_eq!(parse_port("65536"), None);
    assert_eq!(parse_port("-1"), None);
    assert_eq!(parse_port(""), None);
    assert_eq!(parse_port("12a"), None);
    assert_eq!(parse_optional_port(""), Ok(None));
    assert_eq!(parse_optional_port("2222"), Ok(Some(2222)));
    assert_eq!(parse_optional_port("x"), Err(()));
    assert_eq!(count_or("151", 100), 151);
    assert_eq!(count_or("-3", 100), -3);
    assert_eq!(count_or("oops", 100), 100);
    assert_eq!(count_or("99999999999", 100), 100);
}

#[test]
fn schema_grouping_keeps_order() {
    let rows = vec![
        ("users".to_string(), "id".to_string()),
        ("orders".to_string(), "id".to_string()),
        ("users".to_string(), "name".to_string()),
    ];
    let schema = group_schema(&rows);
    assert_eq!(schema, vec![
        ("users".to_string(), vec!["id".to_string(), "name".to_string()]),
        ("orders".to_string(), vec!["id".to_string()]),
    ]);
}

#[test]
fn exclude_list_filters_case_insensitively() {
    let dbs = vec!["Postgres".to_string(), "app".to_string(), "template1".to_string()];
    let kept = apply_exclude_list(dbs.clone(), Some(" postgres , TEMPLATE1".to_string()));
    assert_eq!(kept, vec!["app".to_string()]);
    assert_eq!(apply_exclude_list(dbs.clone(), Some("   ".to_string())), dbs);
    assert_eq!(apply_exclude_list(dbs.clone(), None), dbs);
}

#[test]
fn catalog_decisions() {
    assert!(needs_switch(&Some("other".to_string()), "db"));
    assert!(!needs_switch(&Some("db".to_string()), "db"));
    assert!(!needs_switch(&None, "db"));
    assert_eq!(split_table_ref("sales.orders"), ("sales".to_string(), "orders".to_string()));
    assert_eq!(split_table_ref("orders"), ("public".to_string(), "orders".to_string()));
}

#[test]
fn statement_texts() {
    assert_eq!(tag_sql("SELECT 1", &Some("q7".to_string())), "/* query_id: q7 */ SELECT 1");
    assert_eq!(tag_sql("SELECT 1", &None), "SELECT 1");
    assert_eq!(tag_pattern("q7"), "%/* query_id: q7 */%");
    assert_eq!(kill_query_sql(42), "KILL QUERY 42");
    assert_eq!(http_endpoint("localhost", 0), "http://127.0.0.1:8123/");
    assert_eq!(http_endpoint("ch.example", 18123), "http://ch.example:18123/");
    assert_eq!(http_params("").len(), 3);
    assert_eq!(http_params("db")[0], ("database".to_string(), "db".to_string()));
    assert_eq!(show_tables_sql(&Some("d\"b".to_string())), "SHOW TABLES FROM \"d\"\"b\"");
    assert_eq!(columns_sql("it's"), "SELECT table, name FROM system.columns WHERE database = 'it''s' ORDER BY table, position");
}

#[test]
fn ordered_table_pages() {
    let mut req = DataRequest { table_name: "users".to_string(), offset: 20, limit: 10, sort: None };
    assert_eq!(build_table_page_sql(&req, QuoteStyle::Backtick).unwrap(), "SELECT * FROM `users` LIMIT 10 OFFSET 20");
    req.sort = Some(vec![
        SortItem { col_id: "name".to_string(), sort: "asc".to_string() },
        SortItem { col_id: "id".to_string(), sort: "DESC".to_string() },
    ]);
    assert_eq!(
        build_table_page_sql(&req, QuoteStyle::DoubleQuote).unwrap(),
        "SELECT * FROM \"users\" ORDER BY \"name\" ASC, \"id\" DESC LIMIT 10 OFFSET 20"
    );
    req.sort = Some(vec![SortItem { col_id: "name".to_string(), sort: "sideways".to_string() }]);
    assert!(build_table_page_sql(&req, QuoteStyle::DoubleQuote).is_err());
}

#[test]
fn probe_rows() {
    let rows = vec![vec![
        ("v".to_string(), Value::Str("23.8".to_string())),
        ("c".to_string(), Value::Str("12".to_string())),
        ("u".to_string(), Value::Number("3600".to_string())),
    ]];
    assert_eq!(first_text_or(&rows, "v", "unknown"), "23.8");
    assert_eq!(first_text_or(&rows, "x", "unknown"), "unknown");
    assert_eq!(first_count_or_zero(&rows, "c"), 12);
    assert_eq!(first_count_or_zero(&rows, "u"), 3600);
    assert_eq!(first_count_or_zero(&rows, "v"), 0);
    assert_eq!(text_column(&rows, "v"), vec!["23.8".to_string()]);
}

fn ssh_config() -> ConnectionConfig {
    ConnectionConfig {
        id: "c".to_string(),
        driver: DatabaseDriver::Postgres,
        name: "n".to_string(),
        host: "db.internal".to_string(),
        port: 5432,
        user: "u".to_string(),
        password: None,
        database: "d".to_string(),
        exclude_list: None,
        use_ssh: Some(true),
        ssh_host: Some("bastion".to_string()),
        ssh_port: None,
        ssh_user: Some("ops".to_string()),
        ssh_password: Some("".to_string()),
        ssh_key_path: Some("/k".to_string()),
    }
}

#[test]
fn tunnel_plan_and_lifecycle() {
    let plan = plan_tunnel(&ssh_config(), "db.internal", 5432).unwrap();
    assert_eq!(plan.ssh_port, 22);
    assert_eq!(plan.auth.len(), 2);
    assert!(matches!(&plan.auth[0], AuthMethod::KeyFile(k) if k == "/k"));
    assert!(matches!(plan.auth[1], AuthMethod::Agent));
    let mut missing = ssh_config();
    missing.ssh_user = None;
    assert!(plan_tunnel(&missing, "h", 1).is_err());

    let mut t = SshTunnelService::new();
    assert!(!t.accepts());
    assert_eq!(t.listening(40000).unwrap(), 40000);
    assert!(t.accepts());
    assert!(t.close());
    assert!(!t.close());
    assert_eq!(t.phase(), TunnelPhase::Stopped);
}

#[test]
fn relay_steps() {
    assert_eq!(after_read(ReadOutcome::Bytes(0)), RelayStep::Finish);
    assert_eq!(after_read(ReadOutcome::Bytes(10)), RelayStep::Forward(10));
    assert_eq!(after_read(ReadOutcome::WouldBlock), RelayStep::Nothing);
    assert_eq!(after_write(2, 10, WriteOutcome::Wrote(3)), WriteStep::Advance(5));
    assert_eq!(after_write(2, 10, WriteOutcome::Wrote(30)), WriteStep::Advance(10));
    assert_eq!(after_write(2, 10, WriteOutcome::WouldBlock), WriteStep::Wait);
    assert_eq!(after_write(2, 10, WriteOutcome::Failed), WriteStep::Finish);
}

#[test]
fn parse_decimal_in_any_range() {
    assert_eq!(parse_decimal("5", false, 10, 20), None);
    assert_eq!(parse_decimal("15", false, 10, 20), Some(15));
    assert_eq!(parse_decimal("-3", true, -5, -1), Some(-3));
    assert_eq!(parse_decimal("-0", true, -5, -1), None);
    assert_eq!(parse_decimal("9223372036854775808", false, 0, i64::MAX), None);
    assert_eq!(parse_decimal("-9223372036854775808", true, i64::MIN, 0), Some(i64::MIN));
}

#[test]
fn exclude_list_trims_unicode_white_space() {
    let dbs = vec!["app".to_string(), "main".to_string()];
    assert_eq!(apply_exclude_list(dbs, Some("\u{3000}APP\u{a0},\t".to_string())), vec!["main".to_string()]);
}

#[test]
fn unique_column_names() {
    use_unique();
}

fn use_unique() {
    let ok = vec![("a".to_string(), Value::Null), ("b".to_string(), Value::Null)];
    let dup = vec![("a".to_string(), Value::Null), ("b".to_string(), Value::Null), ("a".to_string(), Value::Bool(true))];
    assert!(polydb::models::has_unique_names(&ok));
    assert!(!polydb::models::has_unique_names(&dup));
    assert!(polydb::models::has_unique_names(&Vec::new()));
}
