use polydb::drivers::{finish_updates, plan_updates, DefaultDatabaseServiceFactory};
use polydb::error::DbError;
use polydb::models::{ConnectionConfig, DatabaseDriver, RowUpdate};
use polydb::registry::{SessionRegistry, Teardown};
use polydb::sql_builder::QuoteStyle;
use polydb::tunnel::{through_tunnel, wants_tunnel};
use polydb::value::Value;

fn config(driver: DatabaseDriver, port: u16) -> ConnectionConfig {
    ConnectionConfig {
        id: "conn1".to_string(),
        name: "Test Connection".to_string(),
        driver,
        host: "localhost".to_string(),
        port,
        user: "user".to_string(),
        password: Some("pass".to_string()),
        database: "db".to_string(),
        exclude_list: None,
        use_ssh: Some(false),
        ssh_host: None,
        ssh_port: None,
        ssh_user: None,
        ssh_password: None,
        ssh_key_path: None,
    }
}

#[test]
fn test_connect_success() {
    let mut registry = SessionRegistry::new();
    let cfg = config(DatabaseDriver::Postgres, 5432);
    assert!(!wants_tunnel(&cfg));
    let pending = registry.begin_connect("conn1");
    assert_eq!(pending.displaced, Teardown { session: None, tunnel: None });
    let displaced = registry.complete_connect(pending, 1, None);
    assert_eq!(displaced, Teardown { session: None, tunnel: None });
    assert_eq!(registry.lookup("conn1").unwrap(), 1);
}

#[test]
fn test_disconnect() {
    let mut registry = SessionRegistry::new();
    let pending = registry.begin_connect("conn1");
    registry.complete_connect(pending, 1, Some(9));
    let t = registry.disconnect("conn1");
    assert_eq!(t, Teardown { session: Some(1), tunnel: Some(9) });
    let again = registry.disconnect("conn1");
    assert_eq!(again, Teardown { session: None, tunnel: None });
}

#[test]
fn test_execute_query() {
    let mut registry = SessionRegistry::new();
    let pending = registry.begin_connect("conn1");
    registry.complete_connect(pending, 3, None);
    assert_eq!(registry.lookup("conn1").unwrap(), 3);
    match registry.lookup("other") {
        Err(DbError::ConnectionNotFound(id)) => assert_eq!(id, "other"),
        other => panic!("unexpected {:?}", other),
    }
}

#[test]
fn reconnect_tears_down_old_session_before_new_is_visible() {
    let mut registry = SessionRegistry::new();
    let p = registry.begin_connect("a");
    registry.complete_connect(p, 1, None);
    let p = registry.begin_connect("b");
    registry.complete_connect(p, 2, None);

    let p = registry.begin_connect("a");
    assert_eq!(p.displaced.session, Some(1));
    assert!(registry.lookup("a").is_err());
    assert_eq!(registry.lookup("b").unwrap(), 2);
    registry.complete_connect(p, 5, None);
    assert_eq!(registry.lookup("a").unwrap(), 5);
}

#[test]
fn lookups_after_disconnect_fail_with_not_found() {
    let mut registry = SessionRegistry::new();
    let p = registry.begin_connect("x");
    registry.complete_connect(p, 1, None);
    registry.disconnect("x");
    for _ in 0..3 {
        assert!(matches!(registry.lookup("x"), Err(DbError::ConnectionNotFound(_))));
    }
    registry.disconnect("y");
    assert!(registry.lookup("x").is_err());
}

#[test]
fn tunneled_config_points_at_local_end() {
    let mut cfg = config(DatabaseDriver::Mysql, 3306);
    cfg.use_ssh = Some(true);
    cfg.ssh_host = Some("bastion".to_string());
    assert!(wants_tunnel(&cfg));
    let t = through_tunnel(cfg, 40000);
    assert_eq!(t.host, "127.0.0.1");
    assert_eq!(t.port, 40000);
    assert_eq!(t.database, "db");
}

#[test]
fn factory_profiles() {
    let f = DefaultDatabaseServiceFactory;
    assert_eq!(f.create(&DatabaseDriver::Mysql).quote_style, QuoteStyle::Backtick);
    assert_eq!(f.create(&DatabaseDriver::Postgres).quote_style, QuoteStyle::DoubleQuote);
    assert!(!f.create(&DatabaseDriver::Clickhouse).supports_updates);
}

fn update(table: &str, changes: Vec<(String, Value)>) -> RowUpdate {
    RowUpdate {
        table_name: table.to_string(),
        primary_keys: vec![("id".to_string(), Value::Number("1".to_string()))],
        changes,
    }
}

#[test]
fn empty_change_set_is_skipped() {
    let with_empty = vec![
        update("users", vec![("name".to_string(), Value::Str("A".to_string()))]),
        update("users", vec![]),
        update("users", vec![("age".to_string(), Value::Number("3".to_string()))]),
    ];
    let without = vec![
        update("users", vec![("name".to_string(), Value::Str("A".to_string()))]),
        update("users", vec![("age".to_string(), Value::Number("3".to_string()))]),
    ];
    let a = plan_updates(DatabaseDriver::Postgres, &with_empty).unwrap();
    let b = plan_updates(DatabaseDriver::Postgres, &without).unwrap();
    assert_eq!(a, b);
    assert_eq!(a, vec![
        "UPDATE \"users\" SET \"name\" = 'A' WHERE \"id\" = 1".to_string(),
        "UPDATE \"users\" SET \"age\" = 3 WHERE \"id\" = 1".to_string(),
    ]);
    let r = finish_updates(&vec![1, 1]);
    assert!(r.success);
    assert_eq!(r.affected_rows, 2);
}

#[test]
fn update_batches_by_engine() {
    let batch = vec![update("t", vec![("c".to_string(), Value::Bool(true))])];
    assert_eq!(plan_updates(DatabaseDriver::Mysql, &batch).unwrap(), vec!["UPDATE `t` SET `c` = true WHERE `id` = 1".to_string()]);
    assert!(matches!(plan_updates(DatabaseDriver::Clickhouse, &batch), Err(DbError::Unsupported(_))));
    let bad = vec![update("bad name", vec![("c".to_string(), Value::Null)])];
    assert!(matches!(plan_updates(DatabaseDriver::Mysql, &bad), Err(DbError::InvalidIdentifier(_))));
    assert_eq!(finish_updates(&vec![u64::MAX, 5]).affected_rows, u64::MAX);
    assert_eq!(finish_updates(&vec![]).affected_rows, 0);
}

#[test]
fn switching_database_keeps_the_rest_of_the_config() {
    let cfg = config(DatabaseDriver::Mysql, 3306);
    let switched = polydb::drivers::with_database(cfg, "other".to_string());
    assert_eq!(switched.database, "other");
    assert_eq!(switched.host, "localhost");
    assert_eq!(switched.port, 3306);
    assert_eq!(switched.password, Some("pass".to_string()));
}
