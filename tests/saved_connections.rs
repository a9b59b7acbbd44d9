use polydb::models::{ConnectionConfig, DatabaseDriver};
use polydb::settings::{merge_saved_secrets, needs_encryption, remove_connection, stored_encrypted, summaries, upsert_connection};

fn conn(id: &str, name: &str, password: Option<&str>) -> ConnectionConfig {
    ConnectionConfig {
        id: id.to_string(),
        driver: DatabaseDriver::Postgres,
        name: name.to_string(),
        host: "localhost".to_string(),
        port: 5432,
        user: "admin".to_string(),
        password: password.map(|p| p.to_string()),
        database: "testdb".to_string(),
        exclude_list: None,
        use_ssh: None,
        ssh_host: None,
        ssh_port: None,
        ssh_user: None,
        ssh_password: None,
        ssh_key_path: None,
    }
}

#[test]
fn upsert_keeps_saved_secret_when_edit_has_none() {
    let list = upsert_connection(Vec::new(), conn("conn1", "Test DB", Some("secret")));
    assert_eq!(list.len(), 1);
    let list = upsert_connection(list, conn("conn1", "Renamed DB", None));
    assert_eq!(list.len(), 1);
    assert_eq!(list[0].name, "Renamed DB");
    assert_eq!(list[0].password, Some("secret".to_string()));
    let list = upsert_connection(list, conn("conn2", "Other", Some("")));
    assert_eq!(list.len(), 2);
    assert_eq!(list[1].password, Some("".to_string()));
}

#[test]
fn remove_and_summarize() {
    let list = vec![conn("a", "A", Some("x")), conn("b", "B", None), conn("a", "A2", None)];
    let left = remove_connection(list, "a");
    assert_eq!(left.len(), 1);
    assert_eq!(left[0].id, "b");
    let s = summaries(left);
    assert_eq!(s.len(), 1);
    assert_eq!(s[0].name, "B");
    assert_eq!(s[0].port, 5432);
}

#[test]
fn encryption_markers() {
    assert!(needs_encryption(&Some("secret".to_string())));
    assert!(!needs_encryption(&Some("ENC:abc".to_string())));
    assert!(!needs_encryption(&Some(String::new())));
    assert!(!needs_encryption(&None));
    assert!(stored_encrypted("ENC:"));
    assert!(!stored_encrypted("ENC"));
    assert!(!stored_encrypted("enc:abc"));
}

#[test]
fn testing_a_connection_reuses_saved_secrets() {
    let saved = conn("c", "Saved", Some("secret"));
    let mut edit = conn("c", "Edit", Some(""));
    edit.ssh_password = Some("tunnel".to_string());
    let merged = merge_saved_secrets(edit, &saved);
    assert_eq!(merged.password, Some("secret".to_string()));
    assert_eq!(merged.ssh_password, Some("tunnel".to_string()));
    assert_eq!(merged.name, "Edit");
}
