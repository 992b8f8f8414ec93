//! Behaviour of the connection registry: registration, lookup, closing, and
//! the best-effort close-all sweep.

use you_my_sql::descriptor::ConnectionConfig;
use you_my_sql::error::DbError;
use you_my_sql::manager::{close_all_report, ConnectionManager};

fn config_with_id(id: &str) -> ConnectionConfig {
    ConnectionConfig {
        id: String::from(id),
        host: String::from("db.example.com"),
        port: 3306,
        username: String::from("root"),
        password: String::from("secret"),
        schema: None,
        jdbc_url: None,
        create_time: None,
        touch_time: None,
    }
}

#[test]
fn create_then_close_then_close_again() {
    let mut manager: ConnectionManager<i32> = ConnectionManager::new();
    let created = manager.create_connection(config_with_id("conn1"), 1);
    assert!(created.is_ok());
    assert!(manager.close_connection("conn1").is_ok());
    match manager.close_connection("conn1") {
        Err(DbError::NoConnection(id)) => assert_eq!(id, "conn1"),
        other => panic!("expected NoConnection, got {:?}", other),
    }
}

#[test]
fn create_resolves_connection_string() {
    let mut manager: ConnectionManager<i32> = ConnectionManager::new();
    let mut config = config_with_id("conn1");
    config.host = String::from("ignored");
    config.port = 1;
    config.jdbc_url = Some(String::from("jdbc:mysql://db.example.com:3307/sales?x=1"));
    let resolved = manager
        .create_connection(config, 1)
        .expect("creation should succeed");
    assert_eq!(resolved.host, "db.example.com");
    assert_eq!(resolved.port, 3307);
    assert_eq!(resolved.schema.as_deref(), Some("sales"));
    assert_eq!(resolved.jdbc_url, None);
    assert!(manager.get_connection("conn1").is_ok());
}

#[test]
fn create_rejects_bad_connection_string_and_registers_nothing() {
    let mut manager: ConnectionManager<i32> = ConnectionManager::new();
    let mut config = config_with_id("conn1");
    config.jdbc_url = Some(String::from("oracle://h/db"));
    assert!(matches!(
        manager.create_connection(config, 1),
        Err(DbError::ConnectionError(_))
    ));
    assert!(matches!(
        manager.get_connection("conn1"),
        Err(DbError::NoConnection(_))
    ));
}

#[test]
fn lookup_finds_registered_pool() {
    let mut manager: ConnectionManager<i32> = ConnectionManager::new();
    manager
        .create_connection(config_with_id("a"), 10)
        .expect("creation should succeed");
    manager
        .create_connection(config_with_id("b"), 20)
        .expect("creation should succeed");
    assert_eq!(manager.get_connection("a"), Ok(&10));
    assert_eq!(manager.get_connection("b"), Ok(&20));
}

#[test]
fn lookup_unknown_id_names_it() {
    let manager: ConnectionManager<i32> = ConnectionManager::new();
    match manager.get_connection("ghost") {
        Err(DbError::NoConnection(id)) => assert_eq!(id, "ghost"),
        other => panic!("expected NoConnection, got {:?}", other),
    }
}

#[test]
fn duplicate_id_replaces_prior_pool() {
    let mut manager: ConnectionManager<i32> = ConnectionManager::new();
    manager
        .create_connection(config_with_id("conn1"), 1)
        .expect("creation should succeed");
    manager
        .create_connection(config_with_id("conn1"), 2)
        .expect("creation should succeed");
    assert_eq!(manager.get_connection("conn1"), Ok(&2));
    assert!(manager.close_connection("conn1").is_ok());
    assert!(matches!(
        manager.get_connection("conn1"),
        Err(DbError::NoConnection(_))
    ));
}

#[test]
fn close_all_empties_registry_and_reports_failures() {
    let mut manager: ConnectionManager<i32> = ConnectionManager::new();
    manager
        .create_connection(config_with_id("good"), 1)
        .expect("creation should succeed");
    manager
        .create_connection(config_with_id("broken"), -1)
        .expect("creation should succeed");

    let taken = manager.close_all_connections();
    assert_eq!(taken.len(), 2);

    // Tear each pool down; the negative handle stands for a pool that is
    // already invalid and fails to close.
    let mut failed: usize = 0;
    for (_, pool) in &taken {
        if *pool < 0 {
            failed += 1;
        }
    }
    match close_all_report(failed) {
        Err(DbError::ConnectionError(m)) => {
            assert_eq!(m, "Failed to close 1 connections");
        }
        other => panic!("expected ConnectionError, got {:?}", other),
    }

    // The valid connection is confirmed removed from the registry.
    assert!(matches!(
        manager.get_connection("good"),
        Err(DbError::NoConnection(_))
    ));
    assert!(matches!(
        manager.get_connection("broken"),
        Err(DbError::NoConnection(_))
    ));
}

#[test]
fn close_all_report_succeeds_without_failures() {
    assert!(close_all_report(0).is_ok());
}

#[test]
fn close_all_report_counts_failures() {
    match close_all_report(3) {
        Err(DbError::ConnectionError(m)) => {
            assert_eq!(m, "Failed to close 3 connections");
        }
        other => panic!("expected ConnectionError, got {:?}", other),
    }
}
