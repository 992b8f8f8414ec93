//! Behaviour of the connection-string parser on concrete inputs.

use you_my_sql::descriptor::ConnectionConfig;
use you_my_sql::error::DbError;
use you_my_sql::parser::{parse_jdbc_url, resolve_descriptor};

fn base_config() -> ConnectionConfig {
    ConnectionConfig {
        id: String::from("conn1"),
        host: String::from("localhost"),
        port: 3306,
        username: String::from("root"),
        password: String::from("secret"),
        schema: None,
        jdbc_url: None,
        create_time: None,
        touch_time: None,
    }
}

#[test]
fn parses_host_port_and_schema() {
    let mut config = base_config();
    let r = parse_jdbc_url("jdbc:mysql://db.example.com:3307/sales?x=1", &mut config);
    assert!(r.is_ok());
    assert_eq!(config.host, "db.example.com");
    assert_eq!(config.port, 3307);
    assert_eq!(config.schema.as_deref(), Some("sales"));
    assert_eq!(config.id, "conn1");
    assert_eq!(config.username, "root");
    assert_eq!(config.password, "secret");
}

#[test]
fn keeps_port_when_absent() {
    let mut config = base_config();
    let r = parse_jdbc_url("jdbc:mysql://db.example.com/sales", &mut config);
    assert!(r.is_ok());
    assert_eq!(config.host, "db.example.com");
    assert_eq!(config.port, 3306);
    assert_eq!(config.schema.as_deref(), Some("sales"));
}

#[test]
fn keeps_schema_when_absent() {
    let mut config = base_config();
    let r = parse_jdbc_url("jdbc:mysql://h:9000", &mut config);
    assert!(r.is_ok());
    assert_eq!(config.host, "h");
    assert_eq!(config.port, 9000);
    assert_eq!(config.schema, None);
}

#[test]
fn keeps_schema_when_segment_empty() {
    let mut config = base_config();
    config.schema = Some(String::from("old"));
    let r = parse_jdbc_url("jdbc:mysql://h/", &mut config);
    assert!(r.is_ok());
    assert_eq!(config.host, "h");
    assert_eq!(config.schema.as_deref(), Some("old"));
}

#[test]
fn schema_stops_at_question_mark() {
    let mut config = base_config();
    let r = parse_jdbc_url("jdbc:mysql://h/db?a=1&b=2", &mut config);
    assert!(r.is_ok());
    assert_eq!(config.schema.as_deref(), Some("db"));
}

#[test]
fn rejects_unsupported_scheme_and_leaves_descriptor_alone() {
    let mut config = base_config();
    let before = (
        config.host.clone(),
        config.port,
        config.schema.clone(),
    );
    let r = parse_jdbc_url("mysql://db.example.com:3307/sales", &mut config);
    match r {
        Err(DbError::ConnectionError(m)) => {
            assert_eq!(m, "Unsupported JDBC URL format. Only MySQL is supported.");
        }
        other => panic!("expected a connection error, got {:?}", other),
    }
    assert_eq!(config.host, before.0);
    assert_eq!(config.port, before.1);
    assert_eq!(config.schema, before.2);
}

#[test]
fn rejects_port_out_of_range() {
    let mut config = base_config();
    let r = parse_jdbc_url("jdbc:mysql://h:65536/db", &mut config);
    match r {
        Err(DbError::ConnectionError(m)) => assert_eq!(m, "Invalid port in JDBC URL"),
        other => panic!("expected a connection error, got {:?}", other),
    }
    assert_eq!(config.host, "localhost");
    assert_eq!(config.port, 3306);
}

#[test]
fn rejects_non_numeric_port() {
    let mut config = base_config();
    let r = parse_jdbc_url("jdbc:mysql://h:12ab/db", &mut config);
    assert!(matches!(r, Err(DbError::ConnectionError(_))));
}

#[test]
fn rejects_empty_port() {
    let mut config = base_config();
    let r = parse_jdbc_url("jdbc:mysql://h:/db", &mut config);
    assert!(matches!(r, Err(DbError::ConnectionError(_))));
}

#[test]
fn accepts_bare_prefix_with_empty_host() {
    let mut config = base_config();
    let r = parse_jdbc_url("jdbc:mysql://", &mut config);
    assert!(r.is_ok());
    assert_eq!(config.host, "");
    assert_eq!(config.port, 3306);
    assert_eq!(config.schema, None);
}

#[test]
fn accepts_boundary_port() {
    let mut config = base_config();
    let r = parse_jdbc_url("jdbc:mysql://h:65535/db", &mut config);
    assert!(r.is_ok());
    assert_eq!(config.port, 65535);
}

#[test]
fn resolve_clears_connection_string() {
    let mut config = base_config();
    config.jdbc_url = Some(String::from("jdbc:mysql://db.example.com:3307/sales?x=1"));
    let resolved = resolve_descriptor(config).expect("resolution should succeed");
    assert_eq!(resolved.jdbc_url, None);
    assert_eq!(resolved.host, "db.example.com");
    assert_eq!(resolved.port, 3307);
    assert_eq!(resolved.schema.as_deref(), Some("sales"));
}

#[test]
fn resolve_without_connection_string_changes_nothing() {
    let config = base_config();
    let resolved = resolve_descriptor(config).expect("resolution should succeed");
    assert_eq!(resolved.host, "localhost");
    assert_eq!(resolved.port, 3306);
    assert_eq!(resolved.schema, None);
    assert_eq!(resolved.jdbc_url, None);
}

#[test]
fn resolve_propagates_parser_failure() {
    let mut config = base_config();
    config.jdbc_url = Some(String::from("postgres://h/db"));
    let r = resolve_descriptor(config);
    assert!(matches!(r, Err(DbError::ConnectionError(_))));
}
