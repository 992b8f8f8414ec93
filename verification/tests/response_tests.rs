//! Behaviour of the command envelope, the error messages, the descriptor
//! timestamps, and the saved-profile record.

use you_my_sql::descriptor::{stamp_descriptor, ConnectionConfig};
use you_my_sql::error::DbError;
use you_my_sql::profile;
use you_my_sql::response::CommandResponse;

#[test]
fn success_envelope_yields_payload() {
    let r: CommandResponse<u32> = CommandResponse::success(7);
    assert_eq!(r.into_result(), Ok(7));
}

#[test]
fn error_envelope_yields_message() {
    let r: CommandResponse<u32> = CommandResponse::error(String::from("boom"));
    assert_eq!(r.into_result(), Err(String::from("boom")));
}

#[test]
fn error_messages_name_their_kind() {
    assert_eq!(
        DbError::ConnectionError(String::from("down")).message(),
        "Connection error: down"
    );
    assert_eq!(
        DbError::QueryError(String::from("syntax")).message(),
        "Query error: syntax"
    );
    assert_eq!(
        DbError::PoolError(String::from("dry")).message(),
        "Pool error: dry"
    );
    assert_eq!(
        DbError::NoConnection(String::from("conn1")).message(),
        "No connection found with id: conn1"
    );
}

#[test]
fn stamping_sets_touch_time_and_first_create_time() {
    let mut config = ConnectionConfig {
        id: String::from("conn1"),
        host: String::from("h"),
        port: 3306,
        username: String::from("u"),
        password: String::from("p"),
        schema: None,
        jdbc_url: None,
        create_time: None,
        touch_time: None,
    };
    stamp_descriptor(&mut config, 1000);
    assert_eq!(config.create_time, Some(1000));
    assert_eq!(config.touch_time, Some(1000));
    stamp_descriptor(&mut config, 2000);
    assert_eq!(config.create_time, Some(1000));
    assert_eq!(config.touch_time, Some(2000));
}

#[test]
fn saved_profile_round_trips_fields() {
    let saved = profile::ConnectionConfig {
        id: String::from("conn1"),
        name: String::from("Sales DB"),
        host: String::from("db.example.com"),
        port: 3307,
        username: String::from("root"),
        password: String::from("secret"),
        jdbc_url: Some(String::from("jdbc:mysql://db.example.com:3307/sales")),
        schema: Some(String::from("sales")),
        create_time: Some(1),
        touch_time: Some(2),
    };
    let copy = saved.clone();
    assert_eq!(copy.id, "conn1");
    assert_eq!(copy.name, "Sales DB");
    assert_eq!(copy.port, 3307);
    assert_eq!(copy.schema.as_deref(), Some("sales"));
}
