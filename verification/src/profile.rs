//! A saved connection profile, as the application's configuration file
//! persists it. Unlike the live descriptor it carries a display name.

use vstd::prelude::*;

verus! {

/// One saved connection in the application configuration.
#[derive(Debug, Clone)]
pub struct ConnectionConfig {
    /// Caller-assigned opaque identifier.
    pub id: String,
    /// Display name shown in the connection list.
    pub name: String,
    pub host: String,
    pub port: u16,
    pub username: String,
    pub password: String,
    /// Optional connection string, kept as the user entered it.
    pub jdbc_url: Option<String>,
    /// Optional default database selected on connect.
    pub schema: Option<String>,
    /// Millisecond epoch timestamp of the first successful registration.
    pub create_time: Option<i64>,
    /// Millisecond epoch timestamp of the latest connect or reconnect.
    pub touch_time: Option<i64>,
}

} // verus!
