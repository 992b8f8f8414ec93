//! The connection descriptor: how to reach and authenticate to one database
//! instance, together with its lifecycle timestamps.

use vstd::prelude::*;

verus! {

/// The record describing one database connection.
#[derive(Debug, Clone)]
pub struct ConnectionConfig {
    /// Caller-assigned opaque identifier, unique per open connection; the
    /// registry lookup key.
    pub id: String,
    pub host: String,
    pub port: u16,
    pub username: String,
    pub password: String,
    /// Optional default database selected on connect.
    pub schema: Option<String>,
    /// Optional connection string. When present, the fields parsed out of it
    /// take precedence over `host`, `port` and `schema`; it is transient
    /// configuration and is cleared on successful registration.
    pub jdbc_url: Option<String>,
    /// Millisecond epoch timestamp of the first successful registration.
    pub create_time: Option<i64>,
    /// Millisecond epoch timestamp of the latest connect or reconnect.
    pub touch_time: Option<i64>,
}

/// Record the moment of a connect attempt: `touch_time` is set to `now_ms`,
/// and `create_time` is set too unless an earlier one is already recorded.
/// Nothing else changes.
pub fn stamp_descriptor(config: &mut ConnectionConfig, now_ms: i64)
    ensures
        final(config).touch_time == Some(now_ms),
        final(config).create_time == if old(config).create_time is Some {
            old(config).create_time
        } else {
            Some(now_ms)
        },
        final(config).id == old(config).id,
        final(config).host == old(config).host,
        final(config).port == old(config).port,
        final(config).username == old(config).username,
        final(config).password == old(config).password,
        final(config).schema == old(config).schema,
        final(config).jdbc_url == old(config).jdbc_url,
{
    config.touch_time = Some(now_ms);
    if config.create_time.is_none() {
        config.create_time = Some(now_ms);
    }
}

} // verus!
