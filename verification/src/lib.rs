//! Connection-management core of a desktop database browser: a registry of
//! pooled connections keyed by caller-chosen identifiers, a parser for the
//! supported JDBC-style connection string, and a codec that turns the
//! engine's native values into a uniform generic representation.

use vstd::prelude::*;

pub mod descriptor;
pub mod error;
pub mod manager;
pub mod parser;
pub mod profile;
pub mod query;
pub mod response;
pub mod text;
pub mod value;

verus! {

/// The scheme prefix of the one supported connection-string dialect.
pub open spec fn jdbc_prefix() -> Seq<char> {
    seq!['j', 'd', 'b', 'c', ':', 'm', 'y', 's', 'q', 'l', ':', '/', '/']
}

} // verus!
