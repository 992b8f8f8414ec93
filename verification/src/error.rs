//! The error kinds of the connection-management core.

use vstd::prelude::*;

verus! {

/// What can go wrong while opening, querying, or closing a connection.
#[derive(Debug, Clone, PartialEq)]
pub enum DbError {
    /// The host is unreachable, the credentials are bad, the connection
    /// string is malformed, the schema cannot be selected, or the pool is
    /// exhausted.
    ConnectionError(String),
    /// The engine rejected a statement or failed while the result set was
    /// being read.
    QueryError(String),
    /// The pool itself failed.
    PoolError(String),
    /// No connection is registered under the given identifier.
    NoConnection(String),
}

impl DbError {
    /// The characters of the human-readable message for this error.
    pub open spec fn spec_message(&self) -> Seq<char> {
        match self {
            DbError::ConnectionError(m) => "Connection error: "@ + m@,
            DbError::QueryError(m) => "Query error: "@ + m@,
            DbError::PoolError(m) => "Pool error: "@ + m@,
            DbError::NoConnection(m) => "No connection found with id: "@ + m@,
        }
    }

    /// A human-readable message naming the error kind and its detail.
    pub fn message(&self) -> (r: String)
        ensures
            r@ == self.spec_message(),
    {
        match self {
            DbError::ConnectionError(m) => {
                let mut s = String::from_str("Connection error: ");
                s.append(m.as_str());
                s
            },
            DbError::QueryError(m) => {
                let mut s = String::from_str("Query error: ");
                s.append(m.as_str());
                s
            },
            DbError::PoolError(m) => {
                let mut s = String::from_str("Pool error: ");
                s.append(m.as_str());
                s
            },
            DbError::NoConnection(m) => {
                let mut s = String::from_str("No connection found with id: ");
                s.append(m.as_str());
                s
            },
        }
    }
}

} // verus!
