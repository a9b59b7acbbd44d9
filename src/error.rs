//! The error kinds of the database layer.

use vstd::prelude::*;
use vstd::string::*;
use crate::text::push_str;

verus! {

/// Everything that can go wrong in a lifecycle or metadata operation.
/// Query-level failures of execution are reported inside a result
/// envelope instead (see `QueryResult`).
#[derive(Debug)]
pub enum DbError {
    NotConnected,
    ConnectionNotFound(String),
    Sql(String),
    Ssh(String),
    InvalidIdentifier(String),
    Io(String),
    Json(String),
    Config(String),
    Query(String),
    Unsupported(String),
}

impl DbError {
    /// The text shown to a user for this error.
    pub open spec fn spec_message(&self) -> Seq<char> {
        match self {
            DbError::NotConnected => "Not connected"@,
            DbError::ConnectionNotFound(id) => "Connection "@ + id@ + " not found"@,
            DbError::Sql(m) => "SQL error: "@ + m@,
            DbError::Ssh(m) => "SSH error: "@ + m@,
            DbError::InvalidIdentifier(m) => "Invalid identifier: "@ + m@,
            DbError::Io(m) => "IO error: "@ + m@,
            DbError::Json(m) => "JSON error: "@ + m@,
            DbError::Config(m) => "Configuration error: "@ + m@,
            DbError::Query(m) => "Query error: "@ + m@,
            DbError::Unsupported(m) => "Unsupported operation: "@ + m@,
        }
    }

    /// Renders the error as text.
    pub fn message(&self) -> (r: String)
        ensures
            r@ == self.spec_message(),
    {
        let mut out = String::new();
        match self {
            DbError::NotConnected => push_str(&mut out, "Not connected"),
            DbError::ConnectionNotFound(id) => {
                push_str(&mut out, "Connection ");
                push_str(&mut out, id.as_str());
                push_str(&mut out, " not found");
            },
            DbError::Sql(m) => {
                push_str(&mut out, "SQL error: ");
                push_str(&mut out, m.as_str());
            },
            DbError::Ssh(m) => {
                push_str(&mut out, "SSH error: ");
                push_str(&mut out, m.as_str());
            },
            DbError::InvalidIdentifier(m) => {
                push_str(&mut out, "Invalid identifier: ");
                push_str(&mut out, m.as_str());
            },
            DbError::Io(m) => {
                push_str(&mut out, "IO error: ");
                push_str(&mut out, m.as_str());
            },
            DbError::Json(m) => {
                push_str(&mut out, "JSON error: ");
                push_str(&mut out, m.as_str());
            },
            DbError::Config(m) => {
                push_str(&mut out, "Configuration error: ");
                push_str(&mut out, m.as_str());
            },
            DbError::Query(m) => {
                push_str(&mut out, "Query error: ");
                push_str(&mut out, m.as_str());
            },
            DbError::Unsupported(m) => {
                push_str(&mut out, "Unsupported operation: ");
                push_str(&mut out, m.as_str());
            },
        }
        assert(out@ =~= self.spec_message());
        out
    }
}

} // verus!
