//! Core of a SQLite-compatible SQL server node: statement classification,
//! transaction-state prediction, size-bounded result building, and the
//! database abstraction that either executes locally or proxies writes to a
//! primary node.
use vstd::prelude::*;

pub mod database;
pub mod errors;
pub mod http;
pub mod json;
pub mod query;
pub mod query_analysis;
pub mod result_builder;
pub mod statement;

verus! {

/// Which storage backend a server node runs against.
#[derive(Clone, Debug, PartialEq, Eq, Structural)]
pub enum Backend {
    Libsql,
    Mwal,
}

} // verus!
