//! The error taxonomy of the statement-execution core.
//!
//! Every error carries a stable machine-readable code and maps to one HTTP
//! status class: client faults are 400-class, availability errors (safe to
//! retry) are 503-class, and storage-engine faults are 500-class.
use vstd::prelude::*;

verus! {

/// A statement-level or availability error.
#[derive(Clone, Copy, Debug, PartialEq, Eq, Structural)]
pub enum StmtError {
    /// The SQL text could not be split into statements.
    SqlParse,
    /// The text held no statement where one was required.
    SqlNoStmt,
    /// The text held more than one statement where exactly one was required.
    SqlManyStmts,
    /// The supplied arguments do not fit the statement.
    ArgsInvalid,
    /// Both positional and named arguments were supplied.
    ArgsBothPositionalAndNamed,
    /// The response exceeded the builder's size bound.
    ResponseTooLarge,
    /// The statement is not authorized for this caller.
    Blocked,
    /// A transaction outlived its inactivity budget and was rolled back.
    TransactionTimeout,
    /// Another transaction is already open on this handle.
    TransactionBusy,
    /// The primary node could not be reached; the write was not applied.
    ProxyUnavailable,
    /// The storage engine itself failed.
    SqliteError,
}

/// The HTTP status that one statement error maps to.
pub open spec fn status_of(e: StmtError) -> u16 {
    match e {
        StmtError::SqlParse
        | StmtError::SqlNoStmt
        | StmtError::SqlManyStmts
        | StmtError::ArgsInvalid
        | StmtError::ResponseTooLarge
        | StmtError::Blocked => 400,
        StmtError::ArgsBothPositionalAndNamed => 501,
        StmtError::TransactionTimeout | StmtError::TransactionBusy
        | StmtError::ProxyUnavailable => 503,
        StmtError::SqliteError => 500,
    }
}

/// Whether an error is an availability error: the client may safely retry.
pub open spec fn is_availability(e: StmtError) -> bool {
    e == StmtError::TransactionTimeout || e == StmtError::TransactionBusy || e
        == StmtError::ProxyUnavailable
}

impl StmtError {
    /// The HTTP status code of this error: 400-class for client faults,
    /// 501 for the unimplemented argument mix, 503 for retriable
    /// availability errors, 500 for engine faults.
    pub fn status(&self) -> (r: u16)
        ensures
            r == status_of(*self),
            is_availability(*self) ==> r == 503,
    {
        match self {
            StmtError::SqlParse
            | StmtError::SqlNoStmt
            | StmtError::SqlManyStmts
            | StmtError::ArgsInvalid
            | StmtError::ResponseTooLarge
            | StmtError::Blocked => 400,
            StmtError::ArgsBothPositionalAndNamed => 501,
            StmtError::TransactionTimeout | StmtError::TransactionBusy
            | StmtError::ProxyUnavailable => 503,
            StmtError::SqliteError => 500,
        }
    }

    /// The stable machine-readable code of this error.
    pub fn code(&self) -> (r: &'static str)
        ensures
            *self == StmtError::SqlParse ==> r@ == "SQL_PARSE_ERROR"@,
            *self == StmtError::SqlNoStmt ==> r@ == "SQL_NO_STATEMENT"@,
            *self == StmtError::SqlManyStmts ==> r@ == "SQL_MANY_STATEMENTS"@,
            *self == StmtError::ArgsInvalid ==> r@ == "ARGS_INVALID"@,
            *self == StmtError::ArgsBothPositionalAndNamed ==> r@
                == "ARGS_BOTH_POSITIONAL_AND_NAMED"@,
            *self == StmtError::ResponseTooLarge ==> r@ == "RESPONSE_TOO_LARGE"@,
            *self == StmtError::Blocked ==> r@ == "BLOCKED"@,
            *self == StmtError::TransactionTimeout ==> r@ == "TRANSACTION_TIMEOUT"@,
            *self == StmtError::TransactionBusy ==> r@ == "TRANSACTION_BUSY"@,
            *self == StmtError::ProxyUnavailable ==> r@ == "PROXY_UNAVAILABLE"@,
            *self == StmtError::SqliteError ==> r@ == "SQLITE_ERROR"@,
    {
        match self {
            StmtError::SqlParse => "SQL_PARSE_ERROR",
            StmtError::SqlNoStmt => "SQL_NO_STATEMENT",
            StmtError::SqlManyStmts => "SQL_MANY_STATEMENTS",
            StmtError::ArgsInvalid => "ARGS_INVALID",
            StmtError::ArgsBothPositionalAndNamed => "ARGS_BOTH_POSITIONAL_AND_NAMED",
            StmtError::ResponseTooLarge => "RESPONSE_TOO_LARGE",
            StmtError::Blocked => "BLOCKED",
            StmtError::TransactionTimeout => "TRANSACTION_TIMEOUT",
            StmtError::TransactionBusy => "TRANSACTION_BUSY",
            StmtError::ProxyUnavailable => "PROXY_UNAVAILABLE",
            StmtError::SqliteError => "SQLITE_ERROR",
        }
    }
}

} // verus!
