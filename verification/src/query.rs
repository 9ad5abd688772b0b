//! Queries and the canonical value representation.
//!
//! `Value` is the in-memory form that every wire protocol converts to and
//! from. A `Real` carries the IEEE-754 bit pattern of the double, so that
//! the verified core never computes on floating point itself; the protocol
//! front ends convert bits to a number at the boundary.
use vstd::prelude::*;
use crate::statement::Statement;

verus! {

/// The canonical database value.
#[derive(Clone, Debug)]
pub enum Value {
    Null,
    Integer(i64),
    /// The IEEE-754 bit pattern of a double-precision number.
    Real(u64),
    Text(String),
    Blob(Vec<u8>),
}

/// Query parameters: none, positional, or named.
#[derive(Clone, Debug)]
pub enum Params {
    Empty,
    Positional(Vec<Value>),
    Named(Vec<(String, Value)>),
}

/// One executable query: a classified statement, its parameters, and
/// whether the caller wants the rows back.
#[derive(Clone, Debug)]
pub struct Query {
    pub stmt: Statement,
    pub params: Params,
    pub want_rows: bool,
}

/// A raw query as the plain JSON surface hands it in: the SQL text (as
/// bytes) and the parameters.
#[derive(Clone, Debug)]
pub struct QueryObject {
    pub q: Vec<u8>,
    pub params: Params,
}

} // verus!
