//! The plain-JSON representation of database values.
//!
//! Every wire protocol converts `Value` to and from a small set of JSON
//! shapes: `null`, a number (integer or double), a string, or the object
//! `{"base64": ...}` that wraps a blob. The base64 coding itself is done by
//! an outside engine behind trusted wrappers; everything around it is
//! verified, including the round-trip law.
use vstd::prelude::*;
use base64::Engine;
use crate::query::Value;

verus! {

/// The JSON shape of one database value on the plain JSON surface.
#[derive(Clone, Debug)]
pub enum JsonVal {
    /// JSON `null`.
    Null,
    /// A JSON integer number.
    Int(i64),
    /// A JSON double number, carried as its IEEE-754 bit pattern.
    Float(u64),
    /// A JSON string.
    Str(String),
    /// The object `{"base64": <string>}` that wraps a blob.
    B64(String),
}

/// The canonical unpadded standard-alphabet base64 encoding of a byte
/// sequence.
pub uninterp spec fn b64_of(v: Seq<u8>) -> Seq<char>;

/// Relies on base64's `STANDARD_NO_PAD` engine: `encode` is a pure function
/// of the input bytes and yields the canonical unpadded encoding.
#[verifier::external_body]
fn b64_encode(v: &[u8]) -> (r: String)
    ensures
        r@ == b64_of(v@),
{
    base64::engine::general_purpose::STANDARD_NO_PAD.encode(v)
}

/// Relies on base64's `STANDARD_NO_PAD` engine: `decode` succeeds exactly on
/// the canonical unpadded encodings (the config forbids padding and
/// non-zero trailing bits), and is the inverse of `encode`.
#[verifier::external_body]
fn b64_decode(s: &str) -> (r: Option<Vec<u8>>)
    ensures
        r matches Some(v) ==> s@ == b64_of(v@) && forall|x: Seq<u8>|
            s@ == b64_of(x) ==> x == v@,
        r is None ==> forall|x: Seq<u8>| s@ != b64_of(x),
{
    base64::engine::general_purpose::STANDARD_NO_PAD.decode(s.as_bytes()).ok()
}

/// `j` is the plain-JSON encoding of `v`.
pub open spec fn enc_rel(v: Value, j: JsonVal) -> bool {
    match v {
        Value::Null => j == JsonVal::Null,
        Value::Integer(i) => j == JsonVal::Int(i),
        Value::Real(bits) => j == JsonVal::Float(bits),
        Value::Text(s) => j matches JsonVal::Str(t) && t@ == s@,
        Value::Blob(b) => j matches JsonVal::B64(t) && t@ == b64_of(b@),
    }
}

/// What decoding `j` must yield: each scalar shape maps back to its value;
/// a base64 wrapper maps to the unique blob it encodes, or to nothing if
/// the string is not a canonical encoding.
pub open spec fn dec_rel(j: JsonVal, r: Option<Value>) -> bool {
    match j {
        JsonVal::Null => r == Some(Value::Null),
        JsonVal::Int(i) => r == Some(Value::Integer(i)),
        JsonVal::Float(bits) => r == Some(Value::Real(bits)),
        JsonVal::Str(t) => r matches Some(v) && v matches Value::Text(s) && s@ == t@,
        JsonVal::B64(t) => match r {
            Some(v) => v matches Value::Blob(b) && t@ == b64_of(b@) && forall|x: Seq<u8>|
                t@ == b64_of(x) ==> x == b@,
            None => forall|x: Seq<u8>| t@ != b64_of(x),
        },
    }
}

/// Two values are the same up to the views of their owned fields.
pub open spec fn val_like(a: Value, b: Value) -> bool {
    match a {
        Value::Null => b == Value::Null,
        Value::Integer(i) => b == Value::Integer(i),
        Value::Real(bits) => b == Value::Real(bits),
        Value::Text(s) => b matches Value::Text(t) && t@ == s@,
        Value::Blob(s) => b matches Value::Blob(t) && t@ == s@,
    }
}

/// Encodes one value into its plain-JSON shape.
pub fn value_to_json(v: &Value) -> (r: JsonVal)
    ensures
        enc_rel(*v, r),
{
    match v {
        Value::Null => JsonVal::Null,
        Value::Integer(i) => JsonVal::Int(*i),
        Value::Real(bits) => JsonVal::Float(*bits),
        Value::Text(s) => JsonVal::Str(s.clone()),
        Value::Blob(b) => JsonVal::B64(b64_encode(b.as_slice())),
    }
}

/// Decodes one plain-JSON shape back into a value. Returns `None` exactly
/// when a base64 wrapper does not hold a canonical encoding.
pub fn json_to_value(j: &JsonVal) -> (r: Option<Value>)
    ensures
        dec_rel(*j, r),
        r is None <==> (j matches JsonVal::B64(t) && forall|x: Seq<u8>| t@ != b64_of(x)),
{
    match j {
        JsonVal::Null => Some(Value::Null),
        JsonVal::Int(i) => Some(Value::Integer(*i)),
        JsonVal::Float(bits) => Some(Value::Real(*bits)),
        JsonVal::Str(t) => Some(Value::Text(t.clone())),
        JsonVal::B64(t) => match b64_decode(t.as_str()) {
            Some(b) => Some(Value::Blob(b)),
            None => None,
        },
    }
}

/// Law: the plain-JSON coding round-trips. Whatever shape `value_to_json`
/// yields for a value, `json_to_value` maps it back to the same value (up
/// to the views of its owned fields); in particular a blob's base64 wrapper
/// decodes to the blob itself.
pub proof fn lemma_value_json_round_trip(v: Value, j: JsonVal, r: Option<Value>)
    requires
        enc_rel(v, j),
        dec_rel(j, r),
    ensures
        r matches Some(w) && val_like(v, w),
{
    match v {
        Value::Blob(b) => {
            let t = j->B64_0;
            assert(t@ == b64_of(b@));
            if r is None {
                assert(t@ != b64_of(b@));
            }
        },
        _ => {},
    }
}

} // verus!
