//! Conversions from native primitives into values.
//!
//! Each primitive maps to the one variant of its own width and signedness;
//! nothing is widened or narrowed.

use vstd::prelude::*;
use vstd::std_specs::convert::FromSpecImpl;
use vstd::slice::slice_to_vec;
use crate::value::{Model, Value};

verus! {

impl From<bool> for Value {
    fn from(b: bool) -> (v: Value) {
        Value::Bool(b)
    }
}

impl FromSpecImpl<bool> for Value {
    open spec fn obeys_from_spec() -> bool {
        true
    }

    open spec fn from_spec(b: bool) -> Value {
        Value::Bool(b)
    }
}

impl From<u8> for Value {
    fn from(n: u8) -> (v: Value) {
        Value::U8(n)
    }
}

impl FromSpecImpl<u8> for Value {
    open spec fn obeys_from_spec() -> bool {
        true
    }

    open spec fn from_spec(n: u8) -> Value {
        Value::U8(n)
    }
}

impl From<u16> for Value {
    fn from(n: u16) -> (v: Value) {
        Value::U16(n)
    }
}

impl FromSpecImpl<u16> for Value {
    open spec fn obeys_from_spec() -> bool {
        true
    }

    open spec fn from_spec(n: u16) -> Value {
        Value::U16(n)
    }
}

impl From<u32> for Value {
    fn from(n: u32) -> (v: Value) {
        Value::U32(n)
    }
}

impl FromSpecImpl<u32> for Value {
    open spec fn obeys_from_spec() -> bool {
        true
    }

    open spec fn from_spec(n: u32) -> Value {
        Value::U32(n)
    }
}

impl From<u64> for Value {
    fn from(n: u64) -> (v: Value) {
        Value::U64(n)
    }
}

impl FromSpecImpl<u64> for Value {
    open spec fn obeys_from_spec() -> bool {
        true
    }

    open spec fn from_spec(n: u64) -> Value {
        Value::U64(n)
    }
}

impl From<i8> for Value {
    fn from(n: i8) -> (v: Value) {
        Value::I8(n)
    }
}

impl FromSpecImpl<i8> for Value {
    open spec fn obeys_from_spec() -> bool {
        true
    }

    open spec fn from_spec(n: i8) -> Value {
        Value::I8(n)
    }
}

impl From<i16> for Value {
    fn from(n: i16) -> (v: Value) {
        Value::I16(n)
    }
}

impl FromSpecImpl<i16> for Value {
    open spec fn obeys_from_spec() -> bool {
        true
    }

    open spec fn from_spec(n: i16) -> Value {
        Value::I16(n)
    }
}

impl From<i32> for Value {
    fn from(n: i32) -> (v: Value) {
        Value::I32(n)
    }
}

impl FromSpecImpl<i32> for Value {
    open spec fn obeys_from_spec() -> bool {
        true
    }

    open spec fn from_spec(n: i32) -> Value {
        Value::I32(n)
    }
}

impl From<i64> for Value {
    fn from(n: i64) -> (v: Value) {
        Value::I64(n)
    }
}

impl FromSpecImpl<i64> for Value {
    open spec fn obeys_from_spec() -> bool {
        true
    }

    open spec fn from_spec(n: i64) -> Value {
        Value::I64(n)
    }
}

impl From<Vec<u8>> for Value {
    fn from(v: Vec<u8>) -> (r: Value) {
        Value::Bytes(v)
    }
}

impl FromSpecImpl<Vec<u8>> for Value {
    open spec fn obeys_from_spec() -> bool {
        true
    }

    open spec fn from_spec(v: Vec<u8>) -> Value {
        Value::Bytes(v)
    }
}

impl From<String> for Value {
    fn from(s: String) -> (r: Value) {
        Value::String(s)
    }
}

impl FromSpecImpl<String> for Value {
    open spec fn obeys_from_spec() -> bool {
        true
    }

    open spec fn from_spec(s: String) -> Value {
        Value::String(s)
    }
}

/// The value that holds a copy of borrowed bytes.
pub fn from_bytes(v: &[u8]) -> (r: Value)
    ensures
        r@ == Model::Bytes(v@),
{
    Value::Bytes(slice_to_vec(v))
}

/// The value that holds a copy of borrowed text.
pub fn from_text(s: &str) -> (r: Value)
    ensures
        r@ == Model::Text(s@),
{
    Value::String(s.to_owned())
}

impl<'a> From<&'a [u8]> for Value {
    fn from(v: &'a [u8]) -> (r: Value)
        ensures
            r@ == Model::Bytes(v@),
    {
        from_bytes(v)
    }
}

impl<'a> FromSpecImpl<&'a [u8]> for Value {
    open spec fn obeys_from_spec() -> bool {
        false
    }

    open spec fn from_spec(v: &'a [u8]) -> Value {
        arbitrary()
    }
}

impl<'a> From<&'a str> for Value {
    fn from(s: &'a str) -> (r: Value)
        ensures
            r@ == Model::Text(s@),
    {
        from_text(s)
    }
}

impl<'a> FromSpecImpl<&'a str> for Value {
    open spec fn obeys_from_spec() -> bool {
        false
    }

    open spec fn from_spec(s: &'a str) -> Value {
        arbitrary()
    }
}

} // verus!
