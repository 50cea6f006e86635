//! Equality between a value and a native primitive.
//!
//! A value is projected into the class of the primitive (signed integer,
//! unsigned integer, boolean or text) and compared there, so that the variant
//! that stores a number does not matter. A value that has no projection into
//! the class equals no primitive of it. This is looser than structural
//! equality, under which numbers of different widths are never equal.

use vstd::prelude::*;
use vstd::std_specs::cmp::PartialEqSpecImpl;
use crate::order::{lemma_relate_same, relate_text, Relation};
use crate::value::{Model, Value};

verus! {

/// The number that a model holds, if it holds an integer.
pub open spec fn integer(m: Model) -> Option<int> {
    match m {
        Model::U8(n) => Some(n as int),
        Model::U16(n) => Some(n as int),
        Model::U32(n) => Some(n as int),
        Model::U64(n) => Some(n as int),
        Model::I8(n) => Some(n as int),
        Model::I16(n) => Some(n as int),
        Model::I32(n) => Some(n as int),
        Model::I64(n) => Some(n as int),
        _ => None,
    }
}

/// The projection of a model to a 64-bit signed integer: the integer it
/// holds, where that fits.
pub open spec fn signed64(m: Model) -> Option<i64> {
    match integer(m) {
        Some(n) => if i64::MIN <= n <= i64::MAX {
            Some(n as i64)
        } else {
            None
        },
        None => None,
    }
}

/// The projection of a model to a 64-bit unsigned integer: the integer it
/// holds, where that is not negative.
pub open spec fn unsigned64(m: Model) -> Option<u64> {
    match integer(m) {
        Some(n) => if 0 <= n <= u64::MAX {
            Some(n as u64)
        } else {
            None
        },
        None => None,
    }
}

/// The projection of a model to a boolean.
pub open spec fn boolean(m: Model) -> Option<bool> {
    match m {
        Model::Bool(b) => Some(b),
        _ => None,
    }
}

/// The projection of a model to text.
pub open spec fn text(m: Model) -> Option<Seq<char>> {
    match m {
        Model::Text(s) => Some(s),
        _ => None,
    }
}

impl Value {
    /// The value as a 64-bit signed integer, if it holds an integer that fits.
    pub fn as_i64(&self) -> (r: Option<i64>)
        ensures
            r == signed64(self@),
    {
        match self {
            Value::U8(n) => Some(*n as i64),
            Value::U16(n) => Some(*n as i64),
            Value::U32(n) => Some(*n as i64),
            Value::U64(n) => if *n <= 0x7fff_ffff_ffff_ffff {
                Some(*n as i64)
            } else {
                None
            },
            Value::I8(n) => Some(*n as i64),
            Value::I16(n) => Some(*n as i64),
            Value::I32(n) => Some(*n as i64),
            Value::I64(n) => Some(*n),
            _ => None,
        }
    }

    /// The value as a 64-bit unsigned integer, if it holds an integer that is
    /// not negative.
    pub fn as_u64(&self) -> (r: Option<u64>)
        ensures
            r == unsigned64(self@),
    {
        match self {
            Value::U8(n) => Some(*n as u64),
            Value::U16(n) => Some(*n as u64),
            Value::U32(n) => Some(*n as u64),
            Value::U64(n) => Some(*n),
            Value::I8(n) => if *n >= 0 {
                Some(*n as u64)
            } else {
                None
            },
            Value::I16(n) => if *n >= 0 {
                Some(*n as u64)
            } else {
                None
            },
            Value::I32(n) => if *n >= 0 {
                Some(*n as u64)
            } else {
                None
            },
            Value::I64(n) => if *n >= 0 {
                Some(*n as u64)
            } else {
                None
            },
            _ => None,
        }
    }

    /// The value as a boolean, if it holds one.
    pub fn as_bool(&self) -> (r: Option<bool>)
        ensures
            r == boolean(self@),
    {
        match self {
            Value::Bool(b) => Some(*b),
            _ => None,
        }
    }

    /// The value as text, if it holds text.
    pub fn as_str(&self) -> (r: Option<&str>)
        ensures
            match r {
                Some(s) => text(self@) == Some(s@),
                None => text(self@) is None,
            },
    {
        match self {
            Value::String(s) => Some(s.as_str()),
            _ => None,
        }
    }
}

/// Whether the value, projected to a signed integer, is `other`.
pub fn eq_i64(value: &Value, other: i64) -> (r: bool)
    ensures
        r == (signed64(value@) == Some(other)),
{
    match value.as_i64() {
        Some(i) => i == other,
        None => false,
    }
}

/// Whether the value, projected to an unsigned integer, is `other`.
pub fn eq_u64(value: &Value, other: u64) -> (r: bool)
    ensures
        r == (unsigned64(value@) == Some(other)),
{
    match value.as_u64() {
        Some(i) => i == other,
        None => false,
    }
}

/// Whether the value, projected to a boolean, is `other`.
pub fn eq_bool(value: &Value, other: bool) -> (r: bool)
    ensures
        r == (boolean(value@) == Some(other)),
{
    match value.as_bool() {
        Some(i) => i == other,
        None => false,
    }
}

/// Whether the value, projected to text, is `other`.
pub fn eq_str(value: &Value, other: &str) -> (r: bool)
    ensures
        r == (text(value@) == Some(other@)),
{
    match value.as_str() {
        Some(i) => {
            proof {
                lemma_relate_same(Model::Text(i@), Model::Text(other@));
            }
            relate_text(i, other) == Relation::Same
        },
        None => false,
    }
}

impl PartialEq<i8> for Value {
    fn eq(&self, other: &i8) -> (r: bool) {
        eq_i64(self, *other as i64)
    }
}

impl PartialEqSpecImpl<i8> for Value {
    open spec fn obeys_eq_spec() -> bool {
        true
    }

    open spec fn eq_spec(&self, other: &i8) -> bool {
        signed64(self@) == Some(*other as i64)
    }
}

impl PartialEq<Value> for i8 {
    fn eq(&self, other: &Value) -> (r: bool) {
        eq_i64(other, *self as i64)
    }
}

impl PartialEqSpecImpl<Value> for i8 {
    open spec fn obeys_eq_spec() -> bool {
        true
    }

    open spec fn eq_spec(&self, other: &Value) -> bool {
        signed64(other@) == Some(*self as i64)
    }
}

impl PartialEq<i16> for Value {
    fn eq(&self, other: &i16) -> (r: bool) {
        eq_i64(self, *other as i64)
    }
}

impl PartialEqSpecImpl<i16> for Value {
    open spec fn obeys_eq_spec() -> bool {
        true
    }

    open spec fn eq_spec(&self, other: &i16) -> bool {
        signed64(self@) == Some(*other as i64)
    }
}

impl PartialEq<Value> for i16 {
    fn eq(&self, other: &Value) -> (r: bool) {
        eq_i64(other, *self as i64)
    }
}

impl PartialEqSpecImpl<Value> for i16 {
    open spec fn obeys_eq_spec() -> bool {
        true
    }

    open spec fn eq_spec(&self, other: &Value) -> bool {
        signed64(other@) == Some(*self as i64)
    }
}

impl PartialEq<i32> for Value {
    fn eq(&self, other: &i32) -> (r: bool) {
        eq_i64(self, *other as i64)
    }
}

impl PartialEqSpecImpl<i32> for Value {
    open spec fn obeys_eq_spec() -> bool {
        true
    }

    open spec fn eq_spec(&self, other: &i32) -> bool {
        signed64(self@) == Some(*other as i64)
    }
}

impl PartialEq<Value> for i32 {
    fn eq(&self, other: &Value) -> (r: bool) {
        eq_i64(other, *self as i64)
    }
}

impl PartialEqSpecImpl<Value> for i32 {
    open spec fn obeys_eq_spec() -> bool {
        true
    }

    open spec fn eq_spec(&self, other: &Value) -> bool {
        signed64(other@) == Some(*self as i64)
    }
}

impl PartialEq<i64> for Value {
    fn eq(&self, other: &i64) -> (r: bool) {
        eq_i64(self, *other)
    }
}

impl PartialEqSpecImpl<i64> for Value {
    open spec fn obeys_eq_spec() -> bool {
        true
    }

    open spec fn eq_spec(&self, other: &i64) -> bool {
        signed64(self@) == Some(*other as i64)
    }
}

impl PartialEq<Value> for i64 {
    fn eq(&self, other: &Value) -> (r: bool) {
        eq_i64(other, *self)
    }
}

impl PartialEqSpecImpl<Value> for i64 {
    open spec fn obeys_eq_spec() -> bool {
        true
    }

    open spec fn eq_spec(&self, other: &Value) -> bool {
        signed64(other@) == Some(*self as i64)
    }
}

impl PartialEq<isize> for Value {
    fn eq(&self, other: &isize) -> (r: bool) {
        eq_i64(self, *other as i64)
    }
}

impl PartialEqSpecImpl<isize> for Value {
    open spec fn obeys_eq_spec() -> bool {
        true
    }

    open spec fn eq_spec(&self, other: &isize) -> bool {
        signed64(self@) == Some(*other as i64)
    }
}

impl PartialEq<Value> for isize {
    fn eq(&self, other: &Value) -> (r: bool) {
        eq_i64(other, *self as i64)
    }
}

impl PartialEqSpecImpl<Value> for isize {
    open spec fn obeys_eq_spec() -> bool {
        true
    }

    open spec fn eq_spec(&self, other: &Value) -> bool {
        signed64(other@) == Some(*self as i64)
    }
}

impl PartialEq<u8> for Value {
    fn eq(&self, other: &u8) -> (r: bool) {
        eq_u64(self, *other as u64)
    }
}

impl PartialEqSpecImpl<u8> for Value {
    open spec fn obeys_eq_spec() -> bool {
        true
    }

    open spec fn eq_spec(&self, other: &u8) -> bool {
        unsigned64(self@) == Some(*other as u64)
    }
}

impl PartialEq<Value> for u8 {
    fn eq(&self, other: &Value) -> (r: bool) {
        eq_u64(other, *self as u64)
    }
}

impl PartialEqSpecImpl<Value> for u8 {
    open spec fn obeys_eq_spec() -> bool {
        true
    }

    open spec fn eq_spec(&self, other: &Value) -> bool {
        unsigned64(other@) == Some(*self as u64)
    }
}

impl PartialEq<u16> for Value {
    fn eq(&self, other: &u16) -> (r: bool) {
        eq_u64(self, *other as u64)
    }
}

impl PartialEqSpecImpl<u16> for Value {
    open spec fn obeys_eq_spec() -> bool {
        true
    }

    open spec fn eq_spec(&self, other: &u16) -> bool {
        unsigned64(self@) == Some(*other as u64)
    }
}

impl PartialEq<Value> for u16 {
    fn eq(&self, other: &Value) -> (r: bool) {
        eq_u64(other, *self as u64)
    }
}

impl PartialEqSpecImpl<Value> for u16 {
    open spec fn obeys_eq_spec() -> bool {
        true
    }

    open spec fn eq_spec(&self, other: &Value) -> bool {
        unsigned64(other@) == Some(*self as u64)
    }
}

impl PartialEq<u32> for Value {
    fn eq(&self, other: &u32) -> (r: bool) {
        eq_u64(self, *other as u64)
    }
}

impl PartialEqSpecImpl<u32> for Value {
    open spec fn obeys_eq_spec() -> bool {
        true
    }

    open spec fn eq_spec(&self, other: &u32) -> bool {
        unsigned64(self@) == Some(*other as u64)
    }
}

impl PartialEq<Value> for u32 {
    fn eq(&self, other: &Value) -> (r: bool) {
        eq_u64(other, *self as u64)
    }
}

impl PartialEqSpecImpl<Value> for u32 {
    open spec fn obeys_eq_spec() -> bool {
        true
    }

    open spec fn eq_spec(&self, other: &Value) -> bool {
        unsigned64(other@) == Some(*self as u64)
    }
}

impl PartialEq<u64> for Value {
    fn eq(&self, other: &u64) -> (r: bool) {
        eq_u64(self, *other)
    }
}

impl PartialEqSpecImpl<u64> for Value {
    open spec fn obeys_eq_spec() -> bool {
        true
    }

    open spec fn eq_spec(&self, other: &u64) -> bool {
        unsigned64(self@) == Some(*other as u64)
    }
}

impl PartialEq<Value> for u64 {
    fn eq(&self, other: &Value) -> (r: bool) {
        eq_u64(other, *self)
    }
}

impl PartialEqSpecImpl<Value> for u64 {
    open spec fn obeys_eq_spec() -> bool {
        true
    }

    open spec fn eq_spec(&self, other: &Value) -> bool {
        unsigned64(other@) == Some(*self as u64)
    }
}

impl PartialEq<usize> for Value {
    fn eq(&self, other: &usize) -> (r: bool) {
        eq_u64(self, *other as u64)
    }
}

impl PartialEqSpecImpl<usize> for Value {
    open spec fn obeys_eq_spec() -> bool {
        true
    }

    open spec fn eq_spec(&self, other: &usize) -> bool {
        unsigned64(self@) == Some(*other as u64)
    }
}

impl PartialEq<Value> for usize {
    fn eq(&self, other: &Value) -> (r: bool) {
        eq_u64(other, *self as u64)
    }
}

impl PartialEqSpecImpl<Value> for usize {
    open spec fn obeys_eq_spec() -> bool {
        true
    }

    open spec fn eq_spec(&self, other: &Value) -> bool {
        unsigned64(other@) == Some(*self as u64)
    }
}

impl PartialEq<bool> for Value {
    fn eq(&self, other: &bool) -> (r: bool) {
        eq_bool(self, *other)
    }
}

impl PartialEqSpecImpl<bool> for Value {
    open spec fn obeys_eq_spec() -> bool {
        true
    }

    open spec fn eq_spec(&self, other: &bool) -> bool {
        boolean(self@) == Some(*other)
    }
}

impl PartialEq<Value> for bool {
    fn eq(&self, other: &Value) -> (r: bool) {
        eq_bool(other, *self)
    }
}

impl PartialEqSpecImpl<Value> for bool {
    open spec fn obeys_eq_spec() -> bool {
        true
    }

    open spec fn eq_spec(&self, other: &Value) -> bool {
        boolean(other@) == Some(*self)
    }
}

impl PartialEq<str> for Value {
    fn eq(&self, other: &str) -> (r: bool) {
        eq_str(self, other)
    }
}

impl PartialEqSpecImpl<str> for Value {
    open spec fn obeys_eq_spec() -> bool {
        true
    }

    open spec fn eq_spec(&self, other: &str) -> bool {
        text(self@) == Some(other@)
    }
}

impl PartialEq<Value> for str {
    fn eq(&self, other: &Value) -> (r: bool) {
        eq_str(other, self)
    }
}

impl PartialEqSpecImpl<Value> for str {
    open spec fn obeys_eq_spec() -> bool {
        true
    }

    open spec fn eq_spec(&self, other: &Value) -> bool {
        text(other@) == Some(self@)
    }
}

impl<'a> PartialEq<&'a str> for Value {
    fn eq(&self, other: &&'a str) -> (r: bool) {
        eq_str(self, *other)
    }
}

impl<'a> PartialEqSpecImpl<&'a str> for Value {
    open spec fn obeys_eq_spec() -> bool {
        true
    }

    open spec fn eq_spec(&self, other: &&'a str) -> bool {
        text(self@) == Some(other@)
    }
}

impl<'a> PartialEq<Value> for &'a str {
    fn eq(&self, other: &Value) -> (r: bool) {
        eq_str(other, *self)
    }
}

impl<'a> PartialEqSpecImpl<Value> for &'a str {
    open spec fn obeys_eq_spec() -> bool {
        true
    }

    open spec fn eq_spec(&self, other: &Value) -> bool {
        text(other@) == Some(self@)
    }
}

impl PartialEq<String> for Value {
    fn eq(&self, other: &String) -> (r: bool) {
        eq_str(self, other.as_str())
    }
}

impl PartialEqSpecImpl<String> for Value {
    open spec fn obeys_eq_spec() -> bool {
        true
    }

    open spec fn eq_spec(&self, other: &String) -> bool {
        text(self@) == Some(other@)
    }
}

impl PartialEq<Value> for String {
    fn eq(&self, other: &Value) -> (r: bool) {
        eq_str(other, self.as_str())
    }
}

impl PartialEqSpecImpl<Value> for String {
    open spec fn obeys_eq_spec() -> bool {
        true
    }

    open spec fn eq_spec(&self, other: &Value) -> bool {
        text(other@) == Some(self@)
    }
}

impl<'a> PartialEq<i8> for &'a Value {
    fn eq(&self, other: &i8) -> (r: bool) {
        eq_i64(*self, *other as i64)
    }
}

impl<'a> PartialEqSpecImpl<i8> for &'a Value {
    open spec fn obeys_eq_spec() -> bool {
        true
    }

    open spec fn eq_spec(&self, other: &i8) -> bool {
        signed64((*self)@) == Some(*other as i64)
    }
}

impl<'a> PartialEq<i16> for &'a Value {
    fn eq(&self, other: &i16) -> (r: bool) {
        eq_i64(*self, *other as i64)
    }
}

impl<'a> PartialEqSpecImpl<i16> for &'a Value {
    open spec fn obeys_eq_spec() -> bool {
        true
    }

    open spec fn eq_spec(&self, other: &i16) -> bool {
        signed64((*self)@) == Some(*other as i64)
    }
}

impl<'a> PartialEq<i32> for &'a Value {
    fn eq(&self, other: &i32) -> (r: bool) {
        eq_i64(*self, *other as i64)
    }
}

impl<'a> PartialEqSpecImpl<i32> for &'a Value {
    open spec fn obeys_eq_spec() -> bool {
        true
    }

    open spec fn eq_spec(&self, other: &i32) -> bool {
        signed64((*self)@) == Some(*other as i64)
    }
}

impl<'a> PartialEq<i64> for &'a Value {
    fn eq(&self, other: &i64) -> (r: bool) {
        eq_i64(*self, *other)
    }
}

impl<'a> PartialEqSpecImpl<i64> for &'a Value {
    open spec fn obeys_eq_spec() -> bool {
        true
    }

    open spec fn eq_spec(&self, other: &i64) -> bool {
        signed64((*self)@) == Some(*other as i64)
    }
}

impl<'a> PartialEq<isize> for &'a Value {
    fn eq(&self, other: &isize) -> (r: bool) {
        eq_i64(*self, *other as i64)
    }
}

impl<'a> PartialEqSpecImpl<isize> for &'a Value {
    open spec fn obeys_eq_spec() -> bool {
        true
    }

    open spec fn eq_spec(&self, other: &isize) -> bool {
        signed64((*self)@) == Some(*other as i64)
    }
}

impl<'a> PartialEq<u8> for &'a Value {
    fn eq(&self, other: &u8) -> (r: bool) {
        eq_u64(*self, *other as u64)
    }
}

impl<'a> PartialEqSpecImpl<u8> for &'a Value {
    open spec fn obeys_eq_spec() -> bool {
        true
    }

    open spec fn eq_spec(&self, other: &u8) -> bool {
        unsigned64((*self)@) == Some(*other as u64)
    }
}

impl<'a> PartialEq<u16> for &'a Value {
    fn eq(&self, other: &u16) -> (r: bool) {
        eq_u64(*self, *other as u64)
    }
}

impl<'a> PartialEqSpecImpl<u16> for &'a Value {
    open spec fn obeys_eq_spec() -> bool {
        true
    }

    open spec fn eq_spec(&self, other: &u16) -> bool {
        unsigned64((*self)@) == Some(*other as u64)
    }
}

impl<'a> PartialEq<u32> for &'a Value {
    fn eq(&self, other: &u32) -> (r: bool) {
        eq_u64(*self, *other as u64)
    }
}

impl<'a> PartialEqSpecImpl<u32> for &'a Value {
    open spec fn obeys_eq_spec() -> bool {
        true
    }

    open spec fn eq_spec(&self, other: &u32) -> bool {
        unsigned64((*self)@) == Some(*other as u64)
    }
}

impl<'a> PartialEq<u64> for &'a Value {
    fn eq(&self, other: &u64) -> (r: bool) {
        eq_u64(*self, *other)
    }
}

impl<'a> PartialEqSpecImpl<u64> for &'a Value {
    open spec fn obeys_eq_spec() -> bool {
        true
    }

    open spec fn eq_spec(&self, other: &u64) -> bool {
        unsigned64((*self)@) == Some(*other as u64)
    }
}

impl<'a> PartialEq<usize> for &'a Value {
    fn eq(&self, other: &usize) -> (r: bool) {
        eq_u64(*self, *other as u64)
    }
}

impl<'a> PartialEqSpecImpl<usize> for &'a Value {
    open spec fn obeys_eq_spec() -> bool {
        true
    }

    open spec fn eq_spec(&self, other: &usize) -> bool {
        unsigned64((*self)@) == Some(*other as u64)
    }
}

impl<'a> PartialEq<bool> for &'a Value {
    fn eq(&self, other: &bool) -> (r: bool) {
        eq_bool(*self, *other)
    }
}

impl<'a> PartialEqSpecImpl<bool> for &'a Value {
    open spec fn obeys_eq_spec() -> bool {
        true
    }

    open spec fn eq_spec(&self, other: &bool) -> bool {
        boolean((*self)@) == Some(*other)
    }
}

impl<'a> PartialEq<i8> for &'a mut Value {
    fn eq(&self, other: &i8) -> (r: bool) {
        eq_i64(*self, *other as i64)
    }
}

impl<'a> PartialEqSpecImpl<i8> for &'a mut Value {
    open spec fn obeys_eq_spec() -> bool {
        true
    }

    open spec fn eq_spec(&self, other: &i8) -> bool {
        signed64((**self)@) == Some(*other as i64)
    }
}

impl<'a> PartialEq<i16> for &'a mut Value {
    fn eq(&self, other: &i16) -> (r: bool) {
        eq_i64(*self, *other as i64)
    }
}

impl<'a> PartialEqSpecImpl<i16> for &'a mut Value {
    open spec fn obeys_eq_spec() -> bool {
        true
    }

    open spec fn eq_spec(&self, other: &i16) -> bool {
        signed64((**self)@) == Some(*other as i64)
    }
}

impl<'a> PartialEq<i32> for &'a mut Value {
    fn eq(&self, other: &i32) -> (r: bool) {
        eq_i64(*self, *other as i64)
    }
}

impl<'a> PartialEqSpecImpl<i32> for &'a mut Value {
    open spec fn obeys_eq_spec() -> bool {
        true
    }

    open spec fn eq_spec(&self, other: &i32) -> bool {
        signed64((**self)@) == Some(*other as i64)
    }
}

impl<'a> PartialEq<i64> for &'a mut Value {
    fn eq(&self, other: &i64) -> (r: bool) {
        eq_i64(*self, *other)
    }
}

impl<'a> PartialEqSpecImpl<i64> for &'a mut Value {
    open spec fn obeys_eq_spec() -> bool {
        true
    }

    open spec fn eq_spec(&self, other: &i64) -> bool {
        signed64((**self)@) == Some(*other as i64)
    }
}

impl<'a> PartialEq<isize> for &'a mut Value {
    fn eq(&self, other: &isize) -> (r: bool) {
        eq_i64(*self, *other as i64)
    }
}

impl<'a> PartialEqSpecImpl<isize> for &'a mut Value {
    open spec fn obeys_eq_spec() -> bool {
        true
    }

    open spec fn eq_spec(&self, other: &isize) -> bool {
        signed64((**self)@) == Some(*other as i64)
    }
}

impl<'a> PartialEq<u8> for &'a mut Value {
    fn eq(&self, other: &u8) -> (r: bool) {
        eq_u64(*self, *other as u64)
    }
}

impl<'a> PartialEqSpecImpl<u8> for &'a mut Value {
    open spec fn obeys_eq_spec() -> bool {
        true
    }

    open spec fn eq_spec(&self, other: &u8) -> bool {
        unsigned64((**self)@) == Some(*other as u64)
    }
}

impl<'a> PartialEq<u16> for &'a mut Value {
    fn eq(&self, other: &u16) -> (r: bool) {
        eq_u64(*self, *other as u64)
    }
}

impl<'a> PartialEqSpecImpl<u16> for &'a mut Value {
    open spec fn obeys_eq_spec() -> bool {
        true
    }

    open spec fn eq_spec(&self, other: &u16) -> bool {
        unsigned64((**self)@) == Some(*other as u64)
    }
}

impl<'a> PartialEq<u32> for &'a mut Value {
    fn eq(&self, other: &u32) -> (r: bool) {
        eq_u64(*self, *other as u64)
    }
}

impl<'a> PartialEqSpecImpl<u32> for &'a mut Value {
    open spec fn obeys_eq_spec() -> bool {
        true
    }

    open spec fn eq_spec(&self, other: &u32) -> bool {
        unsigned64((**self)@) == Some(*other as u64)
    }
}

impl<'a> PartialEq<u64> for &'a mut Value {
    fn eq(&self, other: &u64) -> (r: bool) {
        eq_u64(*self, *other)
    }
}

impl<'a> PartialEqSpecImpl<u64> for &'a mut Value {
    open spec fn obeys_eq_spec() -> bool {
        true
    }

    open spec fn eq_spec(&self, other: &u64) -> bool {
        unsigned64((**self)@) == Some(*other as u64)
    }
}

impl<'a> PartialEq<usize> for &'a mut Value {
    fn eq(&self, other: &usize) -> (r: bool) {
        eq_u64(*self, *other as u64)
    }
}

impl<'a> PartialEqSpecImpl<usize> for &'a mut Value {
    open spec fn obeys_eq_spec() -> bool {
        true
    }

    open spec fn eq_spec(&self, other: &usize) -> bool {
        unsigned64((**self)@) == Some(*other as u64)
    }
}

impl<'a> PartialEq<bool> for &'a mut Value {
    fn eq(&self, other: &bool) -> (r: bool) {
        eq_bool(*self, *other)
    }
}

impl<'a> PartialEqSpecImpl<bool> for &'a mut Value {
    open spec fn obeys_eq_spec() -> bool {
        true
    }

    open spec fn eq_spec(&self, other: &bool) -> bool {
        boolean((**self)@) == Some(*other)
    }
}

} // verus!
