//! The total order on values by which the entries of a map are kept.
//!
//! Values of different variants are ordered by variant, in the order of
//! declaration. Within a variant, numbers and characters are ordered by
//! magnitude, floating point numbers by the IEEE 754 total order of their
//! bit patterns, and text, byte blobs, sequences and maps lexicographically.

use vstd::prelude::*;
use vstd::std_specs::iter::IteratorSpec;
use crate::value::{entry_models, lemma_view_mapping, lemma_view_sequence, models, Model, Value};

verus! {

/// How one value stands to another in the total order.
#[derive(Debug, Clone, Copy, PartialEq, Eq, Structural)]
pub enum Relation {
    Before,
    Same,
    After,
}

/// The relation seen from the other side.
pub open spec fn flip(r: Relation) -> Relation {
    match r {
        Relation::Before => Relation::After,
        Relation::Same => Relation::Same,
        Relation::After => Relation::Before,
    }
}

/// The order of the integers.
pub open spec fn relate_int(a: int, b: int) -> Relation {
    if a < b {
        Relation::Before
    } else if a == b {
        Relation::Same
    } else {
        Relation::After
    }
}

/// The position of a model's variant among the variants.
pub open spec fn rank(m: Model) -> int {
    match m {
        Model::Unit => 0,
        Model::Bool(_) => 1,
        Model::U8(_) => 2,
        Model::U16(_) => 3,
        Model::U32(_) => 4,
        Model::U64(_) => 5,
        Model::I8(_) => 6,
        Model::I16(_) => 7,
        Model::I32(_) => 8,
        Model::I64(_) => 9,
        Model::F32(_) => 10,
        Model::F64(_) => 11,
        Model::Char(_) => 12,
        Model::Text(_) => 13,
        Model::Bytes(_) => 14,
        Model::Sequence(_) => 15,
        Model::Mapping(_) => 16,
    }
}

/// The place of a floating point bit pattern in the IEEE 754 total order,
/// where `sign` is the value of the sign bit: patterns with the sign bit set
/// come first, the larger magnitude earlier, then the others by magnitude.
pub open spec fn float_key(bits: int, sign: int) -> int {
    if bits >= sign {
        sign - 1 - bits
    } else {
        bits
    }
}

/// The first index from `i` on at which `s` and `t` differ or one of them ends.
pub open spec fn first_difference_from<T>(s: Seq<T>, t: Seq<T>, i: int) -> int
    decreases s.len() - i,
{
    if 0 <= i < s.len() && i < t.len() && s[i] == t[i] {
        first_difference_from(s, t, i + 1)
    } else {
        i
    }
}

/// The length of the longest common prefix of `s` and `t`.
pub open spec fn first_difference<T>(s: Seq<T>, t: Seq<T>) -> int {
    first_difference_from(s, t, 0)
}

/// The total order on models.
pub open spec fn relate(a: Model, b: Model) -> Relation
    decreases a,
{
    if rank(a) != rank(b) {
        relate_int(rank(a), rank(b))
    } else {
        match (a, b) {
            (Model::Bool(x), Model::Bool(y)) => relate_int(
                if x { 1 } else { 0 },
                if y { 1 } else { 0 },
            ),
            (Model::U8(x), Model::U8(y)) => relate_int(x as int, y as int),
            (Model::U16(x), Model::U16(y)) => relate_int(x as int, y as int),
            (Model::U32(x), Model::U32(y)) => relate_int(x as int, y as int),
            (Model::U64(x), Model::U64(y)) => relate_int(x as int, y as int),
            (Model::I8(x), Model::I8(y)) => relate_int(x as int, y as int),
            (Model::I16(x), Model::I16(y)) => relate_int(x as int, y as int),
            (Model::I32(x), Model::I32(y)) => relate_int(x as int, y as int),
            (Model::I64(x), Model::I64(y)) => relate_int(x as int, y as int),
            (Model::F32(x), Model::F32(y)) => relate_int(
                float_key(x as int, 0x8000_0000),
                float_key(y as int, 0x8000_0000),
            ),
            (Model::F64(x), Model::F64(y)) => relate_int(
                float_key(x as int, 0x8000_0000_0000_0000),
                float_key(y as int, 0x8000_0000_0000_0000),
            ),
            (Model::Char(x), Model::Char(y)) => relate_int(x as int, y as int),
            (Model::Text(s), Model::Text(t)) => {
                let k = first_difference(s, t);
                if k < s.len() && k < t.len() {
                    relate_int(s[k] as int, t[k] as int)
                } else {
                    relate_int(s.len() as int, t.len() as int)
                }
            },
            (Model::Bytes(s), Model::Bytes(t)) => {
                let k = first_difference(s, t);
                if k < s.len() && k < t.len() {
                    relate_int(s[k] as int, t[k] as int)
                } else {
                    relate_int(s.len() as int, t.len() as int)
                }
            },
            (Model::Sequence(s), Model::Sequence(t)) => {
                let k = first_difference(s, t);
                if 0 <= k < s.len() && k < t.len() {
                    relate(s[k], t[k])
                } else {
                    relate_int(s.len() as int, t.len() as int)
                }
            },
            (Model::Mapping(s), Model::Mapping(t)) => {
                let k = first_difference(s, t);
                if 0 <= k < s.len() && k < t.len() {
                    if s[k].0 != t[k].0 {
                        relate(s[k].0, t[k].0)
                    } else {
                        relate(s[k].1, t[k].1)
                    }
                } else {
                    relate_int(s.len() as int, t.len() as int)
                }
            },
            _ => Relation::Same,
        }
    }
}

/// What [`first_difference`] finds: the two sequences agree before it, and at
/// it they differ unless one of them has ended.
pub proof fn lemma_first_difference<T>(s: Seq<T>, t: Seq<T>)
    ensures
        0 <= first_difference(s, t) <= s.len(),
        first_difference(s, t) <= t.len(),
        forall|j: int| 0 <= j < first_difference(s, t) ==> s[j] == t[j],
        first_difference(s, t) < s.len() && first_difference(s, t) < t.len() ==> s[first_difference(
            s,
            t,
        )] != t[first_difference(s, t)],
{
    lemma_first_difference_from(s, t, 0);
}

proof fn lemma_first_difference_from<T>(s: Seq<T>, t: Seq<T>, i: int)
    requires
        0 <= i <= s.len(),
        i <= t.len(),
        forall|j: int| 0 <= j < i ==> s[j] == t[j],
    ensures
        i <= first_difference_from(s, t, i) <= s.len(),
        first_difference_from(s, t, i) <= t.len(),
        forall|j: int| 0 <= j < first_difference_from(s, t, i) ==> s[j] == t[j],
        first_difference_from(s, t, i) < s.len() && first_difference_from(s, t, i) < t.len()
            ==> s[first_difference_from(s, t, i)] != t[first_difference_from(s, t, i)],
    decreases s.len() - i,
{
    if i < s.len() && i < t.len() && s[i] == t[i] {
        lemma_first_difference_from(s, t, i + 1);
    }
}

/// An index with the properties of the first difference is the first
/// difference.
pub proof fn lemma_first_difference_is<T>(s: Seq<T>, t: Seq<T>, k: int)
    requires
        0 <= k <= s.len(),
        k <= t.len(),
        forall|j: int| 0 <= j < k ==> s[j] == t[j],
        k < s.len() && k < t.len() ==> s[k] != t[k],
    ensures
        first_difference(s, t) == k,
{
    lemma_first_difference(s, t);
    let d = first_difference(s, t);
    if d < k {
        assert(s[d] == t[d]);
    } else if k < d {
        assert(s[k] == t[k]);
    }
}

/// Two models stand as `Same` exactly when they are equal.
pub proof fn lemma_relate_same(a: Model, b: Model)
    ensures
        relate(a, b) == Relation::Same <==> a == b,
    decreases a,
{
    if rank(a) == rank(b) {
        match (a, b) {
            (Model::Text(s), Model::Text(t)) => {
                lemma_first_difference(s, t);
                if relate(a, b) == Relation::Same {
                    assert(s =~= t);
                }
            },
            (Model::Bytes(s), Model::Bytes(t)) => {
                lemma_first_difference(s, t);
                if relate(a, b) == Relation::Same {
                    assert(s =~= t);
                }
            },
            (Model::Sequence(s), Model::Sequence(t)) => {
                lemma_first_difference(s, t);
                let k = first_difference(s, t);
                if k < s.len() && k < t.len() {
                    lemma_relate_same(s[k], t[k]);
                } else if relate(a, b) == Relation::Same {
                    assert(s =~= t);
                }
            },
            (Model::Mapping(s), Model::Mapping(t)) => {
                lemma_first_difference(s, t);
                let k = first_difference(s, t);
                if k < s.len() && k < t.len() {
                    lemma_relate_same(s[k].0, t[k].0);
                    lemma_relate_same(s[k].1, t[k].1);
                } else if relate(a, b) == Relation::Same {
                    assert(s =~= t);
                }
            },
            _ => {},
        }
    }
}

/// Swapping the two sides flips the relation.
pub proof fn lemma_relate_flip(a: Model, b: Model)
    ensures
        relate(b, a) == flip(relate(a, b)),
    decreases a,
{
    if rank(a) == rank(b) {
        match (a, b) {
            (Model::Text(s), Model::Text(t)) => {
                lemma_first_difference(s, t);
                lemma_first_difference_is(t, s, first_difference(s, t));
            },
            (Model::Bytes(s), Model::Bytes(t)) => {
                lemma_first_difference(s, t);
                lemma_first_difference_is(t, s, first_difference(s, t));
            },
            (Model::Sequence(s), Model::Sequence(t)) => {
                lemma_first_difference(s, t);
                let k = first_difference(s, t);
                lemma_first_difference_is(t, s, k);
                if k < s.len() && k < t.len() {
                    lemma_relate_flip(s[k], t[k]);
                }
            },
            (Model::Mapping(s), Model::Mapping(t)) => {
                lemma_first_difference(s, t);
                let k = first_difference(s, t);
                lemma_first_difference_is(t, s, k);
                if k < s.len() && k < t.len() {
                    lemma_relate_flip(s[k].0, t[k].0);
                    lemma_relate_flip(s[k].1, t[k].1);
                }
            },
            _ => {},
        }
    }
}

/// The order is transitive.
pub proof fn lemma_relate_transitive(a: Model, b: Model, c: Model)
    requires
        relate(a, b) == Relation::Before,
        relate(b, c) == Relation::Before,
    ensures
        relate(a, c) == Relation::Before,
    decreases a,
{
    if rank(a) == rank(b) && rank(b) == rank(c) {
        match (a, b, c) {
            (Model::Text(s), Model::Text(t), Model::Text(u)) => {
                lemma_first_difference(s, t);
                lemma_first_difference(t, u);
                let i = first_difference(s, t);
                let j = first_difference(t, u);
                let k = if i < j { i } else { j };
                lemma_first_difference_is(s, u, k);
            },
            (Model::Bytes(s), Model::Bytes(t), Model::Bytes(u)) => {
                lemma_first_difference(s, t);
                lemma_first_difference(t, u);
                let i = first_difference(s, t);
                let j = first_difference(t, u);
                let k = if i < j { i } else { j };
                lemma_first_difference_is(s, u, k);
            },
            (Model::Sequence(s), Model::Sequence(t), Model::Sequence(u)) => {
                lemma_first_difference(s, t);
                lemma_first_difference(t, u);
                let i = first_difference(s, t);
                let j = first_difference(t, u);
                let k = if i < j { i } else { j };
                if i == j && i < s.len() && i < t.len() && i < u.len() {
                    lemma_relate_transitive(s[i], t[i], u[i]);
                    lemma_relate_same(s[i], u[i]);
                }
                lemma_first_difference_is(s, u, k);
            },
            (Model::Mapping(s), Model::Mapping(t), Model::Mapping(u)) => {
                lemma_first_difference(s, t);
                lemma_first_difference(t, u);
                let i = first_difference(s, t);
                let j = first_difference(t, u);
                let k = if i < j { i } else { j };
                if i == j && i < s.len() && i < t.len() && i < u.len() {
                    if s[i].0 != t[i].0 && t[i].0 != u[i].0 {
                        lemma_relate_transitive(s[i].0, t[i].0, u[i].0);
                        lemma_relate_same(s[i].0, u[i].0);
                    } else if s[i].0 == t[i].0 && t[i].0 == u[i].0 {
                        lemma_relate_transitive(s[i].1, t[i].1, u[i].1);
                        lemma_relate_same(s[i].1, u[i].1);
                    }
                }
                lemma_first_difference_is(s, u, k);
            },
            _ => {},
        }
    }
}

/// Orders two integers.
pub fn relate_u64(a: u64, b: u64) -> (r: Relation)
    ensures
        r == relate_int(a as int, b as int),
{
    if a < b {
        Relation::Before
    } else if a == b {
        Relation::Same
    } else {
        Relation::After
    }
}

/// Orders two signed integers.
pub fn relate_i64(a: i64, b: i64) -> (r: Relation)
    ensures
        r == relate_int(a as int, b as int),
{
    if a < b {
        Relation::Before
    } else if a == b {
        Relation::Same
    } else {
        Relation::After
    }
}

/// Orders two 32-bit floating point bit patterns by the IEEE 754 total order.
pub fn relate_float32(x: u32, y: u32) -> (r: Relation)
    ensures
        r == relate_int(float_key(x as int, 0x8000_0000), float_key(y as int, 0x8000_0000)),
{
    let x_signed = x >= 0x8000_0000;
    let y_signed = y >= 0x8000_0000;
    if x_signed && y_signed {
        relate_u64(y as u64, x as u64)
    } else if x_signed {
        Relation::Before
    } else if y_signed {
        Relation::After
    } else {
        relate_u64(x as u64, y as u64)
    }
}

/// Orders two 64-bit floating point bit patterns by the IEEE 754 total order.
pub fn relate_float64(x: u64, y: u64) -> (r: Relation)
    ensures
        r == relate_int(
            float_key(x as int, 0x8000_0000_0000_0000),
            float_key(y as int, 0x8000_0000_0000_0000),
        ),
{
    let x_signed = x >= 0x8000_0000_0000_0000;
    let y_signed = y >= 0x8000_0000_0000_0000;
    if x_signed && y_signed {
        relate_u64(y, x)
    } else if x_signed {
        Relation::Before
    } else if y_signed {
        Relation::After
    } else {
        relate_u64(x, y)
    }
}

/// Orders two byte blobs lexicographically.
pub fn relate_bytes(a: &Vec<u8>, b: &Vec<u8>) -> (r: Relation)
    ensures
        r == relate(Model::Bytes(a@), Model::Bytes(b@)),
{
    let mut i: usize = 0;
    while i < a.len() && i < b.len()
        invariant
            i <= a.len(),
            i <= b.len(),
            forall|j: int| 0 <= j < i ==> a@[j] == b@[j],
        decreases a.len() - i,
    {
        if a[i] != b[i] {
            proof {
                lemma_first_difference_is(a@, b@, i as int);
            }
            return relate_u64(a[i] as u64, b[i] as u64);
        }
        i = i + 1;
    }
    proof {
        lemma_first_difference_is(a@, b@, i as int);
    }
    relate_u64(a.len() as u64, b.len() as u64)
}

/// Orders two pieces of text lexicographically by code point.
pub fn relate_text(a: &str, b: &str) -> (r: Relation)
    ensures
        r == relate(Model::Text(a@), Model::Text(b@)),
{
    let mut left = a.chars();
    let mut right = b.chars();
    let ghost mut i: int = 0;
    loop
        invariant
            0 <= i <= a@.len(),
            i <= b@.len(),
            left.remaining() == a@.skip(i),
            right.remaining() == b@.skip(i),
            forall|j: int| 0 <= j < i ==> a@[j] == b@[j],
            left.decrease() is Some,
        decreases a@.len() - i,
    {
        let x = left.next();
        let y = right.next();
        match (x, y) {
            (Some(c), Some(d)) => {
                if c != d {
                    proof {
                        assert(c == a@.skip(i)[0]);
                        assert(d == b@.skip(i)[0]);
                        lemma_first_difference_is(a@, b@, i);
                    }
                    return if c < d {
                        Relation::Before
                    } else {
                        Relation::After
                    };
                }
                proof {
                    assert(a@.skip(i).drop_first() =~= a@.skip(i + 1));
                    assert(b@.skip(i).drop_first() =~= b@.skip(i + 1));
                    i = i + 1;
                }
            },
            (Some(_), None) => {
                proof {
                    lemma_first_difference_is(a@, b@, i);
                }
                return Relation::After;
            },
            (None, Some(_)) => {
                proof {
                    lemma_first_difference_is(a@, b@, i);
                }
                return Relation::Before;
            },
            (None, None) => {
                proof {
                    lemma_first_difference_is(a@, b@, i);
                }
                return Relation::Same;
            },
        }
    }
}

/// The position of a value's variant among the variants.
pub fn variant_rank(v: &Value) -> (r: u8)
    ensures
        r as int == rank(v@),
{
    match v {
        Value::Unit => 0,
        Value::Bool(_) => 1,
        Value::U8(_) => 2,
        Value::U16(_) => 3,
        Value::U32(_) => 4,
        Value::U64(_) => 5,
        Value::I8(_) => 6,
        Value::I16(_) => 7,
        Value::I32(_) => 8,
        Value::I64(_) => 9,
        Value::F32(_) => 10,
        Value::F64(_) => 11,
        Value::Char(_) => 12,
        Value::String(_) => 13,
        Value::Bytes(_) => 14,
        Value::Sequence(_) => 15,
        Value::Mapping(_) => 16,
    }
}

/// Orders two values by the total order on their models.
pub fn compare(a: &Value, b: &Value) -> (r: Relation)
    ensures
        r == relate(a@, b@),
    decreases a,
{
    match (a, b) {
        (Value::Bool(x), Value::Bool(y)) => relate_u64(
            if *x { 1 } else { 0 },
            if *y { 1 } else { 0 },
        ),
        (Value::U8(x), Value::U8(y)) => relate_u64(*x as u64, *y as u64),
        (Value::U16(x), Value::U16(y)) => relate_u64(*x as u64, *y as u64),
        (Value::U32(x), Value::U32(y)) => relate_u64(*x as u64, *y as u64),
        (Value::U64(x), Value::U64(y)) => relate_u64(*x, *y),
        (Value::I8(x), Value::I8(y)) => relate_i64(*x as i64, *y as i64),
        (Value::I16(x), Value::I16(y)) => relate_i64(*x as i64, *y as i64),
        (Value::I32(x), Value::I32(y)) => relate_i64(*x as i64, *y as i64),
        (Value::I64(x), Value::I64(y)) => relate_i64(*x, *y),
        (Value::F32(x), Value::F32(y)) => relate_float32(*x, *y),
        (Value::F64(x), Value::F64(y)) => relate_float64(*x, *y),
        (Value::Char(x), Value::Char(y)) => relate_u64((*x as u32) as u64, (*y as u32) as u64),
        (Value::String(s), Value::String(t)) => relate_text(s.as_str(), t.as_str()),
        (Value::Bytes(s), Value::Bytes(t)) => relate_bytes(s, t),
        (Value::Sequence(s), Value::Sequence(t)) => {
            proof {
                lemma_view_sequence(*a);
                lemma_view_sequence(*b);
            }
            compare_items(s, t)
        },
        (Value::Mapping(s), Value::Mapping(t)) => {
            proof {
                lemma_view_mapping(*a);
                lemma_view_mapping(*b);
            }
            compare_entries(s, t)
        },
        _ => relate_u64(variant_rank(a) as u64, variant_rank(b) as u64),
    }
}

/// Orders two sequences of values lexicographically.
pub fn compare_items(s: &Vec<Value>, t: &Vec<Value>) -> (r: Relation)
    ensures
        r == relate(Model::Sequence(models(s@)), Model::Sequence(models(t@))),
    decreases s,
{
    let mut i: usize = 0;
    while i < s.len() && i < t.len()
        invariant
            i <= s.len(),
            i <= t.len(),
            forall|j: int| 0 <= j < i ==> models(s@)[j] == models(t@)[j],
        decreases s.len() - i,
    {
        let r = compare(&s[i], &t[i]);
        proof {
            lemma_relate_same(s@[i as int]@, t@[i as int]@);
        }
        if r != Relation::Same {
            proof {
                lemma_first_difference_is(models(s@), models(t@), i as int);
            }
            return r;
        }
        i = i + 1;
    }
    proof {
        lemma_first_difference_is(models(s@), models(t@), i as int);
    }
    relate_u64(s.len() as u64, t.len() as u64)
}

/// Orders two sequences of entries lexicographically, each entry by its key
/// and then by its value.
pub fn compare_entries(s: &Vec<(Value, Value)>, t: &Vec<(Value, Value)>) -> (r: Relation)
    ensures
        r == relate(Model::Mapping(entry_models(s@)), Model::Mapping(entry_models(t@))),
    decreases s,
{
    let mut i: usize = 0;
    while i < s.len() && i < t.len()
        invariant
            i <= s.len(),
            i <= t.len(),
            forall|j: int| 0 <= j < i ==> entry_models(s@)[j] == entry_models(t@)[j],
        decreases s.len() - i,
    {
        let by_key = compare(&s[i].0, &t[i].0);
        proof {
            lemma_relate_same(s@[i as int].0@, t@[i as int].0@);
        }
        if by_key != Relation::Same {
            proof {
                lemma_first_difference_is(entry_models(s@), entry_models(t@), i as int);
            }
            return by_key;
        }
        let by_value = compare(&s[i].1, &t[i].1);
        proof {
            lemma_relate_same(s@[i as int].1@, t@[i as int].1@);
        }
        if by_value != Relation::Same {
            proof {
                lemma_first_difference_is(entry_models(s@), entry_models(t@), i as int);
            }
            return by_value;
        }
        i = i + 1;
    }
    proof {
        lemma_first_difference_is(entry_models(s@), entry_models(t@), i as int);
    }
    relate_u64(s.len() as u64, t.len() as u64)
}

} // verus!
