//! The value tree and its mathematical model.

use vstd::prelude::*;
use vstd::std_specs::cmp::PartialEqSpecImpl;
use crate::order::{compare, lemma_relate_same, Relation};

verus! {

/// The mathematical content of a [`Value`]: what two values must share to be
/// structurally equal. Floating point payloads are held as their IEEE 754 bit
/// patterns, text as a sequence of characters, and a map as its entries in
/// key order.
pub enum Model {
    Unit,
    Bool(bool),
    U8(u8),
    U16(u16),
    U32(u32),
    U64(u64),
    I8(i8),
    I16(i16),
    I32(i32),
    I64(i64),
    F32(u32),
    F64(u64),
    Char(char),
    Text(Seq<char>),
    Bytes(Seq<u8>),
    Sequence(Seq<Model>),
    Mapping(Seq<(Model, Model)>),
}

/// A dynamically typed value. Exactly one variant is active; the width and
/// signedness of a number are part of the value and never change.
///
/// `F32` and `F64` hold the IEEE 754 bit pattern of the number. A `Mapping`
/// holds its entries in key order, each key once: the functions of
/// [`crate::mapping`] keep it so, and [`crate::mapping::is_well_formed`]
/// tells whether a value made by hand keeps to it.
#[derive(Debug)]
pub enum Value {
    Unit,
    Bool(bool),
    U8(u8),
    U16(u16),
    U32(u32),
    U64(u64),
    I8(i8),
    I16(i16),
    I32(i32),
    I64(i64),
    F32(u32),
    F64(u64),
    Char(char),
    String(String),
    Bytes(Vec<u8>),
    Sequence(Vec<Value>),
    Mapping(Vec<(Value, Value)>),
}

/// The model of a value.
pub open spec fn model_of(v: Value) -> Model
    decreases v,
{
    match v {
        Value::Unit => Model::Unit,
        Value::Bool(b) => Model::Bool(b),
        Value::U8(n) => Model::U8(n),
        Value::U16(n) => Model::U16(n),
        Value::U32(n) => Model::U32(n),
        Value::U64(n) => Model::U64(n),
        Value::I8(n) => Model::I8(n),
        Value::I16(n) => Model::I16(n),
        Value::I32(n) => Model::I32(n),
        Value::I64(n) => Model::I64(n),
        Value::F32(n) => Model::F32(n),
        Value::F64(n) => Model::F64(n),
        Value::Char(c) => Model::Char(c),
        Value::String(s) => Model::Text(s@),
        Value::Bytes(b) => Model::Bytes(b@),
        Value::Sequence(items) => Model::Sequence(
            Seq::new(
                items@.len(),
                |i: int|
                    if 0 <= i < items@.len() {
                        model_of(items@[i])
                    } else {
                        Model::Unit
                    },
            ),
        ),
        Value::Mapping(entries) => Model::Mapping(
            Seq::new(
                entries@.len(),
                |i: int|
                    if 0 <= i < entries@.len() {
                        (model_of(entries@[i].0), model_of(entries@[i].1))
                    } else {
                        (Model::Unit, Model::Unit)
                    },
            ),
        ),
    }
}

impl View for Value {
    type V = Model;

    open spec fn view(&self) -> Model {
        model_of(*self)
    }
}

/// The models of a sequence of values, item by item.
pub open spec fn models(items: Seq<Value>) -> Seq<Model> {
    Seq::new(items.len(), |i: int| items[i]@)
}

/// The models of a sequence of entries, entry by entry.
pub open spec fn entry_models(entries: Seq<(Value, Value)>) -> Seq<(Model, Model)> {
    Seq::new(entries.len(), |i: int| (entries[i].0@, entries[i].1@))
}

/// The model of a sequence value is the sequence of its items' models.
pub proof fn lemma_view_sequence(v: Value)
    requires
        v is Sequence,
    ensures
        v@ == Model::Sequence(models(v->Sequence_0@)),
{
    let items = v->Sequence_0;
    assert(v == Value::Sequence(items));
    assert(v@ is Sequence);
    assert(v@->Sequence_0.len() == items@.len());
    assert(v@->Sequence_0 =~= models(items@));
}

/// The model of a map value is the sequence of its entries' models.
pub proof fn lemma_view_mapping(v: Value)
    requires
        v is Mapping,
    ensures
        v@ == Model::Mapping(entry_models(v->Mapping_0@)),
{
    let entries = v->Mapping_0;
    assert(v == Value::Mapping(entries));
    assert(v@ is Mapping);
    assert(v@->Mapping_0.len() == entries@.len());
    assert(v@->Mapping_0 =~= entry_models(entries@));
}

/// Makes a copy of a byte blob.
pub fn copy_bytes(bytes: &Vec<u8>) -> (r: Vec<u8>)
    ensures
        r@ == bytes@,
{
    let mut r: Vec<u8> = Vec::new();
    let mut i: usize = 0;
    while i < bytes.len()
        invariant
            i <= bytes.len(),
            r@ == bytes@.take(i as int),
        decreases bytes.len() - i,
    {
        r.push(bytes[i]);
        assert(r@ =~= bytes@.take(i + 1));
        i = i + 1;
    }
    assert(bytes@.take(bytes.len() as int) =~= bytes@);
    r
}

/// Makes a deep copy of a value.
pub fn copy_value(v: &Value) -> (r: Value)
    ensures
        r@ == v@,
    decreases v,
{
    match v {
        Value::Unit => Value::Unit,
        Value::Bool(b) => Value::Bool(*b),
        Value::U8(n) => Value::U8(*n),
        Value::U16(n) => Value::U16(*n),
        Value::U32(n) => Value::U32(*n),
        Value::U64(n) => Value::U64(*n),
        Value::I8(n) => Value::I8(*n),
        Value::I16(n) => Value::I16(*n),
        Value::I32(n) => Value::I32(*n),
        Value::I64(n) => Value::I64(*n),
        Value::F32(n) => Value::F32(*n),
        Value::F64(n) => Value::F64(*n),
        Value::Char(c) => Value::Char(*c),
        Value::String(s) => Value::String(s.clone()),
        Value::Bytes(b) => Value::Bytes(copy_bytes(b)),
        Value::Sequence(items) => {
            let copies = copy_items(items);
            let r = Value::Sequence(copies);
            proof {
                lemma_view_sequence(*v);
                lemma_view_sequence(r);
            }
            r
        },
        Value::Mapping(entries) => {
            let copies = copy_entries(entries);
            let r = Value::Mapping(copies);
            proof {
                lemma_view_mapping(*v);
                lemma_view_mapping(r);
            }
            r
        },
    }
}

/// Makes a deep copy of a sequence of values.
pub fn copy_items(items: &Vec<Value>) -> (r: Vec<Value>)
    ensures
        models(r@) == models(items@),
    decreases items,
{
    let mut r: Vec<Value> = Vec::new();
    let mut i: usize = 0;
    while i < items.len()
        invariant
            i <= items.len(),
            r.len() == i,
            models(r@) == models(items@).take(i as int),
        decreases items.len() - i,
    {
        let item = copy_value(&items[i]);
        let ghost before = r@;
        r.push(item);
        assert forall|j: int| 0 <= j < i + 1 implies models(r@)[j] == models(items@).take(
            i + 1,
        )[j] by {
            if j < i {
                assert(models(before)[j] == models(items@).take(i as int)[j]);
                assert(r@[j] == before[j]);
            }
        }
        assert(models(r@) =~= models(items@).take(i + 1));
        i = i + 1;
    }
    assert(models(items@).take(items.len() as int) =~= models(items@));
    r
}

/// Makes a deep copy of a sequence of entries.
pub fn copy_entries(entries: &Vec<(Value, Value)>) -> (r: Vec<(Value, Value)>)
    ensures
        entry_models(r@) == entry_models(entries@),
    decreases entries,
{
    let mut r: Vec<(Value, Value)> = Vec::new();
    let mut i: usize = 0;
    while i < entries.len()
        invariant
            i <= entries.len(),
            r.len() == i,
            entry_models(r@) == entry_models(entries@).take(i as int),
        decreases entries.len() - i,
    {
        let key = copy_value(&entries[i].0);
        let value = copy_value(&entries[i].1);
        let ghost before = r@;
        r.push((key, value));
        assert forall|j: int| 0 <= j < i + 1 implies entry_models(r@)[j] == entry_models(
            entries@,
        ).take(i + 1)[j] by {
            if j < i {
                assert(entry_models(before)[j] == entry_models(entries@).take(i as int)[j]);
                assert(r@[j] == before[j]);
            }
        }
        assert(entry_models(r@) =~= entry_models(entries@).take(i + 1));
        i = i + 1;
    }
    assert(entry_models(entries@).take(entries.len() as int) =~= entry_models(entries@));
    r
}

impl Clone for Value {
    fn clone(&self) -> (r: Value)
        ensures
            r@ == self@,
    {
        copy_value(self)
    }
}

impl PartialEq for Value {
    /// Structural equality: the same variant with equal payloads, at every
    /// depth. Numbers of different widths are never equal.
    fn eq(&self, other: &Value) -> (r: bool) {
        proof {
            lemma_relate_same(self@, other@);
        }
        compare(self, other) == Relation::Same
    }
}

impl PartialEqSpecImpl for Value {
    open spec fn obeys_eq_spec() -> bool {
        true
    }

    open spec fn eq_spec(&self, other: &Value) -> bool {
        self@ == other@
    }
}

impl Eq for Value {

}

} // verus!
