//! What holds of every literal, every map and every comparison.

use vstd::prelude::*;
use vstd::std_specs::cmp::PartialEqSpec;
use vstd::std_specs::convert::FromSpec;
use crate::equality::{boolean, integer, signed64, text, unsigned64};
use crate::literal::{
    byte, bytes_from, elements_from, entries_from, expression, key_end, literal,
    native_model, token_well_formed, value, BuildError, Delimiter, Native, TokenModel,
};
use crate::mapping::{
    association, entries_well_formed, lemma_put_association, lemma_put_sorted, lemma_slot, put,
    put_all, slot, sorted, well_formed,
};
use crate::order::rank;
use crate::value::{Model, Value};

verus! {

/// The literals `null`, `true` and `false` build the unit value and the two
/// booleans.
pub proof fn lemma_keywords()
    ensures
        literal(seq![TokenModel::Null]) == Ok::<Model, BuildError>(Model::Unit),
        literal(seq![TokenModel::True]) == Ok::<Model, BuildError>(Model::Bool(true)),
        literal(seq![TokenModel::False]) == Ok::<Model, BuildError>(Model::Bool(false)),
{
}

/// A native primitive written as a literal builds the value of its own
/// variant: no width is promoted or demoted, no sign changed.
pub proof fn lemma_width_preserved(n: Native)
    ensures
        literal(seq![TokenModel::Expr(Some(native_model(n)))]) == Ok::<Model, BuildError>(
            native_model(n),
        ),
        n is Bool <==> native_model(n) is Bool,
        n is U8 <==> native_model(n) is U8,
        n is U16 <==> native_model(n) is U16,
        n is U32 <==> native_model(n) is U32,
        n is U64 <==> native_model(n) is U64,
        n is I8 <==> native_model(n) is I8,
        n is I16 <==> native_model(n) is I16,
        n is I32 <==> native_model(n) is I32,
        n is I64 <==> native_model(n) is I64,
        n is F32 <==> native_model(n) is F32,
        n is F64 <==> native_model(n) is F64,
        n is Text <==> native_model(n) is Text,
        n is Bytes <==> native_model(n) is Bytes,
{
}

/// The tokens that list `items` with a comma between each two.
pub open spec fn separate(items: Seq<TokenModel>) -> Seq<TokenModel> {
    Seq::new(
        if items.len() == 0 {
            0nat
        } else {
            (2 * items.len() - 1) as nat
        },
        |j: int|
            if j % 2 == 0 {
                items[j / 2]
            } else {
                TokenModel::Comma
            },
    )
}

/// The tokens that stand for the bytes `bs`, as expressions.
pub open spec fn byte_tokens(bs: Seq<u8>) -> Seq<TokenModel> {
    Seq::new(bs.len(), |i: int| TokenModel::Expr(Some(Model::U8(bs[i]))))
}

proof fn lemma_bytes_from(bs: Seq<u8>, i: int)
    requires
        0 <= i <= bs.len(),
    ensures
        bytes_from(separate(byte_tokens(bs)), 2 * i) == Ok::<Seq<u8>, BuildError>(
            bs.skip(i),
        ),
    decreases bs.len() - i,
{
    let ts = separate(byte_tokens(bs));
    if i < bs.len() {
        lemma_bytes_from(bs, i + 1);
        assert(ts[2 * i] == byte_tokens(bs)[i]);
        assert(byte(ts[2 * i]) == Ok::<u8, BuildError>(bs[i]));
        if 2 * i + 1 < ts.len() {
            assert(ts[2 * i + 1] is Comma);
        }
        assert(seq![bs[i]] + bs.skip(i + 1) =~= bs.skip(i));
    } else {
        assert(bs.skip(i) =~= Seq::empty());
    }
}

proof fn lemma_bytes_from_trailing(bs: Seq<u8>, i: int)
    requires
        0 <= i <= bs.len(),
        bs.len() > 0,
    ensures
        bytes_from(separate(byte_tokens(bs)).push(TokenModel::Comma), 2 * i) == Ok::<
            Seq<u8>,
            BuildError,
        >(bs.skip(i)),
    decreases bs.len() - i,
{
    let ts = separate(byte_tokens(bs)).push(TokenModel::Comma);
    if i < bs.len() {
        lemma_bytes_from_trailing(bs, i + 1);
        assert(ts[2 * i] == byte_tokens(bs)[i]);
        assert(byte(ts[2 * i]) == Ok::<u8, BuildError>(bs[i]));
        assert(ts[2 * i + 1] is Comma);
        assert(seq![bs[i]] + bs.skip(i + 1) =~= bs.skip(i));
    } else {
        assert(bs.skip(i) =~= Seq::empty());
    }
}

/// A byte blob literal, `[[ b1, b2, ... ]]`, builds the blob of exactly
/// those bytes in that order, and so it does with a comma after the last
/// byte.
pub proof fn lemma_byte_blob(bs: Seq<u8>)
    ensures
        literal(
            seq![
                TokenModel::Group(
                    Delimiter::Bracket,
                    seq![TokenModel::Group(Delimiter::Bracket, separate(byte_tokens(bs)))],
                ),
            ],
        ) == Ok::<Model, BuildError>(Model::Bytes(bs)),
        bs.len() > 0 ==> literal(
            seq![
                TokenModel::Group(
                    Delimiter::Bracket,
                    seq![
                        TokenModel::Group(
                            Delimiter::Bracket,
                            separate(byte_tokens(bs)).push(TokenModel::Comma),
                        ),
                    ],
                ),
            ],
        ) == Ok::<Model, BuildError>(Model::Bytes(bs)),
{
    lemma_bytes_from(bs, 0);
    assert(bs.skip(0) =~= bs);
    let inner = seq![TokenModel::Group(Delimiter::Bracket, separate(byte_tokens(bs)))];
    assert(inner.len() == 1);
    assert(inner[0]->Group_1 == separate(byte_tokens(bs)));
    if bs.len() > 0 {
        lemma_bytes_from_trailing(bs, 0);
        let trailing = separate(byte_tokens(bs)).push(TokenModel::Comma);
        let outer = seq![TokenModel::Group(Delimiter::Bracket, trailing)];
        assert(outer.len() == 1);
        assert(outer[0]->Group_1 == trailing);
    }
}

/// Every conversion from a primitive gives the one variant of the
/// primitive's own width and signedness, with the primitive as its payload.
pub proof fn lemma_conversion_exact(
    b: bool,
    n8: u8,
    n16: u16,
    n32: u32,
    n64: u64,
    i8_: i8,
    i16_: i16,
    i32_: i32,
    i64_: i64,
    bytes: Vec<u8>,
    s: String,
)
    ensures
        <Value as FromSpec<bool>>::from_spec(b) == Value::Bool(b),
        <Value as FromSpec<u8>>::from_spec(n8) == Value::U8(n8),
        <Value as FromSpec<u16>>::from_spec(n16) == Value::U16(n16),
        <Value as FromSpec<u32>>::from_spec(n32) == Value::U32(n32),
        <Value as FromSpec<u64>>::from_spec(n64) == Value::U64(n64),
        <Value as FromSpec<i8>>::from_spec(i8_) == Value::I8(i8_),
        <Value as FromSpec<i16>>::from_spec(i16_) == Value::I16(i16_),
        <Value as FromSpec<i32>>::from_spec(i32_) == Value::I32(i32_),
        <Value as FromSpec<i64>>::from_spec(i64_) == Value::I64(i64_),
        <Value as FromSpec<Vec<u8>>>::from_spec(bytes)@ == Model::Bytes(bytes@),
        <Value as FromSpec<String>>::from_spec(s)@ == Model::Text(s@),
        <Value as FromSpec<bool>>::obeys_from_spec(),
        <Value as FromSpec<u8>>::obeys_from_spec(),
        <Value as FromSpec<u16>>::obeys_from_spec(),
        <Value as FromSpec<u32>>::obeys_from_spec(),
        <Value as FromSpec<u64>>::obeys_from_spec(),
        <Value as FromSpec<i8>>::obeys_from_spec(),
        <Value as FromSpec<i16>>::obeys_from_spec(),
        <Value as FromSpec<i32>>::obeys_from_spec(),
        <Value as FromSpec<i64>>::obeys_from_spec(),
        <Value as FromSpec<Vec<u8>>>::obeys_from_spec(),
        <Value as FromSpec<String>>::obeys_from_spec(),
{
}

/// The values of `items`, item by item.
pub open spec fn values(items: Seq<TokenModel>) -> Seq<Model> {
    Seq::new(items.len(), |i: int| value(items[i])->Ok_0)
}

proof fn lemma_elements_from(items: Seq<TokenModel>, i: int)
    requires
        0 <= i <= items.len(),
        forall|k: int| 0 <= k < items.len() ==> (#[trigger] value(items[k])) is Ok,
    ensures
        elements_from(separate(items), 2 * i) == Ok::<Seq<Model>, BuildError>(
            values(items).skip(i),
        ),
    decreases items.len() - i,
{
    let ts = separate(items);
    if i < items.len() {
        lemma_elements_from(items, i + 1);
        assert(ts[2 * i] == items[i]);
        assert(value(items[i]) is Ok);
        if 2 * i + 1 < ts.len() {
            assert(ts[2 * i + 1] is Comma);
        }
        assert(seq![values(items)[i]] + values(items).skip(i + 1) =~= values(items).skip(i));
    } else {
        assert(values(items).skip(i) =~= Seq::empty());
    }
}

/// A sequence literal, `[ e1, e2, ... ]`, whose elements each have a value
/// builds the sequence of those values in the order of writing. (A single
/// element in brackets of its own is the byte blob shorthand instead.)
pub proof fn lemma_sequence_in_order(items: Seq<TokenModel>)
    requires
        forall|k: int| 0 <= k < items.len() ==> (#[trigger] value(items[k])) is Ok,
        !(items.len() == 1 && items[0] is Group && items[0]->Group_0 == Delimiter::Bracket),
    ensures
        literal(seq![TokenModel::Group(Delimiter::Bracket, separate(items))]) == Ok::<
            Model,
            BuildError,
        >(Model::Sequence(values(items))),
{
    lemma_elements_from(items, 0);
    assert(values(items).skip(0) =~= values(items));
    if items.len() == 1 {
        assert(separate(items)[0] == items[0]);
    }
}

/// Putting pairs one after another keeps the entries in key order.
pub proof fn lemma_put_all_sorted(pairs: Seq<(Model, Model)>)
    ensures
        sorted(put_all(Seq::empty(), pairs)),
    decreases pairs.len(),
{
    if pairs.len() > 0 {
        lemma_put_all_sorted(pairs.drop_last());
        lemma_put_sorted(put_all(Seq::empty(), pairs.drop_last()), pairs.last().0, pairs.last().1);
    }
}

/// The association that pairs give when each is inserted in turn, a later
/// one replacing an earlier one with the same key.
pub open spec fn inserted(pairs: Seq<(Model, Model)>) -> Map<Model, Model>
    decreases pairs.len(),
{
    if pairs.len() == 0 {
        Map::empty()
    } else {
        inserted(pairs.drop_last()).insert(pairs.last().0, pairs.last().1)
    }
}

/// The entries that come of putting pairs one after another hold, as an
/// association, what plain insertion of those pairs into a map gives: the
/// last value written under a key is the one that stays.
pub proof fn lemma_put_all_association(pairs: Seq<(Model, Model)>)
    ensures
        association(put_all(Seq::empty(), pairs)) == inserted(pairs),
    decreases pairs.len(),
{
    if pairs.len() == 0 {
        assert(association(Seq::empty()) =~= Map::empty());
    } else {
        lemma_put_all_association(pairs.drop_last());
        lemma_put_all_sorted(pairs.drop_last());
        lemma_put_association(
            put_all(Seq::empty(), pairs.drop_last()),
            pairs.last().0,
            pairs.last().1,
        );
    }
}

/// A map literal, `{ k1: v1, k2: v2, ... }`, that builds gives a map whose
/// entries stand in key order and hold, as an association, what plain
/// insertion of the written entries gives.
pub proof fn lemma_map_literal(ts: Seq<TokenModel>)
    requires
        value(TokenModel::Group(Delimiter::Brace, ts)) is Ok,
    ensures
        entries_from(ts, 0) is Ok,
        value(TokenModel::Group(Delimiter::Brace, ts))->Ok_0 is Mapping,
        sorted(value(TokenModel::Group(Delimiter::Brace, ts))->Ok_0->Mapping_0),
        association(value(TokenModel::Group(Delimiter::Brace, ts))->Ok_0->Mapping_0) == inserted(
            entries_from(ts, 0)->Ok_0,
        ),
{
    let pairs = entries_from(ts, 0)->Ok_0;
    lemma_put_all_sorted(pairs);
    lemma_put_all_association(pairs);
}

/// An entry whose colon is followed by nothing fails the whole map literal:
/// the value is missing.
pub proof fn lemma_trailing_colon(key: TokenModel)
    requires
        !(key is Colon),
        !(key is Comma),
    ensures
        literal(seq![TokenModel::Group(Delimiter::Brace, seq![key, TokenModel::Colon])]) == Err::<
            Model,
            BuildError,
        >(BuildError::MissingValue),
{
    let ts = seq![key, TokenModel::Colon];
    assert(key_end(ts, 1) == 1);
    assert(key_end(ts, 0) == 1);
}

/// A comma that stands where a key begins, or after a key's first token
/// with no colon before it, fails the whole map literal.
pub proof fn lemma_comma_in_key(key: TokenModel, rest: Seq<TokenModel>)
    requires
        !(key is Colon),
        !(key is Comma),
    ensures
        literal(
            seq![TokenModel::Group(Delimiter::Brace, seq![key, TokenModel::Comma] + rest)],
        ) == Err::<Model, BuildError>(BuildError::CommaInKey),
        literal(seq![TokenModel::Group(Delimiter::Brace, seq![TokenModel::Comma] + rest)]) == Err::<
            Model,
            BuildError,
        >(BuildError::CommaInKey),
{
    let ts = seq![key, TokenModel::Comma] + rest;
    assert(ts[0] == key);
    assert(ts[1] is Comma);
    assert(key_end(ts, 1) == 1);
    assert(key_end(ts, 0) == 1);
    let us = seq![TokenModel::Comma] + rest;
    assert(us[0] is Comma);
}

/// A colon that stands where a key should begin fails the whole map literal.
pub proof fn lemma_misplaced_colon(rest: Seq<TokenModel>)
    ensures
        literal(seq![TokenModel::Group(Delimiter::Brace, seq![TokenModel::Colon] + rest)]) == Err::<
            Model,
            BuildError,
        >(BuildError::MisplacedColon),
{
    let ts = seq![TokenModel::Colon] + rest;
    assert(ts[0] is Colon);
}

/// Equality with a primitive is looser than structural equality: two
/// integers of different variants are never the same value, yet where they
/// hold the same number they project to the same signed and the same
/// unsigned integer.
pub proof fn lemma_projection_looser(a: Model, b: Model)
    requires
        integer(a) is Some,
        integer(a) == integer(b),
    ensures
        signed64(a) == signed64(b),
        unsigned64(a) == unsigned64(b),
        rank(a) != rank(b) ==> a != b,
{
}

/// Structurally equal values equal the same primitives.
pub proof fn lemma_structural_implies_projection(a: Model, b: Model)
    requires
        a == b,
    ensures
        signed64(a) == signed64(b),
        unsigned64(a) == unsigned64(b),
        boolean(a) == boolean(b),
        text(a) == text(b),
{
}

/// Equality between a value and a primitive is symmetric: `value ==
/// primitive` and `primitive == value` agree, in each class of primitive.
pub proof fn lemma_equality_symmetric(v: Value, i: i64, u: u64, b: bool, s: String)
    ensures
        v.eq_spec(&i) == i.eq_spec(&v),
        v.eq_spec(&u) == u.eq_spec(&v),
        v.eq_spec(&b) == b.eq_spec(&v),
        v.eq_spec(&s) == s.eq_spec(&v),
{
}

proof fn lemma_put_well_formed(s: Seq<(Model, Model)>, k: Model, v: Model)
    requires
        entries_well_formed(s),
        well_formed(k),
        well_formed(v),
    ensures
        entries_well_formed(put(s, k, v)),
{
    lemma_slot(s, k);
    let p = slot(s, k);
    let n = put(s, k, v);
    assert forall|i: int| 0 <= i < n.len() implies well_formed((#[trigger] n[i]).0) && well_formed(
        n[i].1,
    ) by {
        if p < s.len() && s[p].0 == k {
            if i != p {
                assert(n[i] == s[i]);
                assert(well_formed(s[i].0));
            }
        } else if i < p {
            assert(n[i] == s[i]);
            assert(well_formed(s[i].0));
        } else if i > p {
            assert(n[i] == s[i - 1]);
            assert(well_formed(s[i - 1].0));
        }
    }
}

proof fn lemma_put_all_well_formed(pairs: Seq<(Model, Model)>)
    requires
        entries_well_formed(pairs),
    ensures
        entries_well_formed(put_all(Seq::empty(), pairs)),
    decreases pairs.len(),
{
    if pairs.len() > 0 {
        let front = pairs.drop_last();
        assert forall|i: int| 0 <= i < front.len() implies well_formed((#[trigger] front[i]).0)
            && well_formed(front[i].1) by {
            assert(front[i] == pairs[i]);
            assert(well_formed(pairs[i].0));
        }
        lemma_put_all_well_formed(front);
        assert(well_formed(pairs[pairs.len() - 1].0));
        lemma_put_well_formed(put_all(Seq::empty(), front), pairs.last().0, pairs.last().1);
    }
}

proof fn lemma_expression_well_formed(t: TokenModel)
    requires
        token_well_formed(t),
        expression(t) is Ok,
    ensures
        well_formed(expression(t)->Ok_0),
    decreases t,
{
    match t {
        TokenModel::Group(Delimiter::Parenthesis, inner) => {
            if inner.len() == 1 {
                lemma_expression_well_formed(inner[0]);
            }
        },
        _ => {},
    }
}

/// A literal whose expressions hold well formed values builds a well formed
/// value: every map in it, at any depth, has its entries in key order.
pub proof fn lemma_value_well_formed(t: TokenModel)
    requires
        token_well_formed(t),
        value(t) is Ok,
    ensures
        well_formed(value(t)->Ok_0),
    decreases t, 0int,
{
    match t {
        TokenModel::Group(Delimiter::Bracket, inner) => {
            if !(inner.len() == 1 && inner[0] is Group && inner[0]->Group_0
                == Delimiter::Bracket) {
                lemma_elements_well_formed(inner, 0);
            }
        },
        TokenModel::Group(Delimiter::Brace, inner) => {
            lemma_entries_well_formed(inner, 0);
            let pairs = entries_from(inner, 0)->Ok_0;
            lemma_put_all_well_formed(pairs);
            lemma_put_all_sorted(pairs);
        },
        TokenModel::Null => {},
        _ => {
            lemma_expression_well_formed(t);
        },
    }
}

proof fn lemma_elements_well_formed(ts: Seq<TokenModel>, i: int)
    requires
        forall|k: int| 0 <= k < ts.len() ==> token_well_formed(ts[k]),
        elements_from(ts, i) is Ok,
    ensures
        forall|k: int|
            0 <= k < elements_from(ts, i)->Ok_0.len() ==> well_formed(
                #[trigger] elements_from(ts, i)->Ok_0[k],
            ),
    decreases ts, ts.len() + 1 - i,
{
    if 0 <= i < ts.len() {
        lemma_value_well_formed(ts[i]);
        lemma_elements_well_formed(ts, i + 2);
    }
}

proof fn lemma_entries_well_formed(ts: Seq<TokenModel>, i: int)
    requires
        forall|k: int| 0 <= k < ts.len() ==> token_well_formed(ts[k]),
        entries_from(ts, i) is Ok,
    ensures
        entries_well_formed(entries_from(ts, i)->Ok_0),
    decreases ts, ts.len() + 1 - i,
{
    if 0 <= i < ts.len() {
        let j = key_end(ts, i);
        lemma_expression_well_formed(ts[i]);
        lemma_value_well_formed(ts[j + 1]);
        lemma_entries_well_formed(ts, j + 3);
        let rest = entries_from(ts, j + 3)->Ok_0;
        let all = entries_from(ts, i)->Ok_0;
        assert forall|k: int| 0 <= k < all.len() implies well_formed((#[trigger] all[k]).0)
            && well_formed(all[k].1) by {
            if k > 0 {
                assert(all[k] == rest[k - 1]);
                assert(well_formed(rest[k - 1].0));
            }
        }
    }
}

} // verus!
