//! The literal grammar: building a value tree from a nested literal.
//!
//! A literal is written as a sequence of token trees. `null`, `true` and
//! `false` stand for themselves, `[ e1, e2, ... ]` is a sequence,
//! `{ k1: v1, k2: v2, ... }` is a map, and `[[ b1, b2, ... ]]` is a byte
//! blob. Any other token is an expression that was evaluated where the
//! literal was written; it stands for the value it converts to.
//!
//! A literal either builds completely or fails: with a grammar error where
//! its tokens do not have the shape above, else with a conversion error
//! where one of its expressions has no value.

use vstd::prelude::*;
use crate::laws::lemma_value_well_formed;
use crate::mapping::{insert, put_all, well_formed};
use crate::value::{
    copy_bytes, copy_value, entry_models, lemma_view_mapping, lemma_view_sequence, models, Model,
    Value,
};

verus! {

/// The three kinds of bracket that enclose a group of tokens.
#[derive(Debug, Clone, Copy, PartialEq, Eq, Structural)]
pub enum Delimiter {
    Parenthesis,
    Bracket,
    Brace,
}

/// Why a literal did not build.
#[derive(Debug, Clone, Copy, PartialEq, Eq, Structural)]
pub enum BuildError {
    /// A token stands where the grammar has no place for it.
    UnexpectedToken,
    /// A value is missing: the literal, a pair of parentheses or an entry
    /// ends where a value should stand.
    MissingValue,
    /// A colon stands where a key should begin.
    MisplacedColon,
    /// A comma stands where a key should begin or before the colon of an entry.
    CommaInKey,
    /// An expression of the literal could not be converted to a value.
    Conversion,
}

/// A native primitive that converts directly to a value. Floating point
/// numbers are held as their IEEE 754 bit patterns.
#[derive(Debug)]
pub enum Native {
    Bool(bool),
    U8(u8),
    U16(u16),
    U32(u32),
    U64(u64),
    I8(i8),
    I16(i16),
    I32(i32),
    I64(i64),
    F32(u32),
    F64(u64),
    Text(String),
    Bytes(Vec<u8>),
}

/// A token tree of a literal.
#[derive(Debug)]
pub enum Token {
    Null,
    True,
    False,
    Comma,
    Colon,
    /// An expression of a native primitive type.
    Native(Native),
    /// An expression of any other type, with what the conversion to a value
    /// made of it: `None` where the conversion failed.
    Converted(Option<Value>),
    /// The tokens between a pair of brackets.
    Group(Delimiter, Vec<Token>),
}

/// The mathematical content of a [`Token`]. An expression is held as the
/// model of the value it converts to, if it has one.
pub enum TokenModel {
    Null,
    True,
    False,
    Comma,
    Colon,
    Expr(Option<Model>),
    Group(Delimiter, Seq<TokenModel>),
}

/// The model of the value that a native primitive converts to: the variant
/// of the primitive's own width and signedness.
pub open spec fn native_model(n: Native) -> Model {
    match n {
        Native::Bool(b) => Model::Bool(b),
        Native::U8(n) => Model::U8(n),
        Native::U16(n) => Model::U16(n),
        Native::U32(n) => Model::U32(n),
        Native::U64(n) => Model::U64(n),
        Native::I8(n) => Model::I8(n),
        Native::I16(n) => Model::I16(n),
        Native::I32(n) => Model::I32(n),
        Native::I64(n) => Model::I64(n),
        Native::F32(n) => Model::F32(n),
        Native::F64(n) => Model::F64(n),
        Native::Text(s) => Model::Text(s@),
        Native::Bytes(b) => Model::Bytes(b@),
    }
}

/// The model of a token.
pub open spec fn token_model(t: Token) -> TokenModel
    decreases t,
{
    match t {
        Token::Null => TokenModel::Null,
        Token::True => TokenModel::True,
        Token::False => TokenModel::False,
        Token::Comma => TokenModel::Comma,
        Token::Colon => TokenModel::Colon,
        Token::Native(n) => TokenModel::Expr(Some(native_model(n))),
        Token::Converted(None) => TokenModel::Expr(None),
        Token::Converted(Some(v)) => TokenModel::Expr(Some(v@)),
        Token::Group(d, inner) => TokenModel::Group(
            d,
            Seq::new(
                inner@.len(),
                |i: int|
                    if 0 <= i < inner@.len() {
                        token_model(inner@[i])
                    } else {
                        TokenModel::Null
                    },
            ),
        ),
    }
}

impl View for Token {
    type V = TokenModel;

    open spec fn view(&self) -> TokenModel {
        token_model(*self)
    }
}

/// The models of a sequence of tokens, token by token.
pub open spec fn token_models(ts: Seq<Token>) -> Seq<TokenModel> {
    Seq::new(ts.len(), |i: int| ts[i]@)
}

/// The model of a group is the group of its tokens' models.
pub proof fn lemma_view_group(t: Token)
    requires
        t is Group,
    ensures
        t@ == TokenModel::Group(t->Group_0, token_models(t->Group_1@)),
{
    let inner = t->Group_1;
    assert(t == Token::Group(t->Group_0, inner));
    assert(t@ is Group);
    assert(t@->Group_1.len() == inner@.len());
    assert(t@->Group_1 =~= token_models(inner@));
}

/// Every expression inside the token that has a value has a well formed one.
pub open spec fn token_well_formed(t: TokenModel) -> bool
    decreases t,
{
    match t {
        TokenModel::Expr(Some(m)) => well_formed(m),
        TokenModel::Group(_, inner) => forall|i: int|
            0 <= i < inner.len() ==> token_well_formed(#[trigger] inner[i]),
        _ => true,
    }
}

/// The error is one of the grammar, not of a conversion.
pub open spec fn is_grammar_error(e: BuildError) -> bool {
    e != BuildError::Conversion
}

/// The outcome of two parts of a literal, the second written after the
/// first: both results where both built; else the first grammar error in
/// the order of writing; else the conversion error.
pub open spec fn join<A, B>(head: Result<A, BuildError>, rest: Result<B, BuildError>) -> Result<
    (A, B),
    BuildError,
> {
    match (head, rest) {
        (Ok(a), Ok(b)) => Ok((a, b)),
        (Ok(_), Err(e)) => Err(e),
        (Err(e), Ok(_)) => Err(e),
        (Err(e1), Err(e2)) => if is_grammar_error(e1) || !is_grammar_error(e2) {
            Err(e1)
        } else {
            Err(e2)
        },
    }
}

/// The value of a token that stands as an expression: a boolean literal, an
/// evaluated expression, or one of these in parentheses.
pub open spec fn expression(t: TokenModel) -> Result<Model, BuildError>
    decreases t,
{
    match t {
        TokenModel::True => Ok(Model::Bool(true)),
        TokenModel::False => Ok(Model::Bool(false)),
        TokenModel::Expr(Some(m)) => Ok(m),
        TokenModel::Expr(None) => Err(BuildError::Conversion),
        TokenModel::Group(Delimiter::Parenthesis, inner) => if inner.len() == 0 {
            Err(BuildError::MissingValue)
        } else if inner.len() == 1 {
            expression(inner[0])
        } else {
            Err(BuildError::UnexpectedToken)
        },
        _ => Err(BuildError::UnexpectedToken),
    }
}

/// The byte that a token of a byte blob stands for: an expression that
/// converts to an 8-bit unsigned integer, or one in parentheses.
pub open spec fn byte(t: TokenModel) -> Result<u8, BuildError>
    decreases t,
{
    match t {
        TokenModel::Expr(Some(Model::U8(b))) => Ok(b),
        TokenModel::Group(Delimiter::Parenthesis, inner) => if inner.len() == 1 {
            byte(inner[0])
        } else {
            Err(BuildError::UnexpectedToken)
        },
        _ => Err(BuildError::UnexpectedToken),
    }
}

/// The token at `i` ends `ts` or is followed by a comma.
pub open spec fn separated(ts: Seq<TokenModel>, i: int) -> bool {
    i + 1 >= ts.len() || ts[i + 1] is Comma
}

/// The bytes of the blob tokens `ts` from `i` on: bytes with a comma between
/// each two, and possibly one after the last.
pub open spec fn bytes_from(ts: Seq<TokenModel>, i: int) -> Result<Seq<u8>, BuildError>
    decreases ts.len() + 1 - i,
{
    if i < 0 || i >= ts.len() {
        Ok(Seq::empty())
    } else {
        match byte(ts[i]) {
            Err(e) => Err(e),
            Ok(b) => if !separated(ts, i) {
                Err(BuildError::UnexpectedToken)
            } else {
                match bytes_from(ts, i + 2) {
                    Err(e) => Err(e),
                    Ok(rest) => Ok(seq![b] + rest),
                }
            },
        }
    }
}

/// The value of what stands between double brackets: the byte blob of the
/// bytes written there, with or without a comma after the last one.
pub open spec fn blob(ts: Seq<TokenModel>) -> Result<Model, BuildError> {
    match bytes_from(ts, 0) {
        Err(e) => Err(e),
        Ok(bytes) => Ok(Model::Bytes(bytes)),
    }
}

/// The first index from `i` on at which a colon or a comma stands, or the
/// length of `ts`: where the key that begins at `i` ends.
pub open spec fn key_end(ts: Seq<TokenModel>, i: int) -> int
    decreases ts.len() - i,
{
    if 0 <= i < ts.len() && !(ts[i] is Colon) && !(ts[i] is Comma) {
        key_end(ts, i + 1)
    } else {
        i
    }
}

/// The value of a token.
pub open spec fn value(t: TokenModel) -> Result<Model, BuildError>
    decreases t, 0int,
{
    match t {
        TokenModel::Null => Ok(Model::Unit),
        TokenModel::Group(Delimiter::Bracket, inner) => {
            if inner.len() == 1 && inner[0] is Group && inner[0]->Group_0 == Delimiter::Bracket {
                blob(inner[0]->Group_1)
            } else {
                match elements_from(inner, 0) {
                    Err(e) => Err(e),
                    Ok(items) => Ok(Model::Sequence(items)),
                }
            }
        },
        TokenModel::Group(Delimiter::Brace, inner) => match entries_from(inner, 0) {
            Err(e) => Err(e),
            Ok(pairs) => Ok(Model::Mapping(put_all(Seq::empty(), pairs))),
        },
        _ => expression(t),
    }
}

/// The elements of the sequence tokens `ts` from `i` on: values with a comma
/// between each two, and possibly one after the last.
pub open spec fn elements_from(ts: Seq<TokenModel>, i: int) -> Result<Seq<Model>, BuildError>
    decreases ts, ts.len() + 1 - i,
{
    if i < 0 || i >= ts.len() {
        Ok(Seq::empty())
    } else {
        let head = value(ts[i]);
        let rest = if separated(ts, i) {
            elements_from(ts, i + 2)
        } else {
            Err(BuildError::UnexpectedToken)
        };
        match join(head, rest) {
            Err(e) => Err(e),
            Ok((m, ms)) => Ok(seq![m] + ms),
        }
    }
}

/// The entries of the map tokens `ts` from `i` on, in the order of writing:
/// each a key, a colon and a value, with a comma between each two entries
/// and possibly one after the last. A key is a single expression.
pub open spec fn entries_from(ts: Seq<TokenModel>, i: int) -> Result<
    Seq<(Model, Model)>,
    BuildError,
>
    decreases ts, ts.len() + 1 - i,
{
    if i < 0 || i >= ts.len() {
        Ok(Seq::empty())
    } else if ts[i] is Colon {
        Err(BuildError::MisplacedColon)
    } else {
        let j = key_end(ts, i);
        if ts[i] is Comma || (i < j < ts.len() && ts[j] is Comma) {
            Err(BuildError::CommaInKey)
        } else if j <= i || j + 1 >= ts.len() {
            Err(BuildError::MissingValue)
        } else {
            let key = if j == i + 1 {
                expression(ts[i])
            } else {
                Err(BuildError::UnexpectedToken)
            };
            let rest = if separated(ts, j + 1) {
                entries_from(ts, j + 3)
            } else {
                Err(BuildError::UnexpectedToken)
            };
            match join(key, join(value(ts[j + 1]), rest)) {
                Err(e) => Err(e),
                Ok((k, (v, pairs))) => Ok(seq![(k, v)] + pairs),
            }
        }
    }
}

/// The value of a literal: the value of its one token.
pub open spec fn literal(ts: Seq<TokenModel>) -> Result<Model, BuildError> {
    if ts.len() == 0 {
        Err(BuildError::MissingValue)
    } else if ts.len() == 1 {
        value(ts[0])
    } else {
        Err(BuildError::UnexpectedToken)
    }
}

/// A result of building agrees with the outcome that the grammar gives.
pub open spec fn agrees(r: Result<Value, BuildError>, outcome: Result<Model, BuildError>) -> bool {
    match r {
        Ok(v) => outcome == Ok::<Model, BuildError>(v@),
        Err(e) => outcome == Err::<Model, BuildError>(e),
    }
}

/// The outcome of a list of which the parts in `done` are built, `failed`
/// says whether a conversion failed among them, and `rest` is the outcome of
/// the parts still to come.
pub open spec fn resume<A>(done: Seq<A>, failed: bool, rest: Result<Seq<A>, BuildError>) -> Result<
    Seq<A>,
    BuildError,
> {
    match rest {
        Err(e) => Err(e),
        Ok(r) => if failed {
            Err(BuildError::Conversion)
        } else {
            Ok(done + r)
        },
    }
}

/// Converts a native primitive to the value of its own variant.
pub fn native_value(n: &Native) -> (v: Value)
    ensures
        v@ == native_model(*n),
{
    match n {
        Native::Bool(b) => Value::Bool(*b),
        Native::U8(n) => Value::U8(*n),
        Native::U16(n) => Value::U16(*n),
        Native::U32(n) => Value::U32(*n),
        Native::U64(n) => Value::U64(*n),
        Native::I8(n) => Value::I8(*n),
        Native::I16(n) => Value::I16(*n),
        Native::I32(n) => Value::I32(*n),
        Native::I64(n) => Value::I64(*n),
        Native::F32(n) => Value::F32(*n),
        Native::F64(n) => Value::F64(*n),
        Native::Text(s) => Value::String(s.clone()),
        Native::Bytes(b) => Value::Bytes(copy_bytes(b)),
    }
}

/// Whether the token is a comma.
pub fn is_comma(t: &Token) -> (r: bool)
    ensures
        r == (t@ is Comma),
{
    match t {
        Token::Comma => true,
        _ => false,
    }
}

/// Whether the token is a colon.
pub fn is_colon(t: &Token) -> (r: bool)
    ensures
        r == (t@ is Colon),
{
    match t {
        Token::Colon => true,
        _ => false,
    }
}

/// Whether the error is one of the grammar.
pub fn grammar_error(e: BuildError) -> (r: bool)
    ensures
        r == is_grammar_error(e),
{
    match e {
        BuildError::Conversion => false,
        _ => true,
    }
}

/// Builds the value of a token that stands as an expression.
pub fn build_expression(t: &Token) -> (r: Result<Value, BuildError>)
    ensures
        agrees(r, expression(t@)),
    decreases t,
{
    match t {
        Token::True => Ok(Value::Bool(true)),
        Token::False => Ok(Value::Bool(false)),
        Token::Native(n) => Ok(native_value(n)),
        Token::Converted(Some(v)) => Ok(copy_value(v)),
        Token::Converted(None) => Err(BuildError::Conversion),
        Token::Group(Delimiter::Parenthesis, inner) => {
            proof {
                lemma_view_group(*t);
            }
            if inner.len() == 0 {
                Err(BuildError::MissingValue)
            } else if inner.len() == 1 {
                build_expression(&inner[0])
            } else {
                Err(BuildError::UnexpectedToken)
            }
        },
        _ => Err(BuildError::UnexpectedToken),
    }
}

/// Reads the byte that a token of a byte blob stands for.
pub fn build_byte(t: &Token) -> (r: Result<u8, BuildError>)
    ensures
        r == byte(t@),
    decreases t,
{
    match t {
        Token::Native(Native::U8(b)) => Ok(*b),
        Token::Converted(Some(Value::U8(b))) => Ok(*b),
        Token::Group(Delimiter::Parenthesis, inner) => {
            proof {
                lemma_view_group(*t);
            }
            if inner.len() == 1 {
                build_byte(&inner[0])
            } else {
                Err(BuildError::UnexpectedToken)
            }
        },
        _ => Err(BuildError::UnexpectedToken),
    }
}

/// Builds the byte blob of what stands between double brackets.
pub fn build_blob(ts: &Vec<Token>) -> (r: Result<Value, BuildError>)
    ensures
        agrees(r, blob(token_models(ts@))),
{
    let ghost tm = token_models(ts@);
    let n = ts.len();
    let mut bytes: Vec<u8> = Vec::new();
    let mut i: usize = 0;
    while i < n
        invariant
            i <= n,
            n == ts.len(),
            tm == token_models(ts@),
            bytes_from(tm, 0) == resume(bytes@, false, bytes_from(tm, i as int)),
        decreases n - i,
    {
        assert(tm[i as int] == ts@[i as int]@);
        let b = match build_byte(&ts[i]) {
            Ok(b) => b,
            Err(e) => {
                return Err(e);
            },
        };
        let next = if i + 1 >= n {
            n
        } else {
            assert(tm[i + 1] == ts@[i + 1]@);
            if !is_comma(&ts[i + 1]) {
                return Err(BuildError::UnexpectedToken);
            }
            i + 2
        };
        let ghost before = bytes@;
        bytes.push(b);
        proof {
            assert(bytes_from(tm, i + 2) == bytes_from(tm, next as int));
            let rest = bytes_from(tm, i + 2);
            if rest is Ok {
                assert(before + (seq![b] + rest->Ok_0) =~= bytes@ + rest->Ok_0);
            }
        }
        i = next;
    }
    assert(bytes@ + Seq::<u8>::empty() =~= bytes@);
    Ok(Value::Bytes(bytes))
}

/// Builds the value of a token.
pub fn build_value(t: &Token) -> (r: Result<Value, BuildError>)
    ensures
        agrees(r, value(t@)),
    decreases t,
{
    match t {
        Token::Null => Ok(Value::Unit),
        Token::Group(Delimiter::Bracket, inner) => {
            proof {
                lemma_view_group(*t);
            }
            if inner.len() == 1 {
                if let Token::Group(Delimiter::Bracket, bytes) = &inner[0] {
                    proof {
                        lemma_view_group(inner@[0]);
                        assert(token_models(inner@)[0] == inner@[0]@);
                    }
                    return build_blob(bytes);
                }
                assert(token_models(inner@)[0] == inner@[0]@);
            }
            match build_elements(inner) {
                Ok(items) => {
                    let r = Value::Sequence(items);
                    proof {
                        lemma_view_sequence(r);
                    }
                    Ok(r)
                },
                Err(e) => Err(e),
            }
        },
        Token::Group(Delimiter::Brace, inner) => {
            proof {
                lemma_view_group(*t);
            }
            match build_entries(inner) {
                Ok(entries) => {
                    let r = Value::Mapping(entries);
                    proof {
                        lemma_view_mapping(r);
                    }
                    Ok(r)
                },
                Err(e) => Err(e),
            }
        },
        _ => build_expression(t),
    }
}

/// Builds the elements of a sequence from the tokens between its brackets.
pub fn build_elements(ts: &Vec<Token>) -> (r: Result<Vec<Value>, BuildError>)
    ensures
        match r {
            Ok(items) => elements_from(token_models(ts@), 0) == Ok::<Seq<Model>, BuildError>(
                models(items@),
            ),
            Err(e) => elements_from(token_models(ts@), 0) == Err::<Seq<Model>, BuildError>(e),
        },
    decreases ts,
{
    let ghost tm = token_models(ts@);
    let n = ts.len();
    let mut items: Vec<Value> = Vec::new();
    let mut failed = false;
    let mut i: usize = 0;
    while i < n
        invariant
            i <= n,
            n == ts.len(),
            tm == token_models(ts@),
            elements_from(tm, 0) == resume(models(items@), failed, elements_from(tm, i as int)),
        decreases n - i,
    {
        assert(tm[i as int] == ts@[i as int]@);
        let head = build_value(&ts[i]);
        if let Err(e) = head {
            if grammar_error(e) {
                return Err(e);
            }
        }
        let next = if i + 1 >= n {
            n
        } else {
            assert(tm[i + 1] == ts@[i + 1]@);
            if !is_comma(&ts[i + 1]) {
                return Err(BuildError::UnexpectedToken);
            }
            i + 2
        };
        proof {
            assert(elements_from(tm, i + 2) == elements_from(tm, next as int));
        }
        let ghost before = models(items@);
        match head {
            Ok(v) => {
                items.push(v);
                proof {
                    assert(models(items@) =~= before.push(v@));
                    let rest = elements_from(tm, i + 2);
                    if rest is Ok {
                        assert(before + (seq![v@] + rest->Ok_0) =~= models(items@) + rest->Ok_0);
                    }
                }
            },
            Err(_) => {
                failed = true;
            },
        }
        i = next;
    }
    if failed {
        return Err(BuildError::Conversion);
    }
    assert(models(items@) + Seq::<Model>::empty() =~= models(items@));
    Ok(items)
}

/// Builds the entries of a map, in key order, from the tokens between its
/// braces. Of two entries with one key the later one stays.
pub fn build_entries(ts: &Vec<Token>) -> (r: Result<Vec<(Value, Value)>, BuildError>)
    ensures
        match r {
            Ok(entries) => {
                &&& entries_from(token_models(ts@), 0) is Ok
                &&& entry_models(entries@) == put_all(
                    Seq::empty(),
                    entries_from(token_models(ts@), 0)->Ok_0,
                )
            },
            Err(e) => entries_from(token_models(ts@), 0) == Err::<Seq<(Model, Model)>, BuildError>(
                e,
            ),
        },
    decreases ts,
{
    let ghost tm = token_models(ts@);
    let n = ts.len();
    let mut entries: Vec<(Value, Value)> = Vec::new();
    let ghost mut pairs: Seq<(Model, Model)> = Seq::empty();
    let mut failed = false;
    let mut i: usize = 0;
    assert(entry_models(entries@) =~= Seq::empty());
    while i < n
        invariant
            i <= n,
            n == ts.len(),
            tm == token_models(ts@),
            entries_from(tm, 0) == resume(pairs, failed, entries_from(tm, i as int)),
            entry_models(entries@) == put_all(Seq::empty(), pairs),
        decreases n - i,
    {
        assert(tm[i as int] == ts@[i as int]@);
        if is_colon(&ts[i]) {
            return Err(BuildError::MisplacedColon);
        }
        if is_comma(&ts[i]) {
            return Err(BuildError::CommaInKey);
        }
        let mut j: usize = i + 1;
        while j < n && !is_colon(&ts[j]) && !is_comma(&ts[j])
            invariant
                i < j <= n,
                n == ts.len(),
                tm == token_models(ts@),
                key_end(tm, i as int) == key_end(tm, j as int),
            decreases n - j,
        {
            assert(tm[j as int] == ts@[j as int]@);
            j = j + 1;
        }
        proof {
            if j < n {
                assert(tm[j as int] == ts@[j as int]@);
            }
            assert(key_end(tm, i as int) == j);
        }
        if j < n && is_comma(&ts[j]) {
            return Err(BuildError::CommaInKey);
        }
        if j >= n || j + 1 >= n {
            return Err(BuildError::MissingValue);
        }
        let key = if j == i + 1 {
            build_expression(&ts[i])
        } else {
            Err(BuildError::UnexpectedToken)
        };
        if let Err(e) = key {
            if grammar_error(e) {
                return Err(e);
            }
        }
        assert(tm[j + 1] == ts@[j + 1]@);
        let val = build_value(&ts[j + 1]);
        if let Err(e) = val {
            if grammar_error(e) {
                return Err(e);
            }
        }
        let next = if j + 2 >= n {
            n
        } else {
            assert(tm[j + 2] == ts@[j + 2]@);
            if !is_comma(&ts[j + 2]) {
                return Err(BuildError::UnexpectedToken);
            }
            j + 3
        };
        proof {
            assert(entries_from(tm, j + 3) == entries_from(tm, next as int));
        }
        match (key, val) {
            (Ok(k), Ok(v)) => {
                if !failed {
                    proof {
                        let extended = pairs.push((k@, v@));
                        assert(extended.drop_last() =~= pairs);
                        let rest = entries_from(tm, j + 3);
                        if rest is Ok {
                            assert(pairs + (seq![(k@, v@)] + rest->Ok_0) =~= extended + rest->Ok_0);
                        }
                        pairs = extended;
                    }
                    insert(&mut entries, k, v);
                }
            },
            _ => {
                failed = true;
            },
        }
        i = next;
    }
    if failed {
        return Err(BuildError::Conversion);
    }
    assert(pairs + Seq::<(Model, Model)>::empty() =~= pairs);
    Ok(entries)
}

/// Builds the value of a literal, or says why it has none.
///
/// The result is the value that the grammar gives the tokens. Where no
/// token has the shape the grammar asks for, the error is the first grammar
/// error in the order of writing; a conversion error is returned only where
/// the shape of the whole literal is right.
///
/// Where the values that the literal's converted expressions hold are well
/// formed, so is the value built: every map in it has its entries in key order.
pub fn build(tokens: &Vec<Token>) -> (r: Result<Value, BuildError>)
    ensures
        agrees(r, literal(token_models(tokens@))),
        r is Ok && (forall|i: int| 0 <= i < tokens@.len() ==> token_well_formed(tokens@[i]@))
            ==> well_formed(r->Ok_0@),
{
    if tokens.len() == 0 {
        Err(BuildError::MissingValue)
    } else if tokens.len() == 1 {
        assert(token_models(tokens@)[0] == tokens@[0]@);
        let r = build_value(&tokens[0]);
        proof {
            if r is Ok && token_well_formed(tokens@[0]@) {
                lemma_value_well_formed(tokens@[0]@);
            }
        }
        r
    } else {
        Err(BuildError::UnexpectedToken)
    }
}

} // verus!
