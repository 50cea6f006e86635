use value_tree::literal::{build, BuildError, Delimiter, Native, Token};
use value_tree::mapping::from_pairs;
use value_tree::value::Value;

fn text(s: &str) -> Token {
    Token::Native(Native::Text(s.to_owned()))
}

fn number(n: i32) -> Token {
    Token::Native(Native::I32(n))
}

fn byte(b: u8) -> Token {
    Token::Native(Native::U8(b))
}

fn brackets(inner: Vec<Token>) -> Token {
    Token::Group(Delimiter::Bracket, inner)
}

fn braces(inner: Vec<Token>) -> Token {
    Token::Group(Delimiter::Brace, inner)
}

fn parens(inner: Vec<Token>) -> Token {
    Token::Group(Delimiter::Parenthesis, inner)
}

fn string(s: &str) -> Value {
    Value::String(s.to_owned())
}

fn blob_tokens() -> Token {
    brackets(vec![brackets(vec![
        byte(0x01),
        Token::Comma,
        byte(0xFF),
        Token::Comma,
        byte(0x80),
    ])])
}

#[test]
fn build_unit_macro() {
    let expected = Value::Unit;

    let val = build(&vec![Token::Null]);

    assert_eq!(val, Ok(expected));
}

#[test]
fn build_bool_macro() {
    let expected = Value::Bool(false);

    let val = build(&vec![Token::False]);

    assert_eq!(val, Ok(expected));
}

#[test]
fn build_u32_macro() {
    let expected = Value::U32(43);

    let val = build(&vec![Token::Native(Native::U32(43_u32))]);

    assert_eq!(val, Ok(expected));
}

#[test]
fn build_f64_macro() {
    let expected = Value::F64(4.2f64.to_bits());

    let val = build(&vec![Token::Native(Native::F64(4.2f64.to_bits()))]);

    assert_eq!(val, Ok(expected));
}

#[test]
fn build_string_macro() {
    let expected = Value::String("Hello".to_owned());

    let val = build(&vec![text("Hello")]);

    assert_eq!(val, Ok(expected));
}

#[test]
fn build_bytes_macro() {
    let expected = Value::Bytes(vec![0x01, 0xFF, 0x80]);

    let val = build(&vec![blob_tokens()]);

    assert_eq!(val, Ok(expected));
}

#[test]
fn build_seq_macro() {
    let expected = Value::Sequence(vec![
        Value::I32(1),
        Value::String("Foo".to_owned()),
        Value::String("Bar".to_owned()),
        Value::U8(5),
        Value::Mapping(from_pairs(vec![
            (Value::String("k1".to_owned()), Value::Bool(true)),
            (
                Value::String("k2".to_owned()),
                Value::Bytes(vec![0x01, 0xFF, 0x80]),
            ),
        ])),
    ]);

    let val = build(&vec![brackets(vec![
        number(1),
        Token::Comma,
        text("Foo"),
        Token::Comma,
        Token::Native(Native::Text("Bar".to_string())),
        Token::Comma,
        Token::Native(Native::U8(3_u8 + 2)),
        Token::Comma,
        braces(vec![
            text("k1"),
            Token::Colon,
            Token::True,
            Token::Comma,
            text("k2"),
            Token::Colon,
            blob_tokens(),
        ]),
    ])]);

    assert_eq!(val, Ok(expected));
}

#[test]
fn build_map_macro() {
    let expected = Value::Mapping(from_pairs(vec![
        (Value::String("k1".to_owned()), Value::I32(123)),
        (
            Value::String("k2".to_owned()),
            Value::String("Hello".to_owned()),
        ),
        (
            Value::String("k3".to_owned()),
            Value::String("World".to_owned()),
        ),
        (Value::F64(0.01f64.to_bits()), Value::Char('z')),
        (Value::Bool(false), Value::Unit),
        (Value::I32(1), Value::String("Foo".to_owned())),
        (
            Value::I32(2),
            Value::Mapping(from_pairs(vec![
                (Value::String("x".to_owned()), Value::I32(456)),
                (Value::String("y".to_owned()), Value::Bool(true)),
            ])),
        ),
    ]));

    let val = build(&vec![braces(vec![
        text("k1"),
        Token::Colon,
        number(123),
        Token::Comma,
        text("k2"),
        Token::Colon,
        text("Hello"),
        Token::Comma,
        text("k3"),
        Token::Colon,
        Token::Native(Native::Text("World".to_string())),
        Token::Comma,
        Token::Native(Native::F64(0.01_f64.to_bits())),
        Token::Colon,
        Token::Converted(Some(Value::Char('z'))),
        Token::Comma,
        Token::False,
        Token::Colon,
        Token::Null,
        Token::Comma,
        number(1),
        Token::Colon,
        text("Foo"),
        Token::Comma,
        number(2),
        Token::Colon,
        braces(vec![
            text("x"),
            Token::Colon,
            number(456),
            Token::Comma,
            text("y"),
            Token::Colon,
            Token::True,
        ]),
    ])]);

    assert_eq!(val, Ok(expected));
}

#[test]
fn keywords_build_unit_and_booleans() {
    assert_eq!(build(&vec![Token::Null]), Ok(Value::Unit));
    assert_eq!(build(&vec![Token::True]), Ok(Value::Bool(true)));
    assert_eq!(build(&vec![Token::False]), Ok(Value::Bool(false)));
}

#[test]
fn every_native_keeps_its_width() {
    let cases = vec![
        (Native::Bool(true), Value::Bool(true)),
        (Native::U8(7), Value::U8(7)),
        (Native::U16(7), Value::U16(7)),
        (Native::U32(7), Value::U32(7)),
        (Native::U64(7), Value::U64(7)),
        (Native::I8(-7), Value::I8(-7)),
        (Native::I16(-7), Value::I16(-7)),
        (Native::I32(-7), Value::I32(-7)),
        (Native::I64(-7), Value::I64(-7)),
        (Native::F32(1.5f32.to_bits()), Value::F32(1.5f32.to_bits())),
        (Native::F64(1.5f64.to_bits()), Value::F64(1.5f64.to_bits())),
        (Native::Text("t".to_owned()), string("t")),
        (Native::Bytes(vec![1, 2]), Value::Bytes(vec![1, 2])),
    ];
    for (native, expected) in cases {
        assert_eq!(build(&vec![Token::Native(native)]), Ok(expected));
    }
}

#[test]
fn empty_literals() {
    assert_eq!(build(&vec![brackets(vec![])]), Ok(Value::Sequence(vec![])));
    assert_eq!(build(&vec![braces(vec![])]), Ok(Value::Mapping(vec![])));
    assert_eq!(
        build(&vec![brackets(vec![brackets(vec![])])]),
        Ok(Value::Bytes(vec![]))
    );
}

#[test]
fn trailing_commas_are_accepted() {
    let seq = build(&vec![brackets(vec![
        number(1),
        Token::Comma,
        number(2),
        Token::Comma,
    ])]);
    assert_eq!(seq, Ok(Value::Sequence(vec![Value::I32(1), Value::I32(2)])));

    let map = build(&vec![braces(vec![
        text("a"),
        Token::Colon,
        number(1),
        Token::Comma,
    ])]);
    assert_eq!(
        map,
        Ok(Value::Mapping(vec![(string("a"), Value::I32(1))]))
    );
}

#[test]
fn nested_sequences_are_not_blobs() {
    let val = build(&vec![brackets(vec![
        brackets(vec![byte(1), Token::Comma, byte(2)]),
        Token::Comma,
        brackets(vec![byte(3)]),
    ])]);
    assert_eq!(
        val,
        Ok(Value::Sequence(vec![
            Value::Sequence(vec![Value::U8(1), Value::U8(2)]),
            Value::Sequence(vec![Value::U8(3)]),
        ]))
    );
}

#[test]
fn blob_takes_bytes_only() {
    let val = build(&vec![brackets(vec![brackets(vec![number(1)])])]);
    assert_eq!(val, Err(BuildError::UnexpectedToken));
    let val = build(&vec![brackets(vec![brackets(vec![Token::Null])])]);
    assert_eq!(val, Err(BuildError::UnexpectedToken));
    let val = build(&vec![brackets(vec![brackets(vec![byte(1), byte(2)])])]);
    assert_eq!(val, Err(BuildError::UnexpectedToken));
    let val = build(&vec![brackets(vec![brackets(vec![parens(vec![byte(9)])])])]);
    assert_eq!(val, Ok(Value::Bytes(vec![9])));
}

#[test]
fn blob_takes_a_trailing_comma() {
    let pair = build(&vec![brackets(vec![brackets(vec![
        byte(1),
        Token::Comma,
        byte(2),
        Token::Comma,
    ])])]);
    assert_eq!(pair, Ok(Value::Bytes(vec![1, 2])));
    assert!(pair.unwrap() == Value::Bytes(vec![1, 2]));

    let single = build(&vec![brackets(vec![brackets(vec![
        byte(7),
        Token::Comma,
    ])])]);
    assert_eq!(single, Ok(Value::Bytes(vec![7])));

    let not_bytes = build(&vec![brackets(vec![brackets(vec![
        byte(1),
        Token::Comma,
        text("two"),
        Token::Comma,
    ])])]);
    assert_eq!(not_bytes, Err(BuildError::UnexpectedToken));

    let comma_only = build(&vec![brackets(vec![brackets(vec![Token::Comma])])]);
    assert_eq!(comma_only, Err(BuildError::UnexpectedToken));

    let two_commas = build(&vec![brackets(vec![brackets(vec![
        byte(1),
        Token::Comma,
        Token::Comma,
    ])])]);
    assert_eq!(two_commas, Err(BuildError::UnexpectedToken));
}

#[test]
fn parenthesized_expressions() {
    assert_eq!(
        build(&vec![parens(vec![Token::True])]),
        Ok(Value::Bool(true))
    );
    assert_eq!(
        build(&vec![parens(vec![parens(vec![number(3)])])]),
        Ok(Value::I32(3))
    );
    assert_eq!(build(&vec![parens(vec![])]), Err(BuildError::MissingValue));
    assert_eq!(
        build(&vec![parens(vec![Token::Null])]),
        Err(BuildError::UnexpectedToken)
    );
    let keyed = build(&vec![braces(vec![
        parens(vec![text("k")]),
        Token::Colon,
        number(1),
    ])]);
    assert_eq!(
        keyed,
        Ok(Value::Mapping(vec![(string("k"), Value::I32(1))]))
    );
}

#[test]
fn later_duplicate_key_wins() {
    let val = build(&vec![braces(vec![
        text("a"),
        Token::Colon,
        number(1),
        Token::Comma,
        text("b"),
        Token::Colon,
        number(2),
        Token::Comma,
        text("a"),
        Token::Colon,
        number(3),
    ])]);
    assert_eq!(
        val,
        Ok(Value::Mapping(vec![
            (string("a"), Value::I32(3)),
            (string("b"), Value::I32(2)),
        ]))
    );
}

#[test]
fn map_entries_come_out_in_key_order() {
    let val = build(&vec![braces(vec![
        text("z"),
        Token::Colon,
        number(1),
        Token::Comma,
        number(9),
        Token::Colon,
        number(2),
        Token::Comma,
        Token::True,
        Token::Colon,
        number(3),
        Token::Comma,
        text("a"),
        Token::Colon,
        number(4),
        Token::Comma,
        number(-9),
        Token::Colon,
        number(5),
    ])]);
    let keys: Vec<Value> = match val {
        Ok(Value::Mapping(entries)) => entries.into_iter().map(|e| e.0).collect(),
        other => panic!("not a map: {:?}", other),
    };
    assert_eq!(
        keys,
        vec![
            Value::Bool(true),
            Value::I32(-9),
            Value::I32(9),
            string("a"),
            string("z"),
        ]
    );
}

#[test]
fn missing_value_fails() {
    let trailing_colon = build(&vec![braces(vec![text("a"), Token::Colon])]);
    assert_eq!(trailing_colon, Err(BuildError::MissingValue));
    let no_colon = build(&vec![braces(vec![text("a")])]);
    assert_eq!(no_colon, Err(BuildError::MissingValue));
    let after_entry = build(&vec![braces(vec![
        text("a"),
        Token::Colon,
        number(1),
        Token::Comma,
        text("b"),
        Token::Colon,
    ])]);
    assert_eq!(after_entry, Err(BuildError::MissingValue));
    assert_eq!(build(&vec![]), Err(BuildError::MissingValue));
}

#[test]
fn comma_in_key_fails() {
    let val = build(&vec![braces(vec![
        text("a"),
        Token::Comma,
        text("b"),
        Token::Colon,
        number(1),
    ])]);
    assert_eq!(val, Err(BuildError::CommaInKey));
    let val = build(&vec![braces(vec![Token::Comma])]);
    assert_eq!(val, Err(BuildError::CommaInKey));
    let val = build(&vec![braces(vec![
        text("a"),
        Token::Colon,
        number(1),
        Token::Comma,
        Token::Comma,
    ])]);
    assert_eq!(val, Err(BuildError::CommaInKey));
}

#[test]
fn misplaced_colon_fails() {
    let val = build(&vec![braces(vec![Token::Colon, number(1)])]);
    assert_eq!(val, Err(BuildError::MisplacedColon));
    let val = build(&vec![braces(vec![
        text("a"),
        Token::Colon,
        number(1),
        Token::Comma,
        Token::Colon,
    ])]);
    assert_eq!(val, Err(BuildError::MisplacedColon));
}

#[test]
fn unexpected_token_fails() {
    let val = build(&vec![brackets(vec![number(1), number(2)])]);
    assert_eq!(val, Err(BuildError::UnexpectedToken));
    let val = build(&vec![brackets(vec![Token::Comma])]);
    assert_eq!(val, Err(BuildError::UnexpectedToken));
    let val = build(&vec![braces(vec![
        text("a"),
        Token::Colon,
        number(1),
        number(2),
    ])]);
    assert_eq!(val, Err(BuildError::UnexpectedToken));
    let val = build(&vec![braces(vec![
        text("a"),
        Token::Colon,
        Token::Colon,
    ])]);
    assert_eq!(val, Err(BuildError::UnexpectedToken));
    let val = build(&vec![braces(vec![
        text("a"),
        text("b"),
        Token::Colon,
        number(1),
    ])]);
    assert_eq!(val, Err(BuildError::UnexpectedToken));
    let val = build(&vec![braces(vec![Token::Null, Token::Colon, number(1)])]);
    assert_eq!(val, Err(BuildError::UnexpectedToken));
    assert_eq!(
        build(&vec![number(1), number(2)]),
        Err(BuildError::UnexpectedToken)
    );
    assert_eq!(build(&vec![Token::Comma]), Err(BuildError::UnexpectedToken));
}

#[test]
fn failed_conversion_fails_the_whole_literal() {
    assert_eq!(
        build(&vec![Token::Converted(None)]),
        Err(BuildError::Conversion)
    );
    let val = build(&vec![brackets(vec![
        number(1),
        Token::Comma,
        braces(vec![text("k"), Token::Colon, Token::Converted(None)]),
        Token::Comma,
        number(2),
    ])]);
    assert_eq!(val, Err(BuildError::Conversion));
    let key = build(&vec![braces(vec![
        Token::Converted(None),
        Token::Colon,
        number(1),
    ])]);
    assert_eq!(key, Err(BuildError::Conversion));
}

#[test]
fn grammar_error_comes_before_conversion_error() {
    let val = build(&vec![brackets(vec![
        Token::Converted(None),
        Token::Comma,
        number(1),
        number(2),
    ])]);
    assert_eq!(val, Err(BuildError::UnexpectedToken));
    let val = build(&vec![braces(vec![
        text("a"),
        Token::Colon,
        Token::Converted(None),
        Token::Comma,
        text("b"),
        Token::Colon,
    ])]);
    assert_eq!(val, Err(BuildError::MissingValue));
}

#[test]
fn converted_expression_stands_for_its_value() {
    let inner = Value::Sequence(vec![Value::Char('x'), Value::Unit]);
    let val = build(&vec![brackets(vec![Token::Converted(Some(
        Value::Sequence(vec![Value::Char('x'), Value::Unit]),
    ))])]);
    assert_eq!(val, Ok(Value::Sequence(vec![inner])));
}
