use value_tree::convert::{from_bytes, from_text};
use value_tree::value::Value;

#[test]
fn scalars_convert_to_their_own_variant() {
    assert_eq!(Value::from(true), Value::Bool(true));
    assert_eq!(Value::from(5u8), Value::U8(5));
    assert_eq!(Value::from(5u16), Value::U16(5));
    assert_eq!(Value::from(5u32), Value::U32(5));
    assert_eq!(Value::from(5u64), Value::U64(5));
    assert_eq!(Value::from(-5i8), Value::I8(-5));
    assert_eq!(Value::from(-5i16), Value::I16(-5));
    assert_eq!(Value::from(-5i32), Value::I32(-5));
    assert_eq!(Value::from(-5i64), Value::I64(-5));
}

#[test]
fn conversion_never_changes_width() {
    assert_ne!(Value::from(5u8), Value::U16(5));
    assert_ne!(Value::from(5u8), Value::I8(5));
    assert_ne!(Value::from(5i64), Value::U64(5));
}

#[test]
fn text_and_bytes_convert_owned_and_borrowed() {
    assert_eq!(Value::from("Hello"), Value::String("Hello".to_owned()));
    assert_eq!(
        Value::from("Hello".to_owned()),
        Value::String("Hello".to_owned())
    );
    assert_eq!(Value::from(vec![1u8, 2, 3]), Value::Bytes(vec![1, 2, 3]));
    let bytes: &[u8] = &[1, 2, 3];
    assert_eq!(Value::from(bytes), Value::Bytes(vec![1, 2, 3]));
    assert_eq!(from_bytes(bytes), Value::Bytes(vec![1, 2, 3]));
    assert_eq!(from_text("Hi"), Value::String("Hi".to_owned()));
}
