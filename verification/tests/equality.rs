use value_tree::equality::{eq_bool, eq_i64, eq_str, eq_u64};
use value_tree::value::{copy_bytes, copy_value, Value};

#[test]
fn integers_of_any_width_equal_their_number() {
    assert!(eq_i64(&Value::I32(5), 5));
    assert!(eq_u64(&Value::U8(5), 5));
    assert!(eq_i64(&Value::U8(5), 5));
    assert!(eq_u64(&Value::I64(5), 5));
    assert!(!eq_i64(&Value::I32(5), 6));
    assert!(eq_i64(&Value::I8(-5), -5));
    assert!(eq_i64(&Value::I64(i64::MIN), i64::MIN));
    assert!(eq_u64(&Value::U64(u64::MAX), u64::MAX));
}

#[test]
fn out_of_range_projection_equals_nothing() {
    assert!(!eq_u64(&Value::I8(-1), u64::MAX));
    assert!(!eq_u64(&Value::I64(-1), u64::MAX));
    assert!(!eq_i64(&Value::U64(u64::MAX), -1));
    assert_eq!(Value::U64(u64::MAX).as_i64(), None);
    assert_eq!(Value::U64(i64::MAX as u64).as_i64(), Some(i64::MAX));
    assert_eq!(Value::I16(-1).as_u64(), None);
    assert_eq!(Value::I16(7).as_u64(), Some(7));
}

#[test]
fn other_variants_have_no_projection() {
    let text = Value::String("5".to_owned());
    assert!(!eq_i64(&text, 5));
    assert!(!eq_u64(&text, 5));
    assert!(!eq_bool(&text, true));
    assert!(!eq_str(&Value::Unit, ""));
    assert!(!eq_str(&Value::Char('a'), "a"));
    assert!(!eq_bool(&Value::U8(1), true));
    assert!(!eq_i64(&Value::F64(5f64.to_bits()), 5));
    assert_eq!(Value::Bool(true).as_bool(), Some(true));
    assert_eq!(Value::Unit.as_bool(), None);
    assert_eq!(text.as_str(), Some("5"));
    assert_eq!(Value::Unit.as_str(), None);
}

#[test]
fn value_equals_native_primitive() {
    assert!(Value::U32(43) == 43u32);
    assert!(Value::U32(43) == 43u8);
    assert!(Value::U32(43) == 43i64);
    assert!(Value::U32(43) == 43usize);
    assert!(Value::I16(-3) == -3isize);
    assert!(Value::Bool(false) == false);
    assert!(Value::String("Hello".to_owned()) == "Hello");
    assert!(Value::String("Hello".to_owned()) == *"Hello");
    assert!(Value::String("Hello".to_owned()) == "Hello".to_owned());
    assert!(Value::U32(43) != 44u32);
    assert!(Value::String("Hello".to_owned()) != "hello");
    assert!(Value::Unit != 0u8);
}

#[test]
fn equality_with_a_primitive_is_symmetric() {
    let values = vec![
        Value::U8(5),
        Value::I64(-5),
        Value::U64(u64::MAX),
        Value::Bool(true),
        Value::String("5".to_owned()),
        Value::Unit,
    ];
    for v in &values {
        assert_eq!(*v == 5u8, 5u8 == *v);
        assert_eq!(*v == -5i32, -5i32 == *v);
        assert_eq!(*v == u64::MAX, u64::MAX == *v);
        assert_eq!(*v == -1i64, -1i64 == *v);
        assert_eq!(*v == true, true == *v);
        assert_eq!(*v == "5", "5" == *v);
        assert_eq!(*v == "5".to_owned(), "5".to_owned() == *v);
    }
    assert!(5u8 == Value::U8(5));
    assert!(-5i32 == Value::I64(-5));
    assert!(true == Value::Bool(true));
    assert!("5" == Value::String("5".to_owned()));
}

#[test]
fn structural_equality_tells_widths_apart() {
    let signed = Value::I32(5);
    let unsigned = Value::U8(5);
    assert!(signed != unsigned);
    assert!(signed == 5i32);
    assert!(unsigned == 5i32);
    assert!(signed == 5u8);
    assert!(unsigned == 5u8);
    assert!(Value::I32(5) == Value::I32(5));
}

#[test]
fn structural_equality_is_deep() {
    let a = Value::Sequence(vec![
        Value::Mapping(vec![(Value::U8(1), Value::String("x".to_owned()))]),
        Value::Bytes(vec![1, 2]),
    ]);
    let b = Value::Sequence(vec![
        Value::Mapping(vec![(Value::U8(1), Value::String("x".to_owned()))]),
        Value::Bytes(vec![1, 2]),
    ]);
    let c = Value::Sequence(vec![
        Value::Mapping(vec![(Value::U8(1), Value::String("y".to_owned()))]),
        Value::Bytes(vec![1, 2]),
    ]);
    assert!(a == b);
    assert!(a != c);
    assert!(a.clone() == a);
}

#[test]
fn borrowed_value_equals_native_primitive() {
    let mut v = Value::U32(43);
    assert!(&v == 43u32);
    assert!(&v == 43i8);
    assert!(&v != 44u64);
    assert!(&mut v == 43u16);
    assert!(&mut v != 42isize);
    let mut b = Value::Bool(true);
    assert!(&b == true);
    assert!(&mut b != false);
}

#[test]
fn copies_are_structurally_equal() {
    let v = Value::Mapping(vec![
        (Value::Char('k'), Value::Sequence(vec![Value::F32(7), Value::Unit])),
        (Value::String("k".to_owned()), Value::Bytes(vec![0, 255])),
    ]);
    let c = copy_value(&v);
    assert_eq!(c, v);
    assert_eq!(v.clone(), v);
    assert_eq!(copy_bytes(&vec![1, 2, 3]), vec![1, 2, 3]);
}
