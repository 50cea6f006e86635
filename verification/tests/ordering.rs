use value_tree::mapping::{find, from_pairs, insert, is_sorted, is_well_formed};
use value_tree::order::{compare, relate_float32, relate_float64, relate_text, Relation};
use value_tree::value::Value;

fn string(s: &str) -> Value {
    Value::String(s.to_owned())
}

#[test]
fn variants_are_ordered_by_declaration() {
    let ladder = vec![
        Value::Unit,
        Value::Bool(true),
        Value::U8(0),
        Value::U16(0),
        Value::U32(0),
        Value::U64(0),
        Value::I8(0),
        Value::I16(0),
        Value::I32(0),
        Value::I64(0),
        Value::F32(0),
        Value::F64(0),
        Value::Char('a'),
        string(""),
        Value::Bytes(vec![]),
        Value::Sequence(vec![]),
        Value::Mapping(vec![]),
    ];
    for i in 0..ladder.len() {
        for j in 0..ladder.len() {
            let expected = if i < j {
                Relation::Before
            } else if i == j {
                Relation::Same
            } else {
                Relation::After
            };
            assert_eq!(compare(&ladder[i], &ladder[j]), expected);
        }
    }
}

#[test]
fn payloads_are_ordered_within_a_variant() {
    assert_eq!(compare(&Value::I8(-1), &Value::I8(1)), Relation::Before);
    assert_eq!(compare(&Value::U64(2), &Value::U64(1)), Relation::After);
    assert_eq!(
        compare(&Value::Bool(false), &Value::Bool(true)),
        Relation::Before
    );
    assert_eq!(
        compare(&Value::Char('a'), &Value::Char('b')),
        Relation::Before
    );
    assert_eq!(compare(&string("ab"), &string("b")), Relation::Before);
    assert_eq!(compare(&string("ab"), &string("a")), Relation::After);
    assert_eq!(compare(&string("é"), &string("z")), Relation::After);
    assert_eq!(relate_text("same", "same"), Relation::Same);
    assert_eq!(
        compare(&Value::Bytes(vec![1, 2]), &Value::Bytes(vec![1, 3])),
        Relation::Before
    );
    assert_eq!(
        compare(
            &Value::Sequence(vec![Value::U8(1)]),
            &Value::Sequence(vec![Value::U8(1), Value::U8(0)])
        ),
        Relation::Before
    );
    assert_eq!(
        compare(
            &Value::Mapping(vec![(Value::U8(1), Value::U8(9))]),
            &Value::Mapping(vec![(Value::U8(1), Value::U8(8))])
        ),
        Relation::After
    );
}

#[test]
fn floats_follow_the_total_order() {
    let ladder = vec![
        f64::NEG_INFINITY,
        -1.0f64,
        -0.0f64,
        0.0f64,
        0.01f64,
        1.0f64,
        f64::INFINITY,
        f64::NAN,
    ];
    for i in 0..ladder.len() {
        for j in 0..ladder.len() {
            let expected = match ladder[i].total_cmp(&ladder[j]) {
                std::cmp::Ordering::Less => Relation::Before,
                std::cmp::Ordering::Equal => Relation::Same,
                std::cmp::Ordering::Greater => Relation::After,
            };
            assert_eq!(
                relate_float64(ladder[i].to_bits(), ladder[j].to_bits()),
                expected
            );
            let (x, y) = (ladder[i] as f32, ladder[j] as f32);
            let expected = match x.total_cmp(&y) {
                std::cmp::Ordering::Less => Relation::Before,
                std::cmp::Ordering::Equal => Relation::Same,
                std::cmp::Ordering::Greater => Relation::After,
            };
            assert_eq!(relate_float32(x.to_bits(), y.to_bits()), expected);
        }
    }
}

#[test]
fn insert_keeps_key_order_and_replaces() {
    let mut entries: Vec<(Value, Value)> = Vec::new();
    insert(&mut entries, string("m"), Value::U8(1));
    insert(&mut entries, string("a"), Value::U8(2));
    insert(&mut entries, string("z"), Value::U8(3));
    insert(&mut entries, string("m"), Value::U8(4));
    assert_eq!(
        entries,
        vec![
            (string("a"), Value::U8(2)),
            (string("m"), Value::U8(4)),
            (string("z"), Value::U8(3)),
        ]
    );
    assert_eq!(find(&entries, &string("m")), Some(&Value::U8(4)));
    assert_eq!(find(&entries, &string("b")), None);
    assert_eq!(find(&entries, &Value::U8(0)), None);
}

#[test]
fn pairs_in_any_order_give_the_same_entries() {
    let forward = from_pairs(vec![
        (Value::I32(1), string("one")),
        (Value::I32(2), string("two")),
        (Value::Bool(true), Value::Unit),
    ]);
    let backward = from_pairs(vec![
        (Value::Bool(true), Value::Unit),
        (Value::I32(2), string("two")),
        (Value::I32(1), string("one")),
    ]);
    assert_eq!(forward, backward);
    let replaced = from_pairs(vec![
        (Value::I32(1), string("old")),
        (Value::I32(1), string("new")),
    ]);
    assert_eq!(replaced, vec![(Value::I32(1), string("new"))]);
}

#[test]
fn sortedness_is_checked() {
    let sorted = vec![
        (Value::U8(1), Value::Unit),
        (Value::U8(2), Value::Unit),
        (string("a"), Value::Unit),
    ];
    assert!(is_sorted(&sorted));
    let unsorted = vec![(Value::U8(2), Value::Unit), (Value::U8(1), Value::Unit)];
    assert!(!is_sorted(&unsorted));
    let repeated = vec![(Value::U8(1), Value::Unit), (Value::U8(1), Value::Unit)];
    assert!(!is_sorted(&repeated));
    assert!(is_sorted(&Vec::new()));
}

#[test]
fn well_formedness_reaches_every_depth() {
    let good = Value::Sequence(vec![Value::Mapping(vec![
        (Value::U8(1), Value::Mapping(vec![])),
        (Value::U8(2), Value::Bytes(vec![3, 2, 1])),
    ])]);
    assert!(is_well_formed(&good));
    let bad_inside_value = Value::Mapping(vec![(
        Value::Unit,
        Value::Sequence(vec![Value::Mapping(vec![
            (Value::U8(2), Value::Unit),
            (Value::U8(1), Value::Unit),
        ])]),
    )]);
    assert!(!is_well_formed(&bad_inside_value));
    let bad_inside_key = Value::Mapping(vec![(
        Value::Mapping(vec![(Value::U8(2), Value::Unit), (Value::U8(1), Value::Unit)]),
        Value::Unit,
    )]);
    assert!(!is_well_formed(&bad_inside_key));
    assert!(is_well_formed(&Value::Unit));
    assert!(is_well_formed(&Value::Mapping(from_pairs(vec![
        (Value::U8(2), Value::Unit),
        (Value::U8(1), Value::Unit),
    ]))));
}
