use neo4j_bridge::errors::ConversionFault;
use neo4j_bridge::errors::PathSeg;
use neo4j_bridge::host::HostKey;
use neo4j_bridge::host::HostNumber;
use neo4j_bridge::host::HostValue;
use neo4j_bridge::mapper::host_to_value;
use neo4j_bridge::mapper::i64_to_dec;
use neo4j_bridge::mapper::rows_fit_check;
use neo4j_bridge::mapper::rows_to_host;
use neo4j_bridge::mapper::value_to_host;
use neo4j_bridge::value::Row;
use neo4j_bridge::value::Value;

/// A host number as it arrives from the host boundary: whole-valued numbers
/// become integers, others carry their bits.
fn classify(x: f64) -> HostNumber {
    if x.fract() == 0.0 {
        HostNumber::Whole(x as i64)
    } else {
        HostNumber::Fractional(x.to_bits())
    }
}

fn skey(k: &str) -> HostKey {
    HostKey::Str(k.to_string())
}

#[test]
fn round_trip_record_with_integer_valued_float() {
    // {a: 1, b: 1.0}: after the round trip both are the integer 1.
    let table = HostValue::Table(vec![
        (skey("a"), HostValue::Num(classify(1.0_f64))),
        (skey("b"), HostValue::Num(HostNumber::Whole(1))),
    ]);
    let v = host_to_value(&table).unwrap();
    let back = value_to_host(&v);
    let expected = HostValue::Table(vec![
        (skey("a"), HostValue::Num(HostNumber::Whole(1))),
        (skey("b"), HostValue::Num(HostNumber::Whole(1))),
    ]);
    assert_eq!(back, expected);
}

#[test]
fn round_trip_nested_composite() {
    let inner_list = HostValue::Table(vec![
        (HostKey::Int(1), HostValue::Str("x".to_string())),
        (HostKey::Int(2), HostValue::Bool(true)),
        (HostKey::Int(3), HostValue::Num(classify(2.5_f64))),
    ]);
    let table = HostValue::Table(vec![
        (skey("items"), inner_list),
        (skey("name"), HostValue::Str("neo".to_string())),
        (skey("count"), HostValue::Num(HostNumber::Whole(-3))),
    ]);
    let v = host_to_value(&table).unwrap();
    let back = value_to_host(&v);
    let expected_inner = HostValue::Table(vec![
        (HostKey::Int(1), HostValue::Str("x".to_string())),
        (HostKey::Int(2), HostValue::Bool(true)),
        (HostKey::Int(3), HostValue::Num(HostNumber::Fractional(2.5_f64.to_bits()))),
    ]);
    let expected = HostValue::Table(vec![
        (skey("items"), expected_inner),
        (skey("name"), HostValue::Str("neo".to_string())),
        (skey("count"), HostValue::Num(HostNumber::Whole(-3))),
    ]);
    assert_eq!(back, expected);
}

#[test]
fn sequential_table_becomes_list_ordered_by_key() {
    // Entries arrive in scrambled order; the list is ordered by key.
    let table = HostValue::Table(vec![
        (HostKey::Int(2), HostValue::Str("b".to_string())),
        (HostKey::Int(1), HostValue::Str("a".to_string())),
    ]);
    let v = host_to_value(&table).unwrap();
    assert_eq!(
        v,
        Value::List(vec![Value::Str("a".to_string()), Value::Str("b".to_string())])
    );
}

#[test]
fn non_sequential_integer_keys_become_stringified_map_keys() {
    let table = HostValue::Table(vec![
        (HostKey::Int(1), HostValue::Str("a".to_string())),
        (HostKey::Int(5), HostValue::Str("b".to_string())),
    ]);
    let v = host_to_value(&table).unwrap();
    assert_eq!(
        v,
        Value::Mapping(vec![
            ("1".to_string(), Value::Str("a".to_string())),
            ("5".to_string(), Value::Str("b".to_string())),
        ])
    );
}

#[test]
fn empty_table_becomes_empty_list() {
    let v = host_to_value(&HostValue::Table(vec![])).unwrap();
    assert_eq!(v, Value::List(vec![]));
}

#[test]
fn unsupported_value_error_names_the_type() {
    let table = HostValue::Table(vec![
        (skey("p"), HostValue::Unsupported("function".to_string())),
    ]);
    let err = host_to_value(&table).unwrap_err();
    assert_eq!(err.fault, ConversionFault::UnsupportedValue("function".to_string()));
    assert_eq!(err.path, vec![PathSeg::Key("p".to_string())]);
}

#[test]
fn unsupported_key_error_names_the_type() {
    let table = HostValue::Table(vec![
        (HostKey::Unsupported("table".to_string()), HostValue::Bool(true)),
    ]);
    let err = host_to_value(&table).unwrap_err();
    assert_eq!(err.fault, ConversionFault::UnsupportedKey("table".to_string()));
    assert_eq!(err.path, Vec::<PathSeg>::new());
}

#[test]
fn nested_error_carries_the_full_path() {
    let inner = HostValue::Table(vec![
        (skey("b"), HostValue::Unsupported("userdata".to_string())),
    ]);
    let table = HostValue::Table(vec![(skey("a"), inner)]);
    let err = host_to_value(&table).unwrap_err();
    assert_eq!(err.fault, ConversionFault::UnsupportedValue("userdata".to_string()));
    assert_eq!(
        err.path,
        vec![PathSeg::Key("a".to_string()), PathSeg::Key("b".to_string())]
    );
}

#[test]
fn list_error_carries_the_position() {
    let table = HostValue::Table(vec![
        (HostKey::Int(1), HostValue::Bool(true)),
        (HostKey::Int(2), HostValue::Unsupported("thread".to_string())),
    ]);
    let err = host_to_value(&table).unwrap_err();
    assert_eq!(err.fault, ConversionFault::UnsupportedValue("thread".to_string()));
    assert_eq!(err.path, vec![PathSeg::Index(2)]);
}

#[test]
fn nesting_beyond_the_bound_is_refused() {
    let mut v = HostValue::Bool(true);
    for _ in 0..65 {
        v = HostValue::Table(vec![(skey("k"), v)]);
    }
    let err = host_to_value(&v).unwrap_err();
    assert_eq!(err.fault, ConversionFault::DepthExceeded);
}

#[test]
fn nesting_within_the_bound_is_accepted() {
    let mut v = HostValue::Bool(true);
    for _ in 0..64 {
        v = HostValue::Table(vec![(skey("k"), v)]);
    }
    assert!(host_to_value(&v).is_ok());
}

#[test]
fn integer_keys_render_in_decimal() {
    assert_eq!(i64_to_dec(0), "0");
    assert_eq!(i64_to_dec(7), "7");
    assert_eq!(i64_to_dec(42), "42");
    assert_eq!(i64_to_dec(1203), "1203");
    assert_eq!(i64_to_dec(-15), "-15");
    assert_eq!(i64_to_dec(i64::MAX), "9223372036854775807");
    assert_eq!(i64_to_dec(i64::MIN), "-9223372036854775808");
}

#[test]
fn node_flattens_to_its_property_map() {
    // A returned node with property x = 5 is observed as a table {x: 5}.
    let node = Value::Node(vec![("x".to_string(), Value::Int(5))]);
    let back = value_to_host(&node);
    assert_eq!(
        back,
        HostValue::Table(vec![(skey("x"), HostValue::Num(HostNumber::Whole(5)))])
    );
}

#[test]
fn relationship_flattens_and_null_becomes_nil() {
    let rel = Value::Relationship(vec![("since".to_string(), Value::Int(2020))]);
    assert_eq!(
        value_to_host(&rel),
        HostValue::Table(vec![(skey("since"), HostValue::Num(HostNumber::Whole(2020)))])
    );
    assert_eq!(value_to_host(&Value::Null), HostValue::Nil);
}

#[test]
fn engine_list_becomes_table_keyed_from_one() {
    let v = Value::List(vec![Value::Int(10), Value::Str("y".to_string())]);
    assert_eq!(
        value_to_host(&v),
        HostValue::Table(vec![
            (HostKey::Int(1), HostValue::Num(HostNumber::Whole(10))),
            (HostKey::Int(2), HostValue::Str("y".to_string())),
        ])
    );
}

#[test]
fn rows_convert_in_order() {
    let rows = vec![
        Row { cols: vec![("n".to_string(), Value::Int(1))] },
        Row { cols: vec![("n".to_string(), Value::Int(2))] },
    ];
    let out = rows_to_host(&rows);
    assert_eq!(out.len(), 2);
    assert_eq!(
        out[0],
        HostValue::Table(vec![(skey("n"), HostValue::Num(HostNumber::Whole(1)))])
    );
    assert_eq!(
        out[1],
        HostValue::Table(vec![(skey("n"), HostValue::Num(HostNumber::Whole(2)))])
    );
}

#[test]
fn materialized_rows_fit_the_host_keys() {
    let rows = vec![Row {
        cols: vec![(
            "xs".to_string(),
            Value::List(vec![Value::Int(1), Value::List(vec![Value::Bool(false)])]),
        )],
    }];
    assert!(rows_fit_check(&rows));
}

#[test]
fn float_bits_pass_through_unchanged() {
    let x = 3.25_f64;
    let table = HostValue::Table(vec![(skey("f"), HostValue::Num(classify(x)))]);
    let v = host_to_value(&table).unwrap();
    match v {
        Value::Mapping(entries) => {
            assert_eq!(entries[0].0, "f");
            assert_eq!(entries[0].1, Value::Float(x.to_bits()));
            assert_eq!(f64::from_bits(x.to_bits()), 3.25_f64);
        }
        other => panic!("expected a map, got {:?}", other),
    }
}
