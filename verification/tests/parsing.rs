use edres::error::Error;
use edres::options::{FloatSize, IntSize, ParseOptions};
use edres::parsing::{
    array_or_vec, parse_value, parse_value_non_unified, preferred_float, preferred_int,
    unify_value, unify_values, RawFloat, RawNumber, RawValue,
};
use edres::value::{Decimal, Struct, Value};

fn decimal(text: String) -> Decimal {
    Decimal::parse(&text).unwrap()
}

fn raw_float(x: f64) -> RawFloat {
    let narrow = if x >= (f32::MIN as f64) && x <= (f32::MAX as f64) {
        Some(decimal(format!("{}", x as f32)))
    } else {
        None
    };
    RawFloat {
        wide: decimal(format!("{}", x)),
        narrow,
    }
}

fn f32_value(x: f32) -> Value {
    Value::F32(decimal(format!("{}", x)))
}

fn f64_value(x: f64) -> Value {
    Value::F64(decimal(format!("{}", x)))
}

fn record(pairs: Vec<(&str, Value)>) -> Struct {
    Struct::from_pairs(pairs.into_iter().map(|(k, v)| (k.to_string(), v)).collect())
}

fn from_json(value: serde_json::Value) -> RawValue {
    match value {
        serde_json::Value::Null => RawValue::Null,
        serde_json::Value::Bool(x) => RawValue::Bool(x),
        serde_json::Value::Number(x) => {
            RawValue::Number(match (x.as_i64(), x.as_u64(), x.as_f64()) {
                (Some(i), _, _) => RawNumber::Integer(i as i128),
                (None, Some(u), _) => RawNumber::Integer(u as i128),
                (None, None, Some(f)) => RawNumber::Float(raw_float(f)),
                _ => RawNumber::Unreadable,
            })
        }
        serde_json::Value::String(x) => RawValue::String(x),
        serde_json::Value::Array(items) => {
            RawValue::Sequence(items.into_iter().map(from_json).collect())
        }
        serde_json::Value::Object(entries) => RawValue::Mapping(
            entries
                .into_iter()
                .map(|(k, v)| (RawValue::String(k), from_json(v)))
                .collect(),
        ),
    }
}

fn from_yaml(value: serde_yaml::Value) -> RawValue {
    match value {
        serde_yaml::Value::Null => RawValue::Null,
        serde_yaml::Value::Bool(x) => RawValue::Bool(x),
        serde_yaml::Value::Number(x) => RawValue::Number(if x.is_f64() {
            RawNumber::Float(raw_float(x.as_f64().unwrap()))
        } else if x.is_i64() {
            RawNumber::Integer(x.as_i64().unwrap() as i128)
        } else {
            RawNumber::Integer(x.as_u64().unwrap() as i128)
        }),
        serde_yaml::Value::String(x) => RawValue::String(x),
        serde_yaml::Value::Sequence(items) => {
            RawValue::Sequence(items.into_iter().map(from_yaml).collect())
        }
        serde_yaml::Value::Mapping(entries) => RawValue::Mapping(
            entries
                .into_iter()
                .map(|(k, v)| (from_yaml(k), from_yaml(v)))
                .collect(),
        ),
        serde_yaml::Value::Tagged(tagged) => from_yaml(tagged.value),
    }
}

fn from_toml(value: toml::Value) -> RawValue {
    match value {
        toml::Value::Boolean(x) => RawValue::Bool(x),
        toml::Value::Integer(x) => RawValue::Number(RawNumber::Integer(x as i128)),
        toml::Value::Float(x) => RawValue::Number(RawNumber::Float(raw_float(x))),
        toml::Value::String(x) => RawValue::String(x),
        toml::Value::Datetime(x) => RawValue::String(x.to_string()),
        toml::Value::Array(items) => {
            RawValue::Sequence(items.into_iter().map(from_toml).collect())
        }
        toml::Value::Table(entries) => RawValue::Mapping(
            entries
                .into_iter()
                .map(|(k, v)| (RawValue::String(k), from_toml(v)))
                .collect(),
        ),
    }
}

#[test]
fn json_value_conversion() {
    let json_source = r#"{
        "root_mapping": {
            "null_field": null,
            "bool_field": true,
            "signed_field": -100,
            "big_field": 18446744073709551615,
            "float_field": 2.5,
            "string_field": "hello",
            "sequence": [1, 2, 3]
        }
    }"#;

    let expected = Value::Struct(record(vec![(
        "root_mapping",
        Value::Struct(record(vec![
            ("null_field", Value::Option(None)),
            ("bool_field", Value::Bool(true)),
            ("signed_field", Value::I64(-100)),
            ("big_field", Value::I128(18446744073709551615)),
            ("float_field", f64_value(2.5)),
            ("string_field", Value::String("hello".into())),
            (
                "sequence",
                Value::Vec(vec![Value::I64(1), Value::I64(2), Value::I64(3)]),
            ),
        ])),
    )]));

    let value: serde_json::Value = serde_json::from_str(json_source).unwrap();
    let value = parse_value_non_unified(&from_json(value), &Default::default()).unwrap();

    assert_eq!(value, expected);
}

#[test]
fn toml_value_conversion() {
    let toml_source = r#"
        [root_table]
        bool_field = true
        int_field = 1000
        float_field = 2.5
        string_field = "hello"
        datetime_field = 2022-12-22T22:22:22Z
        array_field = [1, 2, 3]
    "#;

    let expected = Value::Struct(record(vec![(
        "root_table",
        Value::Struct(record(vec![
            ("bool_field", Value::Bool(true)),
            ("int_field", Value::I64(1000)),
            ("float_field", f64_value(2.5)),
            ("string_field", Value::String("hello".into())),
            (
                "datetime_field",
                Value::String("2022-12-22T22:22:22Z".into()),
            ),
            (
                "array_field",
                Value::Vec(vec![Value::I64(1), Value::I64(2), Value::I64(3)]),
            ),
        ])),
    )]));

    let value: toml::Value = toml::from_str(toml_source).unwrap();
    let value = parse_value_non_unified(&from_toml(value), &Default::default()).unwrap();

    assert_eq!(value, expected);
}

#[test]
fn yaml_value_conversion() {
    let yaml_source = r#"
        root_mapping:
            null_field: null
            bool_field: true
            signed_field: -100
            big_field: 18446744073709551615
            float_field: 2.5
            string_field: "hello"
            sequence:
              - 1
              - 2
              - 3
            tagged: !Nice 69
        "#;

    let expected = Value::Struct(record(vec![(
        "root_mapping",
        Value::Struct(record(vec![
            ("null_field", Value::Option(None)),
            ("bool_field", Value::Bool(true)),
            ("signed_field", Value::I64(-100)),
            ("big_field", Value::I128(18446744073709551615)),
            ("float_field", f64_value(2.5)),
            ("string_field", Value::String("hello".into())),
            (
                "sequence",
                Value::Vec(vec![Value::I64(1), Value::I64(2), Value::I64(3)]),
            ),
            ("tagged", Value::I64(69)),
        ])),
    )]));

    let value: serde_yaml::Value = serde_yaml::from_str(yaml_source).unwrap();
    let value = parse_value_non_unified(&from_yaml(value), &Default::default()).unwrap();

    assert_eq!(value, expected);
}

#[test]
fn max_array_size() {
    let u = Value::Unit;
    assert_eq!(
        array_or_vec(vec![u.clone(); 3], None),
        Value::Vec(vec![u.clone(); 3])
    );
    assert_eq!(
        array_or_vec(vec![u.clone(); 3], Some(3)),
        Value::Array(3, vec![u.clone(); 3])
    );
    assert_eq!(
        array_or_vec(vec![u.clone(); 4], Some(3)),
        Value::Vec(vec![u.clone(); 4])
    );
}

#[test]
fn correct_preferred_int() {
    assert_eq!(preferred_int(-1, IntSize::I32), Value::I32(-1));
    assert_eq!(preferred_int(1, IntSize::I64), Value::I64(1));
    assert_eq!(preferred_int(129, IntSize::I8), Value::I16(129));
    assert_eq!(preferred_int(65537, IntSize::I16), Value::I32(65537));
}

#[test]
fn correct_preferred_float() {
    assert_eq!(
        preferred_float(&raw_float(2.5), FloatSize::F32),
        f32_value(2.5)
    );
    assert_eq!(
        preferred_float(&raw_float(2.5), FloatSize::F64),
        f64_value(2.5)
    );
    assert_eq!(
        preferred_float(&raw_float((f32::MAX as f64) * 2.0), FloatSize::F32),
        f64_value((f32::MAX as f64) * 2.0)
    );
}

#[test]
fn unify_scalar_value_is_neutral() {
    let vals = [
        Value::Unit,
        Value::Bool(true),
        Value::Char('a'),
        Value::I8(1),
        Value::I16(1),
        Value::I32(1),
        Value::I64(1),
        Value::I128(1),
        Value::ISize(1),
        Value::U8(2),
        Value::U16(2),
        Value::U32(2),
        Value::U64(2),
        Value::U128(2),
        Value::USize(2),
        f32_value(3.0),
        f64_value(4.0),
    ];

    for mut val in vals {
        let expected = val.clone();
        unify_value(&mut val).unwrap();
        assert_eq!(val, expected);
    }
}

fn some(v: Value) -> Value {
    Value::Option(Some(Box::new(v)))
}

#[test]
fn unify_recursively_in_struct_fields() {
    let mut value = Value::Struct(record(vec![
        ("vec", Value::Vec(vec![Value::Unit, some(Value::Unit)])),
        (
            "array",
            Value::Array(2, vec![Value::Unit, some(Value::Unit)]),
        ),
    ]));
    unify_value(&mut value).unwrap();

    let expected = Value::Struct(record(vec![
        (
            "vec",
            Value::Vec(vec![some(Value::Unit), some(Value::Unit)]),
        ),
        (
            "array",
            Value::Array(2, vec![some(Value::Unit), some(Value::Unit)]),
        ),
    ]));
    assert_eq!(value, expected);
}

#[test]
fn unify_option_types() {
    let cases = [
        (
            vec![Value::Unit, some(Value::Unit)],
            vec![some(Value::Unit), some(Value::Unit)],
        ),
        (
            vec![Value::Option(Some(Box::new(Value::Vec(vec![
                Value::Unit,
                some(Value::Unit),
            ]))))],
            vec![Value::Option(Some(Box::new(Value::Vec(vec![
                some(Value::Unit),
                some(Value::Unit),
            ]))))],
        ),
        (
            vec![Value::Vec(vec![Value::Unit, some(Value::Unit)])],
            vec![Value::Vec(vec![some(Value::Unit), some(Value::Unit)])],
        ),
        (
            vec![Value::Array(2, vec![Value::Unit, some(Value::Unit)])],
            vec![Value::Array(2, vec![some(Value::Unit), some(Value::Unit)])],
        ),
        (
            vec![Value::Tuple(vec![
                Value::Vec(vec![Value::Unit, some(Value::Unit)]),
                Value::Unit,
            ])],
            vec![Value::Tuple(vec![
                Value::Vec(vec![some(Value::Unit), some(Value::Unit)]),
                Value::Unit,
            ])],
        ),
    ];

    for (mut inputs, expected) in cases {
        unify_values(&mut inputs).unwrap();
        assert_eq!(inputs, expected);
    }
}

#[test]
fn assume_struct() {
    let bads = [
        Value::Unit,
        Value::Bool(true),
        Value::Char('a'),
        Value::I8(1),
        Value::I16(2),
        Value::I32(3),
        Value::I64(4),
        Value::I128(5),
        Value::ISize(6),
        Value::U8(7),
        Value::U16(8),
        Value::U32(9),
        Value::U64(10),
        Value::U128(11),
        Value::USize(12),
        f32_value(13.0),
        f64_value(14.0),
        Value::String("String".into()),
        Value::Option(None),
        Value::Tuple(vec![Value::Unit]),
        Value::Array(1, vec![Value::Unit]),
        Value::Vec(vec![Value::Unit]),
    ];
    let good = Value::Struct(record(vec![("key", Value::Unit)]));

    assert!(good.assume_struct().is_ok());
    for bad in bads {
        assert!(bad.assume_struct().is_err());
    }
}

#[test]
fn assume_struct_names_the_kind() {
    assert_eq!(
        Value::I8(1).assume_struct(),
        Err(Error::ExpectedStruct("i8"))
    );
    assert_eq!(
        Value::Vec(vec![]).assume_struct(),
        Err(Error::ExpectedStruct("Vec"))
    );
    assert_eq!(
        f32_value(1.5).assume_struct(),
        Err(Error::ExpectedStruct("f32"))
    );
}

#[test]
fn test_non_string_keys() {
    let document = RawValue::Mapping(vec![(
        RawValue::Number(RawNumber::Integer(100)),
        RawValue::String("One hundred".into()),
    )]);
    let result = parse_value(&document, &ParseOptions::default());
    assert!(result.is_err());
    assert_eq!(result, Err(Error::ExpectedStringKey));
}

#[test]
fn unreadable_number_is_an_error() {
    let document = RawValue::Sequence(vec![
        RawValue::Bool(true),
        RawValue::Number(RawNumber::Unreadable),
        RawValue::Mapping(vec![(RawValue::Null, RawValue::Null)]),
    ]);
    assert_eq!(
        parse_value_non_unified(&document, &ParseOptions::default()),
        Err(Error::ErrorParsingNumber)
    );
}

#[test]
fn first_fault_of_a_mapping_wins() {
    let document = RawValue::Mapping(vec![
        (RawValue::String("a".into()), RawValue::Bool(true)),
        (RawValue::Bool(false), RawValue::Number(RawNumber::Unreadable)),
        (
            RawValue::String("b".into()),
            RawValue::Number(RawNumber::Unreadable),
        ),
    ]);
    assert_eq!(
        parse_value_non_unified(&document, &ParseOptions::default()),
        Err(Error::ExpectedStringKey)
    );
}

#[test]
fn array_threshold_boundary() {
    let options = ParseOptions {
        max_array_size: Some(3),
        ..ParseOptions::new()
    };
    let one = || RawValue::Number(RawNumber::Integer(1));
    let three = RawValue::Sequence(vec![one(), one(), one()]);
    let four = RawValue::Sequence(vec![one(), one(), one(), one()]);
    assert_eq!(
        parse_value(&three, &options).unwrap(),
        Value::Array(3, vec![Value::I64(1); 3])
    );
    assert_eq!(
        parse_value(&four, &options).unwrap(),
        Value::Vec(vec![Value::I64(1); 4])
    );
    assert_eq!(
        parse_value(&three, &ParseOptions::new()).unwrap(),
        Value::Vec(vec![Value::I64(1); 3])
    );
    assert_eq!(
        parse_value(&RawValue::Sequence(vec![]), &options).unwrap(),
        Value::Array(0, vec![])
    );
}

#[test]
fn optional_unification_of_scalar_and_null() {
    let document = RawValue::Sequence(vec![
        RawValue::Number(RawNumber::Integer(7)),
        RawValue::Null,
    ]);
    assert_eq!(
        parse_value(&document, &ParseOptions::new()).unwrap(),
        Value::Vec(vec![some(Value::I64(7)), Value::Option(None)])
    );
    assert_eq!(
        parse_value_non_unified(&document, &ParseOptions::new()).unwrap(),
        Value::Vec(vec![Value::I64(7), Value::Option(None)])
    );
}

#[test]
fn preferred_int_promotes_to_the_next_width_that_holds() {
    assert_eq!(preferred_int(127, IntSize::I8), Value::I8(127));
    assert_eq!(preferred_int(128, IntSize::I8), Value::I16(128));
    assert_eq!(preferred_int(-129, IntSize::I8), Value::I16(-129));
    assert_eq!(preferred_int(32768, IntSize::I8), Value::I32(32768));
    assert_eq!(preferred_int(2147483648, IntSize::I8), Value::I64(2147483648));
    assert_eq!(
        preferred_int(9223372036854775808, IntSize::I8),
        Value::I128(9223372036854775808)
    );
    assert_eq!(preferred_int(5, IntSize::I128), Value::I128(5));
    assert_eq!(preferred_int(5, IntSize::ISize), Value::ISize(5));
    assert_eq!(
        preferred_int(i128::MAX, IntSize::ISize),
        Value::I128(i128::MAX)
    );
    assert_eq!(
        preferred_int(i128::MIN, IntSize::I64),
        Value::I128(i128::MIN)
    );
}

#[test]
fn later_entry_with_the_same_key_replaces_the_value_in_place() {
    let document = RawValue::Mapping(vec![
        (RawValue::String("a".into()), RawValue::Bool(true)),
        (RawValue::String("b".into()), RawValue::Bool(true)),
        (RawValue::String("a".into()), RawValue::Bool(false)),
    ]);
    assert_eq!(
        parse_value(&document, &ParseOptions::new()).unwrap(),
        Value::Struct(record(vec![
            ("a", Value::Bool(false)),
            ("b", Value::Bool(true)),
        ]))
    );
    let direct = Struct::from_pairs(vec![
        ("x".to_string(), Value::I8(1)),
        ("y".to_string(), Value::I8(2)),
        ("x".to_string(), Value::I8(3)),
    ]);
    assert_eq!(
        *direct.entries(),
        vec![
            ("x".to_string(), Value::I8(3)),
            ("y".to_string(), Value::I8(2)),
        ]
    );
}

#[test]
fn decimal_reads_numerals_only() {
    for good in ["0", "2", "-5", "123.456789", "-0.5", "340282350000000000000000000000000000000"] {
        assert_eq!(Decimal::parse(good).unwrap().as_str(), good);
    }
    for bad in ["", "-", ".5", "5.", "1.2.3", "1e5", "inf", "NaN", "+1", "1 ", "--1", "1-"] {
        assert!(Decimal::parse(bad).is_none(), "{:?}", bad);
    }
}
