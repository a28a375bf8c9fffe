use attr_codec::num;
use attr_codec::ser;
use attr_codec::to_attribute_value;
use attr_codec::AttributeValue;
use attr_codec::Deserializer;
use attr_codec::Error;
use attr_codec::SerializerMap;
use attr_codec::Value;

#[test]
fn serialize_primitives() {
    assert_eq!(
        to_attribute_value(&Value::Bool(true)).unwrap(),
        AttributeValue::Bool(true)
    );
    assert_eq!(
        to_attribute_value(&Value::UInt(42)).unwrap(),
        AttributeValue::N(String::from("42"))
    );
    assert_eq!(
        to_attribute_value(&Value::Int(-7)).unwrap(),
        AttributeValue::N(String::from("-7"))
    );
    assert_eq!(
        to_attribute_value(&Value::Number(String::from("1.25"))).unwrap(),
        AttributeValue::N(String::from("1.25"))
    );
    assert_eq!(
        to_attribute_value(&Value::Str(String::from("hi"))).unwrap(),
        AttributeValue::S(String::from("hi"))
    );
    assert_eq!(
        to_attribute_value(&Value::Bytes(vec![1, 2, 3])).unwrap(),
        AttributeValue::B(vec![1, 2, 3])
    );
    assert_eq!(to_attribute_value(&Value::Null).unwrap(), AttributeValue::Null);
}

#[test]
fn serialize_integer_boundaries() {
    assert_eq!(num::u64_to_decimal(0), "0");
    assert_eq!(num::u64_to_decimal(10), "10");
    assert_eq!(
        num::u64_to_decimal(u64::MAX),
        "18446744073709551615"
    );
    assert_eq!(num::i64_to_decimal(0), "0");
    assert_eq!(num::i64_to_decimal(-1), "-1");
    assert_eq!(
        num::i64_to_decimal(i64::MIN),
        "-9223372036854775808"
    );
    assert_eq!(
        num::i64_to_decimal(i64::MAX),
        "9223372036854775807"
    );
}

#[test]
fn parse_integer_boundaries() {
    assert_eq!(num::parse_u64_str("18446744073709551615"), Ok(u64::MAX));
    assert_eq!(
        num::parse_u64_str("18446744073709551616"),
        Err(Error::NumberOutOfRange)
    );
    assert_eq!(num::parse_u64_str("0042"), Ok(42));
    assert_eq!(num::parse_u64_str("+42"), Ok(42));
    assert_eq!(num::parse_u64_str("++42"), Err(Error::NumberMalformed));
    assert_eq!(num::parse_i64_str("+42"), Ok(42));
    assert_eq!(num::parse_i64_str("-+42"), Err(Error::NumberMalformed));
    assert_eq!(num::parse_u64_str(""), Err(Error::NumberMalformed));
    assert_eq!(num::parse_u64_str("4x2"), Err(Error::NumberMalformed));
    assert_eq!(num::parse_i64_str("-9223372036854775808"), Ok(i64::MIN));
    assert_eq!(
        num::parse_i64_str("-9223372036854775809"),
        Err(Error::NumberOutOfRange)
    );
    assert_eq!(num::parse_i64_str("-0"), Ok(0));
    assert_eq!(num::parse_i64_str("-"), Err(Error::NumberMalformed));
}

#[test]
fn deserialize_number_boundaries() {
    // The precise fractional timestamp reads back as a float within
    // expected precision.
    let av = AttributeValue::N(String::from("1565723640.315001"));
    let text = Deserializer::from_attribute_value(&av)
        .deserialize_number_string()
        .unwrap();
    let f: f64 = text.parse().unwrap();
    assert!((f - 1565723640.315001f64).abs() < 1e-6);

    // A negative number fits the signed byte and is refused by the
    // unsigned one.
    let av = AttributeValue::N(String::from("-2"));
    assert_eq!(
        Deserializer::from_attribute_value(&av).deserialize_i8(),
        Ok(-2)
    );
    assert!(Deserializer::from_attribute_value(&av).deserialize_u8().is_err());

    // Range checks on the narrow widths.
    let av = AttributeValue::N(String::from("255"));
    assert_eq!(Deserializer::from_attribute_value(&av).deserialize_u8(), Ok(255));
    let av = AttributeValue::N(String::from("256"));
    assert_eq!(
        Deserializer::from_attribute_value(&av).deserialize_u8(),
        Err(Error::NumberOutOfRange)
    );
    let av = AttributeValue::N(String::from("-129"));
    assert_eq!(
        Deserializer::from_attribute_value(&av).deserialize_i8(),
        Err(Error::NumberOutOfRange)
    );

    // Exponent forms and a leading plus are valid number texts.
    let av = AttributeValue::N(String::from("1e5"));
    let text = Deserializer::from_attribute_value(&av)
        .deserialize_number_string()
        .unwrap();
    let f: f64 = text.parse().unwrap();
    assert_eq!(f, 1e5f64);
    let av = AttributeValue::N(String::from("+42"));
    assert_eq!(Deserializer::from_attribute_value(&av).deserialize_u8(), Ok(42));
}

#[test]
fn serialize_number_text_is_validated() {
    assert_eq!(
        to_attribute_value(&Value::Number(String::from("1.5e3"))).unwrap(),
        AttributeValue::N(String::from("1.5e3"))
    );
    assert_eq!(
        to_attribute_value(&Value::Number(String::from("not a number"))),
        Err(Error::NumberMalformed)
    );
    let nested = Value::List(vec![Value::UInt(1), Value::Number(String::from("x"))]);
    assert_eq!(to_attribute_value(&nested), Err(Error::NumberMalformed));
}

#[test]
fn round_trip_nested_value() {
    let value = Value::Object(vec![
        (
            Value::Str(String::from("id")),
            Value::Str(String::from("test-1")),
        ),
        (
            Value::Str(String::from("counts")),
            Value::List(vec![Value::UInt(1), Value::Int(-2), Value::Null]),
        ),
        (
            Value::Str(String::from("flags")),
            Value::Object(vec![(Value::Str(String::from("on")), Value::Bool(true))]),
        ),
        (
            Value::Str(String::from("blob")),
            Value::Bytes(vec![0, 255]),
        ),
        (
            Value::Str(String::from("rate")),
            Value::Number(String::from("0.5")),
        ),
    ]);
    let node = to_attribute_value(&value).unwrap();
    let back = Deserializer::from_attribute_value(&node).deserialize_any().unwrap();
    assert_eq!(back, value);
}

#[test]
fn serialize_map_key_must_be_string() {
    assert_eq!(
        ser::serialize_map_key(&Value::Str(String::from("k"))).unwrap(),
        "k"
    );
    assert_eq!(
        ser::serialize_map_key(&Value::UInt(1)),
        Err(Error::KeyMustBeAString)
    );
    let bad = Value::Object(vec![(Value::UInt(1), Value::Bool(true))]);
    assert_eq!(to_attribute_value(&bad), Err(Error::KeyMustBeAString));
    let nested_bad = Value::List(vec![bad]);
    assert_eq!(to_attribute_value(&nested_bad), Err(Error::KeyMustBeAString));
}

#[test]
fn serializer_map_replaces_duplicate_keys() {
    let mut sm = SerializerMap::new(Some(2));
    sm.serialize_entry(&Value::Str(String::from("k")), &Value::UInt(1))
        .unwrap();
    sm.serialize_entry(&Value::Str(String::from("j")), &Value::UInt(2))
        .unwrap();
    sm.serialize_entry(&Value::Str(String::from("k")), &Value::UInt(3))
        .unwrap();
    let node = sm.end();
    assert_eq!(
        node,
        AttributeValue::M(vec![
            (String::from("k"), AttributeValue::N(String::from("3"))),
            (String::from("j"), AttributeValue::N(String::from("2"))),
        ])
    );
}

#[test]
fn serialize_variant_shapes() {
    assert_eq!(
        to_attribute_value(&Value::UnitVariant(String::from("Unit"))).unwrap(),
        AttributeValue::S(String::from("Unit"))
    );
    assert_eq!(
        to_attribute_value(&Value::NewtypeVariant(
            String::from("Newtype"),
            Box::new(Value::UInt(1)),
        ))
        .unwrap(),
        AttributeValue::M(vec![(
            String::from("Newtype"),
            AttributeValue::N(String::from("1")),
        )])
    );
    assert_eq!(
        to_attribute_value(&Value::TupleVariant(
            String::from("Tuple"),
            vec![Value::UInt(1), Value::UInt(2)],
        ))
        .unwrap(),
        AttributeValue::M(vec![(
            String::from("Tuple"),
            AttributeValue::L(vec![
                AttributeValue::N(String::from("1")),
                AttributeValue::N(String::from("2")),
            ]),
        )])
    );
    assert_eq!(
        to_attribute_value(&Value::StructVariant(
            String::from("Structy"),
            vec![
                (String::from("one"), Value::UInt(1)),
                (String::from("two"), Value::UInt(2)),
            ],
        ))
        .unwrap(),
        AttributeValue::M(vec![(
            String::from("Structy"),
            AttributeValue::M(vec![
                (String::from("one"), AttributeValue::N(String::from("1"))),
                (String::from("two"), AttributeValue::N(String::from("2"))),
            ]),
        )])
    );
}

#[test]
fn enum_round_trip_scenarios() {
    // Unit variant: bare string both ways.
    let node = to_attribute_value(&Value::UnitVariant(String::from("Unit"))).unwrap();
    let (variant, payload) = Deserializer::from_attribute_value(&node).deserialize_enum().unwrap();
    assert_eq!(variant, "Unit");
    assert!(payload.is_none());

    // Newtype variant: single-entry map, payload read back.
    let node = to_attribute_value(&Value::NewtypeVariant(
        String::from("Newtype"),
        Box::new(Value::UInt(1)),
    ))
    .unwrap();
    let (variant, payload) = Deserializer::from_attribute_value(&node).deserialize_enum().unwrap();
    assert_eq!(variant, "Newtype");
    assert_eq!(payload.unwrap().deserialize_u8().unwrap(), 1);
}

#[test]
fn option_round_trip_scenarios() {
    // "none" serializes to the null marker and reads back as none.
    let node = to_attribute_value(&Value::Null).unwrap();
    assert!(Deserializer::from_attribute_value(&node).deserialize_option().is_none());

    // "some" serializes bare and reads back whole.
    let node = to_attribute_value(&Value::UInt(1)).unwrap();
    let inner = Deserializer::from_attribute_value(&node).deserialize_option().unwrap();
    assert_eq!(inner.deserialize_u8().unwrap(), 1);
}

#[test]
fn set_constructors() {
    assert_eq!(
        ser::to_string_set(vec![String::from("a"), String::from("b")]),
        AttributeValue::Ss(vec![String::from("a"), String::from("b")])
    );
    assert_eq!(
        ser::to_number_set(vec![String::from("1"), String::from("0.5")]).unwrap(),
        AttributeValue::Ns(vec![String::from("1"), String::from("0.5")])
    );
    assert_eq!(
        ser::to_number_set(vec![String::from("1"), String::from("x")]),
        Err(Error::NumberMalformed)
    );
    assert_eq!(
        ser::to_binary_set(vec![vec![1], vec![2, 3]]),
        AttributeValue::Bs(vec![vec![1], vec![2, 3]])
    );
}

#[test]
fn shape_mismatch_errors() {
    let string_node = AttributeValue::S(String::from("x"));
    let number_node = AttributeValue::N(String::from("1"));
    let bool_node = AttributeValue::Bool(true);

    assert_eq!(
        Deserializer::from_attribute_value(&string_node).deserialize_u8(),
        Err(Error::ExpectedNum)
    );
    assert_eq!(
        Deserializer::from_attribute_value(&number_node).deserialize_str(),
        Err(Error::ExpectedString)
    );
    assert_eq!(
        Deserializer::from_attribute_value(&string_node).deserialize_bool(),
        Err(Error::ExpectedBool)
    );
    assert_eq!(
        Deserializer::from_attribute_value(&string_node).deserialize_bytes(),
        Err(Error::ExpectedBytes)
    );
    assert!(matches!(
        Deserializer::from_attribute_value(&string_node).deserialize_seq(),
        Err(Error::ExpectedSeq)
    ));
    assert!(matches!(
        Deserializer::from_attribute_value(&string_node).deserialize_map(),
        Err(Error::ExpectedMap)
    ));
    assert_eq!(
        Deserializer::from_attribute_value(&number_node).deserialize_char(),
        Err(Error::ExpectedChar)
    );
    let two_chars = AttributeValue::S(String::from("ab"));
    assert_eq!(
        Deserializer::from_attribute_value(&two_chars).deserialize_char(),
        Err(Error::ExpectedChar)
    );
    assert_eq!(
        Deserializer::from_attribute_value(&bool_node).deserialize_unit(),
        Err(Error::ExpectedUnit)
    );
    assert_eq!(
        Deserializer::from_attribute_value(&bool_node).deserialize_unit_struct(),
        Err(Error::ExpectedUnitStruct)
    );
    assert!(matches!(
        Deserializer::from_attribute_value(&bool_node).deserialize_enum(),
        Err(Error::ExpectedEnum)
    ));
    let two_entry_map = AttributeValue::M(vec![
        (String::from("a"), AttributeValue::Null),
        (String::from("b"), AttributeValue::Null),
    ]);
    assert!(matches!(
        Deserializer::from_attribute_value(&two_entry_map).deserialize_enum(),
        Err(Error::ExpectedEnum)
    ));
    let garbage_number = AttributeValue::N(String::from("abc"));
    assert_eq!(
        Deserializer::from_attribute_value(&garbage_number).deserialize_any(),
        Err(Error::NumberMalformed)
    );
}

#[test]
fn error_messages_name_the_expectation() {
    assert_eq!(Error::ExpectedMap.message(), "expected a map node");
    assert_eq!(
        Error::KeyMustBeAString.message(),
        "map keys must serialize to strings"
    );
}

#[test]
fn deserialize_ignored_any_reads_and_discards() {
    let node = AttributeValue::L(vec![AttributeValue::N(String::from("1"))]);
    assert_eq!(
        Deserializer::from_attribute_value(&node).deserialize_ignored_any(),
        Ok(())
    );
    let bad = AttributeValue::L(vec![AttributeValue::N(String::from("x"))]);
    assert_eq!(
        Deserializer::from_attribute_value(&bad).deserialize_ignored_any(),
        Err(Error::NumberMalformed)
    );
}

#[test]
fn decimal_literal_grammar() {
    assert!(num::check_decimal_lit("1565723640.315001"));
    assert!(num::check_decimal_lit("-0.5"));
    assert!(num::check_decimal_lit("+0.5"));
    assert!(num::check_decimal_lit("7"));
    assert!(num::check_decimal_lit("1."));
    assert!(num::check_decimal_lit(".5"));
    assert!(num::check_decimal_lit("1e5"));
    assert!(num::check_decimal_lit("1.5E-10"));
    assert!(num::check_decimal_lit("-2.e+3"));
    assert!(!num::check_decimal_lit("1.2.3"));
    assert!(!num::check_decimal_lit("-"));
    assert!(!num::check_decimal_lit(""));
    assert!(!num::check_decimal_lit("."));
    assert!(!num::check_decimal_lit("1e"));
    assert!(!num::check_decimal_lit("e5"));
    assert!(!num::check_decimal_lit("1e5e5"));
    assert!(!num::check_decimal_lit("1e2.5"));
    assert!(!num::check_decimal_lit("inf"));
    assert!(!num::check_decimal_lit("NaN"));
}
