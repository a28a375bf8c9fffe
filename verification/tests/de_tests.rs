use attr_codec::AttributeValue;
use attr_codec::Deserializer;
use attr_codec::SeqKind;
use attr_codec::Value;

use chrono::{DateTime, Utc};
use std::collections::HashMap;

/// Deserialize a node self-describingly; the generic value it yields is the
/// hop every cross-format check goes through.
fn via_any(av: &AttributeValue) -> Value {
    Deserializer::from_attribute_value(av).deserialize_any().unwrap()
}

/// Read one generic value as a float, the way a float target does: native
/// integers widen, any other number parses from its decimal text.
fn value_to_f64(v: &Value) -> f64 {
    match v {
        Value::UInt(x) => *x as f64,
        Value::Int(x) => *x as f64,
        Value::Number(s) => s.parse().unwrap(),
        _ => panic!("not a number"),
    }
}

#[test]
fn deserialize_string() {
    let attribute_value = AttributeValue::S(String::from("Value"));

    let result: String = Deserializer::from_attribute_value(&attribute_value)
        .deserialize_string()
        .unwrap();

    assert_eq!(result, "Value");

    assert_eq!(via_any(&attribute_value).as_string().unwrap(), result);
}

#[test]
fn deserialize_num() {
    let attribute_value = AttributeValue::N(String::from("2"));
    let de = Deserializer::from_attribute_value(&attribute_value);
    assert_eq!(de.deserialize_u8().unwrap(), 2);
    assert_eq!(via_any(&attribute_value).as_u8().unwrap(), 2);
    assert_eq!(de.deserialize_u16().unwrap(), 2);
    assert_eq!(via_any(&attribute_value).as_u16().unwrap(), 2);
    assert_eq!(de.deserialize_u32().unwrap(), 2);
    assert_eq!(via_any(&attribute_value).as_u32().unwrap(), 2);
    assert_eq!(de.deserialize_u64().unwrap(), 2);
    assert_eq!(via_any(&attribute_value).as_u64().unwrap(), 2);

    let attribute_value = AttributeValue::N(String::from("-2"));
    let de = Deserializer::from_attribute_value(&attribute_value);
    assert_eq!(de.deserialize_i8().unwrap(), -2);
    assert_eq!(via_any(&attribute_value).as_i8().unwrap(), -2);
    assert_eq!(de.deserialize_i16().unwrap(), -2);
    assert_eq!(via_any(&attribute_value).as_i16().unwrap(), -2);
    assert_eq!(de.deserialize_i32().unwrap(), -2);
    assert_eq!(via_any(&attribute_value).as_i32().unwrap(), -2);
    assert_eq!(de.deserialize_i64().unwrap(), -2);
    assert_eq!(via_any(&attribute_value).as_i64().unwrap(), -2);

    let attribute_value = AttributeValue::N(String::from("1.1"));
    let text = Deserializer::from_attribute_value(&attribute_value)
        .deserialize_number_string()
        .unwrap();
    let single: f32 = text.parse().unwrap();
    assert_eq!(single, 1.1f32);
    let double: f64 = text.parse().unwrap();
    assert_eq!(double, 1.1f64);
}

#[test]
fn deserialize_bool() {
    let attribute_value = AttributeValue::Bool(true);
    let result: bool = Deserializer::from_attribute_value(&attribute_value)
        .deserialize_bool()
        .unwrap();
    assert_eq!(result, true);
    assert_eq!(via_any(&attribute_value).as_bool().unwrap(), true);

    let attribute_value = AttributeValue::Bool(false);
    let result: bool = Deserializer::from_attribute_value(&attribute_value)
        .deserialize_bool()
        .unwrap();
    assert_eq!(result, false);
    assert_eq!(via_any(&attribute_value).as_bool().unwrap(), false);
}

#[test]
fn deserialize_char() {
    let attribute_value = AttributeValue::S(String::from("🥳"));
    let result: char = Deserializer::from_attribute_value(&attribute_value)
        .deserialize_char()
        .unwrap();
    assert_eq!(result, '🥳');
    assert_eq!(via_any(&attribute_value).as_char().unwrap(), '🥳');
}

#[test]
fn deserialize_unit() {
    let attribute_value = AttributeValue::Null;
    let result: () = Deserializer::from_attribute_value(&attribute_value)
        .deserialize_unit()
        .unwrap();
    assert_eq!(result, ());
    assert_eq!(via_any(&attribute_value).as_unit().unwrap(), ());
}

#[test]
fn deserialize_option() {
    let attribute_value = AttributeValue::Null;
    let result = Deserializer::from_attribute_value(&attribute_value).deserialize_option();
    assert!(result.is_none());
    assert_eq!(via_any(&attribute_value), Value::Null);

    let attribute_value = AttributeValue::N(String::from("1"));
    let result = Deserializer::from_attribute_value(&attribute_value).deserialize_option();
    let inner: u8 = result.unwrap().deserialize_u8().unwrap();
    assert_eq!(inner, 1);
    assert_eq!(via_any(&attribute_value).as_u8().unwrap(), 1);
}

#[derive(Debug, Eq, PartialEq)]
struct StringSubject {
    value: String,
}

#[test]
fn deserialize_struct_with_string() {
    let attribute_value = AttributeValue::M(vec![(
        String::from("value"),
        AttributeValue::S(String::from("Value")),
    )]);

    let pairs = Deserializer::from_attribute_value(&attribute_value)
        .deserialize_struct()
        .unwrap();
    let field = AttributeValue::get_field(pairs, "value").unwrap();
    let s = StringSubject {
        value: Deserializer::from_attribute_value(field)
            .deserialize_string()
            .unwrap(),
    };
    assert_eq!(
        s,
        StringSubject {
            value: String::from("Value"),
        }
    );
    let any = via_any(&attribute_value);
    assert_eq!(
        any,
        Value::Object(vec![(
            Value::Str(String::from("value")),
            Value::Str(String::from("Value")),
        )])
    );
}

#[test]
fn deserialize_bytes() {
    let attribute_value = AttributeValue::M(vec![(
        String::from("value"),
        AttributeValue::B(vec![116, 101, 115, 116, 0, 0, 0, 0]),
    )]);

    let pairs = Deserializer::from_attribute_value(&attribute_value)
        .deserialize_map()
        .unwrap();
    let field = AttributeValue::get_field(pairs, "value").unwrap();
    let value = Deserializer::from_attribute_value(field)
        .deserialize_bytes()
        .unwrap();
    assert_eq!(value, vec![116, 101, 115, 116, 0, 0, 0, 0]);
}

#[test]
fn deserialize_byte_arrays() {
    let attribute_value = AttributeValue::M(vec![(
        String::from("value"),
        AttributeValue::Bs(vec![
            vec![116, 101, 115, 116, 0, 0, 0, 0],
            vec![2],
            vec![0, 0, 0, 0],
        ]),
    )]);

    let pairs = Deserializer::from_attribute_value(&attribute_value)
        .deserialize_map()
        .unwrap();
    let field = AttributeValue::get_field(pairs, "value").unwrap();
    let mut blobs: Vec<Vec<u8>> = Vec::new();
    match Deserializer::from_attribute_value(field).deserialize_seq().unwrap() {
        SeqKind::Binaries(mut access) => {
            while let Some(blob) = access.next_element() {
                blobs.push(blob);
            }
        },
        _ => panic!("expected the binary-set accessor"),
    }
    assert_eq!(
        blobs,
        vec![
            vec![116, 101, 115, 116, 0, 0, 0, 0],
            vec![2],
            vec![0, 0, 0, 0],
        ]
    );
}

#[derive(Debug, Eq, PartialEq)]
struct IdValueSubject {
    id: String,
    value: u64,
}

#[test]
fn deserialize_struct_with_aws_extra_data() {
    let attribute_value = AttributeValue::M(vec![
        (
            String::from("id"),
            AttributeValue::S(String::from("test-4")),
        ),
        (String::from("value"), AttributeValue::N(String::from("42"))),
        (
            String::from("aws:rep:deleting"),
            AttributeValue::Bool(false),
        ),
        (
            String::from("aws:rep:updateregion"),
            AttributeValue::S(String::from("us-west-2")),
        ),
        (
            String::from("aws:rep:updatetime"),
            AttributeValue::N(String::from("1565723640.315001")),
        ),
    ]);

    let pairs = Deserializer::from_attribute_value(&attribute_value)
        .deserialize_struct()
        .unwrap();
    let s = IdValueSubject {
        id: Deserializer::from_attribute_value(AttributeValue::get_field(pairs, "id").unwrap())
            .deserialize_string()
            .unwrap(),
        value: Deserializer::from_attribute_value(
            AttributeValue::get_field(pairs, "value").unwrap(),
        )
        .deserialize_u64()
        .unwrap(),
    };
    assert_eq!(
        s,
        IdValueSubject {
            id: String::from("test-4"),
            value: 42,
        }
    );
    let any = via_any(&attribute_value);
    match any {
        Value::Object(entries) => assert_eq!(entries.len(), 5),
        _ => panic!("expected an object"),
    }
}

#[test]
fn deserialize_array_of_struct_with_string() {
    let attribute_value = AttributeValue::L(vec![
        AttributeValue::M(vec![(
            String::from("value"),
            AttributeValue::S(String::from("1")),
        )]),
        AttributeValue::M(vec![(
            String::from("value"),
            AttributeValue::S(String::from("2")),
        )]),
        AttributeValue::M(vec![(
            String::from("value"),
            AttributeValue::S(String::from("3")),
        )]),
    ]);

    let mut subjects: Vec<StringSubject> = Vec::new();
    match Deserializer::from_attribute_value(&attribute_value).deserialize_seq().unwrap() {
        SeqKind::List(mut access) => {
            while let Some(element) = access.next_element().unwrap() {
                match element {
                    Value::Object(entries) => {
                        assert_eq!(entries.len(), 1);
                        assert_eq!(entries[0].0, Value::Str(String::from("value")));
                        match &entries[0].1 {
                            Value::Str(text) => subjects.push(StringSubject {
                                value: text.clone(),
                            }),
                            _ => panic!("expected a string field"),
                        }
                    },
                    _ => panic!("expected an object element"),
                }
            }
        },
        _ => panic!("expected the list accessor"),
    }
    assert_eq!(
        subjects,
        vec![
            StringSubject {
                value: String::from("1"),
            },
            StringSubject {
                value: String::from("2"),
            },
            StringSubject {
                value: String::from("3"),
            },
        ]
    );
    assert_eq!(
        via_any(&attribute_value),
        Value::List(vec![
            Value::Object(vec![(
                Value::Str(String::from("value")),
                Value::Str(String::from("1")),
            )]),
            Value::Object(vec![(
                Value::Str(String::from("value")),
                Value::Str(String::from("2")),
            )]),
            Value::Object(vec![(
                Value::Str(String::from("value")),
                Value::Str(String::from("3")),
            )]),
        ])
    );
}

#[test]
fn deserialize_list() {
    let attribute_value = AttributeValue::L(vec![
        AttributeValue::S(String::from("1")),
        AttributeValue::S(String::from("2")),
        AttributeValue::S(String::from("3")),
    ]);

    let mut s: Vec<String> = Vec::new();
    match Deserializer::from_attribute_value(&attribute_value).deserialize_seq().unwrap() {
        SeqKind::List(mut access) => {
            while let Some(element) = access.next_element().unwrap() {
                s.push(element.as_string().unwrap());
            }
        },
        _ => panic!("expected the list accessor"),
    }
    assert_eq!(s, vec!["1", "2", "3"]);
    assert_eq!(
        via_any(&attribute_value),
        Value::List(vec![
            Value::Str(String::from("1")),
            Value::Str(String::from("2")),
            Value::Str(String::from("3")),
        ])
    );
}

#[test]
fn deserialize_string_list() {
    let attribute_value = AttributeValue::Ss(vec![
        String::from("1"),
        String::from("2"),
        String::from("3"),
    ]);

    let mut v: Vec<String> = Vec::new();
    match Deserializer::from_attribute_value(&attribute_value).deserialize_seq().unwrap() {
        SeqKind::Strings(mut access) => {
            while let Some(element) = access.next_element() {
                v.push(element);
            }
        },
        _ => panic!("expected the string-set accessor"),
    }
    assert_eq!(v, vec!["1", "2", "3"]);
    assert_eq!(
        via_any(&attribute_value),
        Value::List(vec![
            Value::Str(String::from("1")),
            Value::Str(String::from("2")),
            Value::Str(String::from("3")),
        ])
    );
}

#[test]
fn deserialize_int_list() {
    let attribute_value = AttributeValue::Ns(vec![
        String::from("1"),
        String::from("2"),
        String::from("3"),
    ]);

    let mut v: Vec<u64> = Vec::new();
    match Deserializer::from_attribute_value(&attribute_value).deserialize_seq().unwrap() {
        SeqKind::Numbers(mut access) => {
            while let Some(element) = access.next_element().unwrap() {
                v.push(element.as_u64().unwrap());
            }
        },
        _ => panic!("expected the number-set accessor"),
    }
    assert_eq!(v, vec![1, 2, 3]);
    assert_eq!(
        via_any(&attribute_value),
        Value::List(vec![Value::UInt(1), Value::UInt(2), Value::UInt(3)])
    );
}

#[test]
fn deserialize_float_list() {
    let attribute_value = AttributeValue::Ns(vec![
        String::from("1"),
        String::from("2"),
        String::from("0.5"),
    ]);

    let mut v: Vec<f64> = Vec::new();
    match Deserializer::from_attribute_value(&attribute_value).deserialize_seq().unwrap() {
        SeqKind::Numbers(mut access) => {
            while let Some(element) = access.next_element().unwrap() {
                v.push(value_to_f64(&element));
            }
        },
        _ => panic!("expected the number-set accessor"),
    }
    assert_eq!(v.len(), 3);
    assert!(0.9 < v[0] && v[0] < 1.1);
    assert!(1.9 < v[1] && v[1] < 2.1);
    assert!(0.4 < v[2] && v[2] < 0.6);
}

#[derive(Debug, Eq, PartialEq)]
struct UnitSubject;

#[test]
fn deserialize_unit_struct() {
    let attribute_value = AttributeValue::Null;

    Deserializer::from_attribute_value(&attribute_value)
        .deserialize_unit_struct()
        .unwrap();
    let s = UnitSubject;
    assert_eq!(s, UnitSubject);

    assert_eq!(via_any(&attribute_value), Value::Null);
}

#[derive(Debug, Eq, PartialEq)]
struct NewtypeSubject(u8);

#[test]
fn deserialize_newtype_struct() {
    let attribute_value = AttributeValue::N(String::from("1"));

    let inner = Deserializer::from_attribute_value(&attribute_value).deserialize_newtype_struct();
    let s = NewtypeSubject(inner.deserialize_u8().unwrap());
    assert_eq!(s, NewtypeSubject(1));

    assert_eq!(via_any(&attribute_value).as_u8().unwrap(), 1);
}

#[derive(Debug, Eq, PartialEq)]
struct TupleSubject(u8, u8);

#[test]
fn deserialize_tuple_struct() {
    let attribute_value = AttributeValue::L(vec![
        AttributeValue::N(String::from("1")),
        AttributeValue::N(String::from("2")),
    ]);

    let s = match Deserializer::from_attribute_value(&attribute_value)
        .deserialize_tuple_struct(2)
        .unwrap()
    {
        SeqKind::List(mut access) => {
            let first = access.next_element().unwrap().unwrap().as_u8().unwrap();
            let second = access.next_element().unwrap().unwrap().as_u8().unwrap();
            assert!(access.next_element().unwrap().is_none());
            TupleSubject(first, second)
        },
        _ => panic!("expected the list accessor"),
    };
    assert_eq!(s, TupleSubject(1, 2));

    assert_eq!(
        via_any(&attribute_value),
        Value::List(vec![Value::UInt(1), Value::UInt(2)])
    );
}

#[test]
fn deserialize_tuple() {
    let attribute_value = AttributeValue::L(vec![
        AttributeValue::N(String::from("1")),
        AttributeValue::N(String::from("2")),
    ]);

    let s: (usize, usize) = match Deserializer::from_attribute_value(&attribute_value)
        .deserialize_tuple(2)
        .unwrap()
    {
        SeqKind::List(mut access) => {
            let first = access.next_element().unwrap().unwrap().as_u64().unwrap() as usize;
            let second = access.next_element().unwrap().unwrap().as_u64().unwrap() as usize;
            assert!(access.next_element().unwrap().is_none());
            (first, second)
        },
        _ => panic!("expected the list accessor"),
    };
    assert_eq!(s, (1, 2));

    assert_eq!(
        via_any(&attribute_value),
        Value::List(vec![Value::UInt(1), Value::UInt(2)])
    );
}

#[test]
fn deserialize_map_with_strings() {
    let attribute_value = AttributeValue::M(vec![
        (String::from("one"), AttributeValue::N(String::from("1"))),
        (String::from("two"), AttributeValue::N(String::from("2"))),
    ]);

    let pairs = Deserializer::from_attribute_value(&attribute_value)
        .deserialize_map()
        .unwrap();
    let mut s: HashMap<String, usize> = HashMap::new();
    for (key, value) in pairs.iter() {
        s.insert(
            key.clone(),
            Deserializer::from_attribute_value(value).deserialize_u64().unwrap() as usize,
        );
    }
    let mut expected: HashMap<String, usize> = HashMap::new();
    expected.insert(String::from("one"), 1);
    expected.insert(String::from("two"), 2);
    assert_eq!(s, expected);

    let any = via_any(&attribute_value);
    match any {
        Value::Object(entries) => assert_eq!(entries.len(), 2),
        _ => panic!("expected an object"),
    }
}

#[derive(Debug, Eq, PartialEq)]
enum EnumSubject {
    Unit,
    Newtype(u8),
    Tuple(u8, u8),
    Structy { one: u8, two: u8 },
}

#[test]
fn deserialize_enum_unit() {
    let attribute_value = AttributeValue::S(String::from("Unit"));

    let (variant, payload) = Deserializer::from_attribute_value(&attribute_value)
        .deserialize_enum()
        .unwrap();
    assert_eq!(variant, "Unit");
    assert!(payload.is_none());
    let s = EnumSubject::Unit;
    assert_eq!(s, EnumSubject::Unit);
}

#[test]
fn deserialize_enum_newtype() {
    let attribute_value = AttributeValue::M(vec![(
        String::from("Newtype"),
        AttributeValue::N(String::from("1")),
    )]);

    let (variant, payload) = Deserializer::from_attribute_value(&attribute_value)
        .deserialize_enum()
        .unwrap();
    assert_eq!(variant, "Newtype");
    let s = EnumSubject::Newtype(payload.unwrap().deserialize_u8().unwrap());
    assert_eq!(s, EnumSubject::Newtype(1));
}

#[test]
fn deserialize_enum_tuple() {
    let attribute_value = AttributeValue::M(vec![(
        String::from("Tuple"),
        AttributeValue::L(vec![
            AttributeValue::N(String::from("1")),
            AttributeValue::N(String::from("2")),
        ]),
    )]);

    let (variant, payload) = Deserializer::from_attribute_value(&attribute_value)
        .deserialize_enum()
        .unwrap();
    assert_eq!(variant, "Tuple");
    let s = match payload.unwrap().deserialize_tuple(2).unwrap() {
        SeqKind::List(mut access) => {
            let first = access.next_element().unwrap().unwrap().as_u8().unwrap();
            let second = access.next_element().unwrap().unwrap().as_u8().unwrap();
            EnumSubject::Tuple(first, second)
        },
        _ => panic!("expected the list accessor"),
    };
    assert_eq!(s, EnumSubject::Tuple(1, 2));
}

#[test]
fn deserialize_enum_struct_variant() {
    let attribute_value = AttributeValue::M(vec![(
        String::from("Structy"),
        AttributeValue::M(vec![
            (String::from("one"), AttributeValue::N(String::from("1"))),
            (String::from("two"), AttributeValue::N(String::from("2"))),
        ]),
    )]);

    let (variant, payload) = Deserializer::from_attribute_value(&attribute_value)
        .deserialize_enum()
        .unwrap();
    assert_eq!(variant, "Structy");
    let fields = payload.unwrap().deserialize_struct().unwrap();
    let s = EnumSubject::Structy {
        one: Deserializer::from_attribute_value(AttributeValue::get_field(fields, "one").unwrap())
            .deserialize_u8()
            .unwrap(),
        two: Deserializer::from_attribute_value(AttributeValue::get_field(fields, "two").unwrap())
            .deserialize_u8()
            .unwrap(),
    };
    assert_eq!(s, EnumSubject::Structy { one: 1, two: 2 });
}

#[derive(Debug, Eq, PartialEq)]
enum TaggedSubject {
    One { one: u64 },
    Two { two: u8 },
}

#[test]
fn deserialize_internally_tagged_enum() {
    let attribute_value = AttributeValue::M(vec![
        (String::from("type"), AttributeValue::S(String::from("One"))),
        (String::from("one"), AttributeValue::N(String::from("1"))),
    ]);

    // An internally tagged variant reads through the plain map request: the
    // discriminant is one more entry, consumed first.
    let pairs = Deserializer::from_attribute_value(&attribute_value)
        .deserialize_map()
        .unwrap();
    let tag = Deserializer::from_attribute_value(AttributeValue::get_field(pairs, "type").unwrap())
        .deserialize_identifier()
        .unwrap();
    let s = match tag.as_str() {
        "One" => TaggedSubject::One {
            one: Deserializer::from_attribute_value(
                AttributeValue::get_field(pairs, "one").unwrap(),
            )
            .deserialize_u64()
            .unwrap(),
        },
        "Two" => TaggedSubject::Two {
            two: Deserializer::from_attribute_value(
                AttributeValue::get_field(pairs, "two").unwrap(),
            )
            .deserialize_u8()
            .unwrap(),
        },
        _ => panic!("unknown variant"),
    };
    assert_eq!(s, TaggedSubject::One { one: 1 });
}

#[test]
fn deserialize_chrono_datetime() {
    let attribute_value = AttributeValue::S(String::from("1985-04-21T18:34:13.449057039Z"));

    let text = Deserializer::from_attribute_value(&attribute_value)
        .deserialize_str()
        .unwrap();
    let s: DateTime<Utc> = DateTime::parse_from_rfc3339(&text).unwrap().with_timezone(&Utc);
    assert_eq!(
        s,
        DateTime::parse_from_rfc3339("1985-04-21T18:34:13.449057039Z")
            .unwrap()
            .with_timezone(&Utc)
    );

    assert_eq!(
        via_any(&attribute_value).as_string().unwrap(),
        "1985-04-21T18:34:13.449057039Z"
    );
}
