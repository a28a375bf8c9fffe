//! The generic structured value the codec serializes from and deserializes
//! into: the self-describing side of the codec. Numbers keep their native
//! integer form where one exists; any other number keeps its decimal text.
//! Sum-type values carry their variant name and payload shape explicitly, so
//! the engine can apply the variant representation convention.

use vstd::prelude::*;

use crate::error::Error;
use crate::num::{i64_result, is_decimal_lit, u64_result};

verus! {

/// The mathematical model of a structured value.
#[verifier::ext_equal]
pub enum ValueV {
    Bool(bool),
    UInt(u64),
    Int(i64),
    Number(Seq<char>),
    Str(Seq<char>),
    Bytes(Seq<u8>),
    Null,
    List(Seq<ValueV>),
    Object(Seq<(ValueV, ValueV)>),
    UnitVariant(Seq<char>),
    NewtypeVariant(Seq<char>, Box<ValueV>),
    TupleVariant(Seq<char>, Seq<ValueV>),
    StructVariant(Seq<char>, Seq<(Seq<char>, ValueV)>),
}

/// One structured value. `UInt` and `Int` are native integers; `Number` is a
/// number that is not a native integer, kept as its decimal text. `Object`
/// keys are values so that the string-only key rule is checked, not assumed.
/// The four `*Variant` forms carry a sum type's variant name and payload.
#[derive(Debug, PartialEq)]
pub enum Value {
    Bool(bool),
    UInt(u64),
    Int(i64),
    Number(String),
    Str(String),
    Bytes(Vec<u8>),
    Null,
    List(Vec<Value>),
    Object(Vec<(Value, Value)>),
    UnitVariant(String),
    NewtypeVariant(String, Box<Value>),
    TupleVariant(String, Vec<Value>),
    StructVariant(String, Vec<(String, Value)>),
}

/// The models of a sequence of values, elementwise.
pub open spec fn value_models(items: Seq<Value>) -> Seq<ValueV>
    decreases items,
{
    Seq::new(
        items.len(),
        |i: int|
            if 0 <= i < items.len() {
                items[i].model()
            } else {
                ValueV::Null
            },
    )
}

/// The models of a sequence of key/value pairs, elementwise.
pub open spec fn value_pair_models(pairs: Seq<(Value, Value)>) -> Seq<(ValueV, ValueV)>
    decreases pairs,
{
    Seq::new(
        pairs.len(),
        |i: int|
            if 0 <= i < pairs.len() {
                (pairs[i].0.model(), pairs[i].1.model())
            } else {
                (ValueV::Null, ValueV::Null)
            },
    )
}

/// The models of a sequence of named fields, elementwise.
pub open spec fn field_models(fields: Seq<(String, Value)>) -> Seq<(Seq<char>, ValueV)>
    decreases fields,
{
    Seq::new(
        fields.len(),
        |i: int|
            if 0 <= i < fields.len() {
                (fields[i].0@, fields[i].1.model())
            } else {
                (Seq::<char>::empty(), ValueV::Null)
            },
    )
}

impl Value {
    /// The mathematical model of this value.
    pub open spec fn model(self) -> ValueV
        decreases self,
    {
        match self {
            Value::Bool(b) => ValueV::Bool(b),
            Value::UInt(x) => ValueV::UInt(x),
            Value::Int(x) => ValueV::Int(x),
            Value::Number(s) => ValueV::Number(s@),
            Value::Str(s) => ValueV::Str(s@),
            Value::Bytes(b) => ValueV::Bytes(b@),
            Value::Null => ValueV::Null,
            Value::List(items) => ValueV::List(value_models(items@)),
            Value::Object(pairs) => ValueV::Object(value_pair_models(pairs@)),
            Value::UnitVariant(n) => ValueV::UnitVariant(n@),
            Value::NewtypeVariant(n, b) => ValueV::NewtypeVariant(n@, Box::new((*b).model())),
            Value::TupleVariant(n, items) => ValueV::TupleVariant(n@, value_models(items@)),
            Value::StructVariant(n, fields) => ValueV::StructVariant(n@, field_models(fields@)),
        }
    }
}

/// A value in the exact form self-describing deserialization produces:
/// non-negative integers are `UInt`, negative ones `Int`, other numbers a
/// decimal text that reads as neither, object keys are distinct strings, and
/// no variant form appears (variants need a requested target shape).
pub open spec fn canonical(v: ValueV) -> bool
    decreases v,
{
    match v {
        ValueV::Bool(_) => true,
        ValueV::UInt(_) => true,
        ValueV::Int(x) => x < 0,
        ValueV::Number(s) => is_decimal_lit(s) && u64_result(s) is Err && i64_result(s) is Err,
        ValueV::Str(_) => true,
        ValueV::Bytes(_) => true,
        ValueV::Null => true,
        ValueV::List(items) => forall|i: int|
            0 <= i < items.len() ==> canonical(#[trigger] items[i]),
        ValueV::Object(pairs) => (forall|i: int|
            0 <= i < pairs.len() ==> (#[trigger] pairs[i]).0 is Str && canonical(pairs[i].1)) && (
        forall|i: int, j: int| 0 <= i < j < pairs.len() ==> pairs[i].0 != pairs[j].0),
        ValueV::UnitVariant(_) => false,
        ValueV::NewtypeVariant(_, _) => false,
        ValueV::TupleVariant(_, _) => false,
        ValueV::StructVariant(_, _) => false,
    }
}

/// Reading a value as a `u64`, as typed reconstruction does after a hop
/// through the self-describing form.
pub open spec fn as_u64_spec(v: ValueV) -> Result<u64, Error> {
    match v {
        ValueV::UInt(x) => Ok(x),
        ValueV::Int(x) => if x >= 0 {
            Ok(x as u64)
        } else {
            Err(Error::NumberOutOfRange)
        },
        ValueV::Number(_) => Err(Error::NumberMalformed),
        _ => Err(Error::ExpectedNum),
    }
}

/// Reading a value as an `i64`.
pub open spec fn as_i64_spec(v: ValueV) -> Result<i64, Error> {
    match v {
        ValueV::UInt(x) => if x <= i64::MAX as u64 {
            Ok(x as i64)
        } else {
            Err(Error::NumberOutOfRange)
        },
        ValueV::Int(x) => Ok(x),
        ValueV::Number(_) => Err(Error::NumberMalformed),
        _ => Err(Error::ExpectedNum),
    }
}

impl Value {
    /// Read this value as a `u64`.
    pub fn as_u64(&self) -> (r: Result<u64, Error>)
        ensures
            r == as_u64_spec(self.model()),
    {
        match self {
            Value::UInt(x) => Ok(*x),
            Value::Int(x) => {
                if *x >= 0 {
                    Ok(*x as u64)
                } else {
                    Err(Error::NumberOutOfRange)
                }
            },
            Value::Number(_) => Err(Error::NumberMalformed),
            _ => Err(Error::ExpectedNum),
        }
    }

    /// Read this value as an `i64`.
    pub fn as_i64(&self) -> (r: Result<i64, Error>)
        ensures
            r == as_i64_spec(self.model()),
    {
        match self {
            Value::UInt(x) => {
                if *x <= i64::MAX as u64 {
                    Ok(*x as i64)
                } else {
                    Err(Error::NumberOutOfRange)
                }
            },
            Value::Int(x) => Ok(*x),
            Value::Number(_) => Err(Error::NumberMalformed),
            _ => Err(Error::ExpectedNum),
        }
    }

    /// Read this value as a `u8`.
    pub fn as_u8(&self) -> (r: Result<u8, Error>)
        ensures
            r == crate::value::as_u8_spec(self.model()),
    {
        match self.as_u64() {
            Err(e) => Err(e),
            Ok(x) => {
                if x <= u8::MAX as u64 {
                    Ok(x as u8)
                } else {
                    Err(Error::NumberOutOfRange)
                }
            },
        }
    }

    /// Read this value as a `u16`.
    pub fn as_u16(&self) -> (r: Result<u16, Error>)
        ensures
            r == crate::value::as_u16_spec(self.model()),
    {
        match self.as_u64() {
            Err(e) => Err(e),
            Ok(x) => {
                if x <= u16::MAX as u64 {
                    Ok(x as u16)
                } else {
                    Err(Error::NumberOutOfRange)
                }
            },
        }
    }

    /// Read this value as a `u32`.
    pub fn as_u32(&self) -> (r: Result<u32, Error>)
        ensures
            r == crate::value::as_u32_spec(self.model()),
    {
        match self.as_u64() {
            Err(e) => Err(e),
            Ok(x) => {
                if x <= u32::MAX as u64 {
                    Ok(x as u32)
                } else {
                    Err(Error::NumberOutOfRange)
                }
            },
        }
    }

    /// Read this value as an `i8`.
    pub fn as_i8(&self) -> (r: Result<i8, Error>)
        ensures
            r == crate::value::as_i8_spec(self.model()),
    {
        match self.as_i64() {
            Err(e) => Err(e),
            Ok(x) => {
                if i8::MIN as i64 <= x && x <= i8::MAX as i64 {
                    Ok(x as i8)
                } else {
                    Err(Error::NumberOutOfRange)
                }
            },
        }
    }

    /// Read this value as an `i16`.
    pub fn as_i16(&self) -> (r: Result<i16, Error>)
        ensures
            r == crate::value::as_i16_spec(self.model()),
    {
        match self.as_i64() {
            Err(e) => Err(e),
            Ok(x) => {
                if i16::MIN as i64 <= x && x <= i16::MAX as i64 {
                    Ok(x as i16)
                } else {
                    Err(Error::NumberOutOfRange)
                }
            },
        }
    }

    /// Read this value as an `i32`.
    pub fn as_i32(&self) -> (r: Result<i32, Error>)
        ensures
            r == crate::value::as_i32_spec(self.model()),
    {
        match self.as_i64() {
            Err(e) => Err(e),
            Ok(x) => {
                if i32::MIN as i64 <= x && x <= i32::MAX as i64 {
                    Ok(x as i32)
                } else {
                    Err(Error::NumberOutOfRange)
                }
            },
        }
    }

    /// Read this value as a boolean.
    pub fn as_bool(&self) -> (r: Result<bool, Error>)
        ensures
            r == crate::value::as_bool_spec(self.model()),
    {
        match self {
            Value::Bool(b) => Ok(*b),
            _ => Err(Error::ExpectedBool),
        }
    }

    /// Read this value as a string.
    pub fn as_string(&self) -> (r: Result<String, Error>)
        ensures
            r is Ok <==> as_string_spec(self.model()) is Ok,
            r is Ok ==> r->Ok_0@ == as_string_spec(self.model())->Ok_0,
            r is Err ==> r->Err_0 == as_string_spec(self.model())->Err_0,
    {
        match self {
            Value::Str(s) => Ok(s.clone()),
            _ => Err(Error::ExpectedString),
        }
    }

    /// Read this value as a single character.
    pub fn as_char(&self) -> (r: Result<char, Error>)
        ensures
            r == crate::value::as_char_spec(self.model()),
    {
        match self {
            Value::Str(s) => {
                let n = s.as_str().unicode_len();
                if n == 1 {
                    Ok(s.as_str().get_char(0))
                } else {
                    Err(Error::ExpectedChar)
                }
            },
            _ => Err(Error::ExpectedChar),
        }
    }

    /// Read this value as the unit value.
    pub fn as_unit(&self) -> (r: Result<(), Error>)
        ensures
            r == crate::value::as_unit_spec(self.model()),
    {
        match self {
            Value::Null => Ok(()),
            _ => Err(Error::ExpectedUnit),
        }
    }

    /// Read this value as a byte buffer.
    pub fn as_bytes(&self) -> (r: Result<Vec<u8>, Error>)
        ensures
            r is Ok <==> as_bytes_spec(self.model()) is Ok,
            r is Ok ==> r->Ok_0@ == as_bytes_spec(self.model())->Ok_0,
            r is Err ==> r->Err_0 == as_bytes_spec(self.model())->Err_0,
    {
        match self {
            Value::Bytes(b) => {
                let c = b.clone();
                proof {
                    assert(c@ =~= b@);
                }
                Ok(c)
            },
            _ => Err(Error::ExpectedBytes),
        }
    }
}

/// Reading a value as a `u8`.
pub open spec fn as_u8_spec(v: ValueV) -> Result<u8, Error> {
    match as_u64_spec(v) {
        Ok(x) => if x <= u8::MAX as u64 {
            Ok(x as u8)
        } else {
            Err(Error::NumberOutOfRange)
        },
        Err(e) => Err(e),
    }
}

/// Reading a value as a `u16`.
pub open spec fn as_u16_spec(v: ValueV) -> Result<u16, Error> {
    match as_u64_spec(v) {
        Ok(x) => if x <= u16::MAX as u64 {
            Ok(x as u16)
        } else {
            Err(Error::NumberOutOfRange)
        },
        Err(e) => Err(e),
    }
}

/// Reading a value as a `u32`.
pub open spec fn as_u32_spec(v: ValueV) -> Result<u32, Error> {
    match as_u64_spec(v) {
        Ok(x) => if x <= u32::MAX as u64 {
            Ok(x as u32)
        } else {
            Err(Error::NumberOutOfRange)
        },
        Err(e) => Err(e),
    }
}

/// Reading a value as an `i8`.
pub open spec fn as_i8_spec(v: ValueV) -> Result<i8, Error> {
    match as_i64_spec(v) {
        Ok(x) => if i8::MIN as i64 <= x && x <= i8::MAX as i64 {
            Ok(x as i8)
        } else {
            Err(Error::NumberOutOfRange)
        },
        Err(e) => Err(e),
    }
}

/// Reading a value as an `i16`.
pub open spec fn as_i16_spec(v: ValueV) -> Result<i16, Error> {
    match as_i64_spec(v) {
        Ok(x) => if i16::MIN as i64 <= x && x <= i16::MAX as i64 {
            Ok(x as i16)
        } else {
            Err(Error::NumberOutOfRange)
        },
        Err(e) => Err(e),
    }
}

/// Reading a value as an `i32`.
pub open spec fn as_i32_spec(v: ValueV) -> Result<i32, Error> {
    match as_i64_spec(v) {
        Ok(x) => if i32::MIN as i64 <= x && x <= i32::MAX as i64 {
            Ok(x as i32)
        } else {
            Err(Error::NumberOutOfRange)
        },
        Err(e) => Err(e),
    }
}

/// Reading a value as a boolean.
pub open spec fn as_bool_spec(v: ValueV) -> Result<bool, Error> {
    match v {
        ValueV::Bool(b) => Ok(b),
        _ => Err(Error::ExpectedBool),
    }
}

/// Reading a value as a string.
pub open spec fn as_string_spec(v: ValueV) -> Result<Seq<char>, Error> {
    match v {
        ValueV::Str(s) => Ok(s),
        _ => Err(Error::ExpectedString),
    }
}

/// Reading a value as a single character.
pub open spec fn as_char_spec(v: ValueV) -> Result<char, Error> {
    match v {
        ValueV::Str(s) => if s.len() == 1 {
            Ok(s[0])
        } else {
            Err(Error::ExpectedChar)
        },
        _ => Err(Error::ExpectedChar),
    }
}

/// Reading a value as the unit value.
pub open spec fn as_unit_spec(v: ValueV) -> Result<(), Error> {
    match v {
        ValueV::Null => Ok(()),
        _ => Err(Error::ExpectedUnit),
    }
}

/// Reading a value as a byte buffer.
pub open spec fn as_bytes_spec(v: ValueV) -> Result<Seq<u8>, Error> {
    match v {
        ValueV::Bytes(b) => Ok(b),
        _ => Err(Error::ExpectedBytes),
    }
}

} // verus!
