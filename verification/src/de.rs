//! The deserialization engine: given one tagged-union node and a target
//! shape request, dispatch on the populated shape. The self-describing
//! request inspects the node and builds the matching structured value; a
//! concrete request requires the matching shape and fails with the
//! corresponding expectation error otherwise. One failure anywhere aborts
//! the whole operation; nothing is retried.

use vstd::prelude::*;

use crate::attr::{pair_models, seq_models, str_views, AttrV, AttributeValue};
use crate::de_bytes::DeserializerBytes;
use crate::de_seq::{
    DeserializerSeq, DeserializerSeqBytes, DeserializerSeqNumbers, DeserializerSeqStrings, SeqKind,
};
use crate::error::Error;
use crate::num;
use crate::num::{
    i16_result, i32_result, i64_result, i8_result, is_decimal_lit, u16_result, u32_result,
    u64_result, u8_result,
};
use crate::value::{value_models, value_pair_models, Value, ValueV};

verus! {

/// What a number string reads as when no target type is given: the first
/// native-integer interpretation that parses, the unsigned one first, then
/// any other decimal literal as a number kept textually.
pub open spec fn number_any(s: Seq<char>) -> Result<ValueV, Error> {
    if u64_result(s) is Ok {
        Ok(ValueV::UInt(u64_result(s)->Ok_0))
    } else if i64_result(s) is Ok {
        Ok(ValueV::Int(i64_result(s)->Ok_0))
    } else if is_decimal_lit(s) {
        Ok(ValueV::Number(s))
    } else {
        Err(Error::NumberMalformed)
    }
}

/// What self-describing deserialization yields for one node. The populated
/// shape decides: numbers through [`number_any`], strings, booleans, bytes
/// and null directly, maps and lists recursively, and each set shape as the
/// list of its elements.
pub open spec fn de_any_spec(a: AttrV) -> Result<ValueV, Error>
    decreases a,
{
    match a {
        AttrV::N(s) => number_any(s),
        AttrV::S(s) => Ok(ValueV::Str(s)),
        AttrV::Bool(b) => Ok(ValueV::Bool(b)),
        AttrV::B(b) => Ok(ValueV::Bytes(b)),
        AttrV::Null => Ok(ValueV::Null),
        AttrV::M(pairs) => match de_entries_spec(pairs) {
            Ok(ps) => Ok(ValueV::Object(ps)),
            Err(e) => Err(e),
        },
        AttrV::L(items) => match de_list_spec(items) {
            Ok(vs) => Ok(ValueV::List(vs)),
            Err(e) => Err(e),
        },
        AttrV::Ss(ss) => Ok(
            ValueV::List(
                Seq::new(
                    ss.len(),
                    |i: int|
                        if 0 <= i < ss.len() {
                            ValueV::Str(ss[i])
                        } else {
                            ValueV::Null
                        },
                ),
            ),
        ),
        AttrV::Ns(ns) => match de_numbers_spec(ns) {
            Ok(vs) => Ok(ValueV::List(vs)),
            Err(e) => Err(e),
        },
        AttrV::Bs(bs) => Ok(
            ValueV::List(
                Seq::new(
                    bs.len(),
                    |i: int|
                        if 0 <= i < bs.len() {
                            ValueV::Bytes(bs[i])
                        } else {
                            ValueV::Null
                        },
                ),
            ),
        ),
    }
}

/// Self-describing deserialization of a list, element by element; the first
/// failure wins.
pub open spec fn de_list_spec(items: Seq<AttrV>) -> Result<Seq<ValueV>, Error>
    decreases items,
{
    if items.len() == 0 {
        Ok(Seq::empty())
    } else {
        match de_list_spec(items.drop_last()) {
            Err(e) => Err(e),
            Ok(pre) => match de_any_spec(items.last()) {
                Err(e) => Err(e),
                Ok(v) => Ok(pre.push(v)),
            },
        }
    }
}

/// Self-describing deserialization of map entries: each key becomes a
/// string value, each node deserializes recursively; the first failure wins.
pub open spec fn de_entries_spec(pairs: Seq<(Seq<char>, AttrV)>) -> Result<
    Seq<(ValueV, ValueV)>,
    Error,
>
    decreases pairs,
{
    if pairs.len() == 0 {
        Ok(Seq::empty())
    } else {
        match de_entries_spec(pairs.drop_last()) {
            Err(e) => Err(e),
            Ok(pre) => match de_any_spec(pairs.last().1) {
                Err(e) => Err(e),
                Ok(v) => Ok(pre.push((ValueV::Str(pairs.last().0), v))),
            },
        }
    }
}

/// Self-describing deserialization of a number-set's entries; the first
/// failure wins.
pub open spec fn de_numbers_spec(ns: Seq<Seq<char>>) -> Result<Seq<ValueV>, Error>
    decreases ns,
{
    if ns.len() == 0 {
        Ok(Seq::empty())
    } else {
        match de_numbers_spec(ns.drop_last()) {
            Err(e) => Err(e),
            Ok(pre) => match number_any(ns.last()) {
                Err(e) => Err(e),
                Ok(v) => Ok(pre.push(v)),
            },
        }
    }
}

/// What the optional request yields: the null marker reads as "none"; any
/// other node is handed on whole as "some".
pub open spec fn de_option_spec(a: AttrV) -> Option<AttrV> {
    match a {
        AttrV::Null => None,
        _ => Some(a),
    }
}

/// What the variant request yields: a string names a unit variant; a map
/// must hold exactly the one entry naming the variant and holding its
/// payload; any other shape is a variant-shape error.
pub open spec fn de_enum_spec(a: AttrV) -> Result<(Seq<char>, Option<AttrV>), Error> {
    match a {
        AttrV::S(s) => Ok((s, None)),
        AttrV::M(pairs) => if pairs.len() == 1 {
            Ok((pairs[0].0, Some(pairs[0].1)))
        } else {
            Err(Error::ExpectedEnum)
        },
        _ => Err(Error::ExpectedEnum),
    }
}

/// A failed prefix fails the whole list, with the same error.
proof fn lemma_de_list_err(items: Seq<AttrV>, i: int, e: Error)
    requires
        0 <= i <= items.len(),
        de_list_spec(items.take(i)) == Err::<Seq<ValueV>, Error>(e),
    ensures
        de_list_spec(items) == Err::<Seq<ValueV>, Error>(e),
    decreases items.len() - i,
{
    if i < items.len() {
        assert(items.take(i + 1).drop_last() =~= items.take(i));
        lemma_de_list_err(items, i + 1, e);
    } else {
        assert(items.take(i) =~= items);
    }
}

/// A failed prefix fails the whole map, with the same error.
proof fn lemma_de_entries_err(pairs: Seq<(Seq<char>, AttrV)>, i: int, e: Error)
    requires
        0 <= i <= pairs.len(),
        de_entries_spec(pairs.take(i)) == Err::<Seq<(ValueV, ValueV)>, Error>(e),
    ensures
        de_entries_spec(pairs) == Err::<Seq<(ValueV, ValueV)>, Error>(e),
    decreases pairs.len() - i,
{
    if i < pairs.len() {
        assert(pairs.take(i + 1).drop_last() =~= pairs.take(i));
        lemma_de_entries_err(pairs, i + 1, e);
    } else {
        assert(pairs.take(i) =~= pairs);
    }
}

/// A failed prefix fails the whole number set, with the same error.
proof fn lemma_de_numbers_err(ns: Seq<Seq<char>>, i: int, e: Error)
    requires
        0 <= i <= ns.len(),
        de_numbers_spec(ns.take(i)) == Err::<Seq<ValueV>, Error>(e),
    ensures
        de_numbers_spec(ns) == Err::<Seq<ValueV>, Error>(e),
    decreases ns.len() - i,
{
    if i < ns.len() {
        assert(ns.take(i + 1).drop_last() =~= ns.take(i));
        lemma_de_numbers_err(ns, i + 1, e);
    } else {
        assert(ns.take(i) =~= ns);
    }
}

/// Read one number string with no target type, as [`number_any`] says.
pub(crate) fn number_value(s: &str) -> (r: Result<Value, Error>)
    ensures
        match r {
            Ok(v) => number_any(s@) == Ok::<ValueV, Error>(v.model()),
            Err(e) => number_any(s@) == Err::<ValueV, Error>(e),
        },
{
    match num::parse_u64_str(s) {
        Ok(x) => Ok(Value::UInt(x)),
        Err(_) => match num::parse_i64_str(s) {
            Ok(x) => Ok(Value::Int(x)),
            Err(_) => {
                if num::check_decimal_lit(s) {
                    Ok(Value::Number(s.to_owned()))
                } else {
                    Err(Error::NumberMalformed)
                }
            },
        },
    }
}

/// Deserializes one tagged-union node into structured values. It borrows
/// the node and never mutates it.
#[derive(Clone, Copy)]
pub struct Deserializer<'de> {
    input: &'de AttributeValue,
}

impl<'de> Deserializer<'de> {
    /// The node this deserializer reads.
    pub closed spec fn inner(self) -> AttributeValue {
        *self.input
    }

    /// The model of the node this deserializer reads.
    pub open spec fn model(self) -> AttrV {
        self.inner().model()
    }

    /// Create a deserializer over one borrowed node.
    pub fn from_attribute_value(input: &'de AttributeValue) -> (r: Self)
        ensures
            r.inner() == *input,
    {
        Self { input }
    }

    /// Self-describing deserialization: inspect the populated shape and
    /// build the matching structured value.
    #[verifier::loop_isolation(false)]
    pub fn deserialize_any(self) -> (r: Result<Value, Error>)
        ensures
            match r {
                Ok(v) => de_any_spec(self.model()) == Ok::<ValueV, Error>(v.model()),
                Err(e) => de_any_spec(self.model()) == Err::<ValueV, Error>(e),
            },
        decreases self.inner(),
    {
        match self.input {
            AttributeValue::N(s) => number_value(s.as_str()),
            AttributeValue::S(s) => Ok(Value::Str(s.clone())),
            AttributeValue::Bool(b) => Ok(Value::Bool(*b)),
            AttributeValue::B(b) => {
                let c = b.clone();
                proof {
                    assert(c@ =~= b@);
                }
                Ok(Value::Bytes(c))
            },
            AttributeValue::Null => Ok(Value::Null),
            AttributeValue::M(pairs) => {
                let n = pairs.len();
                let mut out: Vec<(Value, Value)> = Vec::new();
                let mut i: usize = 0;
                proof {
                    assert(pair_models(pairs@).take(0) =~= Seq::<(Seq<char>, AttrV)>::empty());
                    assert(value_pair_models(out@) =~= Seq::<(ValueV, ValueV)>::empty());
                }
                while i < n
                    invariant
                        0 <= i <= n,
                        out@.len() == i,
                        de_entries_spec(pair_models(pairs@).take(i as int)) == Ok::<
                            Seq<(ValueV, ValueV)>,
                            Error,
                        >(value_pair_models(out@)),
                    decreases n - i,
                {
                    proof {
                        let pm = pair_models(pairs@);
                        assert(pm.take(i + 1).drop_last() =~= pm.take(i as int));
                        assert(pm.take(i + 1).last() == pm[i as int]);
                    }
                    let d = Deserializer::from_attribute_value(&pairs[i].1);
                    match d.deserialize_any() {
                        Ok(v) => {
                            let ghost before = value_pair_models(out@);
                            let k = Value::Str(pairs[i].0.clone());
                            out.push((k, v));
                            proof {
                                assert(value_pair_models(out@) =~= before.push(
                                    (ValueV::Str(pairs@[i as int].0@), v.model()),
                                ));
                            }
                        },
                        Err(e) => {
                            proof {
                                let pm = pair_models(pairs@);
                                assert(de_entries_spec(pm.take(i + 1)) == Err::<
                                    Seq<(ValueV, ValueV)>,
                                    Error,
                                >(e));
                                lemma_de_entries_err(pm, i + 1, e);
                            }
                            return Err(e);
                        },
                    }
                    i = i + 1;
                }
                proof {
                    assert(pair_models(pairs@).take(n as int) =~= pair_models(pairs@));
                }
                Ok(Value::Object(out))
            },
            AttributeValue::L(items) => {
                let n = items.len();
                let mut out: Vec<Value> = Vec::new();
                let mut i: usize = 0;
                proof {
                    assert(seq_models(items@).take(0) =~= Seq::<AttrV>::empty());
                    assert(value_models(out@) =~= Seq::<ValueV>::empty());
                }
                while i < n
                    invariant
                        0 <= i <= n,
                        out@.len() == i,
                        de_list_spec(seq_models(items@).take(i as int)) == Ok::<
                            Seq<ValueV>,
                            Error,
                        >(value_models(out@)),
                    decreases n - i,
                {
                    proof {
                        let sm = seq_models(items@);
                        assert(sm.take(i + 1).drop_last() =~= sm.take(i as int));
                        assert(sm.take(i + 1).last() == sm[i as int]);
                    }
                    let d = Deserializer::from_attribute_value(&items[i]);
                    match d.deserialize_any() {
                        Ok(v) => {
                            let ghost before = value_models(out@);
                            out.push(v);
                            proof {
                                assert(value_models(out@) =~= before.push(v.model()));
                            }
                        },
                        Err(e) => {
                            proof {
                                let sm = seq_models(items@);
                                assert(de_list_spec(sm.take(i + 1)) == Err::<Seq<ValueV>, Error>(
                                    e,
                                ));
                                lemma_de_list_err(sm, i + 1, e);
                            }
                            return Err(e);
                        },
                    }
                    i = i + 1;
                }
                proof {
                    assert(seq_models(items@).take(n as int) =~= seq_models(items@));
                }
                Ok(Value::List(out))
            },
            AttributeValue::Ss(ss) => {
                let n = ss.len();
                let mut out: Vec<Value> = Vec::new();
                let mut i: usize = 0;
                while i < n
                    invariant
                        0 <= i <= n,
                        out@.len() == i,
                        forall|j: int|
                            0 <= j < i ==> #[trigger] value_models(out@)[j] == ValueV::Str(
                                ss@[j]@,
                            ),
                    decreases n - i,
                {
                    let ghost before = value_models(out@);
                    out.push(Value::Str(ss[i].clone()));
                    proof {
                        assert(value_models(out@) =~= before.push(ValueV::Str(ss@[i as int]@)));
                    }
                    i = i + 1;
                }
                let r = Value::List(out);
                proof {
                    assert(de_any_spec(self.model())->Ok_0 =~= r.model()) by {
                        assert(value_models(out@) =~= de_any_spec(self.model())->Ok_0->List_0);
                    }
                }
                Ok(r)
            },
            AttributeValue::Ns(ns) => {
                let n = ns.len();
                let mut out: Vec<Value> = Vec::new();
                let mut i: usize = 0;
                proof {
                    assert(str_views(ns@).take(0) =~= Seq::<Seq<char>>::empty());
                    assert(value_models(out@) =~= Seq::<ValueV>::empty());
                }
                while i < n
                    invariant
                        0 <= i <= n,
                        out@.len() == i,
                        de_numbers_spec(str_views(ns@).take(i as int)) == Ok::<Seq<ValueV>, Error>(
                            value_models(out@),
                        ),
                    decreases n - i,
                {
                    proof {
                        let sv = str_views(ns@);
                        assert(sv.take(i + 1).drop_last() =~= sv.take(i as int));
                        assert(sv.take(i + 1).last() == sv[i as int]);
                    }
                    match number_value(ns[i].as_str()) {
                        Ok(v) => {
                            let ghost before = value_models(out@);
                            out.push(v);
                            proof {
                                assert(value_models(out@) =~= before.push(v.model()));
                            }
                        },
                        Err(e) => {
                            proof {
                                let sv = str_views(ns@);
                                assert(de_numbers_spec(sv.take(i + 1)) == Err::<
                                    Seq<ValueV>,
                                    Error,
                                >(e));
                                lemma_de_numbers_err(sv, i + 1, e);
                            }
                            return Err(e);
                        },
                    }
                    i = i + 1;
                }
                proof {
                    assert(str_views(ns@).take(n as int) =~= str_views(ns@));
                }
                Ok(Value::List(out))
            },

            AttributeValue::Bs(bs) => {
                let n = bs.len();
                let mut out: Vec<Value> = Vec::new();
                let mut i: usize = 0;
                while i < n
                    invariant
                        0 <= i <= n,
                        out@.len() == i,
                        forall|j: int|
                            0 <= j < i ==> #[trigger] value_models(out@)[j] == ValueV::Bytes(
                                bs@[j]@,
                            ),
                    decreases n - i,
                {
                    let ghost before = value_models(out@);
                    let c = bs[i].clone();
                    proof {
                        assert(c@ =~= bs@[i as int]@);
                    }
                    out.push(Value::Bytes(c));
                    proof {
                        assert(value_models(out@) =~= before.push(ValueV::Bytes(bs@[i as int]@)));
                    }
                    i = i + 1;
                }
                let r = Value::List(out);
                proof {
                    assert(de_any_spec(self.model())->Ok_0 =~= r.model()) by {
                        assert(value_models(out@) =~= de_any_spec(self.model())->Ok_0->List_0);
                    }
                }
                Ok(r)
            },
        }
    }

    /// A string node's text; any other shape is a string-shape error.
    pub fn deserialize_str(self) -> (r: Result<String, Error>)
        ensures
            match r {
                Ok(s) => self.model() is S && s@ == self.model()->S_0,
                Err(e) => !(self.model() is S) && e == Error::ExpectedString,
            },
    {
        match self.input {
            AttributeValue::S(s) => Ok(s.clone()),
            _ => Err(Error::ExpectedString),
        }
    }

    /// A string node's text as an owned string; the same read as
    /// [`Self::deserialize_str`].
    pub fn deserialize_string(self) -> (r: Result<String, Error>)
        ensures
            match r {
                Ok(s) => self.model() is S && s@ == self.model()->S_0,
                Err(e) => !(self.model() is S) && e == Error::ExpectedString,
            },
    {
        self.deserialize_str()
    }

    /// A field or variant name resolves only against a string node.
    pub fn deserialize_identifier(self) -> (r: Result<String, Error>)
        ensures
            match r {
                Ok(s) => self.model() is S && s@ == self.model()->S_0,
                Err(e) => !(self.model() is S) && e == Error::ExpectedString,
            },
    {
        self.deserialize_str()
    }

    /// A boolean node's value; any other shape is a boolean-shape error.
    pub fn deserialize_bool(self) -> (r: Result<bool, Error>)
        ensures
            r == (match self.model() {
                AttrV::Bool(b) => Ok::<bool, Error>(b),
                _ => Err::<bool, Error>(Error::ExpectedBool),
            }),
    {
        match self.input {
            AttributeValue::Bool(b) => Ok(*b),
            _ => Err(Error::ExpectedBool),
        }
    }

    /// A number node's text parsed as a `u8`.
    pub fn deserialize_u8(self) -> (r: Result<u8, Error>)
        ensures
            r == (match self.model() {
                AttrV::N(s) => u8_result(s),
                _ => Err::<u8, Error>(Error::ExpectedNum),
            }),
    {
        match self.input {
            AttributeValue::N(s) => match num::parse_u64_str(s.as_str()) {
                Ok(x) => {
                    if x <= u8::MAX as u64 {
                        Ok(x as u8)
                    } else {
                        Err(Error::NumberOutOfRange)
                    }
                },
                Err(e) => Err(e),
            },
            _ => Err(Error::ExpectedNum),
        }
    }

    /// A number node's text parsed as a `u16`.
    pub fn deserialize_u16(self) -> (r: Result<u16, Error>)
        ensures
            r == (match self.model() {
                AttrV::N(s) => u16_result(s),
                _ => Err::<u16, Error>(Error::ExpectedNum),
            }),
    {
        match self.input {
            AttributeValue::N(s) => match num::parse_u64_str(s.as_str()) {
                Ok(x) => {
                    if x <= u16::MAX as u64 {
                        Ok(x as u16)
                    } else {
                        Err(Error::NumberOutOfRange)
                    }
                },
                Err(e) => Err(e),
            },
            _ => Err(Error::ExpectedNum),
        }
    }

    /// A number node's text parsed as a `u32`.
    pub fn deserialize_u32(self) -> (r: Result<u32, Error>)
        ensures
            r == (match self.model() {
                AttrV::N(s) => u32_result(s),
                _ => Err::<u32, Error>(Error::ExpectedNum),
            }),
    {
        match self.input {
            AttributeValue::N(s) => match num::parse_u64_str(s.as_str()) {
                Ok(x) => {
                    if x <= u32::MAX as u64 {
                        Ok(x as u32)
                    } else {
                        Err(Error::NumberOutOfRange)
                    }
                },
                Err(e) => Err(e),
            },
            _ => Err(Error::ExpectedNum),
        }
    }

    /// A number node's text parsed as a `u64`.
    pub fn deserialize_u64(self) -> (r: Result<u64, Error>)
        ensures
            r == (match self.model() {
                AttrV::N(s) => u64_result(s),
                _ => Err::<u64, Error>(Error::ExpectedNum),
            }),
    {
        match self.input {
            AttributeValue::N(s) => num::parse_u64_str(s.as_str()),
            _ => Err(Error::ExpectedNum),
        }
    }

    /// A number node's text parsed as an `i8`.
    pub fn deserialize_i8(self) -> (r: Result<i8, Error>)
        ensures
            r == (match self.model() {
                AttrV::N(s) => i8_result(s),
                _ => Err::<i8, Error>(Error::ExpectedNum),
            }),
    {
        match self.input {
            AttributeValue::N(s) => match num::parse_i64_str(s.as_str()) {
                Ok(x) => {
                    if i8::MIN as i64 <= x && x <= i8::MAX as i64 {
                        Ok(x as i8)
                    } else {
                        Err(Error::NumberOutOfRange)
                    }
                },
                Err(e) => Err(e),
            },
            _ => Err(Error::ExpectedNum),
        }
    }

    /// A number node's text parsed as an `i16`.
    pub fn deserialize_i16(self) -> (r: Result<i16, Error>)
        ensures
            r == (match self.model() {
                AttrV::N(s) => i16_result(s),
                _ => Err::<i16, Error>(Error::ExpectedNum),
            }),
    {
        match self.input {
            AttributeValue::N(s) => match num::parse_i64_str(s.as_str()) {
                Ok(x) => {
                    if i16::MIN as i64 <= x && x <= i16::MAX as i64 {
                        Ok(x as i16)
                    } else {
                        Err(Error::NumberOutOfRange)
                    }
                },
                Err(e) => Err(e),
            },
            _ => Err(Error::ExpectedNum),
        }
    }

    /// A number node's text parsed as an `i32`.
    pub fn deserialize_i32(self) -> (r: Result<i32, Error>)
        ensures
            r == (match self.model() {
                AttrV::N(s) => i32_result(s),
                _ => Err::<i32, Error>(Error::ExpectedNum),
            }),
    {
        match self.input {
            AttributeValue::N(s) => match num::parse_i64_str(s.as_str()) {
                Ok(x) => {
                    if i32::MIN as i64 <= x && x <= i32::MAX as i64 {
                        Ok(x as i32)
                    } else {
                        Err(Error::NumberOutOfRange)
                    }
                },
                Err(e) => Err(e),
            },
            _ => Err(Error::ExpectedNum),
        }
    }

    /// A number node's text parsed as an `i64`.
    pub fn deserialize_i64(self) -> (r: Result<i64, Error>)
        ensures
            r == (match self.model() {
                AttrV::N(s) => i64_result(s),
                _ => Err::<i64, Error>(Error::ExpectedNum),
            }),
    {
        match self.input {
            AttributeValue::N(s) => num::parse_i64_str(s.as_str()),
            _ => Err(Error::ExpectedNum),
        }
    }

    /// A number node's text, validated as a decimal literal and handed out
    /// textually: the form non-integer numeric targets read from.
    pub fn deserialize_number_string(self) -> (r: Result<String, Error>)
        ensures
            match r {
                Ok(s) => self.model() is N && s@ == self.model()->N_0 && is_decimal_lit(s@),
                Err(e) => match self.model() {
                    AttrV::N(t) => !is_decimal_lit(t) && e == Error::NumberMalformed,
                    _ => e == Error::ExpectedNum,
                },
            },
    {
        match self.input {
            AttributeValue::N(s) => {
                if num::check_decimal_lit(s.as_str()) {
                    Ok(s.clone())
                } else {
                    Err(Error::NumberMalformed)
                }
            },
            _ => Err(Error::ExpectedNum),
        }
    }

    /// A string node holding exactly one character; anything else is a
    /// character-shape error.
    pub fn deserialize_char(self) -> (r: Result<char, Error>)
        ensures
            r == (match self.model() {
                AttrV::S(s) => if s.len() == 1 {
                    Ok::<char, Error>(s[0])
                } else {
                    Err::<char, Error>(Error::ExpectedChar)
                },
                _ => Err::<char, Error>(Error::ExpectedChar),
            }),
    {
        match self.input {
            AttributeValue::S(s) => {
                let n = s.as_str().unicode_len();
                if n == 1 {
                    Ok(s.as_str().get_char(0))
                } else {
                    Err(Error::ExpectedChar)
                }
            },
            _ => Err(Error::ExpectedChar),
        }
    }

    /// The unit value, read from the null marker.
    pub fn deserialize_unit(self) -> (r: Result<(), Error>)
        ensures
            r == (match self.model() {
                AttrV::Null => Ok::<(), Error>(()),
                _ => Err::<(), Error>(Error::ExpectedUnit),
            }),
    {
        match self.input {
            AttributeValue::Null => Ok(()),
            _ => Err(Error::ExpectedUnit),
        }
    }

    /// A unit struct, read from the null marker.
    pub fn deserialize_unit_struct(self) -> (r: Result<(), Error>)
        ensures
            r == (match self.model() {
                AttrV::Null => Ok::<(), Error>(()),
                _ => Err::<(), Error>(Error::ExpectedUnitStruct),
            }),
    {
        match self.input {
            AttributeValue::Null => Ok(()),
            _ => Err(Error::ExpectedUnitStruct),
        }
    }

    /// The optional request: the null marker reads as "none"; any other
    /// node is handed back whole as "some".
    pub fn deserialize_option(self) -> (r: Option<Deserializer<'de>>)
        ensures
            match r {
                None => de_option_spec(self.model()) is None,
                Some(d) => de_option_spec(self.model()) == Some(d.model()) && d.inner()
                    == self.inner(),
            },
    {
        match self.input {
            AttributeValue::Null => None,
            _ => Some(self),
        }
    }

    /// A newtype struct reads its one field from the same node.
    pub fn deserialize_newtype_struct(self) -> (r: Deserializer<'de>)
        ensures
            r.inner() == self.inner(),
    {
        self
    }

    /// A binary node's blob; any other shape is a byte-shape error.
    pub fn deserialize_bytes(self) -> (r: Result<Vec<u8>, Error>)
        ensures
            match r {
                Ok(b) => self.model() is B && b@ == self.model()->B_0,
                Err(e) => !(self.model() is B) && e == Error::ExpectedBytes,
            },
    {
        match self.input {
            AttributeValue::B(b) => {
                let c = b.clone();
                proof {
                    assert(c@ =~= b@);
                }
                let d = DeserializerBytes::from_bytes(c);
                Ok(d.deserialize_bytes())
            },
            _ => Err(Error::ExpectedBytes),
        }
    }

    /// A binary node's blob as an owned buffer; the same read as
    /// [`Self::deserialize_bytes`].
    pub fn deserialize_byte_buf(self) -> (r: Result<Vec<u8>, Error>)
        ensures
            match r {
                Ok(b) => self.model() is B && b@ == self.model()->B_0,
                Err(e) => !(self.model() is B) && e == Error::ExpectedBytes,
            },
    {
        self.deserialize_bytes()
    }

    /// Deserialize and discard: the node is read self-describingly and the
    /// result thrown away, so skipping costs one ordinary read.
    pub fn deserialize_ignored_any(self) -> (r: Result<(), Error>)
        ensures
            match r {
                Ok(_) => de_any_spec(self.model()) is Ok,
                Err(e) => de_any_spec(self.model()) == Err::<ValueV, Error>(e),
            },
    {
        match self.deserialize_any() {
            Ok(_) => Ok(()),
            Err(e) => Err(e),
        }
    }

    /// The sequence request: one accessor per list-shaped wire field, over
    /// a copy of the node's elements; any other shape is a sequence-shape
    /// error.
    pub fn deserialize_seq(self) -> (r: Result<SeqKind, Error>)
        ensures
            match self.model() {
                AttrV::L(items) => r is Ok && r->Ok_0 is List && r->Ok_0->List_0.wf()
                    && r->Ok_0->List_0.remaining() == items,
                AttrV::Ss(ss) => r is Ok && r->Ok_0 is Strings && r->Ok_0->Strings_0.wf()
                    && r->Ok_0->Strings_0.remaining() == ss,
                AttrV::Ns(ns) => r is Ok && r->Ok_0 is Numbers && r->Ok_0->Numbers_0.wf()
                    && r->Ok_0->Numbers_0.remaining() == ns,
                AttrV::Bs(bs) => r is Ok && r->Ok_0 is Binaries && r->Ok_0->Binaries_0.wf()
                    && r->Ok_0->Binaries_0.remaining() == bs,
                _ => r == Err::<SeqKind, Error>(Error::ExpectedSeq),
            },
    {
        match self.input {
            AttributeValue::L(items) => Ok(
                SeqKind::List(DeserializerSeq::from_vec(crate::attr::clone_attrs(items))),
            ),
            AttributeValue::Ss(items) => Ok(
                SeqKind::Strings(
                    DeserializerSeqStrings::from_vec(crate::attr::clone_strings(items)),
                ),
            ),
            AttributeValue::Ns(items) => Ok(
                SeqKind::Numbers(
                    DeserializerSeqNumbers::from_vec(crate::attr::clone_strings(items)),
                ),
            ),
            AttributeValue::Bs(items) => Ok(
                SeqKind::Binaries(
                    DeserializerSeqBytes::from_vec(crate::attr::clone_blobs(items)),
                ),
            ),
            _ => Err(Error::ExpectedSeq),
        }
    }

    /// A tuple reads as an ordinary sequence; the length hint is enforced
    /// by the caller's own field count, not by shape.
    pub fn deserialize_tuple(self, _len: usize) -> (r: Result<SeqKind, Error>)
        ensures
            match self.model() {
                AttrV::L(items) => r is Ok && r->Ok_0 is List && r->Ok_0->List_0.wf()
                    && r->Ok_0->List_0.remaining() == items,
                AttrV::Ss(ss) => r is Ok && r->Ok_0 is Strings && r->Ok_0->Strings_0.wf()
                    && r->Ok_0->Strings_0.remaining() == ss,
                AttrV::Ns(ns) => r is Ok && r->Ok_0 is Numbers && r->Ok_0->Numbers_0.wf()
                    && r->Ok_0->Numbers_0.remaining() == ns,
                AttrV::Bs(bs) => r is Ok && r->Ok_0 is Binaries && r->Ok_0->Binaries_0.wf()
                    && r->Ok_0->Binaries_0.remaining() == bs,
                _ => r == Err::<SeqKind, Error>(Error::ExpectedSeq),
            },
    {
        self.deserialize_seq()
    }

    /// A tuple struct reads as an ordinary sequence, like a tuple.
    pub fn deserialize_tuple_struct(self, _len: usize) -> (r: Result<SeqKind, Error>)
        ensures
            match self.model() {
                AttrV::L(items) => r is Ok && r->Ok_0 is List && r->Ok_0->List_0.wf()
                    && r->Ok_0->List_0.remaining() == items,
                AttrV::Ss(ss) => r is Ok && r->Ok_0 is Strings && r->Ok_0->Strings_0.wf()
                    && r->Ok_0->Strings_0.remaining() == ss,
                AttrV::Ns(ns) => r is Ok && r->Ok_0 is Numbers && r->Ok_0->Numbers_0.wf()
                    && r->Ok_0->Numbers_0.remaining() == ns,
                AttrV::Bs(bs) => r is Ok && r->Ok_0 is Binaries && r->Ok_0->Binaries_0.wf()
                    && r->Ok_0->Binaries_0.remaining() == bs,
                _ => r == Err::<SeqKind, Error>(Error::ExpectedSeq),
            },
    {
        self.deserialize_seq()
    }

    /// A generic list's raw nodes, borrowed, for the caller to read one by
    /// one through the engine with its own target shapes: the path typed
    /// element reads take. Any other shape, the set shapes included, is a
    /// sequence-shape error here; they have their own accessors.
    pub fn deserialize_list(self) -> (r: Result<&'de Vec<AttributeValue>, Error>)
        ensures
            match r {
                Ok(items) => self.model() is L && seq_models(items@) == self.model()->L_0,
                Err(e) => !(self.model() is L) && e == Error::ExpectedSeq,
            },
    {
        match self.input {
            AttributeValue::L(items) => Ok(items),
            _ => Err(Error::ExpectedSeq),
        }
    }

    /// A map node's entries, for the caller to walk; any other shape is a
    /// map-shape error. Unknown keys are simply entries the caller never
    /// looks up, so extra fields are ignored for free.
    pub fn deserialize_map(self) -> (r: Result<&'de Vec<(String, AttributeValue)>, Error>)
        ensures
            match r {
                Ok(p) => self.model() is M && pair_models(p@) == self.model()->M_0,
                Err(e) => !(self.model() is M) && e == Error::ExpectedMap,
            },
    {
        match self.input {
            AttributeValue::M(pairs) => Ok(pairs),
            _ => Err(Error::ExpectedMap),
        }
    }

    /// A struct reads from a map node, field by field; the same read as
    /// [`Self::deserialize_map`].
    pub fn deserialize_struct(self) -> (r: Result<&'de Vec<(String, AttributeValue)>, Error>)
        ensures
            match r {
                Ok(p) => self.model() is M && pair_models(p@) == self.model()->M_0,
                Err(e) => !(self.model() is M) && e == Error::ExpectedMap,
            },
    {
        self.deserialize_map()
    }

    /// The variant request: a string node names a unit variant; a
    /// single-entry map names the variant and holds its payload; any other
    /// shape, or a map with another entry count, is a variant-shape error.
    pub fn deserialize_enum(self) -> (r: Result<(String, Option<Deserializer<'de>>), Error>)
        ensures
            match r {
                Ok(p) => de_enum_spec(self.model()) is Ok && p.0@ == de_enum_spec(
                    self.model(),
                )->Ok_0.0 && (match p.1 {
                    Some(d) => de_enum_spec(self.model())->Ok_0.1 == Some(d.model()),
                    None => de_enum_spec(self.model())->Ok_0.1 is None,
                }),
                Err(e) => de_enum_spec(self.model()) == Err::<(Seq<char>, Option<AttrV>), Error>(
                    e,
                ),
            },
    {
        match self.input {
            AttributeValue::S(s) => Ok((s.clone(), None)),
            AttributeValue::M(pairs) => {
                if pairs.len() == 1 {
                    let name = pairs[0].0.clone();
                    let d = Deserializer::from_attribute_value(&pairs[0].1);
                    proof {
                        assert(pair_models(pairs@)[0].1 == pairs@[0].1.model());
                    }
                    Ok((name, Some(d)))
                } else {
                    Err(Error::ExpectedEnum)
                }
            },
            _ => Err(Error::ExpectedEnum),
        }
    }
}

} // verus!
