//! The serialization engine: a structured value walks down to exactly one
//! tagged-union node. Primitives map to their wire shapes, integers render
//! through the number canonicalizer, sequences become `L` nodes, maps and
//! struct-like records become `M` nodes whose keys must be strings, and
//! variant values follow the representation convention: a bare string for a
//! unit variant, a single-entry map for a payload-bearing variant.
//!
//! Generic sequences always serialize to `L`; the specialized set shapes
//! (`Ss`, `Ns`, `Bs`) are produced only by the explicit set constructors at
//! the bottom of this module, never inferred from element types.

use vstd::prelude::*;

use crate::attr::{pair_models, seq_models, str_views, AttrV, AttributeValue};
use crate::error::Error;
use crate::num::{i64_dec, is_decimal_lit, u64_dec, check_decimal_lit};
use crate::value::{field_models, value_models, value_pair_models, Value, ValueV};

verus! {

/// The string under a key value, where the key is a string.
pub open spec fn key_str(v: ValueV) -> Seq<char>
    recommends
        v is Str,
{
    v->Str_0
}

/// Insert into map entries with replace-on-duplicate semantics: an existing
/// entry keeps its position and takes the new value; a new key goes to the
/// end.
pub open spec fn entries_insert(
    m: Seq<(Seq<char>, AttrV)>,
    k: Seq<char>,
    v: AttrV,
) -> Seq<(Seq<char>, AttrV)>
    decreases m.len(),
{
    if m.len() == 0 {
        seq![(k, v)]
    } else if m[0].0 == k {
        seq![(k, v)] + m.skip(1)
    } else {
        seq![m[0]] + entries_insert(m.skip(1), k, v)
    }
}

/// The first failure serialization meets walking a value, in traversal
/// order, if any: a map key that is not a string, or a number whose text is
/// not a decimal literal. Serialization succeeds exactly when there is none.
pub open spec fn ser_err(v: ValueV) -> Option<Error>
    decreases v, 0int,
{
    match v {
        ValueV::Number(s) => if is_decimal_lit(s) {
            None
        } else {
            Some(Error::NumberMalformed)
        },
        ValueV::List(items) => ser_err_list(items),
        ValueV::Object(pairs) => ser_err_entries(pairs),
        ValueV::NewtypeVariant(_, b) => ser_err(*b),
        ValueV::TupleVariant(_, items) => ser_err_list(items),
        ValueV::StructVariant(_, fields) => ser_err_fields(fields),
        _ => None,
    }
}

/// The first failure among a sequence of values, in order.
pub open spec fn ser_err_list(items: Seq<ValueV>) -> Option<Error>
    decreases items, 0int,
{
    if items.len() == 0 {
        None
    } else {
        match ser_err_list(items.drop_last()) {
            Some(e) => Some(e),
            None => ser_err(items.last()),
        }
    }
}

/// The failure one map entry meets: its key first, then its value.
pub open spec fn entry_err(k: ValueV, v: ValueV) -> Option<Error>
    decreases v, 1int,
{
    if !(k is Str) {
        Some(Error::KeyMustBeAString)
    } else {
        ser_err(v)
    }
}

/// The first failure among map pairs, in order.
pub open spec fn ser_err_entries(pairs: Seq<(ValueV, ValueV)>) -> Option<Error>
    decreases pairs, 0int,
{
    if pairs.len() == 0 {
        None
    } else {
        match ser_err_entries(pairs.drop_last()) {
            Some(e) => Some(e),
            None => entry_err(pairs.last().0, pairs.last().1),
        }
    }
}

/// The first failure among named fields, in order.
pub open spec fn ser_err_fields(fields: Seq<(Seq<char>, ValueV)>) -> Option<Error>
    decreases fields, 0int,
{
    if fields.len() == 0 {
        None
    } else {
        match ser_err_fields(fields.drop_last()) {
            Some(e) => Some(e),
            None => ser_err(fields.last().1),
        }
    }
}

/// A failed prefix fails the whole list, with the same error.
proof fn lemma_ser_err_list_prefix(items: Seq<ValueV>, i: int, e: Error)
    requires
        0 <= i <= items.len(),
        ser_err_list(items.take(i)) == Some(e),
    ensures
        ser_err_list(items) == Some(e),
    decreases items.len() - i,
{
    if i < items.len() {
        assert(items.take(i + 1).drop_last() =~= items.take(i));
        lemma_ser_err_list_prefix(items, i + 1, e);
    } else {
        assert(items.take(i) =~= items);
    }
}

/// A failed prefix fails the whole map, with the same error.
proof fn lemma_ser_err_entries_prefix(pairs: Seq<(ValueV, ValueV)>, i: int, e: Error)
    requires
        0 <= i <= pairs.len(),
        ser_err_entries(pairs.take(i)) == Some(e),
    ensures
        ser_err_entries(pairs) == Some(e),
    decreases pairs.len() - i,
{
    if i < pairs.len() {
        assert(pairs.take(i + 1).drop_last() =~= pairs.take(i));
        lemma_ser_err_entries_prefix(pairs, i + 1, e);
    } else {
        assert(pairs.take(i) =~= pairs);
    }
}

/// A failed prefix fails all the fields, with the same error.
proof fn lemma_ser_err_fields_prefix(fields: Seq<(Seq<char>, ValueV)>, i: int, e: Error)
    requires
        0 <= i <= fields.len(),
        ser_err_fields(fields.take(i)) == Some(e),
    ensures
        ser_err_fields(fields) == Some(e),
    decreases fields.len() - i,
{
    if i < fields.len() {
        assert(fields.take(i + 1).drop_last() =~= fields.take(i));
        lemma_ser_err_fields_prefix(fields, i + 1, e);
    } else {
        assert(fields.take(i) =~= fields);
    }
}

/// What one value serializes to. Total as a function; callers only rely on
/// it where [`ser_err`] is `None`, which is exactly when serialization
/// succeeds.
pub open spec fn ser_spec(v: ValueV) -> AttrV
    decreases v,
{
    match v {
        ValueV::Bool(b) => AttrV::Bool(b),
        ValueV::UInt(x) => AttrV::N(u64_dec(x as nat)),
        ValueV::Int(x) => AttrV::N(i64_dec(x as int)),
        ValueV::Number(s) => AttrV::N(s),
        ValueV::Str(s) => AttrV::S(s),
        ValueV::Bytes(b) => AttrV::B(b),
        ValueV::Null => AttrV::Null,
        ValueV::List(items) => AttrV::L(ser_list_spec(items)),
        ValueV::Object(pairs) => AttrV::M(ser_entries_spec(pairs)),
        ValueV::UnitVariant(n) => AttrV::S(n),
        ValueV::NewtypeVariant(n, b) => AttrV::M(seq![(n, ser_spec(*b))]),
        ValueV::TupleVariant(n, items) => AttrV::M(seq![(n, AttrV::L(ser_list_spec(items)))]),
        ValueV::StructVariant(n, fields) => AttrV::M(seq![(n, AttrV::M(ser_fields_spec(fields)))]),
    }
}

/// What a sequence of values serializes to, elementwise.
pub open spec fn ser_list_spec(items: Seq<ValueV>) -> Seq<AttrV>
    decreases items,
{
    Seq::new(
        items.len(),
        |i: int|
            if 0 <= i < items.len() {
                ser_spec(items[i])
            } else {
                AttrV::Null
            },
    )
}

/// What map pairs serialize to: each entry inserted in turn, with
/// replace-on-duplicate semantics.
pub open spec fn ser_entries_spec(pairs: Seq<(ValueV, ValueV)>) -> Seq<(Seq<char>, AttrV)>
    decreases pairs,
{
    if pairs.len() == 0 {
        Seq::empty()
    } else {
        entries_insert(
            ser_entries_spec(pairs.drop_last()),
            key_str(pairs.last().0),
            ser_spec(pairs.last().1),
        )
    }
}

/// What named fields serialize to: each field inserted in turn.
pub open spec fn ser_fields_spec(fields: Seq<(Seq<char>, ValueV)>) -> Seq<(Seq<char>, AttrV)>
    decreases fields,
{
    if fields.len() == 0 {
        Seq::empty()
    } else {
        entries_insert(
            ser_fields_spec(fields.drop_last()),
            fields.last().0,
            ser_spec(fields.last().1),
        )
    }
}

/// Serialize a map key. Only a string value can be a key; every other value
/// is rejected, so a non-string key can never reach a map node.
pub fn serialize_map_key(key: &Value) -> (r: Result<String, Error>)
    ensures
        match r {
            Ok(s) => key.model() is Str && s@ == key_str(key.model()),
            Err(e) => !(key.model() is Str) && e == Error::KeyMustBeAString,
        },
{
    match key {
        Value::Str(s) => Ok(s.clone()),
        _ => Err(Error::KeyMustBeAString),
    }
}

/// Builds one map node entry by entry during serialization.
pub struct SerializerMap {
    item: Vec<(String, AttributeValue)>,
}

impl SerializerMap {
    /// The entries collected so far.
    pub closed spec fn entries(self) -> Seq<(Seq<char>, AttrV)> {
        pair_models(self.item@)
    }

    /// Start an empty map node; a known entry count only pre-sizes the
    /// allocation.
    pub fn new(len: Option<usize>) -> (r: Self)
        ensures
            r.entries() == Seq::<(Seq<char>, AttrV)>::empty(),
    {
        let item = match len {
            Some(n) => Vec::with_capacity(n),
            None => Vec::new(),
        };
        let r = SerializerMap { item };
        proof {
            assert(r.entries() =~= Seq::<(Seq<char>, AttrV)>::empty());
        }
        r
    }

    /// Add one entry: an existing key keeps its position and takes the new
    /// value; a new key goes to the end.
    #[verifier::loop_isolation(false)]
    fn insert(&mut self, k: String, v: AttributeValue)
        ensures
            final(self).entries() == entries_insert(old(self).entries(), k@, v.model()),
    {
        let n = self.item.len();
        let mut i: usize = 0;
        while i < n
            invariant
                0 <= i <= n,
                n == self.item@.len(),
                self.item == old(self).item,
                forall|j: int| 0 <= j < i ==> old(self).entries()[j].0 != k@,
            decreases n - i,
        {
            if crate::attr::str_eq(self.item[i].0.as_str(), k.as_str()) {
                self.item.set(i, (k, v));
                proof {
                    lemma_entries_insert_at(old(self).entries(), k@, v.model(), i as int);
                    assert(self.entries() =~= entries_insert(
                        old(self).entries(),
                        k@,
                        v.model(),
                    ));
                }
                return ;
            }
            i = i + 1;
        }
        self.item.push((k, v));
        proof {
            lemma_entries_insert_fresh(old(self).entries(), k@, v.model());
            assert(self.entries() =~= old(self).entries().push((k@, v.model())));
        }
    }

    /// Serialize one key/value pair into the map: the key must serialize to
    /// a string and the value must itself serialize.
    pub fn serialize_entry(&mut self, key: &Value, value: &Value) -> (r: Result<(), Error>)
        ensures
            match r {
                Ok(_) => entry_err(key.model(), value.model()) is None && final(self).entries()
                    == entries_insert(
                    old(self).entries(),
                    key_str(key.model()),
                    ser_spec(value.model()),
                ),
                Err(e) => entry_err(key.model(), value.model()) == Some(e) && final(self).entries()
                    == old(self).entries(),
            },
        decreases *value, 1int,
    {
        let k = match serialize_map_key(key) {
            Ok(k) => k,
            Err(e) => {
                return Err(e);
            },
        };
        let v = match to_attribute_value(value) {
            Ok(v) => v,
            Err(e) => {
                return Err(e);
            },
        };
        self.insert(k, v);
        Ok(())
    }

    /// Finish the map: the collected entries become one `M` node.
    pub fn end(self) -> (r: AttributeValue)
        ensures
            r.model() == AttrV::M(self.entries()),
    {
        AttributeValue::M(self.item)
    }
}

/// Inserting a key that replaces the entry at position `at` rewrites that
/// position and keeps the rest.
proof fn lemma_entries_insert_at(m: Seq<(Seq<char>, AttrV)>, k: Seq<char>, v: AttrV, at: int)
    requires
        0 <= at < m.len(),
        m[at].0 == k,
        forall|j: int| 0 <= j < at ==> m[j].0 != k,
    ensures
        entries_insert(m, k, v) == m.update(at, (k, v)),
    decreases m.len(),
{
    if at == 0 {
        assert(entries_insert(m, k, v) =~= m.update(0, (k, v)));
    } else {
        lemma_entries_insert_at(m.skip(1), k, v, at - 1);
        assert(m.skip(1).update(at - 1, (k, v)) =~= m.update(at, (k, v)).skip(1));
        assert(entries_insert(m, k, v) =~= m.update(at, (k, v)));
    }
}

/// Inserting a fresh key appends the entry.
pub proof fn lemma_entries_insert_fresh(m: Seq<(Seq<char>, AttrV)>, k: Seq<char>, v: AttrV)
    requires
        forall|j: int| 0 <= j < m.len() ==> m[j].0 != k,
    ensures
        entries_insert(m, k, v) == m.push((k, v)),
    decreases m.len(),
{
    if m.len() == 0 {
        assert(entries_insert(m, k, v) =~= m.push((k, v)));
    } else {
        lemma_entries_insert_fresh(m.skip(1), k, v);
        assert(m.skip(1).push((k, v)) =~= m.push((k, v)).skip(1));
        assert(entries_insert(m, k, v) =~= m.push((k, v)));
    }
}

/// Serialize one structured value into one tagged-union node. Succeeds
/// exactly when the value meets no failure: every map key a string, every
/// kept number text a decimal literal; otherwise the first failure in
/// traversal order comes back.
#[verifier::loop_isolation(false)]
pub fn to_attribute_value(value: &Value) -> (r: Result<AttributeValue, Error>)
    ensures
        match r {
            Ok(a) => ser_err(value.model()) is None && a.model() == ser_spec(value.model()),
            Err(e) => ser_err(value.model()) == Some(e),
        },
    decreases *value, 0int,
{
    match value {
        Value::Bool(b) => Ok(AttributeValue::Bool(*b)),
        Value::UInt(x) => Ok(AttributeValue::N(crate::num::u64_to_decimal(*x))),
        Value::Int(x) => Ok(AttributeValue::N(crate::num::i64_to_decimal(*x))),
        Value::Number(s) => {
            if crate::num::check_decimal_lit(s.as_str()) {
                Ok(AttributeValue::N(s.clone()))
            } else {
                Err(Error::NumberMalformed)
            }
        },
        Value::Str(s) => Ok(AttributeValue::S(s.clone())),
        Value::Bytes(b) => {
            let c = b.clone();
            proof {
                assert(c@ =~= b@);
            }
            Ok(AttributeValue::B(c))
        },
        Value::Null => Ok(AttributeValue::Null),
        Value::List(items) => {
            let n = items.len();
            let mut out: Vec<AttributeValue> = Vec::new();
            let mut i: usize = 0;
            while i < n
                invariant
                    0 <= i <= n,
                    out@.len() == i,
                    ser_err_list(value_models(items@).take(i as int)) is None,
                    forall|j: int|
                        0 <= j < i ==> #[trigger] out@[j].model() == ser_spec(
                            value_models(items@)[j],
                        ),
                decreases n - i,
            {
                proof {
                    let vm = value_models(items@);
                    assert(vm.take(i + 1).drop_last() =~= vm.take(i as int));
                    assert(vm.take(i + 1).last() == vm[i as int]);
                }
                match to_attribute_value(&items[i]) {
                    Ok(a) => {
                        out.push(a);
                    },
                    Err(e) => {
                        proof {
                            let vm = value_models(items@);
                            assert(ser_err_list(vm.take(i + 1)) == Some(e));
                            lemma_ser_err_list_prefix(vm, i + 1, e);
                        }
                        return Err(e);
                    },
                }
                i = i + 1;
            }
            proof {
                assert(value_models(items@).take(n as int) =~= value_models(items@));
                assert forall|j: int| 0 <= j < n as int implies seq_models(out@)[j] == ser_list_spec(
                    value_models(items@),
                )[j] by {
                    assert(out@[j].model() == ser_spec(value_models(items@)[j]));
                }
                assert(seq_models(out@) =~= ser_list_spec(value_models(items@)));
            }
            Ok(AttributeValue::L(out))
        },
        Value::Object(pairs) => {
            let n = pairs.len();
            let mut sm = SerializerMap::new(Some(n));
            let mut i: usize = 0;
            while i < n
                invariant
                    0 <= i <= n,
                    ser_err_entries(value_pair_models(pairs@).take(i as int)) is None,
                    sm.entries() == ser_entries_spec(value_pair_models(pairs@).take(i as int)),
                decreases n - i,
            {
                proof {
                    let pm = value_pair_models(pairs@);
                    assert(pm.take(i + 1).drop_last() =~= pm.take(i as int));
                    assert(pm.take(i + 1).last() == pm[i as int]);
                }
                match sm.serialize_entry(&pairs[i].0, &pairs[i].1) {
                    Ok(_) => {},
                    Err(e) => {
                        proof {
                            let pm = value_pair_models(pairs@);
                            assert(ser_err_entries(pm.take(i + 1)) == Some(e));
                            lemma_ser_err_entries_prefix(pm, i + 1, e);
                        }
                        return Err(e);
                    },
                }
                i = i + 1;
            }
            proof {
                assert(value_pair_models(pairs@).take(n as int) =~= value_pair_models(pairs@));
            }
            Ok(sm.end())
        },
        Value::UnitVariant(n) => Ok(AttributeValue::S(n.clone())),
        Value::NewtypeVariant(n, b) => {
            let inner = match to_attribute_value(b) {
                Ok(a) => a,
                Err(e) => {
                    return Err(e);
                },
            };
            let mut item: Vec<(String, AttributeValue)> = Vec::with_capacity(1);
            item.push((n.clone(), inner));
            let r = AttributeValue::M(item);
            proof {
                assert(pair_models(item@) =~= seq![(n@, ser_spec(b.model()))]);
            }
            Ok(r)
        },
        Value::TupleVariant(n, items) => {
            let len = items.len();
            let mut out: Vec<AttributeValue> = Vec::new();
            let mut i: usize = 0;
            while i < len
                invariant
                    0 <= i <= len,
                    out@.len() == i,
                    ser_err_list(value_models(items@).take(i as int)) is None,
                    forall|j: int|
                        0 <= j < i ==> #[trigger] out@[j].model() == ser_spec(
                            value_models(items@)[j],
                        ),
                decreases len - i,
            {
                proof {
                    let vm = value_models(items@);
                    assert(vm.take(i + 1).drop_last() =~= vm.take(i as int));
                    assert(vm.take(i + 1).last() == vm[i as int]);
                }
                match to_attribute_value(&items[i]) {
                    Ok(a) => {
                        out.push(a);
                    },
                    Err(e) => {
                        proof {
                            let vm = value_models(items@);
                            assert(ser_err_list(vm.take(i + 1)) == Some(e));
                            lemma_ser_err_list_prefix(vm, i + 1, e);
                        }
                        return Err(e);
                    },
                }
                i = i + 1;
            }
            proof {
                assert(value_models(items@).take(len as int) =~= value_models(items@));
                assert forall|j: int| 0 <= j < len as int implies seq_models(out@)[j]
                    == ser_list_spec(value_models(items@))[j] by {
                    assert(out@[j].model() == ser_spec(value_models(items@)[j]));
                }
                assert(seq_models(out@) =~= ser_list_spec(value_models(items@)));
            }
            let mut item: Vec<(String, AttributeValue)> = Vec::with_capacity(1);
            item.push((n.clone(), AttributeValue::L(out)));
            let r = AttributeValue::M(item);
            proof {
                assert(pair_models(item@) =~= seq![
                    (n@, AttrV::L(ser_list_spec(value_models(items@)))),
                ]);
            }
            Ok(r)
        },
        Value::StructVariant(n, fields) => {
            let len = fields.len();
            let mut sm = SerializerMap::new(Some(len));
            let mut i: usize = 0;
            while i < len
                invariant
                    0 <= i <= len,
                    ser_err_fields(field_models(fields@).take(i as int)) is None,
                    sm.entries() == ser_fields_spec(field_models(fields@).take(i as int)),
                decreases len - i,
            {
                proof {
                    let fm = field_models(fields@);
                    assert(fm.take(i + 1).drop_last() =~= fm.take(i as int));
                    assert(fm.take(i + 1).last() == fm[i as int]);
                }
                let v = match to_attribute_value(&fields[i].1) {
                    Ok(a) => a,
                    Err(e) => {
                        proof {
                            let fm = field_models(fields@);
                            assert(ser_err_fields(fm.take(i + 1)) == Some(e));
                            lemma_ser_err_fields_prefix(fm, i + 1, e);
                        }
                        return Err(e);
                    },
                };
                sm.insert(fields[i].0.clone(), v);
                i = i + 1;
            }
            proof {
                assert(field_models(fields@).take(len as int) =~= field_models(fields@));
            }
            let inner = sm.end();
            let mut item: Vec<(String, AttributeValue)> = Vec::with_capacity(1);
            item.push((n.clone(), inner));
            let r = AttributeValue::M(item);
            proof {
                assert(pair_models(item@) =~= seq![
                    (n@, AttrV::M(ser_fields_spec(field_models(fields@)))),
                ]);
            }
            Ok(r)
        },
    }
}

/// Build a string-set node from strings; order is preserved.
pub fn to_string_set(items: Vec<String>) -> (r: AttributeValue)
    ensures
        r.model() == AttrV::Ss(str_views(items@)),
{
    AttributeValue::Ss(items)
}

/// Build a number-set node from decimal strings; every entry must be a
/// decimal literal, and order is preserved.
pub fn to_number_set(items: Vec<String>) -> (r: Result<AttributeValue, Error>)
    ensures
        match r {
            Ok(a) => a.model() == AttrV::Ns(str_views(items@)) && forall|i: int|
                0 <= i < items@.len() ==> is_decimal_lit(#[trigger] str_views(items@)[i]),
            Err(e) => e == Error::NumberMalformed && exists|i: int|
                0 <= i < items@.len() && !is_decimal_lit(#[trigger] str_views(items@)[i]),
        },
{
    let n = items.len();
    let mut i: usize = 0;
    while i < n
        invariant
            0 <= i <= n,
            n == items@.len(),
            forall|j: int| 0 <= j < i ==> is_decimal_lit(#[trigger] str_views(items@)[j]),
        decreases n - i,
    {
        if !check_decimal_lit(items[i].as_str()) {
            proof {
                assert(!is_decimal_lit(str_views(items@)[i as int]));
            }
            return Err(Error::NumberMalformed);
        }
        i = i + 1;
    }
    Ok(AttributeValue::Ns(items))
}

/// Build a binary-set node from byte blobs; order is preserved.
pub fn to_binary_set(items: Vec<Vec<u8>>) -> (r: AttributeValue)
    ensures
        r.model() == AttrV::Bs(crate::attr::blob_views(items@)),
{
    AttributeValue::Bs(items)
}

} // verus!
