//! The codec's laws, stated once over the mathematical models and proved
//! for every input they speak of: serializing and then deserializing gives
//! the value back; a typed read agrees with a self-describing read followed
//! by a typed conversion; and a map read never looks at entries it was not
//! asked for.

use vstd::prelude::*;

use crate::attr::{entries_get, AttrV};
use crate::de::{de_any_spec, de_entries_spec, de_enum_spec, de_list_spec, de_option_spec};
use crate::error::Error;
use crate::num::{
    i16_result, i32_result, i64_result, i8_result, is_decimal_lit, is_digit_char, is_unsigned_str,
    lemma_i64_roundtrip, lemma_u64_roundtrip, u16_result, u32_result, u64_result, u8_result,
};
use crate::ser::{
    key_str, lemma_entries_insert_fresh, ser_entries_spec, ser_err, ser_err_entries, ser_err_list,
    ser_fields_spec, ser_list_spec, ser_spec,
};
use crate::value::{
    as_bool_spec, as_bytes_spec, as_char_spec, as_i16_spec, as_i32_spec, as_i64_spec, as_i8_spec,
    as_string_spec, as_u16_spec, as_u32_spec, as_u64_spec, as_u8_spec, as_unit_spec, canonical,
    ValueV,
};

verus! {

/// With string keys, all distinct, serializing map pairs is the plain
/// elementwise map: no entry replaces another.
proof fn lemma_ser_entries_plain(pairs: Seq<(ValueV, ValueV)>)
    requires
        forall|i: int| 0 <= i < pairs.len() ==> (#[trigger] pairs[i]).0 is Str,
        forall|i: int, j: int| 0 <= i < j < pairs.len() ==> pairs[i].0 != pairs[j].0,
    ensures
        ser_entries_spec(pairs) == Seq::new(
            pairs.len(),
            |i: int|
                if 0 <= i < pairs.len() {
                    (key_str(pairs[i].0), ser_spec(pairs[i].1))
                } else {
                    (Seq::<char>::empty(), AttrV::Null)
                },
        ),
    decreases pairs.len(),
{
    let mapped = Seq::new(
        pairs.len(),
        |i: int|
            if 0 <= i < pairs.len() {
                (key_str(pairs[i].0), ser_spec(pairs[i].1))
            } else {
                (Seq::<char>::empty(), AttrV::Null)
            },
    );
    if pairs.len() == 0 {
        assert(ser_entries_spec(pairs) =~= mapped);
    } else {
        lemma_ser_entries_plain(pairs.drop_last());
        let pre = ser_entries_spec(pairs.drop_last());
        let last = pairs.last();
        assert forall|j: int| 0 <= j < pre.len() implies pre[j].0 != key_str(last.0) by {
            assert(pairs[j].0 != last.0);
            assert(pairs[j].0 is Str && last.0 is Str);
        }
        lemma_entries_insert_fresh(pre, key_str(last.0), ser_spec(last.1));
        assert(ser_entries_spec(pairs) =~= mapped);
    }
}

/// Round-trip identity: a canonical value serializes, and deserializing the
/// node it serialized to gives exactly the value back.
pub proof fn lemma_round_trip(v: ValueV)
    requires
        canonical(v),
    ensures
        ser_err(v) is None,
        de_any_spec(ser_spec(v)) == Ok::<ValueV, Error>(v),
    decreases v,
{
    match v {
        ValueV::UInt(x) => {
            lemma_u64_roundtrip(x);
        },
        ValueV::Int(x) => {
            lemma_i64_roundtrip(x);
        },
        ValueV::List(items) => {
            lemma_round_trip_list(items);
        },
        ValueV::Object(pairs) => {
            lemma_round_trip_entries(pairs);
        },
        _ => {},
    }
}

/// Round-trip identity for a sequence of canonical values, elementwise.
pub proof fn lemma_round_trip_list(items: Seq<ValueV>)
    requires
        forall|i: int| 0 <= i < items.len() ==> canonical(#[trigger] items[i]),
    ensures
        ser_err_list(items) is None,
        de_list_spec(ser_list_spec(items)) == Ok::<Seq<ValueV>, Error>(items),
    decreases items,
{
    if items.len() == 0 {
        assert(ser_list_spec(items) =~= Seq::<AttrV>::empty());
        assert(items =~= Seq::<ValueV>::empty());
    } else {
        lemma_round_trip_list(items.drop_last());
        lemma_round_trip(items.last());
        let sl = ser_list_spec(items);
        assert(sl.drop_last() =~= ser_list_spec(items.drop_last()));
        assert(sl.last() == ser_spec(items.last()));
        assert(items.drop_last().push(items.last()) =~= items);
    }
}

/// Round-trip identity for map pairs with distinct string keys: the entries
/// come back in order, keys as string values.
pub proof fn lemma_round_trip_entries(pairs: Seq<(ValueV, ValueV)>)
    requires
        forall|i: int|
            0 <= i < pairs.len() ==> (#[trigger] pairs[i]).0 is Str && canonical(pairs[i].1),
        forall|i: int, j: int| 0 <= i < j < pairs.len() ==> pairs[i].0 != pairs[j].0,
    ensures
        ser_err_entries(pairs) is None,
        de_entries_spec(ser_entries_spec(pairs)) == Ok::<Seq<(ValueV, ValueV)>, Error>(pairs),
    decreases pairs,
{
    lemma_ser_entries_plain(pairs);
    if pairs.len() == 0 {
        assert(ser_entries_spec(pairs) =~= Seq::<(Seq<char>, AttrV)>::empty());
        assert(pairs =~= Seq::<(ValueV, ValueV)>::empty());
    } else {
        assert(pairs[pairs.len() - 1].0 is Str && canonical(pairs[pairs.len() - 1].1));
        assert(pairs.last() == pairs[pairs.len() - 1]);
        lemma_round_trip_entries(pairs.drop_last());
        lemma_round_trip(pairs.last().1);
        lemma_ser_entries_plain(pairs.drop_last());
        let se = ser_entries_spec(pairs);
        assert(se.drop_last() =~= ser_entries_spec(pairs.drop_last()));
        assert(se.last() == (key_str(pairs.last().0), ser_spec(pairs.last().1)));
        assert(ValueV::Str(key_str(pairs.last().0)) == pairs.last().0);
        assert(pairs.drop_last().push(pairs.last()) =~= pairs);
        assert(ser_err_entries(pairs.drop_last()) is None);
        assert(crate::ser::entry_err(pairs.last().0, pairs.last().1) is None);
        assert(ser_err_entries(pairs) is None);
    }
}

/// Optionals collapse on the wire: "none" is the null marker and "some"
/// serializes bare, so the optional request reads null back as "none" and
/// hands any other node on whole.
pub proof fn lemma_option_round_trip(v: ValueV)
    requires
        canonical(v),
    ensures
        v is Null ==> de_option_spec(ser_spec(v)) is None,
        !(v is Null) ==> de_option_spec(ser_spec(v)) == Some(ser_spec(v)) && de_any_spec(
            ser_spec(v),
        ) == Ok::<ValueV, Error>(v),
{
    lemma_round_trip(v);
}

/// A unit variant round-trips through the variant request: the bare string
/// names the variant and carries no payload.
pub proof fn lemma_enum_unit_round_trip(name: Seq<char>)
    ensures
        de_enum_spec(ser_spec(ValueV::UnitVariant(name))) == Ok::<
            (Seq<char>, Option<AttrV>),
            Error,
        >((name, None)),
{
}

/// A newtype variant round-trips through the variant request: the map's one
/// key names the variant, and the payload node is the payload's own
/// serialization.
pub proof fn lemma_enum_newtype_round_trip(name: Seq<char>, payload: ValueV)
    ensures
        de_enum_spec(ser_spec(ValueV::NewtypeVariant(name, Box::new(payload)))) == Ok::<
            (Seq<char>, Option<AttrV>),
            Error,
        >((name, Some(ser_spec(payload)))),
{
}

/// A tuple variant round-trips: the payload node is the list of the
/// elements' serializations, and with canonical elements the list reads
/// back as the elements.
pub proof fn lemma_enum_tuple_round_trip(name: Seq<char>, items: Seq<ValueV>)
    requires
        forall|i: int| 0 <= i < items.len() ==> canonical(#[trigger] items[i]),
    ensures
        de_enum_spec(ser_spec(ValueV::TupleVariant(name, items))) == Ok::<
            (Seq<char>, Option<AttrV>),
            Error,
        >((name, Some(AttrV::L(ser_list_spec(items))))),
        de_any_spec(AttrV::L(ser_list_spec(items))) == Ok::<ValueV, Error>(ValueV::List(items)),
{
    lemma_round_trip_list(items);
}

/// A struct variant round-trips: the payload node is the map of the fields'
/// serializations, and with distinct field names and canonical field values
/// the map reads back as the fields, names as string values.
pub proof fn lemma_enum_struct_round_trip(name: Seq<char>, fields: Seq<(Seq<char>, ValueV)>)
    requires
        forall|i: int| 0 <= i < fields.len() ==> canonical((#[trigger] fields[i]).1),
        forall|i: int, j: int| 0 <= i < j < fields.len() ==> fields[i].0 != fields[j].0,
    ensures
        de_enum_spec(ser_spec(ValueV::StructVariant(name, fields))) == Ok::<
            (Seq<char>, Option<AttrV>),
            Error,
        >((name, Some(AttrV::M(ser_fields_spec(fields))))),
        de_any_spec(AttrV::M(ser_fields_spec(fields))) == Ok::<ValueV, Error>(
            ValueV::Object(
                Seq::new(
                    fields.len(),
                    |i: int|
                        if 0 <= i < fields.len() {
                            (ValueV::Str(fields[i].0), fields[i].1)
                        } else {
                            (ValueV::Null, ValueV::Null)
                        },
                ),
            ),
        ),
{
    let wrapped = Seq::new(
        fields.len(),
        |i: int|
            if 0 <= i < fields.len() {
                (ValueV::Str(fields[i].0), fields[i].1)
            } else {
                (ValueV::Null, ValueV::Null)
            },
    );
    assert forall|i: int| 0 <= i < wrapped.len() implies (#[trigger] wrapped[i]).0 is Str
        && canonical(wrapped[i].1) by {
        assert(fields[i].1 == wrapped[i].1);
    }
    assert forall|i: int, j: int| 0 <= i < j < wrapped.len() implies wrapped[i].0
        != wrapped[j].0 by {
        assert(fields[i].0 != fields[j].0);
    }
    lemma_round_trip_entries(wrapped);
    assert(ser_entries_spec(wrapped) =~= ser_fields_spec(fields)) by {
        lemma_fields_as_entries(fields, wrapped);
    }
    assert(de_entries_spec(ser_fields_spec(fields)) == Ok::<Seq<(ValueV, ValueV)>, Error>(
        wrapped,
    ));
}

/// Serializing named fields is the same as serializing the pairs with their
/// names wrapped as string values.
proof fn lemma_fields_as_entries(fields: Seq<(Seq<char>, ValueV)>, wrapped: Seq<(ValueV, ValueV)>)
    requires
        wrapped.len() == fields.len(),
        forall|i: int|
            0 <= i < fields.len() ==> #[trigger] wrapped[i] == (
                ValueV::Str(fields[i].0),
                fields[i].1,
            ),
    ensures
        ser_entries_spec(wrapped) == ser_fields_spec(fields),
    decreases fields.len(),
{
    if fields.len() > 0 {
        lemma_fields_as_entries(fields.drop_last(), wrapped.drop_last());
    }
}

/// Extra-field tolerance: looking one key up in a map ignores every entry
/// under any other key, so fields a reader does not ask for never change
/// what it reads.
pub proof fn lemma_extra_field_ignored(
    pairs: Seq<(Seq<char>, AttrV)>,
    extra: (Seq<char>, AttrV),
    key: Seq<char>,
)
    requires
        extra.0 != key,
    ensures
        entries_get(pairs.push(extra), key) == entries_get(pairs, key),
    decreases pairs.len(),
{
    let pushed = pairs.push(extra);
    if pairs.len() == 0 {
        assert(pushed[0] == extra);
        assert(pushed.skip(1) =~= Seq::<(Seq<char>, AttrV)>::empty());
        assert(entries_get(pushed, key) == entries_get(pushed.skip(1), key));
        assert(entries_get(pushed.skip(1), key) is None);
    } else {
        assert(pushed[0] == pairs[0]);
        if pairs[0].0 == key {
            assert(entries_get(pushed, key) == Some(pairs[0].1));
            assert(entries_get(pairs, key) == Some(pairs[0].1));
        } else {
            lemma_extra_field_ignored(pairs.skip(1), extra, key);
            assert(pushed.skip(1) =~= pairs.skip(1).push(extra));
            assert(entries_get(pushed, key) == entries_get(pushed.skip(1), key));
            assert(entries_get(pairs, key) == entries_get(pairs.skip(1), key));
        }
    }
}

/// Cross-format equivalence for unsigned integers: the typed read of a node
/// succeeds with some value exactly when the self-describing read succeeds
/// and its result converts to that value. A number written as a negated
/// zero is left out: the typed unsigned read rejects its minus sign, while
/// the self-describing read parses it as the integer zero, which converts.
pub proof fn lemma_u64_cross_equiv(a: AttrV, x: u64)
    requires
        !(a is N && a->N_0.len() > 0 && a->N_0[0] == '-' && i64_result(a->N_0) == Ok::<i64, Error>(
            0i64,
        )),
    ensures
        ((a is N && u64_result(a->N_0) == Ok::<u64, Error>(x)) <==> (de_any_spec(a) is Ok
            && as_u64_spec(de_any_spec(a)->Ok_0) == Ok::<u64, Error>(x))),
{
    if a is N {
        let s = a->N_0;
        if u64_result(s) is Err && i64_result(s) is Ok {
            lemma_i64_neg_when_u64_fails(s);
        }
    }
}

/// Cross-format equivalence for signed integers.
pub proof fn lemma_i64_cross_equiv(a: AttrV, x: i64)
    ensures
        ((a is N && i64_result(a->N_0) == Ok::<i64, Error>(x)) <==> (de_any_spec(a) is Ok
            && as_i64_spec(de_any_spec(a)->Ok_0) == Ok::<i64, Error>(x))),
{
}

/// When a digit string fits no `u64` but does fit an `i64`, and is not a
/// negated zero, it was negative.
proof fn lemma_i64_neg_when_u64_fails(s: Seq<char>)
    requires
        u64_result(s) is Err,
        i64_result(s) is Ok,
        !(s.len() > 0 && s[0] == '-' && i64_result(s) == Ok::<i64, Error>(0i64)),
    ensures
        i64_result(s)->Ok_0 < 0,
{
    if !(s.len() > 0 && s[0] == '-') {
        assert(crate::num::signed_val(s) == crate::num::digits_val(s) as int);
        assert(crate::num::digits_val(s) <= i64::MAX);
        assert(false);
    }
}


/// Cross-format equivalence for `u8`, lifted from the `u64` case through
/// the shared range check; the negated-zero number is left out as there.
pub proof fn lemma_u8_cross_equiv(a: AttrV, x: u8)
    requires
        !(a is N && a->N_0.len() > 0 && a->N_0[0] == '-' && i64_result(a->N_0) == Ok::<i64, Error>(
            0i64,
        )),
    ensures
        ((a is N && u8_result(a->N_0) == Ok::<u8, Error>(x)) <==> (de_any_spec(a) is Ok
            && as_u8_spec(de_any_spec(a)->Ok_0) == Ok::<u8, Error>(x))),
{
    lemma_u64_cross_equiv(a, x as u64);
    if de_any_spec(a) is Ok && as_u8_spec(de_any_spec(a)->Ok_0) == Ok::<u8, Error>(x) {
        let y = as_u64_spec(de_any_spec(a)->Ok_0)->Ok_0;
        lemma_u64_cross_equiv(a, y);
    }
}

/// Cross-format equivalence for `u16`, lifted from the `u64` case.
pub proof fn lemma_u16_cross_equiv(a: AttrV, x: u16)
    requires
        !(a is N && a->N_0.len() > 0 && a->N_0[0] == '-' && i64_result(a->N_0) == Ok::<i64, Error>(
            0i64,
        )),
    ensures
        ((a is N && u16_result(a->N_0) == Ok::<u16, Error>(x)) <==> (de_any_spec(a) is Ok
            && as_u16_spec(de_any_spec(a)->Ok_0) == Ok::<u16, Error>(x))),
{
    lemma_u64_cross_equiv(a, x as u64);
    if de_any_spec(a) is Ok && as_u16_spec(de_any_spec(a)->Ok_0) == Ok::<u16, Error>(x) {
        let y = as_u64_spec(de_any_spec(a)->Ok_0)->Ok_0;
        lemma_u64_cross_equiv(a, y);
    }
}

/// Cross-format equivalence for `u32`, lifted from the `u64` case.
pub proof fn lemma_u32_cross_equiv(a: AttrV, x: u32)
    requires
        !(a is N && a->N_0.len() > 0 && a->N_0[0] == '-' && i64_result(a->N_0) == Ok::<i64, Error>(
            0i64,
        )),
    ensures
        ((a is N && u32_result(a->N_0) == Ok::<u32, Error>(x)) <==> (de_any_spec(a) is Ok
            && as_u32_spec(de_any_spec(a)->Ok_0) == Ok::<u32, Error>(x))),
{
    lemma_u64_cross_equiv(a, x as u64);
    if de_any_spec(a) is Ok && as_u32_spec(de_any_spec(a)->Ok_0) == Ok::<u32, Error>(x) {
        let y = as_u64_spec(de_any_spec(a)->Ok_0)->Ok_0;
        lemma_u64_cross_equiv(a, y);
    }
}

/// Cross-format equivalence for `i8`, lifted from the `i64` case.
pub proof fn lemma_i8_cross_equiv(a: AttrV, x: i8)
    ensures
        ((a is N && i8_result(a->N_0) == Ok::<i8, Error>(x)) <==> (de_any_spec(a) is Ok
            && as_i8_spec(de_any_spec(a)->Ok_0) == Ok::<i8, Error>(x))),
{
    lemma_i64_cross_equiv(a, x as i64);
    if de_any_spec(a) is Ok && as_i8_spec(de_any_spec(a)->Ok_0) == Ok::<i8, Error>(x) {
        let y = as_i64_spec(de_any_spec(a)->Ok_0)->Ok_0;
        lemma_i64_cross_equiv(a, y);
    }
}

/// Cross-format equivalence for `i16`, lifted from the `i64` case.
pub proof fn lemma_i16_cross_equiv(a: AttrV, x: i16)
    ensures
        ((a is N && i16_result(a->N_0) == Ok::<i16, Error>(x)) <==> (de_any_spec(a) is Ok
            && as_i16_spec(de_any_spec(a)->Ok_0) == Ok::<i16, Error>(x))),
{
    lemma_i64_cross_equiv(a, x as i64);
    if de_any_spec(a) is Ok && as_i16_spec(de_any_spec(a)->Ok_0) == Ok::<i16, Error>(x) {
        let y = as_i64_spec(de_any_spec(a)->Ok_0)->Ok_0;
        lemma_i64_cross_equiv(a, y);
    }
}

/// Cross-format equivalence for `i32`, lifted from the `i64` case.
pub proof fn lemma_i32_cross_equiv(a: AttrV, x: i32)
    ensures
        ((a is N && i32_result(a->N_0) == Ok::<i32, Error>(x)) <==> (de_any_spec(a) is Ok
            && as_i32_spec(de_any_spec(a)->Ok_0) == Ok::<i32, Error>(x))),
{
    lemma_i64_cross_equiv(a, x as i64);
    if de_any_spec(a) is Ok && as_i32_spec(de_any_spec(a)->Ok_0) == Ok::<i32, Error>(x) {
        let y = as_i64_spec(de_any_spec(a)->Ok_0)->Ok_0;
        lemma_i64_cross_equiv(a, y);
    }
}

/// Cross-format equivalence for strings: a typed string read and a
/// self-describing read followed by a string conversion agree.
pub proof fn lemma_string_cross_equiv(a: AttrV, s: Seq<char>)
    ensures
        ((a is S && a->S_0 == s) <==> (de_any_spec(a) is Ok && as_string_spec(
            de_any_spec(a)->Ok_0,
        ) == Ok::<Seq<char>, Error>(s))),
{
}

/// Cross-format equivalence for booleans.
pub proof fn lemma_bool_cross_equiv(a: AttrV, b: bool)
    ensures
        ((a is Bool && a->Bool_0 == b) <==> (de_any_spec(a) is Ok && as_bool_spec(
            de_any_spec(a)->Ok_0,
        ) == Ok::<bool, Error>(b))),
{
}

/// Cross-format equivalence for characters: both paths insist on a
/// one-character string.
pub proof fn lemma_char_cross_equiv(a: AttrV, c: char)
    ensures
        ((a is S && a->S_0.len() == 1 && a->S_0[0] == c) <==> (de_any_spec(a) is Ok
            && as_char_spec(de_any_spec(a)->Ok_0) == Ok::<char, Error>(c))),
{
}

/// Cross-format equivalence for the unit value.
pub proof fn lemma_unit_cross_equiv(a: AttrV)
    ensures
        ((a is Null) <==> (de_any_spec(a) is Ok && as_unit_spec(de_any_spec(a)->Ok_0) == Ok::<
            (),
            Error,
        >(()))),
{
}

/// Cross-format equivalence for byte buffers.
pub proof fn lemma_bytes_cross_equiv(a: AttrV, b: Seq<u8>)
    ensures
        ((a is B && a->B_0 == b) <==> (de_any_spec(a) is Ok && as_bytes_spec(
            de_any_spec(a)->Ok_0,
        ) == Ok::<Seq<u8>, Error>(b))),
{
}


/// Cross-format equivalence for non-integer number targets: a node reads as
/// some number — a native integer or a kept decimal text — exactly when it
/// is a number node holding a decimal literal. A float target accepts all
/// three forms, so this is the success condition either path gives it.
pub proof fn lemma_number_cross_equiv(a: AttrV)
    ensures
        ((a is N && is_decimal_lit(a->N_0)) <==> (de_any_spec(a) is Ok && (de_any_spec(a)->Ok_0
            is UInt || de_any_spec(a)->Ok_0 is Int || de_any_spec(a)->Ok_0 is Number))),
{
    if a is N {
        let s = a->N_0;
        if u64_result(s) is Ok {
            if s.len() > 0 && s[0] == '+' {
                assert(is_unsigned_str(s.skip(1)));
                assert(is_decimal_lit(s));
            } else {
                assert(is_unsigned_str(s));
                assert(is_digit_char(s[0]));
                assert(s[0] != '-' && s[0] != '+');
                assert(is_decimal_lit(s));
            }
        } else if i64_result(s) is Ok {
            if s.len() > 0 && (s[0] == '-' || s[0] == '+') {
                assert(is_unsigned_str(s.skip(1)));
                assert(is_decimal_lit(s));
            } else {
                assert(is_unsigned_str(s));
                assert(is_digit_char(s[0]));
                assert(s[0] != '-' && s[0] != '+');
                assert(is_decimal_lit(s));
            }
        }
    }
}

} // verus!
