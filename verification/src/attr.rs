//! The tagged-union wire value: exactly one shape per node. The wire knows
//! numbers (as decimal strings), strings, booleans, binary blobs, an
//! explicit null marker, string-keyed maps, heterogeneous lists, and three
//! homogeneous set shapes (strings, number strings, binary blobs).
//!
//! The union is a closed enum, so the degenerate "no shape populated" state
//! cannot be constructed at all.

use vstd::prelude::*;

verus! {

/// The mathematical model of a wire node: the same ten shapes over `Seq`
/// instead of `Vec` and `String`.
#[verifier::ext_equal]
pub enum AttrV {
    N(Seq<char>),
    S(Seq<char>),
    Bool(bool),
    B(Seq<u8>),
    Null,
    M(Seq<(Seq<char>, AttrV)>),
    L(Seq<AttrV>),
    Ss(Seq<Seq<char>>),
    Ns(Seq<Seq<char>>),
    Bs(Seq<Seq<u8>>),
}

/// One wire node. Field meanings follow the attribute-value item format:
/// `N` a number as its decimal text, `S` a string, `Bool` a boolean, `B` a
/// binary blob, `Null` the explicit null marker, `M` a string-keyed map,
/// `L` an ordered heterogeneous list, and `Ss`/`Ns`/`Bs` the string,
/// number-string and binary set shapes (order preserved for round trips).
#[derive(Debug, PartialEq)]
pub enum AttributeValue {
    N(String),
    S(String),
    Bool(bool),
    B(Vec<u8>),
    Null,
    M(Vec<(String, AttributeValue)>),
    L(Vec<AttributeValue>),
    Ss(Vec<String>),
    Ns(Vec<String>),
    Bs(Vec<Vec<u8>>),
}

/// The models of a sequence of wire nodes, elementwise.
pub open spec fn seq_models(items: Seq<AttributeValue>) -> Seq<AttrV>
    decreases items,
{
    Seq::new(
        items.len(),
        |i: int|
            if 0 <= i < items.len() {
                items[i].model()
            } else {
                AttrV::Null
            },
    )
}

/// The models of a sequence of map entries, elementwise.
pub open spec fn pair_models(pairs: Seq<(String, AttributeValue)>) -> Seq<(Seq<char>, AttrV)>
    decreases pairs,
{
    Seq::new(
        pairs.len(),
        |i: int|
            if 0 <= i < pairs.len() {
                (pairs[i].0@, pairs[i].1.model())
            } else {
                (Seq::<char>::empty(), AttrV::Null)
            },
    )
}

/// The views of a sequence of strings, elementwise.
pub open spec fn str_views(items: Seq<String>) -> Seq<Seq<char>> {
    Seq::new(items.len(), |i: int| items[i]@)
}

/// The views of a sequence of byte blobs, elementwise.
pub open spec fn blob_views(items: Seq<Vec<u8>>) -> Seq<Seq<u8>> {
    Seq::new(items.len(), |i: int| items[i]@)
}

impl AttributeValue {
    /// The mathematical model of this node.
    pub open spec fn model(self) -> AttrV
        decreases self,
    {
        match self {
            AttributeValue::N(s) => AttrV::N(s@),
            AttributeValue::S(s) => AttrV::S(s@),
            AttributeValue::Bool(b) => AttrV::Bool(b),
            AttributeValue::B(b) => AttrV::B(b@),
            AttributeValue::Null => AttrV::Null,
            AttributeValue::M(pairs) => AttrV::M(pair_models(pairs@)),
            AttributeValue::L(items) => AttrV::L(seq_models(items@)),
            AttributeValue::Ss(items) => AttrV::Ss(str_views(items@)),
            AttributeValue::Ns(items) => AttrV::Ns(str_views(items@)),
            AttributeValue::Bs(items) => AttrV::Bs(blob_views(items@)),
        }
    }
}

/// Compare two strings character by character.
pub fn str_eq(a: &str, b: &str) -> (r: bool)
    ensures
        r == (a@ == b@),
{
    let na = a.unicode_len();
    let nb = b.unicode_len();
    if na != nb {
        return false;
    }
    let mut i: usize = 0;
    while i < na
        invariant
            0 <= i <= na,
            na == a@.len(),
            na == b@.len(),
            forall|j: int| 0 <= j < i ==> a@[j] == b@[j],
        decreases na - i,
    {
        if a.get_char(i) != b.get_char(i) {
            return false;
        }
        i = i + 1;
    }
    proof {
        assert(a@ =~= b@);
    }
    true
}

/// Look a key up among map entries: the first entry with that key wins.
pub open spec fn entries_get(pairs: Seq<(Seq<char>, AttrV)>, key: Seq<char>) -> Option<AttrV>
    decreases pairs.len(),
{
    if pairs.len() == 0 {
        None
    } else if pairs[0].0 == key {
        Some(pairs[0].1)
    } else {
        entries_get(pairs.skip(1), key)
    }
}

impl AttributeValue {
    /// Find the entry named `key` in a map node's entries, if any.
    pub fn get_field<'a>(pairs: &'a Vec<(String, AttributeValue)>, key: &str) -> (r: Option<
        &'a AttributeValue,
    >)
        ensures
            match r {
                Some(v) => entries_get(pair_models(pairs@), key@) == Some(v.model()),
                None => entries_get(pair_models(pairs@), key@) is None,
            },
    {
        let n = pairs.len();
        let mut i: usize = 0;
        proof {
            assert(pair_models(pairs@).skip(0) =~= pair_models(pairs@));
        }
        while i < n
            invariant
                0 <= i <= n,
                n == pairs@.len(),
                entries_get(pair_models(pairs@), key@) == entries_get(
                    pair_models(pairs@).skip(i as int),
                    key@,
                ),
            decreases n - i,
        {
            proof {
                assert(pair_models(pairs@).skip(i as int)[0] == pair_models(pairs@)[i as int]);
                assert(pair_models(pairs@).skip(i as int).skip(1) =~= pair_models(pairs@).skip(
                    i + 1,
                ));
            }
            if str_eq(pairs[i].0.as_str(), key) {
                return Some(&pairs[i].1);
            }
            i = i + 1;
        }
        proof {
            assert(pair_models(pairs@).skip(n as int) =~= Seq::<(Seq<char>, AttrV)>::empty());
        }
        None
    }
}

impl Clone for AttributeValue {
    /// A structural copy: the clone has the same model as the original.
    #[verifier::loop_isolation(false)]
    fn clone(&self) -> (r: Self)
        ensures
            r.model() == self.model(),
        decreases *self,
    {
        match self {
            AttributeValue::N(s) => AttributeValue::N(s.clone()),
            AttributeValue::S(s) => AttributeValue::S(s.clone()),
            AttributeValue::Bool(b) => AttributeValue::Bool(*b),
            AttributeValue::B(b) => {
                let c = b.clone();
                proof {
                    assert(b@ =~= c@);
                }
                AttributeValue::B(c)
            },
            AttributeValue::Null => AttributeValue::Null,
            AttributeValue::M(pairs) => {
                let n = pairs.len();
                let mut out: Vec<(String, AttributeValue)> = Vec::new();
                let mut i: usize = 0;
                while i < n
                    invariant
                        0 <= i <= n,
                        n == pairs@.len(),
                        out@.len() == i,
                        forall|j: int|
                            0 <= j < i ==> #[trigger] out@[j].0@ == pairs@[j].0@ && out@[j].1.model()
                                == pairs@[j].1.model(),
                    decreases n - i,
                {
                    let k = pairs[i].0.clone();
                    let v = pairs[i].1.clone();
                    out.push((k, v));
                    i = i + 1;
                }
                proof {
                    assert(pair_models(out@) =~= pair_models(pairs@));
                }
                AttributeValue::M(out)
            },
            AttributeValue::L(items) => {
                let n = items.len();
                let mut out: Vec<AttributeValue> = Vec::new();
                let mut i: usize = 0;
                while i < n
                    invariant
                        0 <= i <= n,
                        n == items@.len(),
                        out@.len() == i,
                        forall|j: int|
                            0 <= j < i ==> #[trigger] out@[j].model() == items@[j].model(),
                    decreases n - i,
                {
                    let v = items[i].clone();
                    out.push(v);
                    i = i + 1;
                }
                proof {
                    assert forall|j: int| 0 <= j < n as int implies seq_models(out@)[j]
                        == seq_models(items@)[j] by {
                        assert(out@[j].model() == items@[j].model());
                    }
                    assert(seq_models(out@) =~= seq_models(items@));
                }
                AttributeValue::L(out)
            },
            AttributeValue::Ss(items) => AttributeValue::Ss(clone_strings(items)),
            AttributeValue::Ns(items) => AttributeValue::Ns(clone_strings(items)),
            AttributeValue::Bs(items) => AttributeValue::Bs(clone_blobs(items)),
        }
    }
}

/// Copy a vector of wire nodes, keeping every model.
pub fn clone_attrs(items: &Vec<AttributeValue>) -> (r: Vec<AttributeValue>)
    ensures
        seq_models(r@) == seq_models(items@),
{
    let r = items.clone();
    proof {
        assert forall|i: int| 0 <= i < r@.len() implies #[trigger] r@[i].model()
            == items@[i].model() by {
            assert(cloned::<AttributeValue>(items@[i], r@[i]));
        }
        assert(seq_models(r@) =~= seq_models(items@));
    }
    r
}

/// Copy a vector of strings, keeping every view.
pub fn clone_strings(items: &Vec<String>) -> (r: Vec<String>)
    ensures
        str_views(r@) == str_views(items@),
{
    let r = items.clone();
    proof {
        assert(str_views(r@) =~= str_views(items@));
    }
    r
}

/// Copy a vector of byte blobs, keeping every view.
pub fn clone_blobs(items: &Vec<Vec<u8>>) -> (r: Vec<Vec<u8>>)
    ensures
        blob_views(r@) == blob_views(items@),
{
    let r = items.clone();
    proof {
        assert forall|i: int| 0 <= i < r@.len() implies #[trigger] r@[i]@ == items@[i]@ by {
            assert(cloned::<Vec<u8>>(items@[i], r@[i]));
            assert(items@[i]@ =~= r@[i]@);
        }
        assert(blob_views(r@) =~= blob_views(items@));
    }
    r
}

} // verus!
