//! The four sequence accessors, one per list-shaped wire field. Each is a
//! one-shot cursor over an owned buffer: "produce the next element, or
//! signal the end". Consuming an element is destructive; an accessor cannot
//! be restarted.

use vstd::prelude::*;

use crate::attr::{blob_views, seq_models, str_views, AttrV, AttributeValue};
use crate::de::{de_any_spec, number_any, number_value, Deserializer};
use crate::error::Error;
use crate::value::{Value, ValueV};

verus! {

/// Pulls the elements of a generic heterogeneous list (`L`), each
/// recursively deserialized through the self-describing engine.
pub struct DeserializerSeq {
    items: Vec<AttributeValue>,
    pos: usize,
}

impl DeserializerSeq {
    /// The cursor has not run past its buffer.
    pub closed spec fn wf(self) -> bool {
        self.pos <= self.items@.len()
    }

    /// The elements not yet consumed.
    pub closed spec fn remaining(self) -> Seq<AttrV> {
        seq_models(self.items@).skip(self.pos as int)
    }

    /// Take ownership of a list's elements and start the cursor at the
    /// front.
    pub fn from_vec(vec: Vec<AttributeValue>) -> (r: Self)
        ensures
            r.wf(),
            r.remaining() == seq_models(vec@),
    {
        let r = Self { items: vec, pos: 0 };
        proof {
            assert(r.remaining() =~= seq_models(r.items@));
        }
        r
    }

    /// The next raw node, for the caller to read through the engine with a
    /// concrete target shape, or `None` at the end. The node is consumed.
    pub fn next_node(&mut self) -> (r: Option<AttributeValue>)
        requires
            old(self).wf(),
        ensures
            final(self).wf(),
            match r {
                None => old(self).remaining().len() == 0 && final(self).remaining() == old(
                    self,
                ).remaining(),
                Some(node) => old(self).remaining().len() > 0 && node.model() == old(
                    self,
                ).remaining()[0] && final(self).remaining() == old(self).remaining().skip(1),
            },
    {
        if self.pos < self.items.len() {
            let node = self.items[self.pos].clone();
            proof {
                assert(old(self).remaining()[0] == seq_models(self.items@)[old(self).pos as int]);
            }
            self.pos = self.pos + 1;
            proof {
                assert(self.remaining() =~= old(self).remaining().skip(1));
            }
            Some(node)
        } else {
            None
        }
    }

    /// The next element, deserialized self-describingly, or `None` at the
    /// end. The element is consumed either way.
    pub fn next_element(&mut self) -> (r: Result<Option<Value>, Error>)
        requires
            old(self).wf(),
        ensures
            final(self).wf(),
            match r {
                Ok(None) => old(self).remaining().len() == 0 && final(self).remaining() == old(
                    self,
                ).remaining(),
                Ok(Some(v)) => old(self).remaining().len() > 0 && de_any_spec(
                    old(self).remaining()[0],
                ) == Ok::<ValueV, Error>(v.model()) && final(self).remaining() == old(
                    self,
                ).remaining().skip(1),
                Err(e) => old(self).remaining().len() > 0 && de_any_spec(old(self).remaining()[0])
                    == Err::<ValueV, Error>(e) && final(self).remaining() == old(
                    self,
                ).remaining().skip(1),
            },
    {
        if self.pos < self.items.len() {
            let d = Deserializer::from_attribute_value(&self.items[self.pos]);
            let r = d.deserialize_any();
            self.pos = self.pos + 1;
            proof {
                assert(old(self).remaining()[0] == seq_models(self.items@)[old(self).pos as int]);
                assert(self.remaining() =~= old(self).remaining().skip(1));
            }
            match r {
                Ok(v) => Ok(Some(v)),
                Err(e) => Err(e),
            }
        } else {
            Ok(None)
        }
    }
}

/// Pulls the elements of a string set (`Ss`): each element is a bare string.
pub struct DeserializerSeqStrings {
    items: Vec<String>,
    pos: usize,
}

impl DeserializerSeqStrings {
    /// The cursor has not run past its buffer.
    pub closed spec fn wf(self) -> bool {
        self.pos <= self.items@.len()
    }

    /// The strings not yet consumed.
    pub closed spec fn remaining(self) -> Seq<Seq<char>> {
        str_views(self.items@).skip(self.pos as int)
    }

    /// Take ownership of a string set's elements and start the cursor at
    /// the front.
    pub fn from_vec(vec: Vec<String>) -> (r: Self)
        ensures
            r.wf(),
            r.remaining() == str_views(vec@),
    {
        let r = Self { items: vec, pos: 0 };
        proof {
            assert(r.remaining() =~= str_views(r.items@));
        }
        r
    }

    /// The next string, or `None` at the end.
    pub fn next_element(&mut self) -> (r: Option<String>)
        requires
            old(self).wf(),
        ensures
            final(self).wf(),
            match r {
                None => old(self).remaining().len() == 0 && final(self).remaining() == old(
                    self,
                ).remaining(),
                Some(s) => old(self).remaining().len() > 0 && s@ == old(self).remaining()[0]
                    && final(self).remaining() == old(self).remaining().skip(1),
            },
    {
        if self.pos < self.items.len() {
            let s = self.items[self.pos].clone();
            self.pos = self.pos + 1;
            proof {
                assert(old(self).remaining()[0] == str_views(self.items@)[old(self).pos as int]);
                assert(self.remaining() =~= old(self).remaining().skip(1));
            }
            Some(s)
        } else {
            None
        }
    }
}

/// Pulls the elements of a number set (`Ns`): each element goes through the
/// number canonicalizer with no target type.
pub struct DeserializerSeqNumbers {
    items: Vec<String>,
    pos: usize,
}

impl DeserializerSeqNumbers {
    /// The cursor has not run past its buffer.
    pub closed spec fn wf(self) -> bool {
        self.pos <= self.items@.len()
    }

    /// The number strings not yet consumed.
    pub closed spec fn remaining(self) -> Seq<Seq<char>> {
        str_views(self.items@).skip(self.pos as int)
    }

    /// Take ownership of a number set's elements and start the cursor at
    /// the front.
    pub fn from_vec(vec: Vec<String>) -> (r: Self)
        ensures
            r.wf(),
            r.remaining() == str_views(vec@),
    {
        let r = Self { items: vec, pos: 0 };
        proof {
            assert(r.remaining() =~= str_views(r.items@));
        }
        r
    }

    /// The next number, read with no target type, or `None` at the end. The
    /// element is consumed either way.
    pub fn next_element(&mut self) -> (r: Result<Option<Value>, Error>)
        requires
            old(self).wf(),
        ensures
            final(self).wf(),
            match r {
                Ok(None) => old(self).remaining().len() == 0 && final(self).remaining() == old(
                    self,
                ).remaining(),
                Ok(Some(v)) => old(self).remaining().len() > 0 && number_any(
                    old(self).remaining()[0],
                ) == Ok::<ValueV, Error>(v.model()) && final(self).remaining() == old(
                    self,
                ).remaining().skip(1),
                Err(e) => old(self).remaining().len() > 0 && number_any(old(self).remaining()[0])
                    == Err::<ValueV, Error>(e) && final(self).remaining() == old(
                    self,
                ).remaining().skip(1),
            },
    {
        if self.pos < self.items.len() {
            let r = number_value(self.items[self.pos].as_str());
            self.pos = self.pos + 1;
            proof {
                assert(old(self).remaining()[0] == str_views(self.items@)[old(self).pos as int]);
                assert(self.remaining() =~= old(self).remaining().skip(1));
            }
            match r {
                Ok(v) => Ok(Some(v)),
                Err(e) => Err(e),
            }
        } else {
            Ok(None)
        }
    }
}

/// Pulls the elements of a binary set (`Bs`): each element is a byte
/// buffer.
pub struct DeserializerSeqBytes {
    items: Vec<Vec<u8>>,
    pos: usize,
}

impl DeserializerSeqBytes {
    /// The cursor has not run past its buffer.
    pub closed spec fn wf(self) -> bool {
        self.pos <= self.items@.len()
    }

    /// The blobs not yet consumed.
    pub closed spec fn remaining(self) -> Seq<Seq<u8>> {
        blob_views(self.items@).skip(self.pos as int)
    }

    /// Take ownership of a binary set's elements and start the cursor at
    /// the front.
    pub fn from_vec(vec: Vec<Vec<u8>>) -> (r: Self)
        ensures
            r.wf(),
            r.remaining() == blob_views(vec@),
    {
        let r = Self { items: vec, pos: 0 };
        proof {
            assert(r.remaining() =~= blob_views(r.items@));
        }
        r
    }

    /// The next byte buffer, or `None` at the end.
    pub fn next_element(&mut self) -> (r: Option<Vec<u8>>)
        requires
            old(self).wf(),
        ensures
            final(self).wf(),
            match r {
                None => old(self).remaining().len() == 0 && final(self).remaining() == old(
                    self,
                ).remaining(),
                Some(b) => old(self).remaining().len() > 0 && b@ == old(self).remaining()[0]
                    && final(self).remaining() == old(self).remaining().skip(1),
            },
    {
        if self.pos < self.items.len() {
            let b = self.items[self.pos].clone();
            proof {
                assert(b@ =~= self.items@[self.pos as int]@);
                assert(old(self).remaining()[0] == blob_views(self.items@)[old(self).pos as int]);
            }
            self.pos = self.pos + 1;
            proof {
                assert(self.remaining() =~= old(self).remaining().skip(1));
            }
            Some(b)
        } else {
            None
        }
    }
}

/// Which sequence accessor a sequence request produced, by the wire shape
/// that was populated.
pub enum SeqKind {
    List(DeserializerSeq),
    Strings(DeserializerSeqStrings),
    Numbers(DeserializerSeqNumbers),
    Binaries(DeserializerSeqBytes),
}

} // verus!
