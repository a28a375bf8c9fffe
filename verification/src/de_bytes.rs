//! The byte accessor: wraps one binary blob and hands it out as a byte
//! buffer. Any richer shape request on a blob node fails in the engine
//! before this accessor is built, so every request here is a byte read;
//! "ignore and skip" reads the bytes like any other request.

use vstd::prelude::*;

use crate::value::Value;

verus! {

/// Deserializes one binary blob.
pub struct DeserializerBytes {
    input: Vec<u8>,
}

impl DeserializerBytes {
    /// The bytes this accessor holds.
    pub closed spec fn bytes(self) -> Seq<u8> {
        self.input@
    }

    /// Wrap one blob.
    pub fn from_bytes(input: Vec<u8>) -> (r: Self)
        ensures
            r.bytes() == input@,
    {
        DeserializerBytes { input }
    }

    /// The blob as a byte buffer.
    pub fn deserialize_bytes(self) -> (r: Vec<u8>)
        ensures
            r@ == self.bytes(),
    {
        self.input
    }

    /// The blob as an owned byte buffer; the same read as
    /// [`Self::deserialize_bytes`].
    pub fn deserialize_byte_buf(self) -> (r: Vec<u8>)
        ensures
            r@ == self.bytes(),
    {
        self.deserialize_bytes()
    }

    /// Self-describing deserialization of a blob: the only shape it can
    /// take is a byte value.
    pub fn deserialize_any(self) -> (r: Value)
        ensures
            r.model() == crate::value::ValueV::Bytes(self.bytes()),
    {
        Value::Bytes(self.deserialize_bytes())
    }

    /// Ignore the blob: the read happens like any other byte read and the
    /// result is discarded.
    pub fn deserialize_ignored_any(self) -> (r: Value)
        ensures
            r.model() == crate::value::ValueV::Bytes(self.bytes()),
    {
        self.deserialize_any()
    }
}

} // verus!
