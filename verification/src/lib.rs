//! A two-way codec between structured application values and a fixed-shape
//! tagged-union wire representation (the attribute-value item format of a
//! key/value store): a wire value is exactly one of number-as-string, string,
//! boolean, binary blob, null marker, list, string set, number-string set,
//! binary set, or a string-keyed map of further wire values.

pub mod attr;
pub mod de;
pub mod de_bytes;
pub mod de_seq;
pub mod error;
pub mod laws;
pub mod num;
pub mod ser;
pub mod value;

pub use attr::AttributeValue;
pub use de::Deserializer;
pub use de_bytes::DeserializerBytes;
pub use de_seq::{DeserializerSeq, DeserializerSeqBytes, DeserializerSeqNumbers,
    DeserializerSeqStrings, SeqKind};
pub use error::Error;
pub use ser::{to_attribute_value, SerializerMap};
pub use value::Value;
