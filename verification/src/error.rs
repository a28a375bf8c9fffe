use vstd::prelude::*;

verus! {

/// Everything that can go wrong while encoding a value into the tagged union
/// or decoding one back out of it.
///
/// The `Expected*` variants are shape mismatches: the caller asked for one
/// wire shape and the node holds another. The `Number*` variants are
/// numeric-conversion failures on the decimal-string form. `KeyMustBeAString`
/// is raised during serialization when a map key does not serialize to a
/// string.
#[derive(Debug, Clone, Copy, PartialEq, Eq, Structural)]
pub enum Error {
    ExpectedNum,
    ExpectedString,
    ExpectedBool,
    ExpectedBytes,
    ExpectedSeq,
    ExpectedMap,
    ExpectedChar,
    ExpectedUnit,
    ExpectedUnitStruct,
    ExpectedEnum,
    NumberMalformed,
    NumberOutOfRange,
    KeyMustBeAString,
}

impl Error {
    /// The text of [`Self::message`], per failure kind.
    pub open spec fn message_spec(self) -> Seq<char> {
        match self {
            Error::ExpectedNum => "expected a number node"@,
            Error::ExpectedString => "expected a string node"@,
            Error::ExpectedBool => "expected a boolean node"@,
            Error::ExpectedBytes => "expected a binary node"@,
            Error::ExpectedSeq => "expected a sequence-shaped node"@,
            Error::ExpectedMap => "expected a map node"@,
            Error::ExpectedChar => "expected a single-character string node"@,
            Error::ExpectedUnit => "expected a null node"@,
            Error::ExpectedUnitStruct => "expected a null node for a unit struct"@,
            Error::ExpectedEnum => "expected a string or single-entry map node"@,
            Error::NumberMalformed => "number string is not a decimal literal"@,
            Error::NumberOutOfRange => "number does not fit in the requested type"@,
            Error::KeyMustBeAString => "map keys must serialize to strings"@,
        }
    }

    /// A short description of the failure, for callers that report it.
    pub fn message(&self) -> (r: &'static str)
        ensures
            r@ == self.message_spec(),
    {
        match self {
            Error::ExpectedNum => "expected a number node",
            Error::ExpectedString => "expected a string node",
            Error::ExpectedBool => "expected a boolean node",
            Error::ExpectedBytes => "expected a binary node",
            Error::ExpectedSeq => "expected a sequence-shaped node",
            Error::ExpectedMap => "expected a map node",
            Error::ExpectedChar => "expected a single-character string node",
            Error::ExpectedUnit => "expected a null node",
            Error::ExpectedUnitStruct => "expected a null node for a unit struct",
            Error::ExpectedEnum => "expected a string or single-entry map node",
            Error::NumberMalformed => "number string is not a decimal literal",
            Error::NumberOutOfRange => "number does not fit in the requested type",
            Error::KeyMustBeAString => "map keys must serialize to strings",
        }
    }
}

} // verus!
