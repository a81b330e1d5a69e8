//! Errors of the codec.
use vstd::prelude::*;

verus! {

/// A kind of value that has no representation in this format.
#[derive(Debug, Clone, Copy, PartialEq, Eq, Structural)]
pub enum SerdeType {
    Any,
    Char,
    Optional,
    Unit,
    KeyMap,
    IgnoredAny,
}

#[derive(Debug, Clone, Copy, PartialEq, Eq, Structural)]
pub enum Error {
    /// The input ended before the value did.
    UnexpectedEof,
    /// A string or blob header started with the reserved byte 255.
    InvalidLengthMarker(u8),
    /// A string payload was not valid UTF-8.
    InvalidUtf8,
    /// A boolean word held neither the `true` nor the `false` constant.
    UnexpectedBool(u32),
    /// A number does not fit in the type it has to be read or written as.
    IntegerOverflowingCast,
    /// More elements were given to a fixed-arity container than it declared.
    ExcessElements(usize),
    /// A sequence can only be written when its length is known in advance.
    SeqWithUnknownLengthUnsupported,
    /// The value has no representation in this format.
    UnsupportedSerdeType(SerdeType),
}

} // verus!
