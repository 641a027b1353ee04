//! Error values shared by the numeric slice codecs, and the unified buffer
//! error taxonomy with its endianness capability marker.
#![allow(unused_imports)]
use vstd::prelude::*;

verus! {

/// Which fixed-width integer a numeric slice operation was working on when
/// it failed.
#[derive(Clone, Copy, Debug, PartialEq, Eq, Structural)]
pub enum BinaryErrorVariant {
    U16,
    U32,
    U64,
    U128,
}

/// Error returned by the numeric slice codecs: a human-readable message and
/// the integer width the operation concerned.
#[derive(Debug, PartialEq)]
pub struct BinaryError {
    pub message: String,
    pub variant: BinaryErrorVariant,
}

impl BinaryError {
    /// Builds an error carrying `message` and the width marker `variant`.
    pub fn new(message: &str, variant: BinaryErrorVariant) -> (r: BinaryError)
        ensures
            r.message@ == message@,
            r.variant == variant,
    {
        BinaryError { message: message.to_string(), variant }
    }
}

/// Result of a numeric slice read.
pub type BinaryReadResult<T> = Result<T, BinaryError>;

/// Result of a numeric slice write: the number of bytes written on success.
pub type BinaryWriteResult = Result<usize, BinaryError>;

/// The set of byte orders a type is able to read or write.
#[derive(Clone, Copy, Debug, PartialEq, Eq, Structural)]
pub enum SupportedEndianness {
    BigOnly,
    LittleOnly,
    Both,
}

impl SupportedEndianness {
    /// Whether `order` falls inside this supported set.
    pub open spec fn spec_supports(self, order: crate::endian::Endianness) -> bool {
        match self {
            SupportedEndianness::BigOnly => order == crate::endian::Endianness::Big,
            SupportedEndianness::LittleOnly => order == crate::endian::Endianness::Little,
            SupportedEndianness::Both => true,
        }
    }

    /// Runtime check matching [`Self::spec_supports`].
    pub fn supports(self, order: crate::endian::Endianness) -> (r: bool)
        ensures
            r == self.spec_supports(order),
    {
        match self {
            SupportedEndianness::BigOnly => matches!(order, crate::endian::Endianness::Big),
            SupportedEndianness::LittleOnly => matches!(order, crate::endian::Endianness::Little),
            SupportedEndianness::Both => true,
        }
    }
}

/// The unified error taxonomy of the buffer layer: every failure a reader or
/// writer can report, including the capability check on byte order.
#[derive(Debug, PartialEq)]
pub enum BufferError {
    /// The type does not support reading / writing with the requested
    /// endianness; carries the set it does support.
    UnsupportedEndianness(SupportedEndianness),
    /// A reader jump targeted an offset beyond the current read position.
    InvalidJumpIndex,
    /// A length-prefixed read or write exceeded the caller-supplied maximum.
    MaxLengthOverflow,
    /// Decoded bytes do not correspond to any valid value of the target type.
    InvalidData,
    /// The buffer is too short to read the requested amount of bytes.
    BufferTooShort,
    /// A caller-supplied failure that maps to none of the other kinds.
    Other(String),
}

} // verus!
