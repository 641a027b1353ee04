//! A library for reading and writing binary (network) data: fixed-width
//! integers in big or little endian byte order, length-prefixed character
//! strings, and aggregate values built from those primitives, over
//! bounds-checked byte buffers.
#![allow(unused_imports)]
use vstd::prelude::*;

pub mod addr;
pub mod endian;
pub mod error;
pub mod iter;
pub mod laws;
pub mod read;
pub mod readable;
pub mod reader;
pub mod writeable;
pub mod writer;
pub mod write;
pub mod wire;

pub use crate::readable::{Read, ReadableMulti};
pub use crate::reader::Reader;
pub use crate::writeable::Write;
pub use crate::writer::Writer;

verus! {

/// A compile-time name for a byte order: the link between a marker type
/// such as [`BigEndian`] and the [`endian::Endianness`] value it stands
/// for.
pub trait ByteOrder {
    /// The byte order this marker stands for.
    spec fn spec_order() -> crate::endian::Endianness;

    /// The byte order this marker stands for, as a runtime value.
    fn order() -> (r: crate::endian::Endianness)
        ensures
            r == Self::spec_order(),
    ;
}

/// An endianness strategy: a compile-time marker that dispatches every
/// read or write to the big- or little-endian variant of the type's codec.
pub trait Endianness: ByteOrder {
    /// Reads one `T` in this strategy's byte order.
    fn read<T: Read>(buf: &mut Reader) -> (r: crate::reader::Result<T>)
        requires
            old(buf).wf(),
        ensures
            crate::readable::read_post(*old(buf), *final(buf), r, Self::spec_order()),
    ;

    /// Writes `n` in this strategy's byte order.
    fn write<T: Write>(n: &T, buf: &mut Writer) -> (r: crate::writer::Result)
        requires
            old(buf).wf(),
        ensures
            crate::writeable::write_dir_post(*n, *old(buf), *final(buf), r, Self::spec_order()),
    ;
}

/// The big-endian strategy: most significant byte first.
#[derive(Debug)]
pub struct BigEndian;

impl ByteOrder for BigEndian {
    open spec fn spec_order() -> crate::endian::Endianness {
        crate::endian::Endianness::Big
    }

    fn order() -> (r: crate::endian::Endianness) {
        crate::endian::Endianness::Big
    }
}

impl Endianness for BigEndian {
    fn read<T: Read>(buf: &mut Reader) -> (r: crate::reader::Result<T>) {
        T::read_be(buf)
    }

    fn write<T: Write>(n: &T, buf: &mut Writer) -> (r: crate::writer::Result) {
        n.write_be(buf)
    }
}

/// The little-endian strategy: least significant byte first.
#[derive(Debug)]
pub struct LittleEndian;

impl ByteOrder for LittleEndian {
    open spec fn spec_order() -> crate::endian::Endianness {
        crate::endian::Endianness::Little
    }

    fn order() -> (r: crate::endian::Endianness) {
        crate::endian::Endianness::Little
    }
}

impl Endianness for LittleEndian {
    fn read<T: Read>(buf: &mut Reader) -> (r: crate::reader::Result<T>) {
        T::read_le(buf)
    }

    fn write<T: Write>(n: &T, buf: &mut Writer) -> (r: crate::writer::Result) {
        n.write_le(buf)
    }
}

/// Number of octets a `u16` occupies on the wire.
pub const U16_OCTETS: usize = 2;

/// Number of octets a `u32` occupies on the wire.
pub const U32_OCTETS: usize = 4;

/// Number of octets a `u64` occupies on the wire.
pub const U64_OCTETS: usize = 8;

/// Number of octets a `u128` occupies on the wire.
pub const U128_OCTETS: usize = 16;

} // verus!
