//! Reading fixed-width integers from the front of a byte slice in big or
//! little endian byte order.
#![allow(unused_imports)]
use vstd::prelude::*;

mod iter;
mod seek;

pub use iter::{read_iter_i16, read_iter_i32, read_iter_i64, read_iter_u16, read_iter_u32, read_iter_u64};
pub use seek::{
    read_seek_i16, read_seek_i32, read_seek_i64, read_seek_u16, read_seek_u32, read_seek_u64,
    try_read_seek_i16, try_read_seek_i32, try_read_seek_i64, try_read_seek_u16, try_read_seek_u32,
    try_read_seek_u64,
};

use crate::endian::Endianness;
use crate::error::{BinaryError, BinaryErrorVariant, BinaryReadResult};
use crate::wire::{lemma_num_val_bound, num_val, pow256, read_be_at, read_le_at};
use crate::{U16_OCTETS, U32_OCTETS, U64_OCTETS};

verus! {

/// Reads two octets from the front of `data` as a `u16` in the given byte
/// order; fails when fewer than two bytes are available.
pub fn read_u16(data: &[u8], endianness: Endianness) -> (r: BinaryReadResult<u16>)
    ensures
        data@.len() >= U16_OCTETS ==> (r matches Ok(v) && v == num_val(
            endianness,
            data@.take(U16_OCTETS as int),
        )),
        data@.len() < U16_OCTETS ==> (r matches Err(e) && e.variant == BinaryErrorVariant::U16
            && e.message@ == "Slice of bytes too short"@),
{
    if data.len() < U16_OCTETS {
        return Err(BinaryError::new("Slice of bytes too short", BinaryErrorVariant::U16));
    }
    proof {
        lemma_num_val_bound(endianness, data@.take(U16_OCTETS as int));
        assert(pow256(2) == 65536) by {
            reveal_with_fuel(pow256, 3);
        };
        assert(data@.subrange(0, U16_OCTETS as int) =~= data@.take(U16_OCTETS as int));
    }
    let v = match endianness {
        Endianness::Big => read_be_at(data, 0, U16_OCTETS),
        Endianness::Little => read_le_at(data, 0, U16_OCTETS),
    };
    Ok(v as u16)
}

/// Reads two octets from the front of `data` as an `i16` (the two's
/// complement reinterpretation of the `u16` read the same way).
pub fn read_i16(data: &[u8], endianness: Endianness) -> (r: BinaryReadResult<i16>)
    ensures
        data@.len() >= U16_OCTETS ==> (r matches Ok(v) && v == (num_val(
            endianness,
            data@.take(U16_OCTETS as int),
        ) as u16) as i16),
        data@.len() < U16_OCTETS ==> (r matches Err(e) && e.variant == BinaryErrorVariant::U16
            && e.message@ == "Slice of bytes too short"@),
{
    match read_u16(data, endianness) {
        Ok(n) => Ok(n as i16),
        Err(err) => Err(err),
    }
}

/// Reads four octets from the front of `data` as a `u32` in the given byte
/// order; fails when fewer than four bytes are available.
pub fn read_u32(data: &[u8], endianness: Endianness) -> (r: BinaryReadResult<u32>)
    ensures
        data@.len() >= U32_OCTETS ==> (r matches Ok(v) && v == num_val(
            endianness,
            data@.take(U32_OCTETS as int),
        )),
        data@.len() < U32_OCTETS ==> (r matches Err(e) && e.variant == BinaryErrorVariant::U32
            && e.message@ == "Slice of bytes too short"@),
{
    if data.len() < U32_OCTETS {
        return Err(BinaryError::new("Slice of bytes too short", BinaryErrorVariant::U32));
    }
    proof {
        lemma_num_val_bound(endianness, data@.take(U32_OCTETS as int));
        assert(pow256(4) == 0x100000000) by {
            reveal_with_fuel(pow256, 5);
        };
        assert(data@.subrange(0, U32_OCTETS as int) =~= data@.take(U32_OCTETS as int));
    }
    let v = match endianness {
        Endianness::Big => read_be_at(data, 0, U32_OCTETS),
        Endianness::Little => read_le_at(data, 0, U32_OCTETS),
    };
    Ok(v as u32)
}

/// Reads four octets from the front of `data` as an `i32` (the two's
/// complement reinterpretation of the `u32` read the same way).
pub fn read_i32(data: &[u8], endianness: Endianness) -> (r: BinaryReadResult<i32>)
    ensures
        data@.len() >= U32_OCTETS ==> (r matches Ok(v) && v == (num_val(
            endianness,
            data@.take(U32_OCTETS as int),
        ) as u32) as i32),
        data@.len() < U32_OCTETS ==> (r matches Err(e) && e.variant == BinaryErrorVariant::U32
            && e.message@ == "Slice of bytes too short"@),
{
    match read_u32(data, endianness) {
        Ok(n) => Ok(n as i32),
        Err(err) => Err(err),
    }
}

/// Reads eight octets from the front of `data` as a `u64` in the given byte
/// order; fails when fewer than eight bytes are available.
pub fn read_u64(data: &[u8], endianness: Endianness) -> (r: BinaryReadResult<u64>)
    ensures
        data@.len() >= U64_OCTETS ==> (r matches Ok(v) && v == num_val(
            endianness,
            data@.take(U64_OCTETS as int),
        )),
        data@.len() < U64_OCTETS ==> (r matches Err(e) && e.variant == BinaryErrorVariant::U64
            && e.message@ == "Slice of bytes too short to read"@),
{
    if data.len() < U64_OCTETS {
        return Err(BinaryError::new("Slice of bytes too short to read", BinaryErrorVariant::U64));
    }
    proof {
        lemma_num_val_bound(endianness, data@.take(U64_OCTETS as int));
        assert(pow256(8) == 0x10000000000000000) by {
            reveal_with_fuel(pow256, 9);
        };
        assert(data@.subrange(0, U64_OCTETS as int) =~= data@.take(U64_OCTETS as int));
    }
    let v = match endianness {
        Endianness::Big => read_be_at(data, 0, U64_OCTETS),
        Endianness::Little => read_le_at(data, 0, U64_OCTETS),
    };
    Ok(v as u64)
}

/// Reads eight octets from the front of `data` as an `i64` (the two's
/// complement reinterpretation of the `u64` read the same way).
pub fn read_i64(data: &[u8], endianness: Endianness) -> (r: BinaryReadResult<i64>)
    ensures
        data@.len() >= U64_OCTETS ==> (r matches Ok(v) && v == (num_val(
            endianness,
            data@.take(U64_OCTETS as int),
        ) as u64) as i64),
        data@.len() < U64_OCTETS ==> (r matches Err(e) && e.variant == BinaryErrorVariant::U64
            && e.message@ == "Slice of bytes too short to read"@),
{
    match read_u64(data, endianness) {
        Ok(n) => Ok(n as i64),
        Err(err) => Err(err),
    }
}

} // verus!
