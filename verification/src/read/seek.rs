//! Reading fixed-width integers at a caller-tracked offset, advancing the
//! offset past each value read.
#![allow(unused_imports)]
use vstd::prelude::*;

use crate::endian::Endianness;
use crate::error::{BinaryError, BinaryErrorVariant, BinaryReadResult};
use crate::wire::{lemma_num_val_bound, num_val, pow256, read_be_at, read_le_at};
use crate::{U16_OCTETS, U32_OCTETS, U64_OCTETS};

verus! {

/// Reads two octets of `data` at `offset` as a `u16` and advances `offset`
/// by two; fails without moving `offset` when fewer than two bytes remain.
pub fn try_read_seek_u16(data: &Vec<u8>, offset: &mut usize, endianness: Endianness) -> (r:
    BinaryReadResult<u16>)
    ensures
        *old(offset) + U16_OCTETS <= data@.len() ==> (r matches Ok(v) && v == num_val(
            endianness,
            data@.subrange(*old(offset) as int, *old(offset) + U16_OCTETS),
        ) && *final(offset) == *old(offset) + U16_OCTETS),
        *old(offset) + U16_OCTETS > data@.len() ==> (r matches Err(e) && e.variant
            == BinaryErrorVariant::U16 && e.message@ == "Offset overflow"@ && *final(offset)
            == *old(offset)),
{
    let off = *offset;
    if data.len() < U16_OCTETS || off > data.len() - U16_OCTETS {
        return Err(BinaryError::new("Offset overflow", BinaryErrorVariant::U16));
    }
    proof {
        lemma_num_val_bound(endianness, data@.subrange(off as int, off + U16_OCTETS));
        assert(pow256(2) == 65536) by {
            reveal_with_fuel(pow256, 3);
        };
    }
    let v = match endianness {
        Endianness::Big => read_be_at(data.as_slice(), off, U16_OCTETS),
        Endianness::Little => read_le_at(data.as_slice(), off, U16_OCTETS),
    };
    *offset = off + U16_OCTETS;
    Ok(v as u16)
}

/// Reads two octets of `data` at `offset` as an `i16` and advances `offset`
/// by two; fails without moving `offset` when fewer than two bytes remain.
pub fn try_read_seek_i16(data: &Vec<u8>, offset: &mut usize, endianness: Endianness) -> (r:
    BinaryReadResult<i16>)
    ensures
        *old(offset) + U16_OCTETS <= data@.len() ==> (r matches Ok(v) && v == (num_val(
            endianness,
            data@.subrange(*old(offset) as int, *old(offset) + U16_OCTETS),
        ) as u16) as i16 && *final(offset) == *old(offset) + U16_OCTETS),
        *old(offset) + U16_OCTETS > data@.len() ==> (r matches Err(e) && e.variant
            == BinaryErrorVariant::U16 && e.message@ == "Offset overflow"@ && *final(offset)
            == *old(offset)),
{
    match try_read_seek_u16(data, offset, endianness) {
        Ok(n) => Ok(n as i16),
        Err(err) => Err(err),
    }
}

/// Reads two octets of `data` at `offset` as a `u16` and advances `offset`
/// by two; the caller must leave at least two bytes past `offset`.
pub fn read_seek_u16(data: &Vec<u8>, offset: &mut usize, endianness: Endianness) -> (r: u16)
    requires
        *old(offset) + U16_OCTETS <= data@.len(),
    ensures
        r == num_val(endianness, data@.subrange(*old(offset) as int, *old(offset) + U16_OCTETS)),
        *final(offset) == *old(offset) + U16_OCTETS,
{
    match try_read_seek_u16(data, offset, endianness) {
        Ok(n) => n,
        Err(_) => unreached(),
    }
}

/// Reads two octets of `data` at `offset` as an `i16` and advances `offset`
/// by two; the caller must leave at least two bytes past `offset`.
pub fn read_seek_i16(data: &Vec<u8>, offset: &mut usize, endianness: Endianness) -> (r: i16)
    requires
        *old(offset) + U16_OCTETS <= data@.len(),
    ensures
        r == (num_val(
            endianness,
            data@.subrange(*old(offset) as int, *old(offset) + U16_OCTETS),
        ) as u16) as i16,
        *final(offset) == *old(offset) + U16_OCTETS,
{
    read_seek_u16(data, offset, endianness) as i16
}

/// Reads four octets of `data` at `offset` as a `u32` and advances `offset`
/// by four; fails without moving `offset` when fewer than four bytes remain.
pub fn try_read_seek_u32(data: &Vec<u8>, offset: &mut usize, endianness: Endianness) -> (r:
    BinaryReadResult<u32>)
    ensures
        *old(offset) + U32_OCTETS <= data@.len() ==> (r matches Ok(v) && v == num_val(
            endianness,
            data@.subrange(*old(offset) as int, *old(offset) + U32_OCTETS),
        ) && *final(offset) == *old(offset) + U32_OCTETS),
        *old(offset) + U32_OCTETS > data@.len() ==> (r matches Err(e) && e.variant
            == BinaryErrorVariant::U32 && e.message@ == "Offset overflow"@ && *final(offset)
            == *old(offset)),
{
    let off = *offset;
    if data.len() < U32_OCTETS || off > data.len() - U32_OCTETS {
        return Err(BinaryError::new("Offset overflow", BinaryErrorVariant::U32));
    }
    proof {
        lemma_num_val_bound(endianness, data@.subrange(off as int, off + U32_OCTETS));
        assert(pow256(4) == 0x100000000) by {
            reveal_with_fuel(pow256, 5);
        };
    }
    let v = match endianness {
        Endianness::Big => read_be_at(data.as_slice(), off, U32_OCTETS),
        Endianness::Little => read_le_at(data.as_slice(), off, U32_OCTETS),
    };
    *offset = off + U32_OCTETS;
    Ok(v as u32)
}

/// Reads four octets of `data` at `offset` as an `i32` and advances `offset`
/// by four; fails without moving `offset` when fewer than four bytes remain.
pub fn try_read_seek_i32(data: &Vec<u8>, offset: &mut usize, endianness: Endianness) -> (r:
    BinaryReadResult<i32>)
    ensures
        *old(offset) + U32_OCTETS <= data@.len() ==> (r matches Ok(v) && v == (num_val(
            endianness,
            data@.subrange(*old(offset) as int, *old(offset) + U32_OCTETS),
        ) as u32) as i32 && *final(offset) == *old(offset) + U32_OCTETS),
        *old(offset) + U32_OCTETS > data@.len() ==> (r matches Err(e) && e.variant
            == BinaryErrorVariant::U32 && e.message@ == "Offset overflow"@ && *final(offset)
            == *old(offset)),
{
    match try_read_seek_u32(data, offset, endianness) {
        Ok(n) => Ok(n as i32),
        Err(err) => Err(err),
    }
}

/// Reads four octets of `data` at `offset` as a `u32` and advances `offset`
/// by four; the caller must leave at least four bytes past `offset`.
pub fn read_seek_u32(data: &Vec<u8>, offset: &mut usize, endianness: Endianness) -> (r: u32)
    requires
        *old(offset) + U32_OCTETS <= data@.len(),
    ensures
        r == num_val(endianness, data@.subrange(*old(offset) as int, *old(offset) + U32_OCTETS)),
        *final(offset) == *old(offset) + U32_OCTETS,
{
    match try_read_seek_u32(data, offset, endianness) {
        Ok(n) => n,
        Err(_) => unreached(),
    }
}

/// Reads four octets of `data` at `offset` as an `i32` and advances `offset`
/// by four; the caller must leave at least four bytes past `offset`.
pub fn read_seek_i32(data: &Vec<u8>, offset: &mut usize, endianness: Endianness) -> (r: i32)
    requires
        *old(offset) + U32_OCTETS <= data@.len(),
    ensures
        r == (num_val(
            endianness,
            data@.subrange(*old(offset) as int, *old(offset) + U32_OCTETS),
        ) as u32) as i32,
        *final(offset) == *old(offset) + U32_OCTETS,
{
    read_seek_u32(data, offset, endianness) as i32
}

/// Reads eight octets of `data` at `offset` as a `u64` and advances `offset`
/// by eight; fails without moving `offset` when fewer than eight bytes
/// remain.
pub fn try_read_seek_u64(data: &Vec<u8>, offset: &mut usize, endianness: Endianness) -> (r:
    BinaryReadResult<u64>)
    ensures
        *old(offset) + U64_OCTETS <= data@.len() ==> (r matches Ok(v) && v == num_val(
            endianness,
            data@.subrange(*old(offset) as int, *old(offset) + U64_OCTETS),
        ) && *final(offset) == *old(offset) + U64_OCTETS),
        *old(offset) + U64_OCTETS > data@.len() ==> (r matches Err(e) && e.variant
            == BinaryErrorVariant::U64 && e.message@ == "Offset overflow"@ && *final(offset)
            == *old(offset)),
{
    let off = *offset;
    if data.len() < U64_OCTETS || off > data.len() - U64_OCTETS {
        return Err(BinaryError::new("Offset overflow", BinaryErrorVariant::U64));
    }
    proof {
        lemma_num_val_bound(endianness, data@.subrange(off as int, off + U64_OCTETS));
        assert(pow256(8) == 0x10000000000000000) by {
            reveal_with_fuel(pow256, 9);
        };
    }
    let v = match endianness {
        Endianness::Big => read_be_at(data.as_slice(), off, U64_OCTETS),
        Endianness::Little => read_le_at(data.as_slice(), off, U64_OCTETS),
    };
    *offset = off + U64_OCTETS;
    Ok(v as u64)
}

/// Reads eight octets of `data` at `offset` as an `i64` and advances
/// `offset` by eight; fails without moving `offset` when fewer than eight
/// bytes remain.
pub fn try_read_seek_i64(data: &Vec<u8>, offset: &mut usize, endianness: Endianness) -> (r:
    BinaryReadResult<i64>)
    ensures
        *old(offset) + U64_OCTETS <= data@.len() ==> (r matches Ok(v) && v == (num_val(
            endianness,
            data@.subrange(*old(offset) as int, *old(offset) + U64_OCTETS),
        ) as u64) as i64 && *final(offset) == *old(offset) + U64_OCTETS),
        *old(offset) + U64_OCTETS > data@.len() ==> (r matches Err(e) && e.variant
            == BinaryErrorVariant::U64 && e.message@ == "Offset overflow"@ && *final(offset)
            == *old(offset)),
{
    match try_read_seek_u64(data, offset, endianness) {
        Ok(n) => Ok(n as i64),
        Err(err) => Err(err),
    }
}

/// Reads eight octets of `data` at `offset` as a `u64` and advances
/// `offset` by eight; the caller must leave at least eight bytes past
/// `offset`.
pub fn read_seek_u64(data: &Vec<u8>, offset: &mut usize, endianness: Endianness) -> (r: u64)
    requires
        *old(offset) + U64_OCTETS <= data@.len(),
    ensures
        r == num_val(endianness, data@.subrange(*old(offset) as int, *old(offset) + U64_OCTETS)),
        *final(offset) == *old(offset) + U64_OCTETS,
{
    match try_read_seek_u64(data, offset, endianness) {
        Ok(n) => n,
        Err(_) => unreached(),
    }
}

/// Reads eight octets of `data` at `offset` as an `i64` and advances
/// `offset` by eight; the caller must leave at least eight bytes past
/// `offset`.
pub fn read_seek_i64(data: &Vec<u8>, offset: &mut usize, endianness: Endianness) -> (r: i64)
    requires
        *old(offset) + U64_OCTETS <= data@.len(),
    ensures
        r == (num_val(
            endianness,
            data@.subrange(*old(offset) as int, *old(offset) + U64_OCTETS),
        ) as u64) as i64,
        *final(offset) == *old(offset) + U64_OCTETS,
{
    match try_read_seek_u64(data, offset, endianness) {
        Ok(n) => n as i64,
        Err(_) => unreached(),
    }
}

} // verus!
