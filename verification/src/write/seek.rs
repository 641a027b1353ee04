//! Writing fixed-width integers at a caller-tracked offset, advancing the
//! offset past each value written.
#![allow(unused_imports)]
use vstd::prelude::*;

use crate::endian::Endianness;
use crate::error::{BinaryError, BinaryErrorVariant, BinaryWriteResult};
use crate::wire::{num_bytes, write_be_at, write_le_at};
use crate::{U16_OCTETS, U32_OCTETS, U64_OCTETS};

verus! {

/// Writes `value` as a `u16` into `buf` at `offset` and advances `offset`
/// by 2; fails without touching `buf` or `offset` when fewer than 2
/// bytes remain past `offset`.
pub fn write_seek_u16(
    value: u16,
    buf: &mut [u8],
    offset: &mut usize,
    endianness: Endianness,
) -> (r: BinaryWriteResult)
    ensures
        *old(offset) + U16_OCTETS <= old(buf)@.len() ==> (r matches Ok(n) && n == U16_OCTETS && *final(offset) == *old(offset) + U16_OCTETS && final(buf)@.len() == old(buf)@.len() && final(buf)@.subrange(*old(offset) as int, *old(offset) + U16_OCTETS) == num_bytes(
            endianness,
            value as nat,
            2,
        ) && (forall|i: int|
            0 <= i < old(buf)@.len() && !(*old(offset) <= i < *old(offset) + U16_OCTETS)
                ==> #[trigger] final(buf)@[i] == old(buf)@[i])),
        *old(offset) + U16_OCTETS > old(buf)@.len() ==> (r matches Err(e) && e.variant
            == BinaryErrorVariant::U16 && e.message@ == "Buf too short"@ && final(buf)@ == old(buf)@ && *final(offset) == *old(offset)),
{
    let off = *offset;
    if buf.len() < U16_OCTETS || off > buf.len() - U16_OCTETS {
        return Err(BinaryError::new("Buf too short", BinaryErrorVariant::U16));
    }
    match endianness {
        Endianness::Big => write_be_at(value as u128, buf, off, U16_OCTETS),
        Endianness::Little => write_le_at(value as u128, buf, off, U16_OCTETS),
    }
    *offset = off + U16_OCTETS;
    Ok(U16_OCTETS)
}

/// Writes `value` as an `i16` (two's complement) into `buf` at `offset`
/// and advances `offset` by 2; fails without touching `buf` or `offset`
/// when fewer than 2 bytes remain past `offset`.
pub fn write_seek_i16(
    value: i16,
    buf: &mut [u8],
    offset: &mut usize,
    endianness: Endianness,
) -> (r: BinaryWriteResult)
    ensures
        *old(offset) + U16_OCTETS <= old(buf)@.len() ==> (r matches Ok(n) && n == U16_OCTETS && *final(offset) == *old(offset) + U16_OCTETS && final(buf)@.len() == old(buf)@.len() && final(buf)@.subrange(*old(offset) as int, *old(offset) + U16_OCTETS) == num_bytes(
            endianness,
            (value as u16) as nat,
            2,
        ) && (forall|i: int|
            0 <= i < old(buf)@.len() && !(*old(offset) <= i < *old(offset) + U16_OCTETS)
                ==> #[trigger] final(buf)@[i] == old(buf)@[i])),
        *old(offset) + U16_OCTETS > old(buf)@.len() ==> (r matches Err(e) && e.variant
            == BinaryErrorVariant::U16 && e.message@ == "Buf too short"@ && final(buf)@ == old(buf)@ && *final(offset) == *old(offset)),
{
    write_seek_u16(value as u16, buf, offset, endianness)
}

/// Writes `value` as a `u32` into `buf` at `offset` and advances `offset`
/// by 4; fails without touching `buf` or `offset` when fewer than 4
/// bytes remain past `offset`.
pub fn write_seek_u32(
    value: u32,
    buf: &mut [u8],
    offset: &mut usize,
    endianness: Endianness,
) -> (r: BinaryWriteResult)
    ensures
        *old(offset) + U32_OCTETS <= old(buf)@.len() ==> (r matches Ok(n) && n == U32_OCTETS && *final(offset) == *old(offset) + U32_OCTETS && final(buf)@.len() == old(buf)@.len() && final(buf)@.subrange(*old(offset) as int, *old(offset) + U32_OCTETS) == num_bytes(
            endianness,
            value as nat,
            4,
        ) && (forall|i: int|
            0 <= i < old(buf)@.len() && !(*old(offset) <= i < *old(offset) + U32_OCTETS)
                ==> #[trigger] final(buf)@[i] == old(buf)@[i])),
        *old(offset) + U32_OCTETS > old(buf)@.len() ==> (r matches Err(e) && e.variant
            == BinaryErrorVariant::U32 && e.message@ == "Buf too short"@ && final(buf)@ == old(buf)@ && *final(offset) == *old(offset)),
{
    let off = *offset;
    if buf.len() < U32_OCTETS || off > buf.len() - U32_OCTETS {
        return Err(BinaryError::new("Buf too short", BinaryErrorVariant::U32));
    }
    match endianness {
        Endianness::Big => write_be_at(value as u128, buf, off, U32_OCTETS),
        Endianness::Little => write_le_at(value as u128, buf, off, U32_OCTETS),
    }
    *offset = off + U32_OCTETS;
    Ok(U32_OCTETS)
}

/// Writes `value` as an `i32` (two's complement) into `buf` at `offset`
/// and advances `offset` by 4; fails without touching `buf` or `offset`
/// when fewer than 4 bytes remain past `offset`.
pub fn write_seek_i32(
    value: i32,
    buf: &mut [u8],
    offset: &mut usize,
    endianness: Endianness,
) -> (r: BinaryWriteResult)
    ensures
        *old(offset) + U32_OCTETS <= old(buf)@.len() ==> (r matches Ok(n) && n == U32_OCTETS && *final(offset) == *old(offset) + U32_OCTETS && final(buf)@.len() == old(buf)@.len() && final(buf)@.subrange(*old(offset) as int, *old(offset) + U32_OCTETS) == num_bytes(
            endianness,
            (value as u32) as nat,
            4,
        ) && (forall|i: int|
            0 <= i < old(buf)@.len() && !(*old(offset) <= i < *old(offset) + U32_OCTETS)
                ==> #[trigger] final(buf)@[i] == old(buf)@[i])),
        *old(offset) + U32_OCTETS > old(buf)@.len() ==> (r matches Err(e) && e.variant
            == BinaryErrorVariant::U32 && e.message@ == "Buf too short"@ && final(buf)@ == old(buf)@ && *final(offset) == *old(offset)),
{
    write_seek_u32(value as u32, buf, offset, endianness)
}

/// Writes `value` as a `u64` into `buf` at `offset` and advances `offset`
/// by 8; fails without touching `buf` or `offset` when fewer than 8
/// bytes remain past `offset`.
pub fn write_seek_u64(
    value: u64,
    buf: &mut [u8],
    offset: &mut usize,
    endianness: Endianness,
) -> (r: BinaryWriteResult)
    ensures
        *old(offset) + U64_OCTETS <= old(buf)@.len() ==> (r matches Ok(n) && n == U64_OCTETS && *final(offset) == *old(offset) + U64_OCTETS && final(buf)@.len() == old(buf)@.len() && final(buf)@.subrange(*old(offset) as int, *old(offset) + U64_OCTETS) == num_bytes(
            endianness,
            value as nat,
            8,
        ) && (forall|i: int|
            0 <= i < old(buf)@.len() && !(*old(offset) <= i < *old(offset) + U64_OCTETS)
                ==> #[trigger] final(buf)@[i] == old(buf)@[i])),
        *old(offset) + U64_OCTETS > old(buf)@.len() ==> (r matches Err(e) && e.variant
            == BinaryErrorVariant::U64 && e.message@ == "Buf too short"@ && final(buf)@ == old(buf)@ && *final(offset) == *old(offset)),
{
    let off = *offset;
    if buf.len() < U64_OCTETS || off > buf.len() - U64_OCTETS {
        return Err(BinaryError::new("Buf too short", BinaryErrorVariant::U64));
    }
    match endianness {
        Endianness::Big => write_be_at(value as u128, buf, off, U64_OCTETS),
        Endianness::Little => write_le_at(value as u128, buf, off, U64_OCTETS),
    }
    *offset = off + U64_OCTETS;
    Ok(U64_OCTETS)
}

/// Writes `value` as an `i64` (two's complement) into `buf` at `offset`
/// and advances `offset` by 8; fails without touching `buf` or `offset`
/// when fewer than 8 bytes remain past `offset`.
pub fn write_seek_i64(
    value: i64,
    buf: &mut [u8],
    offset: &mut usize,
    endianness: Endianness,
) -> (r: BinaryWriteResult)
    ensures
        *old(offset) + U64_OCTETS <= old(buf)@.len() ==> (r matches Ok(n) && n == U64_OCTETS && *final(offset) == *old(offset) + U64_OCTETS && final(buf)@.len() == old(buf)@.len() && final(buf)@.subrange(*old(offset) as int, *old(offset) + U64_OCTETS) == num_bytes(
            endianness,
            (value as u64) as nat,
            8,
        ) && (forall|i: int|
            0 <= i < old(buf)@.len() && !(*old(offset) <= i < *old(offset) + U64_OCTETS)
                ==> #[trigger] final(buf)@[i] == old(buf)@[i])),
        *old(offset) + U64_OCTETS > old(buf)@.len() ==> (r matches Err(e) && e.variant
            == BinaryErrorVariant::U64 && e.message@ == "Buf too short"@ && final(buf)@ == old(buf)@ && *final(offset) == *old(offset)),
{
    write_seek_u64(value as u64, buf, offset, endianness)
}

} // verus!
