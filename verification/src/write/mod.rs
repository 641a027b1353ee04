//! Writing fixed-width integers into the front of a byte slice in big or
//! little endian byte order.
#![allow(unused_imports)]
use vstd::prelude::*;

mod iter;
mod seek;

pub use iter::{
    try_write_iter_i16, try_write_iter_i32, try_write_iter_i64, try_write_iter_u16,
    try_write_iter_u32, try_write_iter_u64, write_iter_i16, write_iter_i32, write_iter_i64,
    write_iter_u16, write_iter_u32, write_iter_u64,
};
pub use seek::{
    write_seek_i16, write_seek_i32, write_seek_i64, write_seek_u16, write_seek_u32, write_seek_u64,
};

use crate::endian::Endianness;
use crate::error::{BinaryError, BinaryErrorVariant, BinaryWriteResult};
use crate::wire::{num_bytes, write_be_at, write_le_at};
use crate::{U16_OCTETS, U32_OCTETS, U64_OCTETS};

verus! {

/// Writes `value` as a `u16` into the first 2 bytes of `buf`; fails
/// without touching `buf` when it is shorter than 2 bytes.
pub fn try_write_u16(value: u16, buf: &mut [u8], endianness: Endianness) -> (r: BinaryWriteResult)
    ensures
        old(buf)@.len() >= U16_OCTETS ==> (r matches Ok(n) && n == U16_OCTETS && final(buf)@.len() == old(buf)@.len() && final(buf)@.subrange(0, U16_OCTETS as int) == num_bytes(
            endianness,
            value as nat,
            2,
        ) && (forall|i: int|
            U16_OCTETS <= i < old(buf)@.len() ==> #[trigger] final(buf)@[i] == old(buf)@[i])),
        old(buf)@.len() < U16_OCTETS ==> (r matches Err(e) && e.variant == BinaryErrorVariant::U16
            && e.message@ == "Buf too short"@ && final(buf)@ == old(buf)@),
{
    if buf.len() < U16_OCTETS {
        return Err(BinaryError::new("Buf too short", BinaryErrorVariant::U16));
    }
    match endianness {
        Endianness::Big => write_be_at(value as u128, buf, 0, U16_OCTETS),
        Endianness::Little => write_le_at(value as u128, buf, 0, U16_OCTETS),
    }
    Ok(U16_OCTETS)
}

/// Writes `value` as an `i16` (two's complement) into the first 2 bytes
/// of `buf`; fails without touching `buf` when it is shorter than 2 bytes.
pub fn try_write_i16(value: i16, buf: &mut [u8], endianness: Endianness) -> (r: BinaryWriteResult)
    ensures
        old(buf)@.len() >= U16_OCTETS ==> (r matches Ok(n) && n == U16_OCTETS && final(buf)@.len() == old(buf)@.len() && final(buf)@.subrange(0, U16_OCTETS as int) == num_bytes(
            endianness,
            (value as u16) as nat,
            2,
        ) && (forall|i: int|
            U16_OCTETS <= i < old(buf)@.len() ==> #[trigger] final(buf)@[i] == old(buf)@[i])),
        old(buf)@.len() < U16_OCTETS ==> (r matches Err(e) && e.variant == BinaryErrorVariant::U16
            && e.message@ == "Buf too short"@ && final(buf)@ == old(buf)@),
{
    if buf.len() < U16_OCTETS {
        return Err(BinaryError::new("Buf too short", BinaryErrorVariant::U16));
    }
    try_write_u16(value as u16, buf, endianness)
}

/// Writes `value` as a `u16` into the first 2 bytes of `buf`; the caller
/// must supply at least 2 bytes.
pub fn write_u16(value: u16, buf: &mut [u8], endianness: Endianness) -> (n: usize)
    requires
        old(buf)@.len() >= U16_OCTETS,
    ensures
        n == U16_OCTETS,
        final(buf)@.len() == old(buf)@.len(),
        final(buf)@.subrange(0, U16_OCTETS as int) == num_bytes(endianness, value as nat, 2),
        forall|i: int| U16_OCTETS <= i < old(buf)@.len() ==> #[trigger] final(buf)@[i] == old(buf)@[i],
{
    match try_write_u16(value, buf, endianness) {
        Ok(n) => n,
        Err(_) => unreached(),
    }
}

/// Writes `value` as an `i16` (two's complement) into the first 2 bytes
/// of `buf`; the caller must supply at least 2 bytes.
pub fn write_i16(value: i16, buf: &mut [u8], endianness: Endianness) -> (n: usize)
    requires
        old(buf)@.len() >= U16_OCTETS,
    ensures
        n == U16_OCTETS,
        final(buf)@.len() == old(buf)@.len(),
        final(buf)@.subrange(0, U16_OCTETS as int) == num_bytes(endianness, (value as u16) as nat, 2),
        forall|i: int| U16_OCTETS <= i < old(buf)@.len() ==> #[trigger] final(buf)@[i] == old(buf)@[i],
{
    match try_write_i16(value, buf, endianness) {
        Ok(n) => n,
        Err(_) => unreached(),
    }
}

/// Writes `value` as a `u32` into the first 4 bytes of `buf`; fails
/// without touching `buf` when it is shorter than 4 bytes.
pub fn try_write_u32(value: u32, buf: &mut [u8], endianness: Endianness) -> (r: BinaryWriteResult)
    ensures
        old(buf)@.len() >= U32_OCTETS ==> (r matches Ok(n) && n == U32_OCTETS && final(buf)@.len() == old(buf)@.len() && final(buf)@.subrange(0, U32_OCTETS as int) == num_bytes(
            endianness,
            value as nat,
            4,
        ) && (forall|i: int|
            U32_OCTETS <= i < old(buf)@.len() ==> #[trigger] final(buf)@[i] == old(buf)@[i])),
        old(buf)@.len() < U32_OCTETS ==> (r matches Err(e) && e.variant == BinaryErrorVariant::U32
            && e.message@ == "Buf too short"@ && final(buf)@ == old(buf)@),
{
    if buf.len() < U32_OCTETS {
        return Err(BinaryError::new("Buf too short", BinaryErrorVariant::U32));
    }
    match endianness {
        Endianness::Big => write_be_at(value as u128, buf, 0, U32_OCTETS),
        Endianness::Little => write_le_at(value as u128, buf, 0, U32_OCTETS),
    }
    Ok(U32_OCTETS)
}

/// Writes `value` as an `i32` (two's complement) into the first 4 bytes
/// of `buf`; fails without touching `buf` when it is shorter than 4 bytes.
pub fn try_write_i32(value: i32, buf: &mut [u8], endianness: Endianness) -> (r: BinaryWriteResult)
    ensures
        old(buf)@.len() >= U32_OCTETS ==> (r matches Ok(n) && n == U32_OCTETS && final(buf)@.len() == old(buf)@.len() && final(buf)@.subrange(0, U32_OCTETS as int) == num_bytes(
            endianness,
            (value as u32) as nat,
            4,
        ) && (forall|i: int|
            U32_OCTETS <= i < old(buf)@.len() ==> #[trigger] final(buf)@[i] == old(buf)@[i])),
        old(buf)@.len() < U32_OCTETS ==> (r matches Err(e) && e.variant == BinaryErrorVariant::U32
            && e.message@ == "Buf too short"@ && final(buf)@ == old(buf)@),
{
    if buf.len() < U32_OCTETS {
        return Err(BinaryError::new("Buf too short", BinaryErrorVariant::U32));
    }
    try_write_u32(value as u32, buf, endianness)
}

/// Writes `value` as a `u32` into the first 4 bytes of `buf`; the caller
/// must supply at least 4 bytes.
pub fn write_u32(value: u32, buf: &mut [u8], endianness: Endianness) -> (n: usize)
    requires
        old(buf)@.len() >= U32_OCTETS,
    ensures
        n == U32_OCTETS,
        final(buf)@.len() == old(buf)@.len(),
        final(buf)@.subrange(0, U32_OCTETS as int) == num_bytes(endianness, value as nat, 4),
        forall|i: int| U32_OCTETS <= i < old(buf)@.len() ==> #[trigger] final(buf)@[i] == old(buf)@[i],
{
    match try_write_u32(value, buf, endianness) {
        Ok(n) => n,
        Err(_) => unreached(),
    }
}

/// Writes `value` as an `i32` (two's complement) into the first 4 bytes
/// of `buf`; the caller must supply at least 4 bytes.
pub fn write_i32(value: i32, buf: &mut [u8], endianness: Endianness) -> (n: usize)
    requires
        old(buf)@.len() >= U32_OCTETS,
    ensures
        n == U32_OCTETS,
        final(buf)@.len() == old(buf)@.len(),
        final(buf)@.subrange(0, U32_OCTETS as int) == num_bytes(endianness, (value as u32) as nat, 4),
        forall|i: int| U32_OCTETS <= i < old(buf)@.len() ==> #[trigger] final(buf)@[i] == old(buf)@[i],
{
    match try_write_i32(value, buf, endianness) {
        Ok(n) => n,
        Err(_) => unreached(),
    }
}

/// Writes `value` as a `u64` into the first 8 bytes of `buf`; fails
/// without touching `buf` when it is shorter than 8 bytes.
pub fn try_write_u64(value: u64, buf: &mut [u8], endianness: Endianness) -> (r: BinaryWriteResult)
    ensures
        old(buf)@.len() >= U64_OCTETS ==> (r matches Ok(n) && n == U64_OCTETS && final(buf)@.len() == old(buf)@.len() && final(buf)@.subrange(0, U64_OCTETS as int) == num_bytes(
            endianness,
            value as nat,
            8,
        ) && (forall|i: int|
            U64_OCTETS <= i < old(buf)@.len() ==> #[trigger] final(buf)@[i] == old(buf)@[i])),
        old(buf)@.len() < U64_OCTETS ==> (r matches Err(e) && e.variant == BinaryErrorVariant::U64
            && e.message@ == "Buf too short"@ && final(buf)@ == old(buf)@),
{
    if buf.len() < U64_OCTETS {
        return Err(BinaryError::new("Buf too short", BinaryErrorVariant::U64));
    }
    match endianness {
        Endianness::Big => write_be_at(value as u128, buf, 0, U64_OCTETS),
        Endianness::Little => write_le_at(value as u128, buf, 0, U64_OCTETS),
    }
    Ok(U64_OCTETS)
}

/// Writes `value` as an `i64` (two's complement) into the first 8 bytes
/// of `buf`; fails without touching `buf` when it is shorter than 8 bytes.
pub fn try_write_i64(value: i64, buf: &mut [u8], endianness: Endianness) -> (r: BinaryWriteResult)
    ensures
        old(buf)@.len() >= U64_OCTETS ==> (r matches Ok(n) && n == U64_OCTETS && final(buf)@.len() == old(buf)@.len() && final(buf)@.subrange(0, U64_OCTETS as int) == num_bytes(
            endianness,
            (value as u64) as nat,
            8,
        ) && (forall|i: int|
            U64_OCTETS <= i < old(buf)@.len() ==> #[trigger] final(buf)@[i] == old(buf)@[i])),
        old(buf)@.len() < U64_OCTETS ==> (r matches Err(e) && e.variant == BinaryErrorVariant::U64
            && e.message@ == "Buf too short"@ && final(buf)@ == old(buf)@),
{
    if buf.len() < U64_OCTETS {
        return Err(BinaryError::new("Buf too short", BinaryErrorVariant::U64));
    }
    try_write_u64(value as u64, buf, endianness)
}

/// Writes `value` as a `u64` into the first 8 bytes of `buf`; the caller
/// must supply at least 8 bytes.
pub fn write_u64(value: u64, buf: &mut [u8], endianness: Endianness) -> (n: usize)
    requires
        old(buf)@.len() >= U64_OCTETS,
    ensures
        n == U64_OCTETS,
        final(buf)@.len() == old(buf)@.len(),
        final(buf)@.subrange(0, U64_OCTETS as int) == num_bytes(endianness, value as nat, 8),
        forall|i: int| U64_OCTETS <= i < old(buf)@.len() ==> #[trigger] final(buf)@[i] == old(buf)@[i],
{
    match try_write_u64(value, buf, endianness) {
        Ok(n) => n,
        Err(_) => unreached(),
    }
}

/// Writes `value` as an `i64` (two's complement) into the first 8 bytes
/// of `buf`; the caller must supply at least 8 bytes.
pub fn write_i64(value: i64, buf: &mut [u8], endianness: Endianness) -> (n: usize)
    requires
        old(buf)@.len() >= U64_OCTETS,
    ensures
        n == U64_OCTETS,
        final(buf)@.len() == old(buf)@.len(),
        final(buf)@.subrange(0, U64_OCTETS as int) == num_bytes(endianness, (value as u64) as nat, 8),
        forall|i: int| U64_OCTETS <= i < old(buf)@.len() ==> #[trigger] final(buf)@[i] == old(buf)@[i],
{
    match try_write_i64(value, buf, endianness) {
        Ok(n) => n,
        Err(_) => unreached(),
    }
}

} // verus!
