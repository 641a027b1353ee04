//! Reading runs of equally sized integers from a byte slice.
#![allow(unused_imports)]
use vstd::prelude::*;

use crate::endian::Endianness;
use crate::error::{BinaryError, BinaryErrorVariant, BinaryReadResult};
use crate::wire::{lemma_num_val_bound, num_val, pow256, read_be_at, read_le_at};
use crate::{U16_OCTETS, U32_OCTETS, U64_OCTETS};

verus! {

/// Reads `n` consecutive `u16` values from the front of `data`; fails when
/// `data` holds fewer than `n * 2` bytes.
pub fn read_iter_u16(data: &[u8], n: usize, endianness: Endianness) -> (r: BinaryReadResult<
    Vec<u16>,
>)
    ensures
        n * U16_OCTETS <= data@.len() ==> (r matches Ok(v) && v@.len() == n && (forall|k: int|
            0 <= k < n ==> v@[k] == num_val(
                endianness,
                data@.subrange(k * U16_OCTETS, k * U16_OCTETS + U16_OCTETS),
            ))),
        n * U16_OCTETS > data@.len() ==> (r matches Err(e) && e.variant == BinaryErrorVariant::U16
            && e.message@ == "Slice of bytes too short"@),
{
    if n > data.len() / U16_OCTETS {
        return Err(BinaryError::new("Slice of bytes too short", BinaryErrorVariant::U16));
    }
    let mut v: Vec<u16> = Vec::new();
    let mut i: usize = 0;
    while i < n
        invariant
            n * U16_OCTETS <= data@.len(),
            data@.len() <= usize::MAX,
            i <= n,
            v@.len() == i,
            forall|k: int|
                0 <= k < i ==> v@[k] == num_val(
                    endianness,
                    data@.subrange(k * U16_OCTETS, k * U16_OCTETS + U16_OCTETS),
                ),
        decreases n - i,
    {
        proof {
            assert(i * U16_OCTETS + U16_OCTETS <= n * U16_OCTETS) by (nonlinear_arith)
                requires
                    i < n,
            ;
            lemma_num_val_bound(endianness, data@.subrange(i * U16_OCTETS, i * U16_OCTETS + U16_OCTETS));
            assert(pow256(2) == 65536) by {
                reveal_with_fuel(pow256, 3);
            };
        }
        let off = i * U16_OCTETS;
        let x = match endianness {
            Endianness::Big => read_be_at(data, off, U16_OCTETS),
            Endianness::Little => read_le_at(data, off, U16_OCTETS),
        };
        v.push(x as u16);
        i = i + 1;
    }
    Ok(v)
}

/// Reads `n` consecutive `i16` values from the front of `data`; fails when
/// `data` holds fewer than `n * 2` bytes.
pub fn read_iter_i16(data: &[u8], n: usize, endianness: Endianness) -> (r: BinaryReadResult<
    Vec<i16>,
>)
    ensures
        n * U16_OCTETS <= data@.len() ==> (r matches Ok(v) && v@.len() == n && (forall|k: int|
            0 <= k < n ==> v@[k] == (num_val(
                endianness,
                data@.subrange(k * U16_OCTETS, k * U16_OCTETS + U16_OCTETS),
            ) as u16) as i16)),
        n * U16_OCTETS > data@.len() ==> (r matches Err(e) && e.variant == BinaryErrorVariant::U16
            && e.message@ == "Slice of bytes too short"@),
{
    match read_iter_u16(data, n, endianness) {
        Ok(u) => {
            let mut v: Vec<i16> = Vec::new();
            let mut i: usize = 0;
            while i < u.len()
                invariant
                    i <= u@.len(),
                    v@.len() == i,
                    forall|k: int| 0 <= k < i ==> v@[k] == u@[k] as i16,
                decreases u@.len() - i,
            {
                let x = u[i];
                v.push(x as i16);
                i = i + 1;
            }
            Ok(v)
        },
        Err(err) => Err(err),
    }
}

/// Reads `n` consecutive `u32` values from the front of `data`; fails when
/// `data` holds fewer than `n * 4` bytes.
pub fn read_iter_u32(data: &[u8], n: usize, endianness: Endianness) -> (r: BinaryReadResult<
    Vec<u32>,
>)
    ensures
        n * U32_OCTETS <= data@.len() ==> (r matches Ok(v) && v@.len() == n && (forall|k: int|
            0 <= k < n ==> v@[k] == num_val(
                endianness,
                data@.subrange(k * U32_OCTETS, k * U32_OCTETS + U32_OCTETS),
            ))),
        n * U32_OCTETS > data@.len() ==> (r matches Err(e) && e.variant == BinaryErrorVariant::U32
            && e.message@ == "Slice of bytes too short"@),
{
    if n > data.len() / U32_OCTETS {
        return Err(BinaryError::new("Slice of bytes too short", BinaryErrorVariant::U32));
    }
    let mut v: Vec<u32> = Vec::new();
    let mut i: usize = 0;
    while i < n
        invariant
            n * U32_OCTETS <= data@.len(),
            data@.len() <= usize::MAX,
            i <= n,
            v@.len() == i,
            forall|k: int|
                0 <= k < i ==> v@[k] == num_val(
                    endianness,
                    data@.subrange(k * U32_OCTETS, k * U32_OCTETS + U32_OCTETS),
                ),
        decreases n - i,
    {
        proof {
            assert(i * U32_OCTETS + U32_OCTETS <= n * U32_OCTETS) by (nonlinear_arith)
                requires
                    i < n,
            ;
            lemma_num_val_bound(endianness, data@.subrange(i * U32_OCTETS, i * U32_OCTETS + U32_OCTETS));
            assert(pow256(4) == 0x100000000) by {
                reveal_with_fuel(pow256, 5);
            };
        }
        let off = i * U32_OCTETS;
        let x = match endianness {
            Endianness::Big => read_be_at(data, off, U32_OCTETS),
            Endianness::Little => read_le_at(data, off, U32_OCTETS),
        };
        v.push(x as u32);
        i = i + 1;
    }
    Ok(v)
}

/// Reads `n` consecutive `i32` values from the front of `data`; fails when
/// `data` holds fewer than `n * 4` bytes.
pub fn read_iter_i32(data: &[u8], n: usize, endianness: Endianness) -> (r: BinaryReadResult<
    Vec<i32>,
>)
    ensures
        n * U32_OCTETS <= data@.len() ==> (r matches Ok(v) && v@.len() == n && (forall|k: int|
            0 <= k < n ==> v@[k] == (num_val(
                endianness,
                data@.subrange(k * U32_OCTETS, k * U32_OCTETS + U32_OCTETS),
            ) as u32) as i32)),
        n * U32_OCTETS > data@.len() ==> (r matches Err(e) && e.variant == BinaryErrorVariant::U32
            && e.message@ == "Slice of bytes too short"@),
{
    match read_iter_u32(data, n, endianness) {
        Ok(u) => {
            let mut v: Vec<i32> = Vec::new();
            let mut i: usize = 0;
            while i < u.len()
                invariant
                    i <= u@.len(),
                    v@.len() == i,
                    forall|k: int| 0 <= k < i ==> v@[k] == u@[k] as i32,
                decreases u@.len() - i,
            {
                let x = u[i];
                v.push(x as i32);
                i = i + 1;
            }
            Ok(v)
        },
        Err(err) => Err(err),
    }
}

/// Reads `n` consecutive `u64` values from the front of `data`; fails when
/// `data` holds fewer than `n * 8` bytes.
pub fn read_iter_u64(data: &[u8], n: usize, endianness: Endianness) -> (r: BinaryReadResult<
    Vec<u64>,
>)
    ensures
        n * U64_OCTETS <= data@.len() ==> (r matches Ok(v) && v@.len() == n && (forall|k: int|
            0 <= k < n ==> v@[k] == num_val(
                endianness,
                data@.subrange(k * U64_OCTETS, k * U64_OCTETS + U64_OCTETS),
            ))),
        n * U64_OCTETS > data@.len() ==> (r matches Err(e) && e.variant == BinaryErrorVariant::U64
            && e.message@ == "Slice of bytes too short to read"@),
{
    if n > data.len() / U64_OCTETS {
        return Err(BinaryError::new("Slice of bytes too short to read", BinaryErrorVariant::U64));
    }
    let mut v: Vec<u64> = Vec::new();
    let mut i: usize = 0;
    while i < n
        invariant
            n * U64_OCTETS <= data@.len(),
            data@.len() <= usize::MAX,
            i <= n,
            v@.len() == i,
            forall|k: int|
                0 <= k < i ==> v@[k] == num_val(
                    endianness,
                    data@.subrange(k * U64_OCTETS, k * U64_OCTETS + U64_OCTETS),
                ),
        decreases n - i,
    {
        proof {
            assert(i * U64_OCTETS + U64_OCTETS <= n * U64_OCTETS) by (nonlinear_arith)
                requires
                    i < n,
            ;
            lemma_num_val_bound(endianness, data@.subrange(i * U64_OCTETS, i * U64_OCTETS + U64_OCTETS));
            assert(pow256(8) == 0x10000000000000000) by {
                reveal_with_fuel(pow256, 9);
            };
        }
        let off = i * U64_OCTETS;
        let x = match endianness {
            Endianness::Big => read_be_at(data, off, U64_OCTETS),
            Endianness::Little => read_le_at(data, off, U64_OCTETS),
        };
        v.push(x as u64);
        i = i + 1;
    }
    Ok(v)
}

/// Reads `n` consecutive `i64` values from the front of `data`; fails when
/// `data` holds fewer than `n * 8` bytes.
pub fn read_iter_i64(data: &[u8], n: usize, endianness: Endianness) -> (r: BinaryReadResult<
    Vec<i64>,
>)
    ensures
        n * U64_OCTETS <= data@.len() ==> (r matches Ok(v) && v@.len() == n && (forall|k: int|
            0 <= k < n ==> v@[k] == (num_val(
                endianness,
                data@.subrange(k * U64_OCTETS, k * U64_OCTETS + U64_OCTETS),
            ) as u64) as i64)),
        n * U64_OCTETS > data@.len() ==> (r matches Err(e) && e.variant == BinaryErrorVariant::U64
            && e.message@ == "Slice of bytes too short to read"@),
{
    match read_iter_u64(data, n, endianness) {
        Ok(u) => {
            let mut v: Vec<i64> = Vec::new();
            let mut i: usize = 0;
            while i < u.len()
                invariant
                    i <= u@.len(),
                    v@.len() == i,
                    forall|k: int| 0 <= k < i ==> v@[k] == u@[k] as i64,
                decreases u@.len() - i,
            {
                let x = u[i];
                v.push(x as i64);
                i = i + 1;
            }
            Ok(v)
        },
        Err(err) => Err(err),
    }
}

} // verus!
