//! Writing runs of equally sized integers into a byte slice, with checked
//! and unchecked variants. No partial data is written: the whole run is
//! bounds-checked before the first byte is placed.
#![allow(unused_imports)]
use vstd::prelude::*;

use crate::endian::Endianness;
use crate::error::{BinaryError, BinaryErrorVariant, BinaryWriteResult};
use crate::wire::{num_bytes, write_be_at, write_le_at};
use crate::{U16_OCTETS, U32_OCTETS, U64_OCTETS};

verus! {

/// Writes every element of `values` as a `u16` into `buf`, front to back;
/// fails without touching `buf` when it cannot hold the whole run.
pub fn try_write_iter_u16(values: Vec<u16>, buf: &mut [u8], endianness: Endianness) -> (r:
    BinaryWriteResult)
    ensures
        values@.len() * U16_OCTETS <= old(buf)@.len() ==> (r matches Ok(n) && n == values@.len()
            * U16_OCTETS && final(buf)@.len() == old(buf)@.len() && (forall|k: int|
            0 <= k < values@.len() ==> #[trigger] final(buf)@.subrange(
                k * U16_OCTETS,
                k * U16_OCTETS + U16_OCTETS,
            ) == num_bytes(endianness, values@[k] as nat, 2)) && (forall|j: int|
            values@.len() * U16_OCTETS <= j < old(buf)@.len() ==> #[trigger] final(buf)@[j] == old(buf)@[j])),
        values@.len() * U16_OCTETS > old(buf)@.len() ==> (r matches Err(e) && e.variant
            == BinaryErrorVariant::U16 && e.message@ == "Buf too short"@ && final(buf)@ == old(buf)@),
{
    let m = values.len();
    if m > buf.len() / U16_OCTETS {
        return Err(BinaryError::new("Buf too short", BinaryErrorVariant::U16));
    }
    let mut i: usize = 0;
    while i < m
        invariant
            m == values@.len(),
            m * U16_OCTETS <= buf@.len(),
            buf@.len() == old(buf)@.len(),
            buf@.len() <= usize::MAX,
            i <= m,
            forall|k: int|
                0 <= k < i ==> #[trigger] buf@.subrange(k * U16_OCTETS, k * U16_OCTETS + U16_OCTETS)
                    == num_bytes(endianness, values@[k] as nat, 2),
            forall|j: int|
                i * U16_OCTETS <= j < buf@.len() ==> #[trigger] buf@[j] == old(buf)@[j],
        decreases m - i,
    {
        proof {
            assert(i * U16_OCTETS + U16_OCTETS <= m * U16_OCTETS) by (nonlinear_arith)
                requires
                    i < m,
            ;
        }
        let off = i * U16_OCTETS;
        let x = values[i];
        let ghost prev = buf@;
        match endianness {
            Endianness::Big => write_be_at(x as u128, buf, off, U16_OCTETS),
            Endianness::Little => write_le_at(x as u128, buf, off, U16_OCTETS),
        }
        proof {
            assert forall|k: int| 0 <= k < i implies #[trigger] buf@.subrange(
                k * U16_OCTETS,
                k * U16_OCTETS + U16_OCTETS,
            ) == num_bytes(endianness, values@[k] as nat, 2) by {
                assert(buf@.subrange(k * U16_OCTETS, k * U16_OCTETS + U16_OCTETS) =~= prev.subrange(
                    k * U16_OCTETS,
                    k * U16_OCTETS + U16_OCTETS,
                )) by {
                    assert forall|j: int|
                        k * U16_OCTETS <= j < k * U16_OCTETS + U16_OCTETS implies buf@[j] == prev[j] by {
                        assert(j < i * U16_OCTETS) by (nonlinear_arith)
                            requires
                                0 <= k < i,
                                k * U16_OCTETS <= j < k * U16_OCTETS + U16_OCTETS,
                        ;
                    }
                };
                assert(prev.subrange(k * U16_OCTETS, k * U16_OCTETS + U16_OCTETS) == num_bytes(
                    endianness,
                    values@[k] as nat,
                    2,
                ));
            }
        }
        i = i + 1;
    }
    proof {
        assert(m * U16_OCTETS <= usize::MAX);
    }
    Ok(m * U16_OCTETS)
}

/// Writes every element of `values` as a `u16` into `buf`, front to back;
/// the caller must supply room for the whole run.
pub fn write_iter_u16(values: Vec<u16>, buf: &mut [u8], endianness: Endianness) -> (n: usize)
    requires
        values@.len() * U16_OCTETS <= old(buf)@.len(),
    ensures
        n == values@.len() * U16_OCTETS,
        final(buf)@.len() == old(buf)@.len(),
        forall|k: int|
            0 <= k < values@.len() ==> #[trigger] final(buf)@.subrange(
                k * U16_OCTETS,
                k * U16_OCTETS + U16_OCTETS,
            ) == num_bytes(endianness, values@[k] as nat, 2),
        forall|j: int|
            values@.len() * U16_OCTETS <= j < old(buf)@.len() ==> #[trigger] final(buf)@[j]
                == old(buf)@[j],
{
    match try_write_iter_u16(values, buf, endianness) {
        Ok(n) => n,
        Err(_) => unreached(),
    }
}

/// Writes every element of `values` as a `i16` into `buf`, front to back;
/// fails without touching `buf` when it cannot hold the whole run.
pub fn try_write_iter_i16(values: Vec<i16>, buf: &mut [u8], endianness: Endianness) -> (r:
    BinaryWriteResult)
    ensures
        values@.len() * U16_OCTETS <= old(buf)@.len() ==> (r matches Ok(n) && n == values@.len()
            * U16_OCTETS && final(buf)@.len() == old(buf)@.len() && (forall|k: int|
            0 <= k < values@.len() ==> #[trigger] final(buf)@.subrange(
                k * U16_OCTETS,
                k * U16_OCTETS + U16_OCTETS,
            ) == num_bytes(endianness, (values@[k] as u16) as nat, 2)) && (forall|j: int|
            values@.len() * U16_OCTETS <= j < old(buf)@.len() ==> #[trigger] final(buf)@[j] == old(buf)@[j])),
        values@.len() * U16_OCTETS > old(buf)@.len() ==> (r matches Err(e) && e.variant
            == BinaryErrorVariant::U16 && e.message@ == "Buf too short"@ && final(buf)@ == old(buf)@),
{
    let m = values.len();
    if m > buf.len() / U16_OCTETS {
        return Err(BinaryError::new("Buf too short", BinaryErrorVariant::U16));
    }
    let mut i: usize = 0;
    while i < m
        invariant
            m == values@.len(),
            m * U16_OCTETS <= buf@.len(),
            buf@.len() == old(buf)@.len(),
            buf@.len() <= usize::MAX,
            i <= m,
            forall|k: int|
                0 <= k < i ==> #[trigger] buf@.subrange(k * U16_OCTETS, k * U16_OCTETS + U16_OCTETS)
                    == num_bytes(endianness, (values@[k] as u16) as nat, 2),
            forall|j: int|
                i * U16_OCTETS <= j < buf@.len() ==> #[trigger] buf@[j] == old(buf)@[j],
        decreases m - i,
    {
        proof {
            assert(i * U16_OCTETS + U16_OCTETS <= m * U16_OCTETS) by (nonlinear_arith)
                requires
                    i < m,
            ;
        }
        let off = i * U16_OCTETS;
        let x = values[i];
        let ghost prev = buf@;
        match endianness {
            Endianness::Big => write_be_at((x as u16) as u128, buf, off, U16_OCTETS),
            Endianness::Little => write_le_at((x as u16) as u128, buf, off, U16_OCTETS),
        }
        proof {
            assert forall|k: int| 0 <= k < i implies #[trigger] buf@.subrange(
                k * U16_OCTETS,
                k * U16_OCTETS + U16_OCTETS,
            ) == num_bytes(endianness, (values@[k] as u16) as nat, 2) by {
                assert(buf@.subrange(k * U16_OCTETS, k * U16_OCTETS + U16_OCTETS) =~= prev.subrange(
                    k * U16_OCTETS,
                    k * U16_OCTETS + U16_OCTETS,
                )) by {
                    assert forall|j: int|
                        k * U16_OCTETS <= j < k * U16_OCTETS + U16_OCTETS implies buf@[j] == prev[j] by {
                        assert(j < i * U16_OCTETS) by (nonlinear_arith)
                            requires
                                0 <= k < i,
                                k * U16_OCTETS <= j < k * U16_OCTETS + U16_OCTETS,
                        ;
                    }
                };
                assert(prev.subrange(k * U16_OCTETS, k * U16_OCTETS + U16_OCTETS) == num_bytes(
                    endianness,
                    (values@[k] as u16) as nat,
                    2,
                ));
            }
        }
        i = i + 1;
    }
    proof {
        assert(m * U16_OCTETS <= usize::MAX);
    }
    Ok(m * U16_OCTETS)
}

/// Writes every element of `values` as a `i16` into `buf`, front to back;
/// the caller must supply room for the whole run.
pub fn write_iter_i16(values: Vec<i16>, buf: &mut [u8], endianness: Endianness) -> (n: usize)
    requires
        values@.len() * U16_OCTETS <= old(buf)@.len(),
    ensures
        n == values@.len() * U16_OCTETS,
        final(buf)@.len() == old(buf)@.len(),
        forall|k: int|
            0 <= k < values@.len() ==> #[trigger] final(buf)@.subrange(
                k * U16_OCTETS,
                k * U16_OCTETS + U16_OCTETS,
            ) == num_bytes(endianness, (values@[k] as u16) as nat, 2),
        forall|j: int|
            values@.len() * U16_OCTETS <= j < old(buf)@.len() ==> #[trigger] final(buf)@[j]
                == old(buf)@[j],
{
    match try_write_iter_i16(values, buf, endianness) {
        Ok(n) => n,
        Err(_) => unreached(),
    }
}

/// Writes every element of `values` as a `u32` into `buf`, front to back;
/// fails without touching `buf` when it cannot hold the whole run.
pub fn try_write_iter_u32(values: Vec<u32>, buf: &mut [u8], endianness: Endianness) -> (r:
    BinaryWriteResult)
    ensures
        values@.len() * U32_OCTETS <= old(buf)@.len() ==> (r matches Ok(n) && n == values@.len()
            * U32_OCTETS && final(buf)@.len() == old(buf)@.len() && (forall|k: int|
            0 <= k < values@.len() ==> #[trigger] final(buf)@.subrange(
                k * U32_OCTETS,
                k * U32_OCTETS + U32_OCTETS,
            ) == num_bytes(endianness, values@[k] as nat, 4)) && (forall|j: int|
            values@.len() * U32_OCTETS <= j < old(buf)@.len() ==> #[trigger] final(buf)@[j] == old(buf)@[j])),
        values@.len() * U32_OCTETS > old(buf)@.len() ==> (r matches Err(e) && e.variant
            == BinaryErrorVariant::U32 && e.message@ == "Buf too short"@ && final(buf)@ == old(buf)@),
{
    let m = values.len();
    if m > buf.len() / U32_OCTETS {
        return Err(BinaryError::new("Buf too short", BinaryErrorVariant::U32));
    }
    let mut i: usize = 0;
    while i < m
        invariant
            m == values@.len(),
            m * U32_OCTETS <= buf@.len(),
            buf@.len() == old(buf)@.len(),
            buf@.len() <= usize::MAX,
            i <= m,
            forall|k: int|
                0 <= k < i ==> #[trigger] buf@.subrange(k * U32_OCTETS, k * U32_OCTETS + U32_OCTETS)
                    == num_bytes(endianness, values@[k] as nat, 4),
            forall|j: int|
                i * U32_OCTETS <= j < buf@.len() ==> #[trigger] buf@[j] == old(buf)@[j],
        decreases m - i,
    {
        proof {
            assert(i * U32_OCTETS + U32_OCTETS <= m * U32_OCTETS) by (nonlinear_arith)
                requires
                    i < m,
            ;
        }
        let off = i * U32_OCTETS;
        let x = values[i];
        let ghost prev = buf@;
        match endianness {
            Endianness::Big => write_be_at(x as u128, buf, off, U32_OCTETS),
            Endianness::Little => write_le_at(x as u128, buf, off, U32_OCTETS),
        }
        proof {
            assert forall|k: int| 0 <= k < i implies #[trigger] buf@.subrange(
                k * U32_OCTETS,
                k * U32_OCTETS + U32_OCTETS,
            ) == num_bytes(endianness, values@[k] as nat, 4) by {
                assert(buf@.subrange(k * U32_OCTETS, k * U32_OCTETS + U32_OCTETS) =~= prev.subrange(
                    k * U32_OCTETS,
                    k * U32_OCTETS + U32_OCTETS,
                )) by {
                    assert forall|j: int|
                        k * U32_OCTETS <= j < k * U32_OCTETS + U32_OCTETS implies buf@[j] == prev[j] by {
                        assert(j < i * U32_OCTETS) by (nonlinear_arith)
                            requires
                                0 <= k < i,
                                k * U32_OCTETS <= j < k * U32_OCTETS + U32_OCTETS,
                        ;
                    }
                };
                assert(prev.subrange(k * U32_OCTETS, k * U32_OCTETS + U32_OCTETS) == num_bytes(
                    endianness,
                    values@[k] as nat,
                    4,
                ));
            }
        }
        i = i + 1;
    }
    proof {
        assert(m * U32_OCTETS <= usize::MAX);
    }
    Ok(m * U32_OCTETS)
}

/// Writes every element of `values` as a `u32` into `buf`, front to back;
/// the caller must supply room for the whole run.
pub fn write_iter_u32(values: Vec<u32>, buf: &mut [u8], endianness: Endianness) -> (n: usize)
    requires
        values@.len() * U32_OCTETS <= old(buf)@.len(),
    ensures
        n == values@.len() * U32_OCTETS,
        final(buf)@.len() == old(buf)@.len(),
        forall|k: int|
            0 <= k < values@.len() ==> #[trigger] final(buf)@.subrange(
                k * U32_OCTETS,
                k * U32_OCTETS + U32_OCTETS,
            ) == num_bytes(endianness, values@[k] as nat, 4),
        forall|j: int|
            values@.len() * U32_OCTETS <= j < old(buf)@.len() ==> #[trigger] final(buf)@[j]
                == old(buf)@[j],
{
    match try_write_iter_u32(values, buf, endianness) {
        Ok(n) => n,
        Err(_) => unreached(),
    }
}

/// Writes every element of `values` as a `i32` into `buf`, front to back;
/// fails without touching `buf` when it cannot hold the whole run.
pub fn try_write_iter_i32(values: Vec<i32>, buf: &mut [u8], endianness: Endianness) -> (r:
    BinaryWriteResult)
    ensures
        values@.len() * U32_OCTETS <= old(buf)@.len() ==> (r matches Ok(n) && n == values@.len()
            * U32_OCTETS && final(buf)@.len() == old(buf)@.len() && (forall|k: int|
            0 <= k < values@.len() ==> #[trigger] final(buf)@.subrange(
                k * U32_OCTETS,
                k * U32_OCTETS + U32_OCTETS,
            ) == num_bytes(endianness, (values@[k] as u32) as nat, 4)) && (forall|j: int|
            values@.len() * U32_OCTETS <= j < old(buf)@.len() ==> #[trigger] final(buf)@[j] == old(buf)@[j])),
        values@.len() * U32_OCTETS > old(buf)@.len() ==> (r matches Err(e) && e.variant
            == BinaryErrorVariant::U32 && e.message@ == "Buf too short"@ && final(buf)@ == old(buf)@),
{
    let m = values.len();
    if m > buf.len() / U32_OCTETS {
        return Err(BinaryError::new("Buf too short", BinaryErrorVariant::U32));
    }
    let mut i: usize = 0;
    while i < m
        invariant
            m == values@.len(),
            m * U32_OCTETS <= buf@.len(),
            buf@.len() == old(buf)@.len(),
            buf@.len() <= usize::MAX,
            i <= m,
            forall|k: int|
                0 <= k < i ==> #[trigger] buf@.subrange(k * U32_OCTETS, k * U32_OCTETS + U32_OCTETS)
                    == num_bytes(endianness, (values@[k] as u32) as nat, 4),
            forall|j: int|
                i * U32_OCTETS <= j < buf@.len() ==> #[trigger] buf@[j] == old(buf)@[j],
        decreases m - i,
    {
        proof {
            assert(i * U32_OCTETS + U32_OCTETS <= m * U32_OCTETS) by (nonlinear_arith)
                requires
                    i < m,
            ;
        }
        let off = i * U32_OCTETS;
        let x = values[i];
        let ghost prev = buf@;
        match endianness {
            Endianness::Big => write_be_at((x as u32) as u128, buf, off, U32_OCTETS),
            Endianness::Little => write_le_at((x as u32) as u128, buf, off, U32_OCTETS),
        }
        proof {
            assert forall|k: int| 0 <= k < i implies #[trigger] buf@.subrange(
                k * U32_OCTETS,
                k * U32_OCTETS + U32_OCTETS,
            ) == num_bytes(endianness, (values@[k] as u32) as nat, 4) by {
                assert(buf@.subrange(k * U32_OCTETS, k * U32_OCTETS + U32_OCTETS) =~= prev.subrange(
                    k * U32_OCTETS,
                    k * U32_OCTETS + U32_OCTETS,
                )) by {
                    assert forall|j: int|
                        k * U32_OCTETS <= j < k * U32_OCTETS + U32_OCTETS implies buf@[j] == prev[j] by {
                        assert(j < i * U32_OCTETS) by (nonlinear_arith)
                            requires
                                0 <= k < i,
                                k * U32_OCTETS <= j < k * U32_OCTETS + U32_OCTETS,
                        ;
                    }
                };
                assert(prev.subrange(k * U32_OCTETS, k * U32_OCTETS + U32_OCTETS) == num_bytes(
                    endianness,
                    (values@[k] as u32) as nat,
                    4,
                ));
            }
        }
        i = i + 1;
    }
    proof {
        assert(m * U32_OCTETS <= usize::MAX);
    }
    Ok(m * U32_OCTETS)
}

/// Writes every element of `values` as a `i32` into `buf`, front to back;
/// the caller must supply room for the whole run.
pub fn write_iter_i32(values: Vec<i32>, buf: &mut [u8], endianness: Endianness) -> (n: usize)
    requires
        values@.len() * U32_OCTETS <= old(buf)@.len(),
    ensures
        n == values@.len() * U32_OCTETS,
        final(buf)@.len() == old(buf)@.len(),
        forall|k: int|
            0 <= k < values@.len() ==> #[trigger] final(buf)@.subrange(
                k * U32_OCTETS,
                k * U32_OCTETS + U32_OCTETS,
            ) == num_bytes(endianness, (values@[k] as u32) as nat, 4),
        forall|j: int|
            values@.len() * U32_OCTETS <= j < old(buf)@.len() ==> #[trigger] final(buf)@[j]
                == old(buf)@[j],
{
    match try_write_iter_i32(values, buf, endianness) {
        Ok(n) => n,
        Err(_) => unreached(),
    }
}

/// Writes every element of `values` as a `u64` into `buf`, front to back;
/// fails without touching `buf` when it cannot hold the whole run.
pub fn try_write_iter_u64(values: Vec<u64>, buf: &mut [u8], endianness: Endianness) -> (r:
    BinaryWriteResult)
    ensures
        values@.len() * U64_OCTETS <= old(buf)@.len() ==> (r matches Ok(n) && n == values@.len()
            * U64_OCTETS && final(buf)@.len() == old(buf)@.len() && (forall|k: int|
            0 <= k < values@.len() ==> #[trigger] final(buf)@.subrange(
                k * U64_OCTETS,
                k * U64_OCTETS + U64_OCTETS,
            ) == num_bytes(endianness, values@[k] as nat, 8)) && (forall|j: int|
            values@.len() * U64_OCTETS <= j < old(buf)@.len() ==> #[trigger] final(buf)@[j] == old(buf)@[j])),
        values@.len() * U64_OCTETS > old(buf)@.len() ==> (r matches Err(e) && e.variant
            == BinaryErrorVariant::U64 && e.message@ == "Buf too short"@ && final(buf)@ == old(buf)@),
{
    let m = values.len();
    if m > buf.len() / U64_OCTETS {
        return Err(BinaryError::new("Buf too short", BinaryErrorVariant::U64));
    }
    let mut i: usize = 0;
    while i < m
        invariant
            m == values@.len(),
            m * U64_OCTETS <= buf@.len(),
            buf@.len() == old(buf)@.len(),
            buf@.len() <= usize::MAX,
            i <= m,
            forall|k: int|
                0 <= k < i ==> #[trigger] buf@.subrange(k * U64_OCTETS, k * U64_OCTETS + U64_OCTETS)
                    == num_bytes(endianness, values@[k] as nat, 8),
            forall|j: int|
                i * U64_OCTETS <= j < buf@.len() ==> #[trigger] buf@[j] == old(buf)@[j],
        decreases m - i,
    {
        proof {
            assert(i * U64_OCTETS + U64_OCTETS <= m * U64_OCTETS) by (nonlinear_arith)
                requires
                    i < m,
            ;
        }
        let off = i * U64_OCTETS;
        let x = values[i];
        let ghost prev = buf@;
        match endianness {
            Endianness::Big => write_be_at(x as u128, buf, off, U64_OCTETS),
            Endianness::Little => write_le_at(x as u128, buf, off, U64_OCTETS),
        }
        proof {
            assert forall|k: int| 0 <= k < i implies #[trigger] buf@.subrange(
                k * U64_OCTETS,
                k * U64_OCTETS + U64_OCTETS,
            ) == num_bytes(endianness, values@[k] as nat, 8) by {
                assert(buf@.subrange(k * U64_OCTETS, k * U64_OCTETS + U64_OCTETS) =~= prev.subrange(
                    k * U64_OCTETS,
                    k * U64_OCTETS + U64_OCTETS,
                )) by {
                    assert forall|j: int|
                        k * U64_OCTETS <= j < k * U64_OCTETS + U64_OCTETS implies buf@[j] == prev[j] by {
                        assert(j < i * U64_OCTETS) by (nonlinear_arith)
                            requires
                                0 <= k < i,
                                k * U64_OCTETS <= j < k * U64_OCTETS + U64_OCTETS,
                        ;
                    }
                };
                assert(prev.subrange(k * U64_OCTETS, k * U64_OCTETS + U64_OCTETS) == num_bytes(
                    endianness,
                    values@[k] as nat,
                    8,
                ));
            }
        }
        i = i + 1;
    }
    proof {
        assert(m * U64_OCTETS <= usize::MAX);
    }
    Ok(m * U64_OCTETS)
}

/// Writes every element of `values` as a `u64` into `buf`, front to back;
/// the caller must supply room for the whole run.
pub fn write_iter_u64(values: Vec<u64>, buf: &mut [u8], endianness: Endianness) -> (n: usize)
    requires
        values@.len() * U64_OCTETS <= old(buf)@.len(),
    ensures
        n == values@.len() * U64_OCTETS,
        final(buf)@.len() == old(buf)@.len(),
        forall|k: int|
            0 <= k < values@.len() ==> #[trigger] final(buf)@.subrange(
                k * U64_OCTETS,
                k * U64_OCTETS + U64_OCTETS,
            ) == num_bytes(endianness, values@[k] as nat, 8),
        forall|j: int|
            values@.len() * U64_OCTETS <= j < old(buf)@.len() ==> #[trigger] final(buf)@[j]
                == old(buf)@[j],
{
    match try_write_iter_u64(values, buf, endianness) {
        Ok(n) => n,
        Err(_) => unreached(),
    }
}

/// Writes every element of `values` as a `i64` into `buf`, front to back;
/// fails without touching `buf` when it cannot hold the whole run.
pub fn try_write_iter_i64(values: Vec<i64>, buf: &mut [u8], endianness: Endianness) -> (r:
    BinaryWriteResult)
    ensures
        values@.len() * U64_OCTETS <= old(buf)@.len() ==> (r matches Ok(n) && n == values@.len()
            * U64_OCTETS && final(buf)@.len() == old(buf)@.len() && (forall|k: int|
            0 <= k < values@.len() ==> #[trigger] final(buf)@.subrange(
                k * U64_OCTETS,
                k * U64_OCTETS + U64_OCTETS,
            ) == num_bytes(endianness, (values@[k] as u64) as nat, 8)) && (forall|j: int|
            values@.len() * U64_OCTETS <= j < old(buf)@.len() ==> #[trigger] final(buf)@[j] == old(buf)@[j])),
        values@.len() * U64_OCTETS > old(buf)@.len() ==> (r matches Err(e) && e.variant
            == BinaryErrorVariant::U64 && e.message@ == "Buf too short"@ && final(buf)@ == old(buf)@),
{
    let m = values.len();
    if m > buf.len() / U64_OCTETS {
        return Err(BinaryError::new("Buf too short", BinaryErrorVariant::U64));
    }
    let mut i: usize = 0;
    while i < m
        invariant
            m == values@.len(),
            m * U64_OCTETS <= buf@.len(),
            buf@.len() == old(buf)@.len(),
            buf@.len() <= usize::MAX,
            i <= m,
            forall|k: int|
                0 <= k < i ==> #[trigger] buf@.subrange(k * U64_OCTETS, k * U64_OCTETS + U64_OCTETS)
                    == num_bytes(endianness, (values@[k] as u64) as nat, 8),
            forall|j: int|
                i * U64_OCTETS <= j < buf@.len() ==> #[trigger] buf@[j] == old(buf)@[j],
        decreases m - i,
    {
        proof {
            assert(i * U64_OCTETS + U64_OCTETS <= m * U64_OCTETS) by (nonlinear_arith)
                requires
                    i < m,
            ;
        }
        let off = i * U64_OCTETS;
        let x = values[i];
        let ghost prev = buf@;
        match endianness {
            Endianness::Big => write_be_at((x as u64) as u128, buf, off, U64_OCTETS),
            Endianness::Little => write_le_at((x as u64) as u128, buf, off, U64_OCTETS),
        }
        proof {
            assert forall|k: int| 0 <= k < i implies #[trigger] buf@.subrange(
                k * U64_OCTETS,
                k * U64_OCTETS + U64_OCTETS,
            ) == num_bytes(endianness, (values@[k] as u64) as nat, 8) by {
                assert(buf@.subrange(k * U64_OCTETS, k * U64_OCTETS + U64_OCTETS) =~= prev.subrange(
                    k * U64_OCTETS,
                    k * U64_OCTETS + U64_OCTETS,
                )) by {
                    assert forall|j: int|
                        k * U64_OCTETS <= j < k * U64_OCTETS + U64_OCTETS implies buf@[j] == prev[j] by {
                        assert(j < i * U64_OCTETS) by (nonlinear_arith)
                            requires
                                0 <= k < i,
                                k * U64_OCTETS <= j < k * U64_OCTETS + U64_OCTETS,
                        ;
                    }
                };
                assert(prev.subrange(k * U64_OCTETS, k * U64_OCTETS + U64_OCTETS) == num_bytes(
                    endianness,
                    (values@[k] as u64) as nat,
                    8,
                ));
            }
        }
        i = i + 1;
    }
    proof {
        assert(m * U64_OCTETS <= usize::MAX);
    }
    Ok(m * U64_OCTETS)
}

/// Writes every element of `values` as a `i64` into `buf`, front to back;
/// the caller must supply room for the whole run.
pub fn write_iter_i64(values: Vec<i64>, buf: &mut [u8], endianness: Endianness) -> (n: usize)
    requires
        values@.len() * U64_OCTETS <= old(buf)@.len(),
    ensures
        n == values@.len() * U64_OCTETS,
        final(buf)@.len() == old(buf)@.len(),
        forall|k: int|
            0 <= k < values@.len() ==> #[trigger] final(buf)@.subrange(
                k * U64_OCTETS,
                k * U64_OCTETS + U64_OCTETS,
            ) == num_bytes(endianness, (values@[k] as u64) as nat, 8),
        forall|j: int|
            values@.len() * U64_OCTETS <= j < old(buf)@.len() ==> #[trigger] final(buf)@[j]
                == old(buf)@[j],
{
    match try_write_iter_i64(values, buf, endianness) {
        Ok(n) => n,
        Err(_) => unreached(),
    }
}

} // verus!
