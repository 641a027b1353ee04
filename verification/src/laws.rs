//! The laws the codecs obey, proved once and for all: every supported
//! primitive survives a write/read round trip in either byte order, and a
//! length-prefixed character string is read back exactly as written.
#![allow(unused_imports)]
use vstd::prelude::*;

use crate::addr::{Ipv4Address, Ipv6Address};
use crate::endian::Endianness;
use crate::readable::Read;
use crate::wire::{lemma_num_val_of_num_bytes, num_bytes, num_val, pow256};
use crate::writeable::Write;

verus! {

/// Every value below `256^n` survives encoding to `n` bytes and decoding
/// again, in either byte order.
pub proof fn lemma_value_round_trip(order: Endianness, v: nat, n: nat)
    requires
        v < pow256(n),
    ensures
        num_val(order, num_bytes(order, v, n)) == v,
{
    lemma_num_val_of_num_bytes(order, v, n);
}

/// Reading back the bytes a `u8` writes yields the same value, in either
/// byte order.
pub proof fn lemma_u8_round_trip(x: u8, order: Endianness)
    ensures
        <u8 as Read>::spec_decode(order, x.spec_enc(order)) == x,
{
    reveal_with_fuel(pow256, 2);
    lemma_num_val_of_num_bytes(order, x as nat, 1);
}

/// Reading back the bytes a `u16` writes yields the same value, in either
/// byte order.
pub proof fn lemma_u16_round_trip(x: u16, order: Endianness)
    ensures
        <u16 as Read>::spec_decode(order, x.spec_enc(order)) == x,
{
    reveal_with_fuel(pow256, 3);
    lemma_num_val_of_num_bytes(order, x as nat, 2);
}

/// Reading back the bytes a `u32` writes yields the same value, in either
/// byte order.
pub proof fn lemma_u32_round_trip(x: u32, order: Endianness)
    ensures
        <u32 as Read>::spec_decode(order, x.spec_enc(order)) == x,
{
    reveal_with_fuel(pow256, 5);
    lemma_num_val_of_num_bytes(order, x as nat, 4);
}

/// Reading back the bytes a `u64` writes yields the same value, in either
/// byte order.
pub proof fn lemma_u64_round_trip(x: u64, order: Endianness)
    ensures
        <u64 as Read>::spec_decode(order, x.spec_enc(order)) == x,
{
    reveal_with_fuel(pow256, 9);
    lemma_num_val_of_num_bytes(order, x as nat, 8);
}

/// Reading back the bytes a `u128` writes yields the same value, in either
/// byte order.
pub proof fn lemma_u128_round_trip(x: u128, order: Endianness)
    ensures
        <u128 as Read>::spec_decode(order, x.spec_enc(order)) == x,
{
    reveal_with_fuel(pow256, 17);
    lemma_num_val_of_num_bytes(order, x as nat, 16);
}

/// Reading back the bytes an IPv4 address writes yields the same address,
/// in either byte order.
pub proof fn lemma_ipv4_round_trip(x: Ipv4Address, order: Endianness)
    ensures
        <Ipv4Address as Read>::spec_decode(order, x.spec_enc(order)) == x,
{
    reveal_with_fuel(pow256, 5);
    lemma_num_val_of_num_bytes(order, x.bits as nat, 4);
}

/// Reading back the bytes an IPv6 address writes yields the same address,
/// in either byte order.
pub proof fn lemma_ipv6_round_trip(x: Ipv6Address, order: Endianness)
    ensures
        <Ipv6Address as Read>::spec_decode(order, x.spec_enc(order)) == x,
{
    reveal_with_fuel(pow256, 17);
    lemma_num_val_of_num_bytes(order, x.bits as nat, 16);
}

/// A character string written with its one-byte length prefix reads back
/// exactly, whatever follows it in the buffer: the prefix announces
/// `s.len()`, the payload is `s`, and the whole encoding occupies
/// `s.len() + 1` bytes.
pub proof fn lemma_char_string_round_trip(s: Seq<u8>, rest: Seq<u8>)
    requires
        s.len() <= 255,
    ensures
        (seq![s.len() as u8] + s).len() == s.len() + 1,
        (seq![s.len() as u8] + s + rest)[0] == s.len() as u8,
        (seq![s.len() as u8] + s + rest).subrange(
            1,
            1 + ((seq![s.len() as u8] + s + rest)[0] as int),
        ) == s,
{
    let enc = seq![s.len() as u8] + s + rest;
    assert(enc[0] == s.len() as u8);
    assert(enc.subrange(1, 1 + s.len() as int) =~= s);
}

} // verus!
