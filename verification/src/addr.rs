//! IP addresses as wire values: an IPv4 address is four octets carried as a
//! 32-bit value, an IPv6 address sixteen octets carried as a 128-bit value.
//! Reading and writing go through the corresponding integer codec, so the
//! byte order strategy applies to them like to any other fixed-width value.
#![allow(unused_imports)]
use vstd::prelude::*;

use crate::endian;
use crate::readable::{read_uint, Read};
use crate::reader::Reader;
use crate::wire::{
    be_bytes, lemma_be_bytes_of_be_val, lemma_num_bytes_len, lemma_num_val_bound, num_bytes,
    num_bytes_vec, num_val, pow256,
};
use crate::writeable::Write;
use crate::writer::{WriteError, Writer};

verus! {

/// An IPv4 address: four octets, stored as the 32-bit value whose
/// big-endian encoding is the canonical octet sequence.
#[derive(Clone, Copy, Debug, PartialEq, Eq, Structural)]
pub struct Ipv4Address {
    pub bits: u32,
}

impl Ipv4Address {
    /// The address's four octets in canonical (network) order.
    pub open spec fn spec_octets(self) -> Seq<u8> {
        be_bytes(self.bits as nat, 4)
    }

    /// Builds the address `a.b.c.d`.
    pub fn new(a: u8, b: u8, c: u8, d: u8) -> (r: Ipv4Address)
        ensures
            r.spec_octets() == seq![a, b, c, d],
            r.bits == (a as int) * 0x1000000 + (b as int) * 0x10000 + (c as int) * 0x100 + (
            d as int),
    {
        let bits: u32 = (a as u32) * 0x1000000 + (b as u32) * 0x10000 + (c as u32) * 0x100 + (
        d as u32);
        proof {
            reveal_with_fuel(crate::wire::be_val, 6);
            let s = seq![a, b, c, d];
            assert(s.drop_last() =~= seq![a, b, c]);
            assert(seq![a, b, c].drop_last() =~= seq![a, b]);
            assert(seq![a, b].drop_last() =~= seq![a]);
            assert(seq![a].drop_last() =~= Seq::<u8>::empty());
            assert(crate::wire::be_val(s) == bits);
            lemma_be_bytes_of_be_val(s);
        }
        Ipv4Address { bits }
    }

    /// The address's four octets in canonical (network) order.
    pub fn octets(&self) -> (r: [u8; 4])
        ensures
            r@ == self.spec_octets(),
    {
        let b0 = (self.bits / 0x1000000) as u8;
        let b1 = ((self.bits / 0x10000) % 0x100) as u8;
        let b2 = ((self.bits / 0x100) % 0x100) as u8;
        let b3 = (self.bits % 0x100) as u8;
        let r = [b0, b1, b2, b3];
        proof {
            lemma_octet_split(self.bits as nat);
            assert(r@ =~= self.spec_octets());
        }
        r
    }

    /// Builds the address whose canonical octets are the big-endian
    /// encoding of `bits`.
    pub fn from_bits(bits: u32) -> (r: Ipv4Address)
        ensures
            r.bits == bits,
    {
        Ipv4Address { bits }
    }
}

proof fn lemma_octet_split(v: nat)
    requires
        v < 0x100000000,
    ensures
        be_bytes(v, 4) =~= seq![
            (v / 0x1000000 % 0x100) as u8,
            (v / 0x10000 % 0x100) as u8,
            (v / 0x100 % 0x100) as u8,
            (v % 0x100) as u8,
        ],
        v / 0x1000000 % 0x100 == v / 0x1000000,
{
    reveal_with_fuel(crate::wire::be_bytes, 5);
    assert(v / 256 / 256 == v / 0x10000) by (nonlinear_arith);
    assert(v / 256 / 256 / 256 == v / 0x1000000) by (nonlinear_arith);
    assert(v / 0x1000000 < 0x100) by (nonlinear_arith)
        requires
            v < 0x100000000,
    ;
}

impl Read for Ipv4Address {
    /// An IPv4 address occupies four bytes on the wire.
    open spec fn spec_size() -> nat {
        4
    }

    /// Both byte orders are supported.
    open spec fn spec_supported(order: endian::Endianness) -> bool {
        true
    }

    /// The four bytes read as a 32-bit value in byte order `order`; big
    /// endian yields the canonical octet order.
    open spec fn spec_decode(order: endian::Endianness, bytes: Seq<u8>) -> Ipv4Address {
        Ipv4Address { bits: num_val(order, bytes) as u32 }
    }

    proof fn lemma_size_pos() {
    }

    fn size() -> (r: usize) {
        4
    }

    fn read<E: crate::ByteOrder>(buf: &mut Reader) -> (r: crate::reader::Result<Ipv4Address>) {
        match E::order() {
            endian::Endianness::Big => Self::read_be(buf),
            endian::Endianness::Little => Self::read_le(buf),
        }
    }

    fn read_be(buf: &mut Reader) -> (r: crate::reader::Result<Ipv4Address>) {
        let ghost pre = *buf;
        match read_uint(buf, 4, endian::Endianness::Big) {
            Ok(v) => {
                proof {
                    lemma_addr_fits(endian::Endianness::Big, pre, 4);
                }
                Ok(Ipv4Address { bits: v as u32 })
            },
            Err(e) => Err(e),
        }
    }

    fn read_le(buf: &mut Reader) -> (r: crate::reader::Result<Ipv4Address>) {
        let ghost pre = *buf;
        match read_uint(buf, 4, endian::Endianness::Little) {
            Ok(v) => {
                proof {
                    lemma_addr_fits(endian::Endianness::Little, pre, 4);
                }
                Ok(Ipv4Address { bits: v as u32 })
            },
            Err(e) => Err(e),
        }
    }
}

/// The value decoded from `n` of the reader's bytes fits in `n` bytes.
proof fn lemma_addr_fits(order: endian::Endianness, rd: Reader, n: nat)
    requires
        n <= rd.remaining().len(),
        n <= 16,
    ensures
        num_val(order, rd.remaining().take(n as int)) < pow256(n),
        pow256(4) == 0x100000000,
        pow256(16) > u128::MAX,
{
    lemma_num_val_bound(order, rd.remaining().take(n as int));
    reveal_with_fuel(pow256, 17);
    crate::wire::lemma_pow256_le(n, 16);
}

impl Write for Ipv4Address {
    /// Both byte orders are supported.
    open spec fn spec_supported(order: endian::Endianness) -> bool {
        true
    }

    /// Writing an address always succeeds: the writer grows as needed.
    open spec fn spec_write_ok(self, order: endian::Endianness) -> bool {
        true
    }

    /// Unreachable: an address write never fails.
    open spec fn spec_write_err(self, order: endian::Endianness) -> WriteError {
        vstd::pervasive::arbitrary()
    }

    /// The canonical octets in byte order `order`: big endian emits them
    /// as they stand, little endian reverses them.
    open spec fn spec_enc(self, order: endian::Endianness) -> Seq<u8> {
        num_bytes(order, self.bits as nat, 4)
    }

    fn write<E: crate::ByteOrder>(&self, buf: &mut Writer) -> (r: crate::writer::Result) {
        match E::order() {
            endian::Endianness::Big => self.write_be(buf),
            endian::Endianness::Little => self.write_le(buf),
        }
    }

    fn write_be(&self, buf: &mut Writer) -> (r: crate::writer::Result) {
        proof {
            lemma_num_bytes_len(endian::Endianness::Big, self.bits as nat, 4);
        }
        let bytes = num_bytes_vec(endian::Endianness::Big, self.bits as u128, 4);
        let n = buf.write(bytes.as_slice());
        Ok(n)
    }

    fn write_le(&self, buf: &mut Writer) -> (r: crate::writer::Result) {
        proof {
            lemma_num_bytes_len(endian::Endianness::Little, self.bits as nat, 4);
        }
        let bytes = num_bytes_vec(endian::Endianness::Little, self.bits as u128, 4);
        let n = buf.write(bytes.as_slice());
        Ok(n)
    }
}

/// An IPv6 address: sixteen octets, stored as the 128-bit value whose
/// big-endian encoding is the canonical octet sequence.
#[derive(Clone, Copy, Debug, PartialEq, Eq, Structural)]
pub struct Ipv6Address {
    pub bits: u128,
}

impl Ipv6Address {
    /// The address's sixteen octets in canonical (network) order.
    pub open spec fn spec_octets(self) -> Seq<u8> {
        be_bytes(self.bits as nat, 16)
    }

    /// Builds the address from its eight 16-bit segments, most significant
    /// first.
    pub fn new(a: u16, b: u16, c: u16, d: u16, e: u16, f: u16, g: u16, h: u16) -> (r: Ipv6Address)
        ensures
            r.bits == (a as int) * 0x1000000000000000000000000000 * 0x10 + (b as int)
                * 0x1000000000000000000000000 + (c as int) * 0x100000000000000000000 + (d as int)
                * 0x10000000000000000 + (e as int) * 0x1000000000000 + (f as int) * 0x100000000 + (
            g as int) * 0x10000 + (h as int),
    {
        let bits: u128 = (a as u128) * 0x10000000000000000000000000000 + (b as u128)
            * 0x1000000000000000000000000 + (c as u128) * 0x100000000000000000000 + (d as u128)
            * 0x10000000000000000 + (e as u128) * 0x1000000000000 + (f as u128) * 0x100000000 + (
        g as u128) * 0x10000 + (h as u128);
        Ipv6Address { bits }
    }

    /// Builds the address whose canonical octets are the big-endian
    /// encoding of `bits`.
    pub fn from_bits(bits: u128) -> (r: Ipv6Address)
        ensures
            r.bits == bits,
    {
        Ipv6Address { bits }
    }
}

impl Read for Ipv6Address {
    /// An IPv6 address occupies sixteen bytes on the wire.
    open spec fn spec_size() -> nat {
        16
    }

    /// Both byte orders are supported.
    open spec fn spec_supported(order: endian::Endianness) -> bool {
        true
    }

    /// The sixteen bytes read as a 128-bit value in byte order `order`;
    /// big endian yields the canonical octet order.
    open spec fn spec_decode(order: endian::Endianness, bytes: Seq<u8>) -> Ipv6Address {
        Ipv6Address { bits: num_val(order, bytes) as u128 }
    }

    proof fn lemma_size_pos() {
    }

    fn size() -> (r: usize) {
        16
    }

    fn read<E: crate::ByteOrder>(buf: &mut Reader) -> (r: crate::reader::Result<Ipv6Address>) {
        match E::order() {
            endian::Endianness::Big => Self::read_be(buf),
            endian::Endianness::Little => Self::read_le(buf),
        }
    }

    fn read_be(buf: &mut Reader) -> (r: crate::reader::Result<Ipv6Address>) {
        let ghost pre = *buf;
        match read_uint(buf, 16, endian::Endianness::Big) {
            Ok(v) => {
                proof {
                    lemma_addr_fits(endian::Endianness::Big, pre, 16);
                }
                Ok(Ipv6Address { bits: v })
            },
            Err(e) => Err(e),
        }
    }

    fn read_le(buf: &mut Reader) -> (r: crate::reader::Result<Ipv6Address>) {
        let ghost pre = *buf;
        match read_uint(buf, 16, endian::Endianness::Little) {
            Ok(v) => {
                proof {
                    lemma_addr_fits(endian::Endianness::Little, pre, 16);
                }
                Ok(Ipv6Address { bits: v })
            },
            Err(e) => Err(e),
        }
    }
}

impl Write for Ipv6Address {
    /// Both byte orders are supported.
    open spec fn spec_supported(order: endian::Endianness) -> bool {
        true
    }

    /// Writing an address always succeeds: the writer grows as needed.
    open spec fn spec_write_ok(self, order: endian::Endianness) -> bool {
        true
    }

    /// Unreachable: an address write never fails.
    open spec fn spec_write_err(self, order: endian::Endianness) -> WriteError {
        vstd::pervasive::arbitrary()
    }

    /// The canonical octets in byte order `order`: big endian emits them
    /// as they stand, little endian reverses them.
    open spec fn spec_enc(self, order: endian::Endianness) -> Seq<u8> {
        num_bytes(order, self.bits as nat, 16)
    }

    fn write<E: crate::ByteOrder>(&self, buf: &mut Writer) -> (r: crate::writer::Result) {
        match E::order() {
            endian::Endianness::Big => self.write_be(buf),
            endian::Endianness::Little => self.write_le(buf),
        }
    }

    fn write_be(&self, buf: &mut Writer) -> (r: crate::writer::Result) {
        proof {
            lemma_num_bytes_len(endian::Endianness::Big, self.bits as nat, 16);
        }
        let bytes = num_bytes_vec(endian::Endianness::Big, self.bits as u128, 16);
        let n = buf.write(bytes.as_slice());
        Ok(n)
    }

    fn write_le(&self, buf: &mut Writer) -> (r: crate::writer::Result) {
        proof {
            lemma_num_bytes_len(endian::Endianness::Little, self.bits as nat, 16);
        }
        let bytes = num_bytes_vec(endian::Endianness::Little, self.bits as u128, 16);
        let n = buf.write(bytes.as_slice());
        Ok(n)
    }
}

} // verus!
