//! The read contract: a type that can be decoded from a [`Reader`] under an
//! endianness strategy, and the multi-value variant that fills a fixed-size
//! array by repeating the scalar read.
#![allow(unused_imports)]
use vstd::prelude::*;

use crate::endian;
use crate::error::{BufferError, SupportedEndianness};
use crate::reader::{Error, Reader};
use crate::wire::num_val;
use crate::{U128_OCTETS, U16_OCTETS, U32_OCTETS, U64_OCTETS};

verus! {

/// The error a read reports when the requested byte order is not in the
/// type's supported set.
pub open spec fn direction_read_error(order: endian::Endianness) -> Error {
    match order {
        endian::Endianness::Big => Error::BigEndianNotSupported,
        endian::Endianness::Little => Error::LittleEndianNotSupported,
    }
}

/// What any read of a `T` under byte order `order` does to the reader and
/// returns: an unsupported order is reported without consuming anything; a
/// supported one either decodes the next `T::spec_size()` bytes and
/// consumes them, or reports a short buffer and consumes nothing.
pub open spec fn read_post<'a, T: Read>(
    pre: Reader<'a>,
    post: Reader<'a>,
    r: crate::reader::Result<T>,
    order: endian::Endianness,
) -> bool {
    &&& post.wf()
    &&& post.data() == pre.data()
    &&& post.jumps() == pre.jumps()
    &&& if !T::spec_supported(order) {
        &&& r == crate::reader::Result::<T>::Err(direction_read_error(order))
        &&& post.spec_offset() == pre.spec_offset()
    } else if T::spec_size() <= pre.remaining().len() {
        &&& r == crate::reader::Result::<T>::Ok(
            T::spec_decode(order, pre.remaining().take(T::spec_size() as int)),
        )
        &&& post.spec_offset() == pre.spec_offset() + T::spec_size()
    } else {
        &&& r == crate::reader::Result::<T>::Err(Error::BufferTooShort)
        &&& post.spec_offset() == pre.spec_offset()
    }
}

/// A type that can be decoded from a [`Reader`]. The three spec functions
/// fix the meaning: the fixed byte width, the set of byte orders the type
/// supports, and the value that a run of bytes decodes to.
pub trait Read: Sized {
    /// The number of bytes one value occupies on the wire. The default
    /// leaves it unspecified; every implementation in this crate fixes it.
    open spec fn spec_size() -> nat {
        arbitrary()
    }

    /// Whether the type can be read in byte order `order`. The default
    /// leaves it unspecified; every implementation in this crate fixes it.
    open spec fn spec_supported(order: endian::Endianness) -> bool {
        arbitrary()
    }

    /// The value that `bytes` (of length [`Self::spec_size`]) decodes to
    /// under byte order `order`. The default leaves it unspecified; every
    /// implementation in this crate fixes it.
    open spec fn spec_decode(order: endian::Endianness, bytes: Seq<u8>) -> Self {
        arbitrary()
    }

    /// Every readable type occupies at least one byte.
    proof fn lemma_size_pos()
        ensures
            Self::spec_size() >= 1,
    ;

    /// The number of bytes one value occupies on the wire, as a runtime
    /// value.
    fn size() -> (r: usize)
        ensures
            r == Self::spec_size(),
    ;

    /// Reads one value under the endianness strategy `E`: in a supported
    /// byte order the next [`Self::spec_size`] bytes are consumed and
    /// decoded by [`Self::spec_decode`], a shorter buffer is reported with
    /// nothing consumed; an unsupported order is reported with nothing
    /// consumed.
    fn read<E: crate::ByteOrder>(buf: &mut Reader) -> (r: crate::reader::Result<Self>)
        requires
            old(buf).wf(),
        ensures
            final(buf).wf(),
            final(buf).data() == old(buf).data(),
            final(buf).jumps() == old(buf).jumps(),
            !Self::spec_supported(E::spec_order()) ==> (r
                == crate::reader::Result::<Self>::Err(direction_read_error(E::spec_order()))
                && final(buf).spec_offset() == old(buf).spec_offset()),
            Self::spec_supported(E::spec_order()) && Self::spec_size() <= old(buf).remaining().len() ==> (r == crate::reader::Result::<Self>::Ok(
                Self::spec_decode(
                    E::spec_order(),
                    old(buf).remaining().take(Self::spec_size() as int),
                ),
            ) && final(buf).spec_offset() == old(buf).spec_offset() + Self::spec_size()),
            Self::spec_supported(E::spec_order()) && Self::spec_size() > old(buf).remaining().len() ==> (r == crate::reader::Result::<Self>::Err(
                Error::BufferTooShort,
            ) && final(buf).spec_offset() == old(buf).spec_offset()),
    ;

    /// Reads one value in big endian byte order, as [`Self::read`] does
    /// with the big-endian strategy.
    fn read_be(buf: &mut Reader) -> (r: crate::reader::Result<Self>)
        requires
            old(buf).wf(),
        ensures
            final(buf).wf(),
            final(buf).data() == old(buf).data(),
            final(buf).jumps() == old(buf).jumps(),
            !Self::spec_supported(endian::Endianness::Big) ==> (r
                == crate::reader::Result::<Self>::Err(Error::BigEndianNotSupported) && final(buf).spec_offset() == old(buf).spec_offset()),
            Self::spec_supported(endian::Endianness::Big) && Self::spec_size() <= old(buf).remaining().len() ==> (r == crate::reader::Result::<Self>::Ok(
                Self::spec_decode(
                    endian::Endianness::Big,
                    old(buf).remaining().take(Self::spec_size() as int),
                ),
            ) && final(buf).spec_offset() == old(buf).spec_offset() + Self::spec_size()),
            Self::spec_supported(endian::Endianness::Big) && Self::spec_size() > old(buf).remaining().len() ==> (r == crate::reader::Result::<Self>::Err(
                Error::BufferTooShort,
            ) && final(buf).spec_offset() == old(buf).spec_offset()),
    ;

    /// Reads one value in little endian byte order, as [`Self::read`] does
    /// with the little-endian strategy.
    fn read_le(buf: &mut Reader) -> (r: crate::reader::Result<Self>)
        requires
            old(buf).wf(),
        ensures
            final(buf).wf(),
            final(buf).data() == old(buf).data(),
            final(buf).jumps() == old(buf).jumps(),
            !Self::spec_supported(endian::Endianness::Little) ==> (r
                == crate::reader::Result::<Self>::Err(Error::LittleEndianNotSupported) && final(buf).spec_offset() == old(buf).spec_offset()),
            Self::spec_supported(endian::Endianness::Little) && Self::spec_size() <= old(buf).remaining().len() ==> (r == crate::reader::Result::<Self>::Ok(
                Self::spec_decode(
                    endian::Endianness::Little,
                    old(buf).remaining().take(Self::spec_size() as int),
                ),
            ) && final(buf).spec_offset() == old(buf).spec_offset() + Self::spec_size()),
            Self::spec_supported(endian::Endianness::Little) && Self::spec_size() > old(buf).remaining().len() ==> (r == crate::reader::Result::<Self>::Err(
                Error::BufferTooShort,
            ) && final(buf).spec_offset() == old(buf).spec_offset()),
    ;
}

/// What a multi-value read of `S` values of `T` does: with enough bytes it
/// decodes `S` consecutive runs and consumes them all; on a short buffer it
/// consumes every whole run that fits and reports the shortfall; an
/// unsupported order is reported before anything is consumed.
pub open spec fn read_multi_post<'a, T: Read, const S: usize>(
    pre: Reader<'a>,
    post: Reader<'a>,
    r: crate::reader::Result<[T; S]>,
    order: endian::Endianness,
) -> bool {
    &&& post.wf()
    &&& post.data() == pre.data()
    &&& post.jumps() == pre.jumps()
    &&& if S == 0 {
        &&& r matches Ok(a)
        &&& post.spec_offset() == pre.spec_offset()
    } else if !T::spec_supported(order) {
        &&& r == crate::reader::Result::<[T; S]>::Err(direction_read_error(order))
        &&& post.spec_offset() == pre.spec_offset()
    } else if S * T::spec_size() <= pre.remaining().len() {
        &&& r matches Ok(a) && (forall|k: int|
            0 <= k < S ==> #[trigger] a@[k] == T::spec_decode(
                order,
                pre.remaining().subrange(
                    k * T::spec_size(),
                    k * T::spec_size() + T::spec_size(),
                ),
            ))
        &&& post.spec_offset() == pre.spec_offset() + S * T::spec_size()
    } else {
        &&& r == crate::reader::Result::<[T; S]>::Err(Error::BufferTooShort)
        &&& post.spec_offset() == pre.spec_offset() + (pre.remaining().len() / T::spec_size())
            * T::spec_size()
    }
}

/// A readable type whose values can be read in fixed-size runs: the scalar
/// read is repeated `S` times into an array.
pub trait ReadableMulti: Read + Default + Copy {
    /// Reads `S` values under the endianness strategy `E`.
    fn read_multi<E: crate::Endianness, const S: usize>(buf: &mut Reader) -> (r:
        crate::reader::Result<[Self; S]>)
        requires
            old(buf).wf(),
        ensures
            read_multi_post::<Self, S>(*old(buf), *final(buf), r, E::spec_order()),
    {
        let mut a: [Self; S] = vstd::array::array_fill_for_copy_types(Self::default());
        let ghost pre = *buf;
        let mut i: usize = 0;
        proof {
            Self::lemma_size_pos();
            pre.lemma_wf();
            assert(pre.remaining().skip(0) =~= pre.remaining());
        }
        while i < S
            invariant
                pre == *old(buf),
                buf.wf(),
                pre.wf(),
                buf.data() == pre.data(),
                buf.jumps() == pre.jumps(),
                Self::spec_size() >= 1,
                i <= S,
                a@.len() == S,
                buf.spec_offset() == pre.spec_offset() + i * Self::spec_size(),
                i * Self::spec_size() <= pre.remaining().len(),
                i > 0 ==> Self::spec_supported(E::spec_order()),
                buf.remaining() == pre.remaining().skip(i * Self::spec_size()),
                forall|k: int|
                    0 <= k < i ==> #[trigger] a@[k] == Self::spec_decode(
                        E::spec_order(),
                        pre.remaining().subrange(
                            k * Self::spec_size(),
                            k * Self::spec_size() + Self::spec_size(),
                        ),
                    ),
            decreases S - i,
        {
            let ghost cur = *buf;
            proof {
                pre.lemma_wf();
                cur.lemma_wf();
            }
            match Self::read::<E>(buf) {
                Ok(v) => {
                    a[i] = v;
                    proof {
                        buf.lemma_wf();
                        assert(cur.remaining().take(Self::spec_size() as int) =~= pre.remaining().subrange(
                            i * Self::spec_size(),
                            i * Self::spec_size() + Self::spec_size(),
                        ));
                        assert((i + 1) * Self::spec_size() == i * Self::spec_size()
                            + Self::spec_size()) by (nonlinear_arith);
                        assert(buf.remaining() =~= pre.remaining().skip(
                            (i + 1) * Self::spec_size(),
                        ));
                    }
                },
                Err(e) => {
                    proof {
                        if Self::spec_supported(E::spec_order()) {
                            let sz = Self::spec_size() as int;
                            let rem = pre.remaining().len() as int;
                            assert(cur.remaining().len() == rem - i * sz);
                            assert(rem - i * sz < sz);
                            vstd::arithmetic::div_mod::lemma_fundamental_div_mod_converse(
                                rem,
                                sz,
                                i as int,
                                rem - i * sz,
                            );
                            assert((rem / sz) * sz == i * sz) by (nonlinear_arith)
                                requires
                                    rem / sz == i,
                            ;
                            assert(S * sz > rem) by (nonlinear_arith)
                                requires
                                    i < S,
                                    i * sz <= rem,
                                    rem - i * sz < sz,
                                    sz >= 1,
                            ;
                        }
                    }
                    return Err(e);
                },
            }
            i = i + 1;
        }
        Ok(a)
    }

    /// Reads `S` values in big endian byte order.
    fn read_multi_be<const S: usize>(buf: &mut Reader) -> (r: crate::reader::Result<[Self; S]>)
        requires
            old(buf).wf(),
        ensures
            read_multi_post::<Self, S>(*old(buf), *final(buf), r, endian::Endianness::Big),
    {
        Self::read_multi::<crate::BigEndian, S>(buf)
    }

    /// Reads `S` values in little endian byte order.
    fn read_multi_le<const S: usize>(buf: &mut Reader) -> (r: crate::reader::Result<[Self; S]>)
        requires
            old(buf).wf(),
        ensures
            read_multi_post::<Self, S>(*old(buf), *final(buf), r, endian::Endianness::Little),
    {
        Self::read_multi::<crate::LittleEndian, S>(buf)
    }
}


/// Reads an `n`-byte unsigned value from the front of `buf` in byte order
/// `order`; the shared body of every fixed-width integer codec.
pub(crate) fn read_uint(buf: &mut Reader, n: usize, order: endian::Endianness) -> (r: crate::reader::Result<
    u128,
>)
    requires
        old(buf).wf(),
        1 <= n <= 16,
    ensures
        final(buf).wf(),
        final(buf).data() == old(buf).data(),
        final(buf).jumps() == old(buf).jumps(),
        n <= old(buf).remaining().len() ==> (r matches Ok(v) && v == num_val(
            order,
            old(buf).remaining().take(n as int),
        ) && final(buf).spec_offset() == old(buf).spec_offset() + n),
        n > old(buf).remaining().len() ==> (r == crate::reader::Result::<u128>::Err(
            Error::BufferTooShort,
        ) && final(buf).spec_offset() == old(buf).spec_offset()),
{
    match buf.read_slice(n) {
        Ok(s) => {
            proof {
                assert(s@.subrange(0, n as int) =~= s@);
            }
            let v = match order {
                endian::Endianness::Big => crate::wire::read_be_at(s, 0, n),
                endian::Endianness::Little => crate::wire::read_le_at(s, 0, n),
            };
            Ok(v)
        },
        Err(e) => Err(e),
    }
}

/// The value decoded from `n` of the reader's bytes fits in `n` bytes.
proof fn lemma_read_fits(order: endian::Endianness, rd: Reader, n: nat)
    requires
        n <= rd.remaining().len(),
        n <= 16,
    ensures
        num_val(order, rd.remaining().take(n as int)) < crate::wire::pow256(n),
        crate::wire::pow256(2) == 0x10000,
        crate::wire::pow256(1) == 0x100,
        crate::wire::pow256(4) == 0x100000000,
        crate::wire::pow256(8) == 0x10000000000000000,
        crate::wire::pow256(16) > u128::MAX,
{
    crate::wire::lemma_num_val_bound(order, rd.remaining().take(n as int));
    reveal_with_fuel(crate::wire::pow256, 17);
    crate::wire::lemma_pow256_le(n, 16);
}

impl Read for u8 {
    /// A `u8` occupies 1 bytes on the wire.
    open spec fn spec_size() -> nat {
        1
    }

    /// Both byte orders are supported.
    open spec fn spec_supported(order: endian::Endianness) -> bool {
        true
    }

    /// The value of the 1 bytes as a base-256 numeral in byte order
    /// `order`.
    open spec fn spec_decode(order: endian::Endianness, bytes: Seq<u8>) -> u8 {
        num_val(order, bytes) as u8
    }

    proof fn lemma_size_pos() {
    }

    fn size() -> (r: usize) {
        1
    }

    fn read<E: crate::ByteOrder>(buf: &mut Reader) -> (r: crate::reader::Result<u8>) {
        match E::order() {
            endian::Endianness::Big => Self::read_be(buf),
            endian::Endianness::Little => Self::read_le(buf),
        }
    }

    fn read_be(buf: &mut Reader) -> (r: crate::reader::Result<u8>) {
        let ghost pre = *buf;
        match read_uint(buf, 1, endian::Endianness::Big) {
            Ok(v) => {
                proof {
                    lemma_read_fits(endian::Endianness::Big, pre, 1);
                }
                Ok(v as u8)
            },
            Err(e) => Err(e),
        }
    }

    fn read_le(buf: &mut Reader) -> (r: crate::reader::Result<u8>) {
        let ghost pre = *buf;
        match read_uint(buf, 1, endian::Endianness::Little) {
            Ok(v) => {
                proof {
                    lemma_read_fits(endian::Endianness::Little, pre, 1);
                }
                Ok(v as u8)
            },
            Err(e) => Err(e),
        }
    }
}

impl ReadableMulti for u8 {

}

impl Read for u16 {
    /// A `u16` occupies 2 bytes on the wire.
    open spec fn spec_size() -> nat {
        2
    }

    /// Both byte orders are supported.
    open spec fn spec_supported(order: endian::Endianness) -> bool {
        true
    }

    /// The value of the 2 bytes as a base-256 numeral in byte order
    /// `order`.
    open spec fn spec_decode(order: endian::Endianness, bytes: Seq<u8>) -> u16 {
        num_val(order, bytes) as u16
    }

    proof fn lemma_size_pos() {
    }

    fn size() -> (r: usize) {
        U16_OCTETS
    }

    fn read<E: crate::ByteOrder>(buf: &mut Reader) -> (r: crate::reader::Result<u16>) {
        match E::order() {
            endian::Endianness::Big => Self::read_be(buf),
            endian::Endianness::Little => Self::read_le(buf),
        }
    }

    fn read_be(buf: &mut Reader) -> (r: crate::reader::Result<u16>) {
        let ghost pre = *buf;
        match read_uint(buf, U16_OCTETS, endian::Endianness::Big) {
            Ok(v) => {
                proof {
                    lemma_read_fits(endian::Endianness::Big, pre, 2);
                }
                Ok(v as u16)
            },
            Err(e) => Err(e),
        }
    }

    fn read_le(buf: &mut Reader) -> (r: crate::reader::Result<u16>) {
        let ghost pre = *buf;
        match read_uint(buf, U16_OCTETS, endian::Endianness::Little) {
            Ok(v) => {
                proof {
                    lemma_read_fits(endian::Endianness::Little, pre, 2);
                }
                Ok(v as u16)
            },
            Err(e) => Err(e),
        }
    }
}

impl ReadableMulti for u16 {

}

impl Read for u32 {
    /// A `u32` occupies 4 bytes on the wire.
    open spec fn spec_size() -> nat {
        4
    }

    /// Both byte orders are supported.
    open spec fn spec_supported(order: endian::Endianness) -> bool {
        true
    }

    /// The value of the 4 bytes as a base-256 numeral in byte order
    /// `order`.
    open spec fn spec_decode(order: endian::Endianness, bytes: Seq<u8>) -> u32 {
        num_val(order, bytes) as u32
    }

    proof fn lemma_size_pos() {
    }

    fn size() -> (r: usize) {
        U32_OCTETS
    }

    fn read<E: crate::ByteOrder>(buf: &mut Reader) -> (r: crate::reader::Result<u32>) {
        match E::order() {
            endian::Endianness::Big => Self::read_be(buf),
            endian::Endianness::Little => Self::read_le(buf),
        }
    }

    fn read_be(buf: &mut Reader) -> (r: crate::reader::Result<u32>) {
        let ghost pre = *buf;
        match read_uint(buf, U32_OCTETS, endian::Endianness::Big) {
            Ok(v) => {
                proof {
                    lemma_read_fits(endian::Endianness::Big, pre, 4);
                }
                Ok(v as u32)
            },
            Err(e) => Err(e),
        }
    }

    fn read_le(buf: &mut Reader) -> (r: crate::reader::Result<u32>) {
        let ghost pre = *buf;
        match read_uint(buf, U32_OCTETS, endian::Endianness::Little) {
            Ok(v) => {
                proof {
                    lemma_read_fits(endian::Endianness::Little, pre, 4);
                }
                Ok(v as u32)
            },
            Err(e) => Err(e),
        }
    }
}

impl ReadableMulti for u32 {

}

impl Read for u64 {
    /// A `u64` occupies 8 bytes on the wire.
    open spec fn spec_size() -> nat {
        8
    }

    /// Both byte orders are supported.
    open spec fn spec_supported(order: endian::Endianness) -> bool {
        true
    }

    /// The value of the 8 bytes as a base-256 numeral in byte order
    /// `order`.
    open spec fn spec_decode(order: endian::Endianness, bytes: Seq<u8>) -> u64 {
        num_val(order, bytes) as u64
    }

    proof fn lemma_size_pos() {
    }

    fn size() -> (r: usize) {
        U64_OCTETS
    }

    fn read<E: crate::ByteOrder>(buf: &mut Reader) -> (r: crate::reader::Result<u64>) {
        match E::order() {
            endian::Endianness::Big => Self::read_be(buf),
            endian::Endianness::Little => Self::read_le(buf),
        }
    }

    fn read_be(buf: &mut Reader) -> (r: crate::reader::Result<u64>) {
        let ghost pre = *buf;
        match read_uint(buf, U64_OCTETS, endian::Endianness::Big) {
            Ok(v) => {
                proof {
                    lemma_read_fits(endian::Endianness::Big, pre, 8);
                }
                Ok(v as u64)
            },
            Err(e) => Err(e),
        }
    }

    fn read_le(buf: &mut Reader) -> (r: crate::reader::Result<u64>) {
        let ghost pre = *buf;
        match read_uint(buf, U64_OCTETS, endian::Endianness::Little) {
            Ok(v) => {
                proof {
                    lemma_read_fits(endian::Endianness::Little, pre, 8);
                }
                Ok(v as u64)
            },
            Err(e) => Err(e),
        }
    }
}

impl ReadableMulti for u64 {

}

impl Read for u128 {
    /// A `u128` occupies 16 bytes on the wire.
    open spec fn spec_size() -> nat {
        16
    }

    /// Both byte orders are supported.
    open spec fn spec_supported(order: endian::Endianness) -> bool {
        true
    }

    /// The value of the 16 bytes as a base-256 numeral in byte order
    /// `order`.
    open spec fn spec_decode(order: endian::Endianness, bytes: Seq<u8>) -> u128 {
        num_val(order, bytes) as u128
    }

    proof fn lemma_size_pos() {
    }

    fn size() -> (r: usize) {
        U128_OCTETS
    }

    fn read<E: crate::ByteOrder>(buf: &mut Reader) -> (r: crate::reader::Result<u128>) {
        match E::order() {
            endian::Endianness::Big => Self::read_be(buf),
            endian::Endianness::Little => Self::read_le(buf),
        }
    }

    fn read_be(buf: &mut Reader) -> (r: crate::reader::Result<u128>) {
        let ghost pre = *buf;
        match read_uint(buf, U128_OCTETS, endian::Endianness::Big) {
            Ok(v) => {
                proof {
                    lemma_read_fits(endian::Endianness::Big, pre, 16);
                }
                Ok(v as u128)
            },
            Err(e) => Err(e),
        }
    }

    fn read_le(buf: &mut Reader) -> (r: crate::reader::Result<u128>) {
        let ghost pre = *buf;
        match read_uint(buf, U128_OCTETS, endian::Endianness::Little) {
            Ok(v) => {
                proof {
                    lemma_read_fits(endian::Endianness::Little, pre, 16);
                }
                Ok(v as u128)
            },
            Err(e) => Err(e),
        }
    }
}

impl ReadableMulti for u128 {

}


/// A readable type that can state, as a value, which byte orders it
/// supports, and check a requested strategy against that set before
/// reading.
pub trait ReadableVerify: Read {
    /// The set of byte orders the type supports.
    spec fn spec_supported_set() -> SupportedEndianness;

    /// The supported set agrees with the per-order capability of the read
    /// methods.
    proof fn lemma_set_consistent(o: endian::Endianness)
        requires
            Self::spec_supported_set().spec_supports(o),
        ensures
            Self::spec_supported(o),
    ;

    /// The set of byte orders the type supports, as a runtime value.
    fn supported_endianness() -> (r: SupportedEndianness)
        ensures
            r == Self::spec_supported_set(),
    ;

    /// Reads one value under the endianness strategy `E`, first checking
    /// that the strategy's byte order is in the supported set; a strategy
    /// outside it is rejected before anything is consumed.
    fn read_verify<E: crate::ByteOrder>(buf: &mut Reader) -> (r: core::result::Result<
        Self,
        BufferError,
    >)
        requires
            old(buf).wf(),
        ensures
            final(buf).wf(),
            final(buf).data() == old(buf).data(),
            final(buf).jumps() == old(buf).jumps(),
            !Self::spec_supported_set().spec_supports(E::spec_order()) ==> (r
                == core::result::Result::<Self, BufferError>::Err(
                BufferError::UnsupportedEndianness(Self::spec_supported_set()),
            ) && final(buf).spec_offset() == old(buf).spec_offset()),
            Self::spec_supported_set().spec_supports(E::spec_order()) && Self::spec_size() <= old(
                buf,
            ).remaining().len() ==> (r == core::result::Result::<Self, BufferError>::Ok(
                Self::spec_decode(
                    E::spec_order(),
                    old(buf).remaining().take(Self::spec_size() as int),
                ),
            ) && final(buf).spec_offset() == old(buf).spec_offset() + Self::spec_size()),
            Self::spec_supported_set().spec_supports(E::spec_order()) && Self::spec_size() > old(
                buf,
            ).remaining().len() ==> (r == core::result::Result::<Self, BufferError>::Err(
                BufferError::BufferTooShort,
            ) && final(buf).spec_offset() == old(buf).spec_offset()),
    {
        let set = Self::supported_endianness();
        if !set.supports(E::order()) {
            return Err(BufferError::UnsupportedEndianness(set));
        }
        proof {
            Self::lemma_set_consistent(E::spec_order());
        }
        match Self::read::<E>(buf) {
            Ok(v) => Ok(v),
            Err(_) => Err(BufferError::BufferTooShort),
        }
    }
}

impl ReadableVerify for u8 {
    open spec fn spec_supported_set() -> SupportedEndianness {
        SupportedEndianness::Both
    }

    proof fn lemma_set_consistent(o: endian::Endianness) {
    }

    fn supported_endianness() -> (r: SupportedEndianness) {
        SupportedEndianness::Both
    }
}

impl ReadableVerify for u16 {
    open spec fn spec_supported_set() -> SupportedEndianness {
        SupportedEndianness::Both
    }

    proof fn lemma_set_consistent(o: endian::Endianness) {
    }

    fn supported_endianness() -> (r: SupportedEndianness) {
        SupportedEndianness::Both
    }
}

impl ReadableVerify for u32 {
    open spec fn spec_supported_set() -> SupportedEndianness {
        SupportedEndianness::Both
    }

    proof fn lemma_set_consistent(o: endian::Endianness) {
    }

    fn supported_endianness() -> (r: SupportedEndianness) {
        SupportedEndianness::Both
    }
}

impl ReadableVerify for u64 {
    open spec fn spec_supported_set() -> SupportedEndianness {
        SupportedEndianness::Both
    }

    proof fn lemma_set_consistent(o: endian::Endianness) {
    }

    fn supported_endianness() -> (r: SupportedEndianness) {
        SupportedEndianness::Both
    }
}

impl ReadableVerify for u128 {
    open spec fn spec_supported_set() -> SupportedEndianness {
        SupportedEndianness::Both
    }

    proof fn lemma_set_consistent(o: endian::Endianness) {
    }

    fn supported_endianness() -> (r: SupportedEndianness) {
        SupportedEndianness::Both
    }
}

} // verus!
