//! The write contract: a type that can be encoded into a [`Writer`] under
//! an endianness strategy, with implementations for the fixed-width
//! unsigned integers, ASCII strings, and homogeneous collections.
#![allow(unused_imports)]
use vstd::prelude::*;

use crate::endian;
use crate::error::{BufferError, SupportedEndianness};
use crate::wire::{lemma_num_bytes_len, num_bytes, num_bytes_vec};
use crate::writer::{WriteError, Writer};
use crate::{U128_OCTETS, U16_OCTETS, U32_OCTETS, U64_OCTETS};

verus! {

/// The error a write reports when the requested byte order is not in the
/// type's supported set.
pub open spec fn direction_write_error(order: endian::Endianness) -> WriteError {
    match order {
        endian::Endianness::Big => WriteError::BigEndianNotSupported,
        endian::Endianness::Little => WriteError::LittleEndianNotSupported,
    }
}

/// How the writer's span stack looks after `n` bytes were appended through
/// the writer's own interface: an open span has counted them, a missing
/// span changes nothing.
pub open spec fn span_fold(pre: Seq<usize>, post: Seq<usize>, n: nat) -> bool {
    if pre.len() == 0 {
        post == pre
    } else {
        &&& post.len() == pre.len()
        &&& post.last() == pre.last() + n
        &&& post.drop_last() == pre.drop_last()
    }
}

/// What `T::write` does under byte order `order`: when the value is
/// writable, its encoding is appended and counted by the open span, and
/// the encoded length is returned; when it is not, the write reports why,
/// and what was already in the buffer stays in place.
pub open spec fn write_post<T: Write>(
    v: T,
    pre: Writer,
    post: Writer,
    r: crate::writer::Result,
    order: endian::Endianness,
) -> bool {
    &&& post.wf()
    &&& if v.spec_write_ok(order) {
        &&& r matches Ok(n) && n == v.spec_enc(order).len()
        &&& post.contents() == pre.contents() + v.spec_enc(order)
        &&& span_fold(pre.span_stack(), post.span_stack(), v.spec_enc(order).len())
    } else {
        &&& r == crate::writer::Result::<usize>::Err(v.spec_write_err(order))
        &&& pre.contents().is_prefix_of(post.contents())
    }
}

/// What `T::write_be` / `T::write_le` do: in a supported byte order they
/// behave as [`write_post`] says; in an unsupported one they report it and
/// leave the writer untouched.
pub open spec fn write_dir_post<T: Write>(
    v: T,
    pre: Writer,
    post: Writer,
    r: crate::writer::Result,
    order: endian::Endianness,
) -> bool {
    if T::spec_supported(order) {
        write_post(v, pre, post, r, order)
    } else {
        &&& post.wf()
        &&& r == crate::writer::Result::<usize>::Err(direction_write_error(order))
        &&& post.contents() == pre.contents()
        &&& post.span_stack() == pre.span_stack()
    }
}

/// A type that can be encoded into a [`Writer`]. The spec functions fix
/// the meaning: which byte orders the direction-specific methods accept,
/// when a write succeeds, the byte encoding it appends, and the error it
/// reports otherwise.
pub trait Write: Sized {
    /// Whether `write_be` / `write_le` accept byte order `order`. The
    /// default leaves it unspecified; every implementation in this crate
    /// fixes it.
    open spec fn spec_supported(order: endian::Endianness) -> bool {
        arbitrary()
    }

    /// Whether writing this value under byte order `order` succeeds. The
    /// default leaves it unspecified; every implementation in this crate
    /// fixes it.
    open spec fn spec_write_ok(self, order: endian::Endianness) -> bool {
        arbitrary()
    }

    /// The error reported when the write does not succeed. The default
    /// leaves it unspecified; every implementation in this crate fixes it.
    open spec fn spec_write_err(self, order: endian::Endianness) -> WriteError {
        arbitrary()
    }

    /// The byte encoding of this value under byte order `order`. The
    /// default leaves it unspecified; every implementation in this crate
    /// fixes it.
    open spec fn spec_enc(self, order: endian::Endianness) -> Seq<u8> {
        arbitrary()
    }

    /// Writes the value under the endianness strategy `E` and returns the
    /// number of bytes written: when [`Self::spec_write_ok`] holds, the
    /// encoding [`Self::spec_enc`] is appended, counted by the open span,
    /// and its length returned; otherwise [`Self::spec_write_err`] is
    /// reported and what was already written stays in place.
    fn write<E: crate::ByteOrder>(&self, buf: &mut Writer) -> (r: crate::writer::Result)
        requires
            old(buf).wf(),
        ensures
            final(buf).wf(),
            self.spec_write_ok(E::spec_order()) ==> (r matches Ok(n) && n == self.spec_enc(
                E::spec_order(),
            ).len() && final(buf).contents() == old(buf).contents() + self.spec_enc(
                E::spec_order(),
            ) && span_fold(
                old(buf).span_stack(),
                final(buf).span_stack(),
                self.spec_enc(E::spec_order()).len(),
            )),
            !self.spec_write_ok(E::spec_order()) ==> (r
                == crate::writer::Result::<usize>::Err(self.spec_write_err(E::spec_order()))
                && old(buf).contents().is_prefix_of(final(buf).contents())),
    ;

    /// Writes the value in big endian byte order, as [`Self::write`] does,
    /// unless big endian is outside [`Self::spec_supported`]: then the
    /// write reports it and leaves the writer untouched.
    fn write_be(&self, buf: &mut Writer) -> (r: crate::writer::Result)
        requires
            old(buf).wf(),
        ensures
            final(buf).wf(),
            Self::spec_supported(endian::Endianness::Big) && self.spec_write_ok(
                endian::Endianness::Big,
            ) ==> (r matches Ok(n) && n == self.spec_enc(endian::Endianness::Big).len() && final(buf).contents() == old(buf).contents() + self.spec_enc(endian::Endianness::Big)
                && span_fold(
                old(buf).span_stack(),
                final(buf).span_stack(),
                self.spec_enc(endian::Endianness::Big).len(),
            )),
            Self::spec_supported(endian::Endianness::Big) && !self.spec_write_ok(
                endian::Endianness::Big,
            ) ==> (r == crate::writer::Result::<usize>::Err(
                self.spec_write_err(endian::Endianness::Big),
            ) && old(buf).contents().is_prefix_of(final(buf).contents())),
            !Self::spec_supported(endian::Endianness::Big) ==> (r
                == crate::writer::Result::<usize>::Err(WriteError::BigEndianNotSupported)
                && final(buf).contents() == old(buf).contents() && final(buf).span_stack() == old(buf).span_stack()),
    ;

    /// Writes the value in little endian byte order, as [`Self::write`]
    /// does, unless little endian is outside [`Self::spec_supported`]:
    /// then the write reports it and leaves the writer untouched.
    fn write_le(&self, buf: &mut Writer) -> (r: crate::writer::Result)
        requires
            old(buf).wf(),
        ensures
            final(buf).wf(),
            Self::spec_supported(endian::Endianness::Little) && self.spec_write_ok(
                endian::Endianness::Little,
            ) ==> (r matches Ok(n) && n == self.spec_enc(endian::Endianness::Little).len()
                && final(buf).contents() == old(buf).contents() + self.spec_enc(
                endian::Endianness::Little,
            ) && span_fold(
                old(buf).span_stack(),
                final(buf).span_stack(),
                self.spec_enc(endian::Endianness::Little).len(),
            )),
            Self::spec_supported(endian::Endianness::Little) && !self.spec_write_ok(
                endian::Endianness::Little,
            ) ==> (r == crate::writer::Result::<usize>::Err(
                self.spec_write_err(endian::Endianness::Little),
            ) && old(buf).contents().is_prefix_of(final(buf).contents())),
            !Self::spec_supported(endian::Endianness::Little) ==> (r
                == crate::writer::Result::<usize>::Err(WriteError::LittleEndianNotSupported)
                && final(buf).contents() == old(buf).contents() && final(buf).span_stack() == old(buf).span_stack()),
    ;
}

impl Write for u8 {
    /// Both byte orders are supported.
    open spec fn spec_supported(order: endian::Endianness) -> bool {
        true
    }

    /// Writing a `u8` always succeeds: the writer grows as needed.
    open spec fn spec_write_ok(self, order: endian::Endianness) -> bool {
        true
    }

    /// Unreachable: a `u8` write never fails.
    open spec fn spec_write_err(self, order: endian::Endianness) -> WriteError {
        vstd::pervasive::arbitrary()
    }

    /// The 1-byte encoding of the value in byte order `order`.
    open spec fn spec_enc(self, order: endian::Endianness) -> Seq<u8> {
        num_bytes(order, self as nat, 1)
    }

    fn write<E: crate::ByteOrder>(&self, buf: &mut Writer) -> (r: crate::writer::Result) {
        match E::order() {
            endian::Endianness::Big => self.write_be(buf),
            endian::Endianness::Little => self.write_le(buf),
        }
    }

    fn write_be(&self, buf: &mut Writer) -> (r: crate::writer::Result) {
        proof {
            lemma_num_bytes_len(endian::Endianness::Big, *self as nat, 1);
        }
        let bytes = num_bytes_vec(endian::Endianness::Big, *self as u128, 1);
        let n = buf.write(bytes.as_slice());
        Ok(n)
    }

    fn write_le(&self, buf: &mut Writer) -> (r: crate::writer::Result) {
        proof {
            lemma_num_bytes_len(endian::Endianness::Little, *self as nat, 1);
        }
        let bytes = num_bytes_vec(endian::Endianness::Little, *self as u128, 1);
        let n = buf.write(bytes.as_slice());
        Ok(n)
    }
}

impl Write for u16 {
    /// Both byte orders are supported.
    open spec fn spec_supported(order: endian::Endianness) -> bool {
        true
    }

    /// Writing a `u16` always succeeds: the writer grows as needed.
    open spec fn spec_write_ok(self, order: endian::Endianness) -> bool {
        true
    }

    /// Unreachable: a `u16` write never fails.
    open spec fn spec_write_err(self, order: endian::Endianness) -> WriteError {
        vstd::pervasive::arbitrary()
    }

    /// The 2-byte encoding of the value in byte order `order`.
    open spec fn spec_enc(self, order: endian::Endianness) -> Seq<u8> {
        num_bytes(order, self as nat, 2)
    }

    fn write<E: crate::ByteOrder>(&self, buf: &mut Writer) -> (r: crate::writer::Result) {
        match E::order() {
            endian::Endianness::Big => self.write_be(buf),
            endian::Endianness::Little => self.write_le(buf),
        }
    }

    fn write_be(&self, buf: &mut Writer) -> (r: crate::writer::Result) {
        proof {
            lemma_num_bytes_len(endian::Endianness::Big, *self as nat, 2);
        }
        let bytes = num_bytes_vec(endian::Endianness::Big, *self as u128, U16_OCTETS);
        let n = buf.write(bytes.as_slice());
        Ok(n)
    }

    fn write_le(&self, buf: &mut Writer) -> (r: crate::writer::Result) {
        proof {
            lemma_num_bytes_len(endian::Endianness::Little, *self as nat, 2);
        }
        let bytes = num_bytes_vec(endian::Endianness::Little, *self as u128, U16_OCTETS);
        let n = buf.write(bytes.as_slice());
        Ok(n)
    }
}

impl Write for u32 {
    /// Both byte orders are supported.
    open spec fn spec_supported(order: endian::Endianness) -> bool {
        true
    }

    /// Writing a `u32` always succeeds: the writer grows as needed.
    open spec fn spec_write_ok(self, order: endian::Endianness) -> bool {
        true
    }

    /// Unreachable: a `u32` write never fails.
    open spec fn spec_write_err(self, order: endian::Endianness) -> WriteError {
        vstd::pervasive::arbitrary()
    }

    /// The 4-byte encoding of the value in byte order `order`.
    open spec fn spec_enc(self, order: endian::Endianness) -> Seq<u8> {
        num_bytes(order, self as nat, 4)
    }

    fn write<E: crate::ByteOrder>(&self, buf: &mut Writer) -> (r: crate::writer::Result) {
        match E::order() {
            endian::Endianness::Big => self.write_be(buf),
            endian::Endianness::Little => self.write_le(buf),
        }
    }

    fn write_be(&self, buf: &mut Writer) -> (r: crate::writer::Result) {
        proof {
            lemma_num_bytes_len(endian::Endianness::Big, *self as nat, 4);
        }
        let bytes = num_bytes_vec(endian::Endianness::Big, *self as u128, U32_OCTETS);
        let n = buf.write(bytes.as_slice());
        Ok(n)
    }

    fn write_le(&self, buf: &mut Writer) -> (r: crate::writer::Result) {
        proof {
            lemma_num_bytes_len(endian::Endianness::Little, *self as nat, 4);
        }
        let bytes = num_bytes_vec(endian::Endianness::Little, *self as u128, U32_OCTETS);
        let n = buf.write(bytes.as_slice());
        Ok(n)
    }
}

impl Write for u64 {
    /// Both byte orders are supported.
    open spec fn spec_supported(order: endian::Endianness) -> bool {
        true
    }

    /// Writing a `u64` always succeeds: the writer grows as needed.
    open spec fn spec_write_ok(self, order: endian::Endianness) -> bool {
        true
    }

    /// Unreachable: a `u64` write never fails.
    open spec fn spec_write_err(self, order: endian::Endianness) -> WriteError {
        vstd::pervasive::arbitrary()
    }

    /// The 8-byte encoding of the value in byte order `order`.
    open spec fn spec_enc(self, order: endian::Endianness) -> Seq<u8> {
        num_bytes(order, self as nat, 8)
    }

    fn write<E: crate::ByteOrder>(&self, buf: &mut Writer) -> (r: crate::writer::Result) {
        match E::order() {
            endian::Endianness::Big => self.write_be(buf),
            endian::Endianness::Little => self.write_le(buf),
        }
    }

    fn write_be(&self, buf: &mut Writer) -> (r: crate::writer::Result) {
        proof {
            lemma_num_bytes_len(endian::Endianness::Big, *self as nat, 8);
        }
        let bytes = num_bytes_vec(endian::Endianness::Big, *self as u128, U64_OCTETS);
        let n = buf.write(bytes.as_slice());
        Ok(n)
    }

    fn write_le(&self, buf: &mut Writer) -> (r: crate::writer::Result) {
        proof {
            lemma_num_bytes_len(endian::Endianness::Little, *self as nat, 8);
        }
        let bytes = num_bytes_vec(endian::Endianness::Little, *self as u128, U64_OCTETS);
        let n = buf.write(bytes.as_slice());
        Ok(n)
    }
}

impl Write for u128 {
    /// Both byte orders are supported.
    open spec fn spec_supported(order: endian::Endianness) -> bool {
        true
    }

    /// Writing a `u128` always succeeds: the writer grows as needed.
    open spec fn spec_write_ok(self, order: endian::Endianness) -> bool {
        true
    }

    /// Unreachable: a `u128` write never fails.
    open spec fn spec_write_err(self, order: endian::Endianness) -> WriteError {
        vstd::pervasive::arbitrary()
    }

    /// The 16-byte encoding of the value in byte order `order`.
    open spec fn spec_enc(self, order: endian::Endianness) -> Seq<u8> {
        num_bytes(order, self as nat, 16)
    }

    fn write<E: crate::ByteOrder>(&self, buf: &mut Writer) -> (r: crate::writer::Result) {
        match E::order() {
            endian::Endianness::Big => self.write_be(buf),
            endian::Endianness::Little => self.write_le(buf),
        }
    }

    fn write_be(&self, buf: &mut Writer) -> (r: crate::writer::Result) {
        proof {
            lemma_num_bytes_len(endian::Endianness::Big, *self as nat, 16);
        }
        let bytes = num_bytes_vec(endian::Endianness::Big, *self as u128, U128_OCTETS);
        let n = buf.write(bytes.as_slice());
        Ok(n)
    }

    fn write_le(&self, buf: &mut Writer) -> (r: crate::writer::Result) {
        proof {
            lemma_num_bytes_len(endian::Endianness::Little, *self as nat, 16);
        }
        let bytes = num_bytes_vec(endian::Endianness::Little, *self as u128, U128_OCTETS);
        let n = buf.write(bytes.as_slice());
        Ok(n)
    }
}


/// The bytes an ASCII character sequence encodes to, one byte per
/// character.
pub open spec fn ascii_bytes(s: Seq<char>) -> Seq<u8> {
    Seq::new(s.len(), |i: int| s[i] as u8)
}

impl Write for String {
    /// A character string has no byte order of its own: only the
    /// strategy-driven [`Write::write`] is provided, and both
    /// direction-specific writes report their order as unsupported.
    open spec fn spec_supported(order: endian::Endianness) -> bool {
        false
    }

    /// Writing succeeds exactly for ASCII content.
    open spec fn spec_write_ok(self, order: endian::Endianness) -> bool {
        vstd::utf8::is_ascii_chars(self@)
    }

    open spec fn spec_write_err(self, order: endian::Endianness) -> WriteError {
        WriteError::NonAsciiData
    }

    /// One byte per character, in order; no length prefix is added.
    open spec fn spec_enc(self, order: endian::Endianness) -> Seq<u8> {
        ascii_bytes(self@)
    }

    fn write<E: crate::ByteOrder>(&self, buf: &mut Writer) -> (r: crate::writer::Result) {
        let s = self.as_str();
        if !s.is_ascii() {
            proof {
                assert(old(buf).contents().is_prefix_of(buf.contents())) by {
                    assert(buf.contents().subrange(0, buf.contents().len() as int) =~= buf.contents());
                }
            }
            return Err(WriteError::NonAsciiData);
        }
        let bs = s.as_bytes();
        proof {
            broadcast use vstd::string::is_ascii_spec_bytes;

            assert(vstd::string::is_ascii(s));
            assert(bs@ =~= ascii_bytes(self@));
        }
        let n = buf.write(bs);
        Ok(n)
    }

    fn write_be(&self, buf: &mut Writer) -> (r: crate::writer::Result) {
        Err(WriteError::BigEndianNotSupported)
    }

    fn write_le(&self, buf: &mut Writer) -> (r: crate::writer::Result) {
        Err(WriteError::LittleEndianNotSupported)
    }
}

/// Whether every element of `s` can be written under byte order `order`.
pub open spec fn seq_write_ok<T: Write>(s: Seq<T>, order: endian::Endianness) -> bool
    decreases s.len(),
{
    s.len() == 0 || (s.first().spec_write_ok(order) && seq_write_ok(s.drop_first(), order))
}

/// The concatenated encodings of the elements of `s` under byte order
/// `order`.
pub open spec fn seq_enc<T: Write>(s: Seq<T>, order: endian::Endianness) -> Seq<u8>
    decreases s.len(),
{
    if s.len() == 0 {
        Seq::empty()
    } else {
        s.first().spec_enc(order) + seq_enc(s.drop_first(), order)
    }
}

/// The error of the first element of `s` that cannot be written.
pub open spec fn seq_first_err<T: Write>(s: Seq<T>, order: endian::Endianness) -> WriteError
    decreases s.len(),
{
    if s.len() == 0 {
        vstd::pervasive::arbitrary()
    } else if !s.first().spec_write_ok(order) {
        s.first().spec_write_err(order)
    } else {
        seq_first_err(s.drop_first(), order)
    }
}

proof fn lemma_seq_enc_snoc<T: Write>(s: Seq<T>, x: T, order: endian::Endianness)
    ensures
        seq_enc(s.push(x), order) == seq_enc(s, order) + x.spec_enc(order),
    decreases s.len(),
{
    reveal_with_fuel(seq_enc, 3);
    if s.len() == 0 {
        assert(s.push(x).drop_first() =~= Seq::<T>::empty());
        assert(s.push(x).first() == x);
        assert(x.spec_enc(order) + Seq::empty() =~= x.spec_enc(order));
        assert(Seq::empty() + x.spec_enc(order) =~= x.spec_enc(order));
    } else {
        assert(s.push(x).drop_first() =~= s.drop_first().push(x));
        assert(s.push(x).first() == s.first());
        lemma_seq_enc_snoc(s.drop_first(), x, order);
        assert(s.first().spec_enc(order) + (seq_enc(s.drop_first(), order) + x.spec_enc(order))
            =~= (s.first().spec_enc(order) + seq_enc(s.drop_first(), order)) + x.spec_enc(order));
    }
}

proof fn lemma_seq_ok_snoc<T: Write>(s: Seq<T>, x: T, order: endian::Endianness)
    ensures
        seq_write_ok(s.push(x), order) == (seq_write_ok(s, order) && x.spec_write_ok(order)),
    decreases s.len(),
{
    reveal_with_fuel(seq_write_ok, 3);
    if s.len() == 0 {
        assert(s.push(x).drop_first() =~= Seq::<T>::empty());
        assert(s.push(x).first() == x);
    } else {
        assert(s.push(x).drop_first() =~= s.drop_first().push(x));
        assert(s.push(x).first() == s.first());
        lemma_seq_ok_snoc(s.drop_first(), x, order);
    }
}

proof fn lemma_seq_first_err_at<T: Write>(s: Seq<T>, i: int, order: endian::Endianness)
    requires
        0 <= i < s.len(),
        seq_write_ok(s.take(i), order),
        !s[i].spec_write_ok(order),
    ensures
        seq_first_err(s, order) == s[i].spec_write_err(order),
        !seq_write_ok(s, order),
    decreases i,
{
    reveal_with_fuel(seq_first_err, 3);
    reveal_with_fuel(seq_write_ok, 3);
    if i == 0 {
        assert(s.first() == s[0]);
    } else {
        assert(s.take(i).first() == s.first());
        assert(s.take(i).drop_first() =~= s.drop_first().take(i - 1));
        lemma_seq_first_err_at(s.drop_first(), i - 1, order);
        assert(s.drop_first()[i - 1] == s[i]);
    }
}

impl<T: Write> Write for Vec<T> {
    /// A collection has no byte order of its own: only the strategy-driven
    /// [`Write::write`] is provided, and both direction-specific writes
    /// report their order as unsupported.
    open spec fn spec_supported(order: endian::Endianness) -> bool {
        false
    }

    /// Writing succeeds when every element's write does.
    open spec fn spec_write_ok(self, order: endian::Endianness) -> bool {
        seq_write_ok(self@, order)
    }

    /// The first failing element decides the error.
    open spec fn spec_write_err(self, order: endian::Endianness) -> WriteError {
        seq_first_err(self@, order)
    }

    /// The elements' encodings, concatenated in order.
    open spec fn spec_enc(self, order: endian::Endianness) -> Seq<u8> {
        seq_enc(self@, order)
    }

    /// The whole collection is wrapped in one span, so the number of bytes
    /// it occupied is counted online and returned, without a second pass.
    fn write<E: crate::ByteOrder>(&self, buf: &mut Writer) -> (r: crate::writer::Result) {
        let ghost order = E::spec_order();
        buf.enter();
        let mut i: usize = 0;
        proof {
            assert(self@.take(0) =~= Seq::<T>::empty());
            assert(old(buf).contents() + Seq::<u8>::empty() =~= old(buf).contents());
        }
        while i < self.len()
            invariant
                buf.wf(),
                order == E::spec_order(),
                i <= self@.len(),
                old(buf).wf(),
                buf.contents() == old(buf).contents() + seq_enc(self@.take(i as int), order),
                buf.span_stack().len() == old(buf).span_stack().len() + 1,
                buf.span_stack().drop_last() == old(buf).span_stack(),
                buf.span_stack().last() == seq_enc(self@.take(i as int), order).len(),
                seq_write_ok(self@.take(i as int), order),
            decreases self@.len() - i,
        {
            let ghost cur = *buf;
            let item = &self[i];
            match item.write::<E>(buf) {
                Ok(_) => {
                    proof {
                        lemma_seq_enc_snoc(self@.take(i as int), self@[i as int], order);
                        lemma_seq_ok_snoc(self@.take(i as int), self@[i as int], order);
                        assert(self@.take(i + 1) =~= self@.take(i as int).push(self@[i as int]));
                        assert(old(buf).contents() + (seq_enc(self@.take(i as int), order)
                            + self@[i as int].spec_enc(order)) =~= (old(buf).contents() + seq_enc(
                            self@.take(i as int),
                            order,
                        )) + self@[i as int].spec_enc(order));
                    }
                },
                Err(e) => {
                    proof {
                        lemma_seq_first_err_at(self@, i as int, order);
                        assert(old(buf).contents().is_prefix_of(buf.contents())) by {
                            assert(cur.contents().is_prefix_of(buf.contents()));
                            assert forall|j: int|
                                0 <= j < old(buf).contents().len() implies buf.contents()[j]
                                == old(buf).contents()[j] by {
                                assert(buf.contents()[j] == cur.contents()[j]);
                            }
                            assert(buf.contents().subrange(
                                0,
                                old(buf).contents().len() as int,
                            ) =~= old(buf).contents());
                        }
                    }
                    return Err(e);
                },
            }
            i = i + 1;
        }
        let n = buf.exit();
        proof {
            assert(self@.take(self@.len() as int) =~= self@);
            if old(buf).span_stack().len() == 0 {
                assert(buf.span_stack() =~= old(buf).span_stack());
            }
        }
        Ok(n)
    }

    fn write_be(&self, buf: &mut Writer) -> (r: crate::writer::Result) {
        Err(WriteError::BigEndianNotSupported)
    }

    fn write_le(&self, buf: &mut Writer) -> (r: crate::writer::Result) {
        Err(WriteError::LittleEndianNotSupported)
    }
}


/// The number of bytes a platform word occupies on the wire.
pub open spec fn spec_usize_octets() -> nat {
    (usize::BITS / 8) as nat
}

impl Write for usize {
    /// Both byte orders are supported.
    open spec fn spec_supported(order: endian::Endianness) -> bool {
        true
    }

    /// Writing a `usize` always succeeds: the writer grows as needed.
    open spec fn spec_write_ok(self, order: endian::Endianness) -> bool {
        true
    }

    /// Unreachable: a `usize` write never fails.
    open spec fn spec_write_err(self, order: endian::Endianness) -> WriteError {
        vstd::pervasive::arbitrary()
    }

    /// The platform-word-sized encoding of the value in byte order
    /// `order`.
    open spec fn spec_enc(self, order: endian::Endianness) -> Seq<u8> {
        num_bytes(order, self as nat, spec_usize_octets())
    }

    fn write<E: crate::ByteOrder>(&self, buf: &mut Writer) -> (r: crate::writer::Result) {
        match E::order() {
            endian::Endianness::Big => self.write_be(buf),
            endian::Endianness::Little => self.write_le(buf),
        }
    }

    fn write_be(&self, buf: &mut Writer) -> (r: crate::writer::Result) {
        let octets = (usize::BITS / 8) as usize;
        proof {
            lemma_num_bytes_len(endian::Endianness::Big, *self as nat, spec_usize_octets());
        }
        let bytes = num_bytes_vec(endian::Endianness::Big, *self as u128, octets);
        let n = buf.write(bytes.as_slice());
        Ok(n)
    }

    fn write_le(&self, buf: &mut Writer) -> (r: crate::writer::Result) {
        let octets = (usize::BITS / 8) as usize;
        proof {
            lemma_num_bytes_len(endian::Endianness::Little, *self as nat, spec_usize_octets());
        }
        let bytes = num_bytes_vec(endian::Endianness::Little, *self as u128, octets);
        let n = buf.write(bytes.as_slice());
        Ok(n)
    }
}


/// A writeable type that can state, as a value, which byte orders it
/// supports, and check a requested strategy against that set before
/// writing.
pub trait WriteableVerify: Write {
    /// The set of byte orders the type supports.
    spec fn spec_supported_set() -> SupportedEndianness;

    /// The supported set agrees with the per-order capability of the
    /// write methods, and a write in a supported order always succeeds.
    proof fn lemma_set_consistent(v: Self, o: endian::Endianness)
        requires
            Self::spec_supported_set().spec_supports(o),
        ensures
            Self::spec_supported(o),
            v.spec_write_ok(o),
    ;

    /// The set of byte orders the type supports, as a runtime value.
    fn supported_endianness() -> (r: SupportedEndianness)
        ensures
            r == Self::spec_supported_set(),
    ;

    /// Writes the value under the endianness strategy `E`, first checking
    /// that the strategy's byte order is in the supported set; a strategy
    /// outside it is rejected with nothing written.
    fn write_verify<E: crate::ByteOrder>(&self, buf: &mut Writer) -> (r: core::result::Result<
        usize,
        BufferError,
    >)
        requires
            old(buf).wf(),
        ensures
            final(buf).wf(),
            !Self::spec_supported_set().spec_supports(E::spec_order()) ==> (r
                == core::result::Result::<usize, BufferError>::Err(
                BufferError::UnsupportedEndianness(Self::spec_supported_set()),
            ) && final(buf).contents() == old(buf).contents() && final(buf).span_stack() == old(
                buf,
            ).span_stack()),
            Self::spec_supported_set().spec_supports(E::spec_order()) ==> (r matches Ok(n) && n
                == self.spec_enc(E::spec_order()).len() && final(buf).contents() == old(
                buf,
            ).contents() + self.spec_enc(E::spec_order()) && span_fold(
                old(buf).span_stack(),
                final(buf).span_stack(),
                self.spec_enc(E::spec_order()).len(),
            )),
    {
        let set = Self::supported_endianness();
        if !set.supports(E::order()) {
            return Err(BufferError::UnsupportedEndianness(set));
        }
        proof {
            Self::lemma_set_consistent(*self, E::spec_order());
        }
        match self.write::<E>(buf) {
            Ok(n) => Ok(n),
            Err(_) => {
                proof {
                    assert(false);
                }
                Err(BufferError::InvalidData)
            },
        }
    }
}

impl WriteableVerify for u8 {
    open spec fn spec_supported_set() -> SupportedEndianness {
        SupportedEndianness::Both
    }

    proof fn lemma_set_consistent(v: u8, o: endian::Endianness) {
    }

    fn supported_endianness() -> (r: SupportedEndianness) {
        SupportedEndianness::Both
    }
}

impl WriteableVerify for u16 {
    open spec fn spec_supported_set() -> SupportedEndianness {
        SupportedEndianness::Both
    }

    proof fn lemma_set_consistent(v: u16, o: endian::Endianness) {
    }

    fn supported_endianness() -> (r: SupportedEndianness) {
        SupportedEndianness::Both
    }
}

impl WriteableVerify for u32 {
    open spec fn spec_supported_set() -> SupportedEndianness {
        SupportedEndianness::Both
    }

    proof fn lemma_set_consistent(v: u32, o: endian::Endianness) {
    }

    fn supported_endianness() -> (r: SupportedEndianness) {
        SupportedEndianness::Both
    }
}

impl WriteableVerify for u64 {
    open spec fn spec_supported_set() -> SupportedEndianness {
        SupportedEndianness::Both
    }

    proof fn lemma_set_consistent(v: u64, o: endian::Endianness) {
    }

    fn supported_endianness() -> (r: SupportedEndianness) {
        SupportedEndianness::Both
    }
}

impl WriteableVerify for u128 {
    open spec fn spec_supported_set() -> SupportedEndianness {
        SupportedEndianness::Both
    }

    proof fn lemma_set_consistent(v: u128, o: endian::Endianness) {
    }

    fn supported_endianness() -> (r: SupportedEndianness) {
        SupportedEndianness::Both
    }
}

} // verus!
