//! The bounds-checked read cursor: a view over an immutable byte slice that
//! pops bytes from the front, supports lookahead, rewindable jumps to
//! already-visited offsets, and length-prefixed character strings.
#![allow(unused_imports)]
use vstd::prelude::*;
use vstd::slice::slice_subrange;

verus! {

/// Failure kinds a [`Reader`] operation can report.
#[derive(Debug, PartialEq)]
pub enum Error {
    /// The buffer is too short to read the requested amount of bytes.
    BufferTooShort,
    /// A jump targeted `index`, which lies beyond the current `offset`.
    InvalidJump { index: usize, offset: usize },
    /// A length-prefixed string exceeded the caller-supplied maximum.
    MaxLengthOverflow,
    /// A caller-supplied failure that maps to none of the other kinds.
    Custom { message: String },
    /// Decoded bytes do not correspond to any valid value of the target type.
    InvalidData,
    /// The type does not support reading with little endian byte order.
    LittleEndianNotSupported,
    /// The type does not support reading with big endian byte order.
    BigEndianNotSupported,
}

/// Result of a [`Reader`] operation.
pub type Result<T, E = Error> = core::result::Result<T, E>;

/// A read cursor over a byte slice. `buf` is the whole backing slice and
/// never changes; `rest` is the unread suffix; `jump_indices` is the stack
/// of offsets saved by [`Reader::jump_to`].
#[derive(Debug)]
pub struct Reader<'a> {
    jump_indices: Vec<usize>,
    buf: &'a [u8],
    rest: &'a [u8],
}

impl<'a> Reader<'a> {
    /// The whole backing byte sequence.
    pub closed spec fn data(self) -> Seq<u8> {
        self.buf@
    }

    /// The stack of offsets saved by pending jumps, oldest first.
    pub closed spec fn jumps(self) -> Seq<usize> {
        self.jump_indices@
    }

    /// How many bytes have been consumed: the position of the next unread
    /// byte within [`Self::data`].
    pub closed spec fn spec_offset(self) -> int {
        self.buf@.len() - self.rest@.len()
    }

    /// The unread suffix of the backing sequence.
    pub open spec fn remaining(self) -> Seq<u8> {
        self.data().skip(self.spec_offset())
    }

    /// The cursor is consistent: the unread part is the suffix of the
    /// backing slice at the current offset, and every saved jump offset
    /// lies within the backing slice.
    pub closed spec fn wf(self) -> bool {
        &&& self.rest@.len() <= self.buf@.len()
        &&& self.rest@ == self.buf@.skip(self.buf@.len() - self.rest@.len())
        &&& forall|i: int|
            0 <= i < self.jump_indices@.len() ==> #[trigger] self.jump_indices@[i]
                <= self.buf@.len()
    }

    /// Facts every well-formed reader satisfies, for use by callers.
    pub proof fn lemma_wf(self)
        requires
            self.wf(),
        ensures
            0 <= self.spec_offset() <= self.data().len(),
            self.remaining().len() == self.data().len() - self.spec_offset(),
            forall|i: int|
                0 <= i < self.jumps().len() ==> #[trigger] self.jumps()[i] <= self.data().len(),
    {
    }

    /// Wraps a byte slice; the whole slice is unread and no jump is pending.
    pub fn new(buf: &'a [u8]) -> (r: Reader<'a>)
        ensures
            r.wf(),
            r.data() == buf@,
            r.spec_offset() == 0,
            r.jumps() == Seq::<usize>::empty(),
    {
        proof {
            assert(buf@.skip(0) =~= buf@);
        }
        Reader { buf, rest: buf, jump_indices: Vec::new() }
    }

    /// Removes and returns the first unread byte; fails on an exhausted
    /// reader, leaving it unchanged.
    pub fn pop(&mut self) -> (r: Result<u8>)
        requires
            old(self).wf(),
        ensures
            final(self).wf(),
            final(self).data() == old(self).data(),
            final(self).jumps() == old(self).jumps(),
            old(self).remaining().len() > 0 ==> (r matches Ok(b) && b == old(self).remaining()[0]
                && final(self).spec_offset() == old(self).spec_offset() + 1),
            old(self).remaining().len() == 0 ==> (r matches Err(e) && e == Error::BufferTooShort
                && final(self).spec_offset() == old(self).spec_offset()),
    {
        if self.rest.len() > 0 {
            let b = self.rest[0];
            let rest = self.rest;
            self.rest = slice_subrange(rest, 1, rest.len());
            proof {
                let n = self.buf@.len();
                assert(self.rest@ =~= self.buf@.skip(n - self.rest@.len()));
            }
            Ok(b)
        } else {
            Err(Error::BufferTooShort)
        }
    }

    /// Removes the first unread byte without returning it; fails on an
    /// exhausted reader, leaving it unchanged.
    pub fn skip(&mut self) -> (r: Result<()>)
        requires
            old(self).wf(),
        ensures
            final(self).wf(),
            final(self).data() == old(self).data(),
            final(self).jumps() == old(self).jumps(),
            old(self).remaining().len() > 0 ==> (r matches Ok(u) && final(self).spec_offset()
                == old(self).spec_offset() + 1),
            old(self).remaining().len() == 0 ==> (r matches Err(e) && e == Error::BufferTooShort
                && final(self).spec_offset() == old(self).spec_offset()),
    {
        match self.pop() {
            Ok(_) => Ok(()),
            Err(e) => Err(e),
        }
    }

    /// Returns the cursor to offset zero; pending jumps are kept as they
    /// are.
    pub fn reset(&mut self)
        requires
            old(self).wf(),
        ensures
            final(self).wf(),
            final(self).data() == old(self).data(),
            final(self).jumps() == old(self).jumps(),
            final(self).spec_offset() == 0,
    {
        self.rest = self.buf;
        proof {
            assert(self.rest@ =~= self.buf@.skip(0));
        }
    }

    /// Removes the first `n` unread bytes without returning them; fails on
    /// a reader holding fewer than `n` bytes, leaving it unchanged.
    pub fn skipn(&mut self, n: usize) -> (r: Result<()>)
        requires
            old(self).wf(),
        ensures
            final(self).wf(),
            final(self).data() == old(self).data(),
            final(self).jumps() == old(self).jumps(),
            n <= old(self).remaining().len() ==> (r matches Ok(u) && final(self).spec_offset()
                == old(self).spec_offset() + n),
            n > old(self).remaining().len() ==> (r matches Err(e) && e == Error::BufferTooShort
                && final(self).spec_offset() == old(self).spec_offset()),
    {
        if n > self.rest.len() {
            return Err(Error::BufferTooShort);
        }
        let rest = self.rest;
        self.rest = slice_subrange(rest, n, rest.len());
        proof {
            let bn = self.buf@.len();
            assert(self.rest@ =~= self.buf@.skip(bn - self.rest@.len()));
        }
        Ok(())
    }

    /// Returns the next unread byte without consuming it, or `None` on an
    /// exhausted reader.
    pub fn peek(&self) -> (r: Option<u8>)
        requires
            self.wf(),
        ensures
            self.remaining().len() > 0 ==> r == Some(self.remaining()[0]),
            self.remaining().len() == 0 ==> r == None::<u8>,
    {
        if self.rest.len() > 0 {
            Some(self.rest[0])
        } else {
            None
        }
    }

    /// Returns the next `N` unread bytes without consuming them, or `None`
    /// when fewer than `N` bytes remain.
    pub fn peekn<const N: usize>(&self) -> (r: Option<[u8; N]>)
        requires
            self.wf(),
        ensures
            N <= self.remaining().len() ==> (r matches Some(a) && a@ == self.remaining().take(
                N as int,
            )),
            N > self.remaining().len() ==> r == None::<[u8; N]>,
    {
        if N > self.rest.len() {
            return None;
        }
        let mut a: [u8; N] = vstd::array::array_fill_for_copy_types(0u8);
        let mut i: usize = 0;
        while i < N
            invariant
                self.wf(),
                N <= self.remaining().len(),
                i <= N,
                a@.len() == N,
                forall|k: int| 0 <= k < i ==> #[trigger] a@[k] == self.remaining()[k],
            decreases N - i,
        {
            let b = self.rest[i];
            a[i] = b;
            i = i + 1;
        }
        proof {
            assert(a@ =~= self.remaining().take(N as int));
        }
        Some(a)
    }

    /// Saves the current offset and repositions the cursor at `index`; a
    /// jump beyond the current offset fails and changes nothing.
    pub fn jump_to(&mut self, index: usize) -> (r: Result<()>)
        requires
            old(self).wf(),
        ensures
            final(self).wf(),
            final(self).data() == old(self).data(),
            index <= old(self).spec_offset() ==> (r matches Ok(u) && final(self).spec_offset()
                == index && final(self).jumps() == old(self).jumps().push(
                old(self).spec_offset() as usize,
            )),
            index > old(self).spec_offset() ==> (r matches Err(e) && e == (Error::InvalidJump {
                index,
                offset: old(self).spec_offset() as usize,
            }) && final(self).spec_offset() == old(self).spec_offset() && final(self).jumps()
                == old(self).jumps()),
    {
        let off = self.offset();
        if index > off {
            return Err(Error::InvalidJump { index, offset: off });
        }
        self.jump_indices.push(off);
        self.rest = slice_subrange(self.buf, index, self.buf.len());
        proof {
            assert(self.rest@ =~= self.buf@.skip(self.buf@.len() - self.rest@.len()));
        }
        Ok(())
    }

    /// Returns the cursor to the offset saved by the oldest pending jump
    /// and clears the whole jump stack; reports whether anything was
    /// pending.
    pub fn jump_reset(&mut self) -> (r: bool)
        requires
            old(self).wf(),
        ensures
            final(self).wf(),
            final(self).data() == old(self).data(),
            final(self).jumps() == Seq::<usize>::empty(),
            r == (old(self).jumps().len() > 0),
            old(self).jumps().len() > 0 ==> final(self).spec_offset() == old(self).jumps()[0],
            old(self).jumps().len() == 0 ==> final(self).spec_offset() == old(self).spec_offset(),
    {
        if self.jump_indices.len() == 0 {
            proof {
                assert(self.jump_indices@ =~= Seq::<usize>::empty());
            }
            return false;
        }
        let index = self.jump_indices[0];
        self.jump_indices.clear();
        self.rest = slice_subrange(self.buf, index, self.buf.len());
        proof {
            assert(self.rest@ =~= self.buf@.skip(self.buf@.len() - self.rest@.len()));
        }
        true
    }

    /// Whether any jump is pending.
    pub fn jumped(&self) -> (r: bool)
        ensures
            r == (self.jumps().len() > 0),
    {
        self.jump_indices.len() > 0
    }

    /// Returns the cursor to the offset saved by the most recent pending
    /// jump and removes it from the stack; with no jump pending, nothing
    /// changes.
    pub fn jump_back(&mut self)
        requires
            old(self).wf(),
        ensures
            final(self).wf(),
            final(self).data() == old(self).data(),
            old(self).jumps().len() > 0 ==> final(self).spec_offset() == old(self).jumps().last()
                && final(self).jumps() == old(self).jumps().drop_last(),
            old(self).jumps().len() == 0 ==> final(self).spec_offset() == old(self).spec_offset()
                && final(self).jumps() == old(self).jumps(),
    {
        match self.jump_indices.pop() {
            Some(index) => {
                self.rest = slice_subrange(self.buf, index, self.buf.len());
                proof {
                    assert(self.rest@ =~= self.buf@.skip(self.buf@.len() - self.rest@.len()));
                }
            },
            None => {
                proof {
                    assert(self.jump_indices@ =~= old(self).jump_indices@);
                }
            },
        }
    }

    /// The number of bytes already consumed.
    pub fn offset(&self) -> (r: usize)
        requires
            self.wf(),
        ensures
            r == self.spec_offset(),
    {
        self.buf.len() - self.rest.len()
    }

    /// The number of unread bytes.
    pub fn len(&self) -> (r: usize)
        requires
            self.wf(),
        ensures
            r == self.remaining().len(),
    {
        self.rest.len()
    }

    /// Whether every byte has been consumed.
    pub fn is_empty(&self) -> (r: bool)
        requires
            self.wf(),
        ensures
            r == (self.remaining().len() == 0),
    {
        self.rest.is_empty()
    }

    /// Reads a character string: one length-prefix byte, then that many
    /// bytes of content. With `max_len` given, a prefix larger than it is
    /// rejected before anything is consumed. An empty reader, or one whose
    /// content is shorter than the prefix announces, reports
    /// `BufferTooShort`; in the latter case the prefix byte has already
    /// been consumed.
    pub fn read_char_string(&mut self, max_len: Option<u8>) -> (r: Result<&'a [u8]>)
        requires
            old(self).wf(),
        ensures
            final(self).wf(),
            final(self).data() == old(self).data(),
            final(self).jumps() == old(self).jumps(),
            ({
                let rem = old(self).remaining();
                if rem.len() == 0 {
                    r matches Err(e) && e == Error::BufferTooShort && final(self).spec_offset()
                        == old(self).spec_offset()
                } else if max_len matches Some(m) && rem[0] > m {
                    r matches Err(e) && e == Error::MaxLengthOverflow && final(self).spec_offset()
                        == old(self).spec_offset()
                } else if rem[0] + 1 > rem.len() {
                    r matches Err(e) && e == Error::BufferTooShort && final(self).spec_offset()
                        == old(self).spec_offset() + 1
                } else {
                    r matches Ok(s) && s@ == rem.subrange(1, 1 + rem[0]) && final(self).spec_offset() == old(self).spec_offset() + 1 + rem[0]
                }
            }),
    {
        let len_byte = match self.peek() {
            Some(b) => b,
            None => {
                return Err(Error::BufferTooShort);
            },
        };
        let len = len_byte as usize;
        if let Some(max_len) = max_len {
            if len_byte > max_len {
                return Err(Error::MaxLengthOverflow);
            }
        }
        let skipped = self.skip();
        proof {
            assert(skipped matches Ok(u));
            assert(old(self).remaining().skip(1) =~= self.remaining());
        }
        let r = self.read_slice(len);
        proof {
            if 1 + len <= old(self).remaining().len() {
                assert(old(self).remaining().subrange(1, 1 + len) =~= old(self).remaining().skip(
                    1,
                ).take(len as int));
            }
        }
        r
    }

    /// Removes the first `nbytes` unread bytes and returns them as a
    /// borrowed sub-slice of the backing slice; fails on a reader holding
    /// fewer bytes, leaving it unchanged.
    pub fn read_slice(&mut self, nbytes: usize) -> (r: Result<&'a [u8]>)
        requires
            old(self).wf(),
        ensures
            final(self).wf(),
            final(self).data() == old(self).data(),
            final(self).jumps() == old(self).jumps(),
            nbytes <= old(self).remaining().len() ==> (r matches Ok(s) && s@ == old(self).remaining().take(nbytes as int) && final(self).spec_offset() == old(self).spec_offset() + nbytes),
            nbytes > old(self).remaining().len() ==> (r matches Err(e) && e
                == Error::BufferTooShort && final(self).spec_offset() == old(self).spec_offset()),
    {
        if nbytes > self.rest.len() {
            return Err(Error::BufferTooShort);
        }
        let rest = self.rest;
        let s = slice_subrange(rest, 0, nbytes);
        self.rest = slice_subrange(rest, nbytes, rest.len());
        proof {
            let bn = self.buf@.len();
            assert(self.rest@ =~= self.buf@.skip(bn - self.rest@.len()));
            assert(s@ =~= old(self).remaining().take(nbytes as int));
        }
        Ok(s)
    }

    /// Removes the first `nbytes` unread bytes and returns them as an owned
    /// vector; fails on a reader holding fewer bytes, leaving it unchanged.
    pub fn read_vec(&mut self, nbytes: usize) -> (r: Result<Vec<u8>>)
        requires
            old(self).wf(),
        ensures
            final(self).wf(),
            final(self).data() == old(self).data(),
            final(self).jumps() == old(self).jumps(),
            nbytes <= old(self).remaining().len() ==> (r matches Ok(v) && v@ == old(self).remaining().take(nbytes as int) && final(self).spec_offset() == old(self).spec_offset() + nbytes),
            nbytes > old(self).remaining().len() ==> (r matches Err(e) && e
                == Error::BufferTooShort && final(self).spec_offset() == old(self).spec_offset()),
    {
        match self.read_slice(nbytes) {
            Ok(s) => Ok(vstd::slice::slice_to_vec(s)),
            Err(e) => Err(e),
        }
    }
}

} // verus!
