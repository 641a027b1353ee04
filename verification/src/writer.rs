//! The growable write sink: appends bytes to an owned buffer and keeps a
//! stack of span counters, so that nested length prefixes can be computed
//! online, in one pass, while an aggregate value is being written.
#![allow(unused_imports)]
use vstd::prelude::*;

verus! {

/// Failure kinds a [`Writer`] operation can report.
#[derive(Debug, PartialEq, Eq, Structural)]
pub enum WriteError {
    /// A character string is longer than the one length-prefix byte can
    /// announce.
    LengthLabelOverflow,
    /// A character string exceeded the caller-supplied maximum.
    MaxLengthOverflow,
    /// Non-ASCII string data cannot be written.
    NonAsciiData,
    /// The type does not support writing with little endian byte order.
    LittleEndianNotSupported,
    /// The type does not support writing with big endian byte order.
    BigEndianNotSupported,
}

/// Result of a [`Writer`] operation: the number of bytes written on
/// success.
pub type Result<T = usize, E = WriteError> = core::result::Result<T, E>;

/// The sum of a stack of span counters.
pub open spec fn span_sum(s: Seq<usize>) -> nat
    decreases s.len(),
{
    if s.len() == 0 {
        0
    } else {
        span_sum(s.drop_last()) + (s.last() as nat)
    }
}

/// A growable byte sink. `buf` holds everything written so far; `spans`
/// holds one counter per open span, each counting the bytes written since
/// that span was entered (inner, closed spans already folded in).
#[derive(Debug, Default)]
pub struct Writer {
    spans: Vec<usize>,
    buf: Vec<u8>,
}

impl Writer {
    /// Every byte written so far, in order.
    pub closed spec fn contents(self) -> Seq<u8> {
        self.buf@
    }

    /// The open span counters, outermost first.
    pub closed spec fn span_stack(self) -> Seq<usize> {
        self.spans@
    }

    /// The span counters never account for more than the buffer holds;
    /// every write keeps this, and it is what makes the counter arithmetic
    /// safe.
    pub open spec fn wf(self) -> bool {
        span_sum(self.span_stack()) <= self.contents().len()
    }

    /// Creates an empty writer with no open span.
    pub fn new() -> (r: Writer)
        ensures
            r.wf(),
            r.contents() == Seq::<u8>::empty(),
            r.span_stack() == Seq::<usize>::empty(),
    {
        let r = Writer { spans: Vec::new(), buf: Vec::new() };
        proof {
            assert(r.spans@ =~= Seq::<usize>::empty());
            assert(r.buf@ =~= Seq::<u8>::empty());
        }
        r
    }

    /// Creates a writer pre-seeded with `b`; the seed bytes count as
    /// already written and fall inside no span.
    pub fn new_with(b: &[u8]) -> (r: Writer)
        ensures
            r.wf(),
            r.contents() == b@,
            r.span_stack() == Seq::<usize>::empty(),
    {
        let mut w = Writer::new();
        w.write(b);
        proof {
            assert(w.contents() =~= b@);
        }
        w
    }

    /// Appends one byte; an open span counts it.
    pub fn push(&mut self, b: u8)
        requires
            old(self).wf(),
        ensures
            final(self).wf(),
            final(self).contents() == old(self).contents().push(b),
            old(self).span_stack().len() == 0 ==> final(self).span_stack() == old(self).span_stack(),
            old(self).span_stack().len() > 0 ==> final(self).span_stack().len() == old(self).span_stack().len() && final(self).span_stack().last() == old(self).span_stack().last() + 1 && final(self).span_stack().drop_last() == old(self).span_stack().drop_last(),
    {
        self.buf.push(b);
        let total = self.buf.len();
        let nspans = self.spans.len();
        if nspans > 0 {
            proof {
                lemma_span_sum_last_le(self.spans@);
            }
            let cur = self.spans[nspans - 1];
            self.spans[nspans - 1] = cur + 1;
            proof {
                lemma_span_sum_update_last(old(self).spans@, (cur + 1) as usize);
                assert(self.spans@.drop_last() =~= old(self).spans@.drop_last());
            }
        }
    }

    /// Clears the buffer; open span counters are left as they are, so the
    /// writer is well-formed again only once no span was open.
    pub fn clear(&mut self)
        ensures
            final(self).contents() == Seq::<u8>::empty(),
            final(self).span_stack() == old(self).span_stack(),
    {
        self.buf.clear()
    }

    /// The number of bytes written so far.
    pub fn len(&self) -> (r: usize)
        ensures
            r == self.contents().len(),
    {
        self.buf.len()
    }

    /// Whether nothing has been written.
    pub fn is_empty(&self) -> (r: bool)
        ensures
            r == (self.contents().len() == 0),
    {
        self.buf.is_empty()
    }

    /// Appends a byte sequence and returns its length; an open span counts
    /// every byte of it.
    pub fn write(&mut self, b: &[u8]) -> (n: usize)
        requires
            old(self).wf(),
        ensures
            final(self).wf(),
            n == b@.len(),
            final(self).contents() == old(self).contents() + b@,
            old(self).span_stack().len() == 0 ==> final(self).span_stack() == old(self).span_stack(),
            old(self).span_stack().len() > 0 ==> final(self).span_stack().len() == old(self).span_stack().len() && final(self).span_stack().last() == old(self).span_stack().last() + b@.len() && final(self).span_stack().drop_last() == old(self).span_stack().drop_last(),
    {
        let len = b.len();
        self.buf.extend_from_slice(b);
        proof {
            assert(self.buf@ =~= old(self).buf@ + b@);
        }
        let total = self.buf.len();
        let nspans = self.spans.len();
        if nspans > 0 {
            proof {
                lemma_span_sum_last_le(self.spans@);
            }
            let cur = self.spans[nspans - 1];
            self.spans[nspans - 1] = cur + len;
            proof {
                lemma_span_sum_update_last(old(self).spans@, (cur + len) as usize);
                assert(self.spans@.drop_last() =~= old(self).spans@.drop_last());
            }
        }
        len
    }

    /// Writes a character string: one length-prefix byte announcing
    /// `s.len()`, then `s` itself; returns the total number of bytes
    /// written, `s.len() + 1`. A string longer than 255 bytes, or longer
    /// than `max_len` when one is given, is rejected with nothing written.
    pub fn write_char_string(&mut self, s: &[u8], max_len: Option<u8>) -> (r: Result)
        requires
            old(self).wf(),
        ensures
            final(self).wf(),
            ({
                if s@.len() > 255 {
                    r matches Err(e) && e == WriteError::LengthLabelOverflow && final(self).contents() == old(self).contents() && final(self).span_stack() == old(self).span_stack()
                } else if max_len matches Some(m) && s@.len() > m {
                    r matches Err(e) && e == WriteError::MaxLengthOverflow && final(self).contents() == old(self).contents() && final(self).span_stack() == old(self).span_stack()
                } else {
                    r matches Ok(n) && n == s@.len() + 1 && final(self).contents() == old(self).contents() + seq![s@.len() as u8] + s@ && (old(self).span_stack().len() == 0
                        ==> final(self).span_stack() == old(self).span_stack()) && (old(self).span_stack().len() > 0 ==> final(self).span_stack().len() == old(self).span_stack().len() && final(self).span_stack().last() == old(self).span_stack().last() + s@.len() + 1 && final(self).span_stack().drop_last()
                        == old(self).span_stack().drop_last())
                }
            }),
    {
        let len = s.len();
        if len > 255 {
            return Err(WriteError::LengthLabelOverflow);
        }
        let len_byte = len as u8;
        if let Some(max_len) = max_len {
            if len_byte > max_len {
                return Err(WriteError::MaxLengthOverflow);
            }
        }
        self.push(len_byte);
        let n = self.write(s);
        proof {
            assert(self.contents() =~= old(self).contents() + seq![s@.len() as u8] + s@);
        }
        Ok(n + 1)
    }

    /// Opens a new span: from here on, every byte written is counted,
    /// until the matching [`Self::exit`].
    pub fn enter(&mut self)
        requires
            old(self).wf(),
        ensures
            final(self).wf(),
            final(self).contents() == old(self).contents(),
            final(self).span_stack() == old(self).span_stack().push(0),
    {
        self.spans.push(0);
        proof {
            lemma_span_sum_push(old(self).spans@, 0);
        }
    }

    /// Closes the innermost open span and returns the number of bytes
    /// written inside it; the count is folded into the enclosing span, if
    /// one remains open. With no span open, the writer's total length is
    /// reported instead and nothing changes.
    pub fn exit(&mut self) -> (r: usize)
        requires
            old(self).wf(),
        ensures
            final(self).wf(),
            final(self).contents() == old(self).contents(),
            old(self).span_stack().len() == 0 ==> r == old(self).contents().len() && final(self).span_stack() == old(self).span_stack(),
            old(self).span_stack().len() >= 1 ==> r == old(self).span_stack().last() && final(self).span_stack().len() == old(self).span_stack().len() - 1,
            old(self).span_stack().len() == 1 ==> final(self).span_stack() == Seq::<
                usize,
            >::empty(),
            old(self).span_stack().len() >= 2 ==> final(self).span_stack().last() == old(self).span_stack()[old(self).span_stack().len() - 2] + old(self).span_stack().last()
                && final(self).span_stack().drop_last() == old(self).span_stack().drop_last().drop_last(),
    {
        let total = self.len();
        match self.spans.pop() {
            Some(n) => {
                proof {
                    lemma_span_sum_last_le(old(self).spans@);
                    lemma_span_sum_last_le(old(self).spans@.drop_last());
                }
                let nspans = self.spans.len();
                if nspans > 0 {
                    let cur = self.spans[nspans - 1];
                    proof {
                        assert(span_sum(old(self).spans@) == span_sum(
                            old(self).spans@.drop_last().drop_last(),
                        ) + old(self).spans@.drop_last().last() + old(self).spans@.last());
                    }
                    self.spans[nspans - 1] = cur + n;
                    proof {
                        lemma_span_sum_update_last(old(self).spans@.drop_last(), (cur + n) as usize);
                        assert(self.spans@.drop_last() =~= old(self).spans@.drop_last().drop_last());
                    }
                } else {
                    proof {
                        assert(self.spans@ =~= Seq::<usize>::empty());
                    }
                }
                n
            },
            None => {
                proof {
                    assert(self.spans@ =~= old(self).spans@);
                }
                self.len()
            },
        }
    }

    /// The bytes written so far, borrowed.
    pub fn bytes(&self) -> (r: &[u8])
        ensures
            r@ == self.contents(),
    {
        self.buf.as_slice()
    }

    /// The bytes written so far, as an owned vector.
    pub fn owned_bytes(&self) -> (r: Vec<u8>)
        ensures
            r@ == self.contents(),
    {
        let mut v: Vec<u8> = Vec::new();
        v.extend_from_slice(self.buf.as_slice());
        proof {
            assert(v@ =~= self.buf@);
        }
        v
    }
}


/// Span accounting is associative under nesting: when an inner span closes
/// and its count is folded into the enclosing span, the total number of
/// bytes accounted for by the stack does not change. So the count an outer
/// span finally reports equals the bytes written directly in it plus every
/// inner span's reported count.
pub proof fn lemma_span_fold_preserves_account(s: Seq<usize>, folded: usize)
    requires
        s.len() >= 2,
        folded == s[s.len() - 2] + s.last(),
    ensures
        span_sum(s.drop_last().update(s.len() - 2, folded)) == span_sum(s),
{
    let parent = s.drop_last();
    let u = parent.update(s.len() - 2, folded);
    assert(u.drop_last() =~= parent.drop_last());
    assert(u.last() == folded);
    assert(span_sum(parent) == span_sum(parent.drop_last()) + (parent.last() as nat));
    assert(span_sum(s) == span_sum(parent) + (s.last() as nat));
    assert(span_sum(u) == span_sum(u.drop_last()) + (u.last() as nat));
}

proof fn lemma_span_sum_last_le(s: Seq<usize>)
    ensures
        s.len() > 0 ==> span_sum(s.drop_last()) + s.last() == span_sum(s),
        s.len() > 0 ==> s.last() <= span_sum(s),
        s.len() > 0 ==> span_sum(s.drop_last()) <= span_sum(s),
{
}

proof fn lemma_span_sum_update_last(s: Seq<usize>, v: usize)
    requires
        s.len() > 0,
    ensures
        span_sum(s.update(s.len() - 1, v)) == span_sum(s.drop_last()) + v,
{
    let u = s.update(s.len() - 1, v);
    assert(u.drop_last() =~= s.drop_last());
    assert(u.last() == v);
}

proof fn lemma_span_sum_push(s: Seq<usize>, v: usize)
    ensures
        span_sum(s.push(v)) == span_sum(s) + v,
{
    assert(s.push(v).drop_last() =~= s);
}

} // verus!
