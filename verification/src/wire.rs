//! The mathematical model of the wire format: what a byte sequence means as a
//! base-256 numeral in big or little endian order, and which byte sequence a
//! numeric value encodes to. Every read and write contract in this crate is
//! stated over these functions.
#![allow(unused_imports)]
use vstd::prelude::*;
use vstd::arithmetic::div_mod::{
    lemma_div_basics, lemma_div_denominator, lemma_fundamental_div_mod,
    lemma_fundamental_div_mod_converse,
};
use crate::endian::Endianness;

verus! {

/// `256^n`, the number of distinct values an `n`-byte field can hold.
pub open spec fn pow256(n: nat) -> nat
    decreases n,
{
    if n == 0 {
        1
    } else {
        256 * pow256((n - 1) as nat)
    }
}

/// The value of `s` interpreted as a big-endian base-256 numeral
/// (most significant byte first).
pub open spec fn be_val(s: Seq<u8>) -> nat
    decreases s.len(),
{
    if s.len() == 0 {
        0
    } else {
        be_val(s.drop_last()) * 256 + (s.last() as nat)
    }
}

/// The value of `s` interpreted as a little-endian base-256 numeral
/// (least significant byte first).
pub open spec fn le_val(s: Seq<u8>) -> nat
    decreases s.len(),
{
    if s.len() == 0 {
        0
    } else {
        (s.first() as nat) + le_val(s.drop_first()) * 256
    }
}

/// The `n`-byte big-endian encoding of `v` (of `v % 256^n` if `v` is larger).
pub open spec fn be_bytes(v: nat, n: nat) -> Seq<u8>
    decreases n,
{
    if n == 0 {
        Seq::empty()
    } else {
        be_bytes(v / 256, (n - 1) as nat).push((v % 256) as u8)
    }
}

/// The `n`-byte little-endian encoding of `v` (of `v % 256^n` if `v` is larger).
pub open spec fn le_bytes(v: nat, n: nat) -> Seq<u8>
    decreases n,
{
    if n == 0 {
        Seq::empty()
    } else {
        seq![(v % 256) as u8] + le_bytes(v / 256, (n - 1) as nat)
    }
}

pub proof fn lemma_pow256_pos(n: nat)
    ensures
        pow256(n) >= 1,
    decreases n,
{
    if n > 0 {
        lemma_pow256_pos((n - 1) as nat);
    }
}

pub proof fn lemma_be_val_bound(s: Seq<u8>)
    ensures
        be_val(s) < pow256(s.len()),
    decreases s.len(),
{
    if s.len() == 0 {
    } else {
        let d = s.drop_last();
        lemma_be_val_bound(d);
        assert(be_val(d) * 256 + 255 < pow256(s.len())) by {
            assert(be_val(d) <= pow256(d.len()) - 1);
            assert(be_val(d) * 256 <= (pow256(d.len()) - 1) * 256) by (nonlinear_arith)
                requires
                    be_val(d) <= pow256(d.len()) - 1,
            ;
        };
    }
}

pub proof fn lemma_le_val_bound(s: Seq<u8>)
    ensures
        le_val(s) < pow256(s.len()),
    decreases s.len(),
{
    if s.len() == 0 {
    } else {
        let d = s.drop_first();
        lemma_le_val_bound(d);
        assert(255 + le_val(d) * 256 < pow256(s.len())) by {
            assert(le_val(d) <= pow256(d.len()) - 1);
            assert(le_val(d) * 256 <= (pow256(d.len()) - 1) * 256) by (nonlinear_arith)
                requires
                    le_val(d) <= pow256(d.len()) - 1,
            ;
            assert(pow256(s.len()) == 256 * pow256(d.len()));
        };
    }
}

pub proof fn lemma_be_bytes_len(v: nat, n: nat)
    ensures
        be_bytes(v, n).len() == n,
    decreases n,
{
    if n > 0 {
        lemma_be_bytes_len(v / 256, (n - 1) as nat);
    }
}

pub proof fn lemma_le_bytes_len(v: nat, n: nat)
    ensures
        le_bytes(v, n).len() == n,
    decreases n,
{
    if n > 0 {
        lemma_le_bytes_len(v / 256, (n - 1) as nat);
    }
}

/// Decoding inverts encoding: reading back the `n`-byte big-endian encoding
/// of any value below `256^n` yields that value.
pub proof fn lemma_be_val_of_be_bytes(v: nat, n: nat)
    requires
        v < pow256(n),
    ensures
        be_val(be_bytes(v, n)) == v,
    decreases n,
{
    if n == 0 {
    } else {
        let q = v / 256;
        let r = v % 256;
        lemma_fundamental_div_mod(v as int, 256);
        assert(q < pow256((n - 1) as nat)) by (nonlinear_arith)
            requires
                v < 256 * pow256((n - 1) as nat),
                q == v / 256,
        ;
        lemma_be_val_of_be_bytes(q, (n - 1) as nat);
        let s = be_bytes(v, n);
        assert(s.drop_last() =~= be_bytes(q, (n - 1) as nat));
        assert(s.last() == r as u8);
    }
}

/// Decoding inverts encoding, little-endian form.
pub proof fn lemma_le_val_of_le_bytes(v: nat, n: nat)
    requires
        v < pow256(n),
    ensures
        le_val(le_bytes(v, n)) == v,
    decreases n,
{
    if n == 0 {
    } else {
        let q = v / 256;
        let r = v % 256;
        lemma_fundamental_div_mod(v as int, 256);
        assert(q < pow256((n - 1) as nat)) by (nonlinear_arith)
            requires
                v < 256 * pow256((n - 1) as nat),
                q == v / 256,
        ;
        lemma_le_val_of_le_bytes(q, (n - 1) as nat);
        let s = le_bytes(v, n);
        assert(s.first() == r as u8);
        assert(s.drop_first() =~= le_bytes(q, (n - 1) as nat));
    }
}

/// Encoding inverts decoding: the value read from `s` encodes back to `s`
/// exactly, at the same width.
pub proof fn lemma_be_bytes_of_be_val(s: Seq<u8>)
    ensures
        be_bytes(be_val(s), s.len()) == s,
    decreases s.len(),
{
    if s.len() == 0 {
        assert(be_bytes(be_val(s), s.len()) =~= s);
    } else {
        let d = s.drop_last();
        let v = be_val(s);
        lemma_fundamental_div_mod_converse(v as int, 256, be_val(d) as int, s.last() as int);
        lemma_be_bytes_of_be_val(d);
        assert(be_bytes(v, s.len()) =~= s);
    }
}

/// The value of `s` read in byte order `order`.
pub open spec fn num_val(order: Endianness, s: Seq<u8>) -> nat {
    match order {
        Endianness::Big => be_val(s),
        Endianness::Little => le_val(s),
    }
}

/// The `n`-byte encoding of `v` in byte order `order`.
pub open spec fn num_bytes(order: Endianness, v: nat, n: nat) -> Seq<u8> {
    match order {
        Endianness::Big => be_bytes(v, n),
        Endianness::Little => le_bytes(v, n),
    }
}

pub proof fn lemma_num_val_bound(order: Endianness, s: Seq<u8>)
    ensures
        num_val(order, s) < pow256(s.len()),
{
    lemma_be_val_bound(s);
    lemma_le_val_bound(s);
}

pub proof fn lemma_num_bytes_len(order: Endianness, v: nat, n: nat)
    ensures
        num_bytes(order, v, n).len() == n,
{
    lemma_be_bytes_len(v, n);
    lemma_le_bytes_len(v, n);
}

/// Reading back an `n`-byte encoding yields the encoded value, in either
/// byte order.
pub proof fn lemma_num_val_of_num_bytes(order: Endianness, v: nat, n: nat)
    requires
        v < pow256(n),
    ensures
        num_val(order, num_bytes(order, v, n)) == v,
{
    match order {
        Endianness::Big => lemma_be_val_of_be_bytes(v, n),
        Endianness::Little => lemma_le_val_of_le_bytes(v, n),
    }
}

/// Re-encoding the value read from `s` reproduces `s`, in either byte order.
pub proof fn lemma_num_bytes_of_num_val(order: Endianness, s: Seq<u8>)
    ensures
        num_bytes(order, num_val(order, s), s.len()) == s,
{
    match order {
        Endianness::Big => lemma_be_bytes_of_be_val(s),
        Endianness::Little => lemma_le_bytes_of_le_val(s),
    }
}

pub proof fn lemma_be_bytes_index(v: nat, n: nat, k: nat)
    requires
        k < n,
    ensures
        be_bytes(v, n).len() == n,
        be_bytes(v, n)[n - 1 - k] == ((v / pow256(k)) % 256) as u8,
    decreases n,
{
    lemma_be_bytes_len(v, n);
    lemma_be_bytes_len(v / 256, (n - 1) as nat);
    if k == 0 {
        lemma_div_basics(v as int);
        assert(pow256(0) == 1);
        assert(be_bytes(v, n)[n - 1] == (v % 256) as u8);
    } else {
        lemma_be_bytes_index(v / 256, (n - 1) as nat, (k - 1) as nat);
        assert(be_bytes(v, n)[n - 1 - k] == be_bytes(v / 256, (n - 1) as nat)[(n - 1) - 1 - (k
            - 1)]);
        lemma_pow256_pos((k - 1) as nat);
        lemma_div_denominator(v as int, 256, pow256((k - 1) as nat) as int);
        assert(256 * pow256((k - 1) as nat) == pow256(k));
        assert((v / 256) as nat / pow256((k - 1) as nat) == v / pow256(k));
    }
}

pub proof fn lemma_le_bytes_index(v: nat, n: nat, k: nat)
    requires
        k < n,
    ensures
        le_bytes(v, n).len() == n,
        le_bytes(v, n)[k as int] == ((v / pow256(k)) % 256) as u8,
    decreases n,
{
    lemma_le_bytes_len(v, n);
    lemma_le_bytes_len(v / 256, (n - 1) as nat);
    if k == 0 {
        lemma_div_basics(v as int);
        assert(pow256(0) == 1);
        assert(le_bytes(v, n)[0] == (v % 256) as u8);
    } else {
        lemma_le_bytes_index(v / 256, (n - 1) as nat, (k - 1) as nat);
        assert(le_bytes(v, n)[k as int] == le_bytes(v / 256, (n - 1) as nat)[k - 1]);
        lemma_pow256_pos((k - 1) as nat);
        lemma_div_denominator(v as int, 256, pow256((k - 1) as nat) as int);
        assert(256 * pow256((k - 1) as nat) == pow256(k));
        assert((v / 256) as nat / pow256((k - 1) as nat) == v / pow256(k));
    }
}

proof fn lemma_pow256_16()
    ensures
        pow256(16) == 0x100000000000000000000000000000000,
{
    reveal_with_fuel(pow256, 17);
}

pub proof fn lemma_pow256_le(i: nat, j: nat)
    requires
        i <= j,
    ensures
        pow256(i) <= pow256(j),
    decreases j,
{
    if i < j {
        lemma_pow256_le(i, (j - 1) as nat);
        lemma_pow256_pos((j - 1) as nat);
    }
}

/// Reads the `n` bytes of `data` starting at `off` as a big-endian value.
pub(crate) fn read_be_at(data: &[u8], off: usize, n: usize) -> (r: u128)
    requires
        off + n <= data@.len(),
        n <= 16,
    ensures
        r == be_val(data@.subrange(off as int, off + n)),
{
    let dlen: usize = data.len();
    let mut acc: u128 = 0;
    let mut i: usize = 0;
    while i < n
        invariant
            off + n <= data@.len(),
            data@.len() == dlen,
            n <= 16,
            i <= n,
            acc == be_val(data@.subrange(off as int, off + i)),
            acc < pow256(i as nat),
        decreases n - i,
    {
        proof {
            lemma_pow256_le((i + 1) as nat, 16);
            lemma_pow256_16();
            assert(acc * 256 + 255 < pow256((i + 1) as nat)) by {
                assert(acc <= pow256(i as nat) - 1);
                assert(acc * 256 <= (pow256(i as nat) - 1) * 256) by (nonlinear_arith)
                    requires
                        acc <= pow256(i as nat) - 1,
                ;
            };
            assert(data@.subrange(off as int, off + i + 1).drop_last() =~= data@.subrange(
                off as int,
                off + i,
            ));
        }
        let b = data[off + i];
        acc = acc * 256 + (b as u128);
        i = i + 1;
    }
    proof {
        assert(data@.subrange(off as int, off + i) =~= data@.subrange(off as int, off + n));
    }
    acc
}

/// Reads the `n` bytes of `data` starting at `off` as a little-endian value.
pub(crate) fn read_le_at(data: &[u8], off: usize, n: usize) -> (r: u128)
    requires
        off + n <= data@.len(),
        n <= 16,
    ensures
        r == le_val(data@.subrange(off as int, off + n)),
{
    let dlen: usize = data.len();
    let mut acc: u128 = 0;
    let mut k: usize = 0;
    while k < n
        invariant
            off + n <= data@.len(),
            data@.len() == dlen,
            n <= 16,
            k <= n,
            acc == le_val(data@.subrange(off + n - k, off + n)),
            acc < pow256(k as nat),
        decreases n - k,
    {
        proof {
            lemma_pow256_le((k + 1) as nat, 16);
            lemma_pow256_16();
            assert(acc * 256 + 255 < pow256((k + 1) as nat)) by {
                assert(acc <= pow256(k as nat) - 1);
                assert(acc * 256 <= (pow256(k as nat) - 1) * 256) by (nonlinear_arith)
                    requires
                        acc <= pow256(k as nat) - 1,
                ;
            };
            assert(data@.subrange(off + n - (k + 1), off + n).drop_first() =~= data@.subrange(
                off + n - k,
                off + n,
            ));
        }
        let b = data[off + n - 1 - k];
        acc = acc * 256 + (b as u128);
        k = k + 1;
    }
    proof {
        assert(data@.subrange(off + n - k, off + n) =~= data@.subrange(off as int, off + n));
    }
    acc
}

/// Writes the `n`-byte big-endian encoding of `value` into `data` at `off`,
/// leaving every other byte unchanged.
pub(crate) fn write_be_at(value: u128, data: &mut [u8], off: usize, n: usize)
    requires
        off + n <= old(data)@.len(),
        n <= 16,
    ensures
        final(data)@.len() == old(data)@.len(),
        final(data)@.subrange(off as int, off + n) == be_bytes(value as nat, n as nat),
        forall|i: int|
            0 <= i < old(data)@.len() && !(off <= i < off + n) ==> final(data)@[i] == old(data)@[i],
{
    let dlen: usize = data.len();
    proof {
        lemma_be_bytes_len(value as nat, n as nat);
        lemma_div_basics(value as int);
        assert(pow256(0) == 1);
    }
    let mut v: u128 = value;
    let mut k: usize = 0;
    while k < n
        invariant
            off + n <= data@.len(),
            data@.len() == old(data)@.len(),
            data@.len() == dlen,
            n <= 16,
            k <= n,
            v == (value as nat) / pow256(k as nat),
            be_bytes(value as nat, n as nat).len() == n,
            forall|i: int|
                off + n - k <= i < off + n ==> #[trigger] data@[i] == be_bytes(
                    value as nat,
                    n as nat,
                )[i - off],
            forall|i: int|
                0 <= i < old(data)@.len() && !(off + n - k <= i < off + n) ==> #[trigger] data@[i]
                    == old(data)@[i],
        decreases n - k,
    {
        proof {
            lemma_be_bytes_index(value as nat, n as nat, k as nat);
            lemma_pow256_pos(k as nat);
            lemma_div_denominator(value as int, pow256(k as nat) as int, 256);
            assert(pow256(k as nat) * 256 == pow256((k + 1) as nat));
        }
        let b = (v % 256) as u8;
        data[off + n - 1 - k] = b;
        v = v / 256;
        k = k + 1;
    }
    proof {
        lemma_be_bytes_len(value as nat, n as nat);
        assert(data@.subrange(off as int, off + n) =~= be_bytes(value as nat, n as nat));
    }
}

/// Writes the `n`-byte little-endian encoding of `value` into `data` at
/// `off`, leaving every other byte unchanged.
pub(crate) fn write_le_at(value: u128, data: &mut [u8], off: usize, n: usize)
    requires
        off + n <= old(data)@.len(),
        n <= 16,
    ensures
        final(data)@.len() == old(data)@.len(),
        final(data)@.subrange(off as int, off + n) == le_bytes(value as nat, n as nat),
        forall|i: int|
            0 <= i < old(data)@.len() && !(off <= i < off + n) ==> final(data)@[i] == old(data)@[i],
{
    let dlen: usize = data.len();
    proof {
        lemma_le_bytes_len(value as nat, n as nat);
        lemma_div_basics(value as int);
        assert(pow256(0) == 1);
    }
    let mut v: u128 = value;
    let mut k: usize = 0;
    while k < n
        invariant
            off + n <= data@.len(),
            data@.len() == old(data)@.len(),
            data@.len() == dlen,
            n <= 16,
            k <= n,
            v == (value as nat) / pow256(k as nat),
            le_bytes(value as nat, n as nat).len() == n,
            forall|i: int|
                off <= i < off + k ==> #[trigger] data@[i] == le_bytes(value as nat, n as nat)[i
                    - off],
            forall|i: int|
                0 <= i < old(data)@.len() && !(off <= i < off + k) ==> #[trigger] data@[i] == old(data)@[i],
        decreases n - k,
    {
        proof {
            lemma_le_bytes_index(value as nat, n as nat, k as nat);
            lemma_pow256_pos(k as nat);
            lemma_div_denominator(value as int, pow256(k as nat) as int, 256);
            assert(pow256(k as nat) * 256 == pow256((k + 1) as nat));
        }
        let b = (v % 256) as u8;
        data[off + k] = b;
        v = v / 256;
        k = k + 1;
    }
    proof {
        lemma_le_bytes_len(value as nat, n as nat);
        assert(data@.subrange(off as int, off + n) =~= le_bytes(value as nat, n as nat));
    }
}

/// Builds the `n`-byte encoding of `value` in byte order `order` as an
/// owned vector.
pub(crate) fn num_bytes_vec(order: Endianness, value: u128, n: usize) -> (v: Vec<u8>)
    requires
        n <= 16,
    ensures
        v@ == num_bytes(order, value as nat, n as nat),
{
    let mut v: Vec<u8> = Vec::new();
    match order {
        Endianness::Big => {
            let mut p: u128 = 1;
            let mut j: usize = 0;
            proof {
                lemma_be_bytes_len(value as nat, n as nat);
            }
            while j + 1 < n
                invariant
                    n <= 16,
                    j <= 16,
                    j < n || n == 0,
                    n > 0 ==> j <= n - 1,
                    p == pow256(j as nat),
                decreases n - j,
            {
                proof {
                    lemma_pow256_le((j + 1) as nat, 15);
                    reveal_with_fuel(pow256, 16);
                }
                p = p * 256;
                j = j + 1;
            }
            let mut k: usize = 0;
            while k < n
                invariant
                    n <= 16,
                    k <= n,
                    v@.len() == k,
                    k < n ==> p == pow256((n - 1 - k) as nat),
                    be_bytes(value as nat, n as nat).len() == n,
                    forall|i: int|
                        0 <= i < k ==> #[trigger] v@[i] == be_bytes(value as nat, n as nat)[i],
                decreases n - k,
            {
                proof {
                    lemma_pow256_pos((n - 1 - k) as nat);
                    lemma_be_bytes_index(value as nat, n as nat, (n - 1 - k) as nat);
                }
                let b = ((value / p) % 256) as u8;
                v.push(b);
                if k + 1 < n {
                    proof {
                        assert(pow256((n - 1 - k) as nat) == 256 * pow256((n - 1 - (k + 1)) as nat));
                    }
                    p = p / 256;
                }
                k = k + 1;
            }
            proof {
                assert(v@ =~= be_bytes(value as nat, n as nat));
            }
        },
        Endianness::Little => {
            let mut w: u128 = value;
            let mut k: usize = 0;
            proof {
                lemma_le_bytes_len(value as nat, n as nat);
                lemma_div_basics(value as int);
                assert(pow256(0) == 1);
            }
            while k < n
                invariant
                    n <= 16,
                    k <= n,
                    v@.len() == k,
                    w == (value as nat) / pow256(k as nat),
                    le_bytes(value as nat, n as nat).len() == n,
                    forall|i: int|
                        0 <= i < k ==> #[trigger] v@[i] == le_bytes(value as nat, n as nat)[i],
                decreases n - k,
            {
                proof {
                    lemma_le_bytes_index(value as nat, n as nat, k as nat);
                    lemma_pow256_pos(k as nat);
                    lemma_div_denominator(value as int, pow256(k as nat) as int, 256);
                    assert(pow256(k as nat) * 256 == pow256((k + 1) as nat));
                }
                let b = (w % 256) as u8;
                v.push(b);
                w = w / 256;
                k = k + 1;
            }
            proof {
                assert(v@ =~= le_bytes(value as nat, n as nat));
            }
        },
    }
    proof {
        lemma_num_bytes_len(order, value as nat, n as nat);
    }
    v
}

/// Encoding inverts decoding, little-endian form.
pub proof fn lemma_le_bytes_of_le_val(s: Seq<u8>)
    ensures
        le_bytes(le_val(s), s.len()) == s,
    decreases s.len(),
{
    if s.len() == 0 {
        assert(le_bytes(le_val(s), s.len()) =~= s);
    } else {
        let d = s.drop_first();
        let v = le_val(s);
        lemma_fundamental_div_mod_converse(v as int, 256, le_val(d) as int, s.first() as int);
        lemma_le_bytes_of_le_val(d);
        assert(le_bytes(v, s.len()) =~= s);
    }
}

} // verus!
