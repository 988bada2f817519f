//! Big-endian integer fields inside byte buffers.
//!
//! Every multi-byte field of the wire format is an unsigned integer stored
//! most significant byte first. This module gives the mathematical meaning of
//! such a field (`be_value`, `be_bytes`), proves that writing then reading a
//! field gives the value back, and offers the executable readers and writers
//! used by the packet code.
use vstd::prelude::*;

verus! {

/// `256` raised to the power `n`.
pub open spec fn pow256(n: nat) -> nat
    decreases n,
{
    if n == 0 {
        1
    } else {
        256 * pow256((n - 1) as nat)
    }
}

/// The unsigned integer that a byte sequence encodes, most significant byte first.
pub open spec fn be_value(s: Seq<u8>) -> nat
    decreases s.len(),
{
    if s.len() == 0 {
        0
    } else {
        be_value(s.drop_last()) * 256 + s.last() as nat
    }
}

/// The `n` least significant bytes of `v`, most significant byte first.
pub open spec fn be_bytes(v: nat, n: nat) -> Seq<u8>
    decreases n,
{
    if n == 0 {
        Seq::empty()
    } else {
        be_bytes(v / 256, (n - 1) as nat).push((v % 256) as u8)
    }
}

/// `v` divided `k` times by 256.
pub open spec fn shift_down(v: nat, k: nat) -> nat
    decreases k,
{
    if k == 0 {
        v
    } else {
        shift_down(v / 256, (k - 1) as nat)
    }
}

/// `s` with the bytes from `off` on replaced by `t` (the length of `s` is kept
/// when `t` fits).
pub open spec fn splice(s: Seq<u8>, off: int, t: Seq<u8>) -> Seq<u8> {
    s.subrange(0, off) + t + s.subrange(off + t.len(), s.len() as int)
}

/// A sequence of `n` zero bytes.
pub open spec fn zeros(n: nat) -> Seq<u8> {
    Seq::new(n, |i: int| 0u8)
}

pub proof fn lemma_pow256_values()
    ensures
        pow256(0) == 1,
        pow256(1) == 256,
        pow256(2) == 0x1_0000,
        pow256(4) == 0x1_0000_0000,
        pow256(8) == 0x1_0000_0000_0000_0000,
{
    reveal_with_fuel(pow256, 9);
}

pub proof fn lemma_pow256_monotone(i: nat, j: nat)
    requires
        i <= j,
    ensures
        pow256(i) <= pow256(j),
        0 < pow256(i),
    decreases j,
{
    if j > 0 {
        if i < j {
            lemma_pow256_monotone(i, (j - 1) as nat);
        }
    }
    if i > 0 {
        lemma_pow256_monotone((i - 1) as nat, (i - 1) as nat);
    }
}

pub proof fn lemma_be_bytes_len(v: nat, n: nat)
    ensures
        be_bytes(v, n).len() == n,
    decreases n,
{
    if n > 0 {
        lemma_be_bytes_len(v / 256, (n - 1) as nat);
    }
}

/// A sequence of `n` bytes encodes a value below `256^n`.
pub proof fn lemma_be_value_bound(s: Seq<u8>)
    ensures
        be_value(s) < pow256(s.len()),
    decreases s.len(),
{
    if s.len() > 0 {
        let t = s.drop_last();
        lemma_be_value_bound(t);
        let a = be_value(t);
        let p = pow256(t.len());
        let b = s.last() as nat;
        assert(a * 256 + b < p * 256) by (nonlinear_arith)
            requires
                a < p,
                b < 256,
        ;
    }
}

/// Reading back the bytes written for `v` gives `v`, when `v` fits in `n` bytes.
pub proof fn lemma_be_roundtrip(v: nat, n: nat)
    requires
        v < pow256(n),
    ensures
        be_value(be_bytes(v, n)) == v,
        be_bytes(v, n).len() == n,
    decreases n,
{
    lemma_be_bytes_len(v, n);
    if n > 0 {
        let q = v / 256;
        let p = pow256((n - 1) as nat);
        assert(q < p) by (nonlinear_arith)
            requires
                v < 256 * p,
                q == v / 256,
        ;
        lemma_be_roundtrip(q, (n - 1) as nat);
        let s = be_bytes(v, n);
        assert(s.drop_last() =~= be_bytes(q, (n - 1) as nat));
        assert(q * 256 + v % 256 == v) by (nonlinear_arith)
            requires
                q == v / 256,
        ;
    } else {
        assert(v == 0);
    }
}

pub proof fn lemma_shift_down_step(v: nat, k: nat)
    ensures
        shift_down(v, k + 1) == shift_down(v, k) / 256,
    decreases k,
{
    if k > 0 {
        lemma_shift_down_step(v / 256, (k - 1) as nat);
    } else {
        reveal_with_fuel(shift_down, 2);
    }
}

/// The encoding in `k + 1` bytes puts one more byte in front of the encoding in `k` bytes.
pub proof fn lemma_be_bytes_prepend(v: nat, k: nat)
    ensures
        be_bytes(v, k + 1) == seq![(shift_down(v, k) % 256) as u8] + be_bytes(v, k),
    decreases k,
{
    if k == 0 {
        reveal_with_fuel(be_bytes, 2);
        assert(be_bytes(v, 1) =~= seq![(v % 256) as u8]);
        assert(be_bytes(v, 1) =~= seq![(shift_down(v, 0) % 256) as u8] + be_bytes(v, 0));
    } else {
        lemma_be_bytes_prepend(v / 256, (k - 1) as nat);
        assert(be_bytes(v, k + 1) =~= seq![(shift_down(v, k) % 256) as u8] + be_bytes(v, k));
    }
}

/// Reads the `n`-byte big-endian field that starts at `off`.
pub fn read_be(bytes: &[u8], off: usize, n: usize) -> (v: u64)
    requires
        n <= 8,
        off + n <= bytes@.len(),
    ensures
        v == be_value(bytes@.subrange(off as int, off + n)),
{
    let mut v: u64 = 0;
    let mut i: usize = 0;
    let len = bytes.len();
    assert(bytes@.subrange(off as int, off as int) =~= Seq::<u8>::empty());
    while i < n
        invariant
            i <= n,
            len == bytes@.len(),
            n <= 8,
            off + n <= bytes@.len(),
            v == be_value(bytes@.subrange(off as int, off + i)),
        decreases n - i,
    {
        let b = bytes[off + i];
        proof {
            let cur = bytes@.subrange(off as int, off + i);
            lemma_be_value_bound(cur);
            lemma_pow256_monotone((i + 1) as nat, 8);
            lemma_pow256_values();
            let p = pow256(i as nat);
            assert(v * 256 + b < p * 256) by (nonlinear_arith)
                requires
                    v < p,
                    b < 256,
            ;
            let next = bytes@.subrange(off as int, off + i + 1);
            assert(next.drop_last() =~= cur);
        }
        v = v * 256 + b as u64;
        i = i + 1;
    }
    v
}

/// Writes the `n` least significant bytes of `v`, most significant first, at `off`.
pub fn write_be(buf: &mut Vec<u8>, off: usize, v: u64, n: usize)
    requires
        off + n <= old(buf)@.len(),
    ensures
        final(buf)@ == splice(old(buf)@, off as int, be_bytes(v as nat, n as nat)),
        final(buf)@.len() == old(buf)@.len(),
{
    let ghost start = buf@;
    let len = buf.len();
    let mut x: u64 = v;
    let mut k: usize = 0;
    proof {
        lemma_be_bytes_len(v as nat, 0);
        assert(start =~= splice(start, off + n, be_bytes(v as nat, 0)));
    }
    while k < n
        invariant
            k <= n,
            off + n <= start.len(),
            len == start.len(),
            buf@.len() == start.len(),
            x == shift_down(v as nat, k as nat),
            buf@ == splice(start, off + n - k, be_bytes(v as nat, k as nat)),
        decreases n - k,
    {
        let pos = off + n - 1 - k;
        let byte = (x % 256) as u8;
        proof {
            lemma_be_bytes_prepend(v as nat, k as nat);
            lemma_be_bytes_len(v as nat, k as nat);
            lemma_be_bytes_len(v as nat, (k + 1) as nat);
            lemma_shift_down_step(v as nat, k as nat);
        }
        buf.set(pos, byte);
        proof {
            assert(buf@ =~= splice(start, off + n - (k + 1), be_bytes(v as nat, (k + 1) as nat)));
        }
        x = x / 256;
        k = k + 1;
    }
}

/// Copies `src` into `buf` at `off`.
pub fn write_bytes(buf: &mut Vec<u8>, off: usize, src: &[u8])
    requires
        off + src@.len() <= old(buf)@.len(),
    ensures
        final(buf)@ == splice(old(buf)@, off as int, src@),
        final(buf)@.len() == old(buf)@.len(),
{
    let ghost start = buf@;
    let len = buf.len();
    let mut i: usize = 0;
    assert(start =~= splice(start, off as int, src@.subrange(0, 0)));
    while i < src.len()
        invariant
            i <= src@.len(),
            off + src@.len() <= start.len(),
            len == start.len(),
            buf@.len() == start.len(),
            buf@ == splice(start, off as int, src@.subrange(0, i as int)),
        decreases src@.len() - i,
    {
        buf.set(off + i, src[i]);
        i = i + 1;
        assert(buf@ =~= splice(start, off as int, src@.subrange(0, i as int)));
    }
    assert(src@.subrange(0, src@.len() as int) =~= src@);
}

} // verus!
