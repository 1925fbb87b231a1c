//! The 1-Wire integrity check: the 8-bit Maxim/iButton checksum
//! (polynomial 0x31 in the bit-reversed convention, seed 0), a pure function
//! over byte sequences.  `compute` yields the checksum of a block and
//! `verify` accepts a block with a trailing checksum byte.

use vstd::prelude::*;

verus! {

/// One shift-register step: fold the low bit of `byte` into `crc`.
pub open spec fn crc8_step(crc: u8, byte: u8) -> u8 {
    if (crc ^ byte) & 1 == 1 {
        (crc >> 1) ^ 0x8c
    } else {
        crc >> 1
    }
}

/// Fold one byte into the running checksum, least-significant bit first.
pub open spec fn crc8_byte(crc: u8, byte: u8) -> u8 {
    let c1 = crc8_step(crc, byte);
    let c2 = crc8_step(c1, byte >> 1);
    let c3 = crc8_step(c2, byte >> 2);
    let c4 = crc8_step(c3, byte >> 3);
    let c5 = crc8_step(c4, byte >> 4);
    let c6 = crc8_step(c5, byte >> 5);
    let c7 = crc8_step(c6, byte >> 6);
    crc8_step(c7, byte >> 7)
}

/// The checksum of a byte sequence, folded left to right from seed 0.
pub open spec fn crc8_seq(s: Seq<u8>) -> u8
    decreases s.len(),
{
    if s.len() == 0 {
        0
    } else {
        crc8_byte(crc8_seq(s.drop_last()), s.last())
    }
}

/// Compute the checksum of `data`.
pub fn compute(data: &[u8]) -> (r: u8)
    ensures
        r == crc8_seq(data@),
{
    let mut crc: u8 = 0;
    let mut i: usize = 0;
    while i < data.len()
        invariant
            i <= data@.len(),
            crc == crc8_seq(data@.take(i as int)),
        decreases data@.len() - i,
    {
        proof {
            assert(data@.take(i + 1).drop_last() =~= data@.take(i as int));
        }
        crc = crc8_update(crc, data[i]);
        i = i + 1;
    }
    proof {
        assert(data@.take(data@.len() as int) =~= data@);
    }
    crc
}

/// Check a block whose last byte is the checksum of the rest: the fold over
/// the whole block is zero exactly when the trailing byte matches.
pub fn verify(data: &[u8]) -> (r: bool)
    ensures
        r == (crc8_seq(data@) == 0),
{
    compute(data) == 0
}

/// Fold one byte into the running checksum (executable form of `crc8_byte`).
pub fn crc8_update(crc: u8, byte: u8) -> (r: u8)
    ensures
        r == crc8_byte(crc, byte),
{
    let mut c: u8 = crc;
    let mut b: u8 = byte;
    let mut k: usize = 0;
    proof {
        assert(byte >> 0u8 == byte) by (bit_vector);
    }
    while k < 8
        invariant
            k <= 8,
            c == crc8_partial(crc, byte, k as nat),
            b == byte >> (k as u8),
        decreases 8 - k,
    {
        proof {
            lemma_crc8_partial_unfold(crc, byte, k as nat);
            assert(b >> 1 == byte >> ((k + 1) as u8)) by (bit_vector)
                requires
                    b == byte >> (k as u8),
                    k < 8,
            ;
        }
        if (c ^ b) & 1 == 1 {
            c = (c >> 1) ^ 0x8c;
        } else {
            c = c >> 1;
        }
        b = b >> 1;
        k = k + 1;
    }
    proof {
        lemma_crc8_partial_full(crc, byte);
    }
    c
}

/// The first `n` of the eight steps of `crc8_byte`.
spec fn crc8_partial(crc: u8, byte: u8, n: nat) -> u8
    decreases n,
{
    if n == 0 {
        crc
    } else {
        crc8_step(crc8_partial(crc, byte, (n - 1) as nat), byte >> ((n - 1) as u8))
    }
}

proof fn lemma_crc8_partial_unfold(crc: u8, byte: u8, n: nat)
    requires
        n < 8,
    ensures
        crc8_partial(crc, byte, n + 1) == crc8_step(crc8_partial(crc, byte, n), byte >> (n as u8)),
{
}

proof fn lemma_crc8_partial_full(crc: u8, byte: u8)
    ensures
        crc8_partial(crc, byte, 8) == crc8_byte(crc, byte),
{
    reveal_with_fuel(crc8_partial, 9);
    assert(byte >> 0u8 == byte) by (bit_vector);
}

/// Appending the computed checksum to any block always passes `verify`:
/// the fold of a block extended by its own checksum is zero.
pub proof fn lemma_checksum_round_trip(s: Seq<u8>)
    ensures
        crc8_seq(s.push(crc8_seq(s))) == 0,
{
    let c = crc8_seq(s);
    assert(s.push(c).drop_last() =~= s);
    assert(crc8_byte(c, c) == 0) by (bit_vector);
}

/// The trailing byte that passes `verify` is unique: a block followed by
/// one more byte folds to zero exactly when that byte is the block's
/// computed checksum.
pub proof fn lemma_checksum_unique(s: Seq<u8>, x: u8)
    ensures
        (crc8_seq(s.push(x)) == 0) <==> (x == crc8_seq(s)),
{
    let c = crc8_seq(s);
    assert(s.push(x).drop_last() =~= s);
    assert((crc8_byte(c, x) == 0) <==> (x == c)) by (bit_vector);
}

/// Flipping a single bit anywhere in a block that passes `verify` makes
/// `verify` fail: the checksum detects every single-bit error.
pub proof fn lemma_single_bit_error_detected(s: Seq<u8>, i: int, k: u8)
    requires
        crc8_seq(s) == 0,
        0 <= i < s.len(),
        k < 8,
    ensures
        crc8_seq(s.update(i, s[i] ^ (1u8 << k))) != 0,
{
    let t = s.update(i, s[i] ^ (1u8 << k));
    assert(s.take(i) =~= t.take(i));
    assert(s.take(i + 1).drop_last() =~= s.take(i));
    assert(t.take(i + 1).drop_last() =~= t.take(i));
    lemma_crc8_byte_flip(crc8_seq(s.take(i)), s[i], k);
    lemma_crc_differs_from(s, t, i + 1);
}

/// A single shifted-in bit difference never cancels: folding the same byte
/// onto two different running checksums keeps them different.
proof fn lemma_crc8_byte_injective(c1: u8, c2: u8, b: u8)
    by (bit_vector)
    requires
        c1 != c2,
    ensures
        crc8_byte(c1, b) != crc8_byte(c2, b),
{
}

/// Folding a byte and the same byte with one bit flipped onto the same
/// running checksum yields different checksums.
proof fn lemma_crc8_byte_flip(c: u8, b: u8, k: u8)
    by (bit_vector)
    requires
        k < 8,
    ensures
        crc8_byte(c, b) != crc8_byte(c, b ^ (1u8 << k)),
{
}

/// Once the running checksums of two equal-length blocks differ at some
/// prefix, and the blocks agree from there on, the final checksums differ.
proof fn lemma_crc_differs_from(s: Seq<u8>, t: Seq<u8>, j: int)
    requires
        s.len() == t.len(),
        0 <= j <= s.len(),
        crc8_seq(s.take(j)) != crc8_seq(t.take(j)),
        forall|m: int| j <= m < s.len() ==> s[m] == t[m],
    ensures
        crc8_seq(s) != crc8_seq(t),
    decreases s.len() - j,
{
    if j == s.len() {
        assert(s.take(j) =~= s);
        assert(t.take(j) =~= t);
    } else {
        assert(s.take(j + 1).drop_last() =~= s.take(j));
        assert(t.take(j + 1).drop_last() =~= t.take(j));
        lemma_crc8_byte_injective(crc8_seq(s.take(j)), crc8_seq(t.take(j)), s[j]);
        lemma_crc_differs_from(s, t, j + 1);
    }
}

} // verus!
