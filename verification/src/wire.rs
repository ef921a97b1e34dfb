//! Laying out an unsigned bit pattern as bytes in a chosen byte order, and
//! reading such bytes back.

use vstd::prelude::*;
use vstd::arithmetic::power2::{pow2, lemma_pow2_adds, lemma_pow2_pos, lemma2_to64};
use vstd::arithmetic::div_mod::{
    lemma_div_basics,
    lemma_div_denominator,
    lemma_mod_breakdown,
    lemma_small_mod,
};
use crate::model::Endianness;

verus! {

/// Byte `i` (counting from the least significant) of the bit pattern `p`.
pub open spec fn le_byte(p: nat, i: nat) -> u8 {
    ((p / pow2(8 * i)) % 256) as u8
}

/// The `n` least significant bytes of `p`, least significant first.
pub open spec fn le_bytes(p: nat, n: nat) -> Seq<u8> {
    Seq::new(n, |i: int| le_byte(p, i as nat))
}

/// The `n` least significant bytes of `p` in the given byte order.
pub open spec fn uint_bytes(p: nat, n: nat, e: Endianness) -> Seq<u8> {
    match e {
        Endianness::LittleEndian => le_bytes(p, n),
        Endianness::BigEndian => le_bytes(p, n).reverse(),
    }
}

/// The unsigned value of a little-endian byte sequence.
pub open spec fn le_decode(s: Seq<u8>) -> nat
    decreases s.len(),
{
    if s.len() == 0 {
        0
    } else {
        s[0] as nat + 256 * le_decode(s.drop_first())
    }
}

/// The unsigned value of a byte sequence in the given byte order.
pub open spec fn uint_decode(s: Seq<u8>, e: Endianness) -> nat {
    match e {
        Endianness::LittleEndian => le_decode(s),
        Endianness::BigEndian => le_decode(s.reverse()),
    }
}

/// Appends the `n` least significant bytes of `p`, least significant first.
pub fn push_le(p: u64, n: usize, out: &mut Vec<u8>)
    ensures
        final(out)@ == old(out)@ + le_bytes(p as nat, n as nat),
{
    let mut cur: u64 = p;
    let mut i: usize = 0;
    proof {
        lemma2_to64();
        lemma_div_basics(p as int);
        assert(le_bytes(p as nat, 0) =~= Seq::<u8>::empty());
        assert(out@ =~= old(out)@ + le_bytes(p as nat, 0));
    }
    while i < n
        invariant
            i <= n,
            cur as nat == (p as nat) / pow2((8 * i) as nat),
            out@ == old(out)@ + le_bytes(p as nat, i as nat),
        decreases n - i,
    {
        let b: u8 = (cur % 256) as u8;
        out.push(b);
        proof {
            lemma_pow2_pos((8 * i) as nat);
            assert(b == le_byte(p as nat, i as nat));
            assert(le_bytes(p as nat, (i + 1) as nat) =~= le_bytes(p as nat, i as nat).push(
                le_byte(p as nat, i as nat),
            ));
            lemma2_to64();
            lemma_pow2_adds((8 * i) as nat, 8);
            lemma_div_denominator(p as int, pow2((8 * i) as nat) as int, 256);
            assert((cur / 256) as nat == (p as nat) / pow2((8 * (i + 1)) as nat));
        }
        cur = cur / 256;
        i = i + 1;
    }
    proof {
        assert(le_bytes(p as nat, i as nat) =~= le_bytes(p as nat, n as nat));
    }
}

/// Appends the `n` least significant bytes of `p`, most significant first.
pub fn push_be(p: u64, n: usize, out: &mut Vec<u8>)
    ensures
        final(out)@ == old(out)@ + le_bytes(p as nat, n as nat).reverse(),
{
    let ghost rev = le_bytes(p as nat, n as nat).reverse();
    let mut tmp: Vec<u8> = Vec::new();
    push_le(p, n, &mut tmp);
    let mut j: usize = 0;
    proof {
        assert(out@ =~= old(out)@ + rev.take(0));
    }
    while j < n
        invariant
            j <= n,
            n == tmp.len(),
            tmp@ == le_bytes(p as nat, n as nat),
            rev == le_bytes(p as nat, n as nat).reverse(),
            out@ == old(out)@ + rev.take(j as int),
        decreases n - j,
    {
        let b: u8 = tmp[n - 1 - j];
        out.push(b);
        proof {
            assert(rev[j as int] == tmp@[n as int - 1 - j as int]);
            assert(rev.take(j + 1) =~= rev.take(j as int).push(rev[j as int]));
        }
        j = j + 1;
    }
    proof {
        assert(rev.take(n as int) =~= rev);
    }
}

/// Appends the `n` least significant bytes of `p` in the given byte order.
pub fn push_uint(p: u64, n: usize, e: Endianness, out: &mut Vec<u8>)
    ensures
        final(out)@ == old(out)@ + uint_bytes(p as nat, n as nat, e),
{
    match e {
        Endianness::LittleEndian => push_le(p, n, out),
        Endianness::BigEndian => push_be(p, n, out),
    }
}

/// Reading back the bytes of `p` recovers `p` modulo `2^(8n)`: the byte
/// layout loses nothing below the width.
pub proof fn lemma_le_decode_le_bytes(p: nat, n: nat)
    ensures
        le_decode(le_bytes(p, n)) == p % pow2(8 * n),
    decreases n,
{
    lemma2_to64();
    if n == 0 {
        assert(le_bytes(p, 0).len() == 0);
        assert(p % pow2(0) == 0) by {
            lemma_small_mod(0, 1);
        }
    } else {
        let rest = le_bytes(p, n).drop_first();
        assert(rest =~= le_bytes(p / 256, (n - 1) as nat)) by {
            assert forall|i: int| 0 <= i < n - 1 implies rest[i] == le_byte(p / 256, i as nat) by {
                lemma_pow2_pos((8 * i) as nat);
                lemma_pow2_adds(8, (8 * i) as nat);
                lemma_div_denominator(p as int, 256, pow2((8 * i) as nat) as int);
                assert(8 * (i + 1) == 8 + 8 * i);
            }
        }
        lemma_le_decode_le_bytes(p / 256, (n - 1) as nat);
        lemma_div_basics(p as int);
        assert(le_bytes(p, n)[0] == le_byte(p, 0));
        assert(le_byte(p, 0) as nat == p % 256);
        assert(le_decode(le_bytes(p, n)) == p % 256 + 256 * ((p / 256) % pow2(
            (8 * (n - 1)) as nat,
        )));
        lemma_pow2_pos((8 * (n - 1)) as nat);
        lemma_mod_breakdown(p as int, 256, pow2((8 * (n - 1)) as nat) as int);
        lemma_pow2_adds(8, (8 * (n - 1)) as nat);
    }
}

/// Reading back in the same byte order recovers the pattern modulo the width.
pub proof fn lemma_uint_decode_uint_bytes(p: nat, n: nat, e: Endianness)
    ensures
        uint_decode(uint_bytes(p, n, e), e) == p % pow2(8 * n),
{
    match e {
        Endianness::LittleEndian => {
            lemma_le_decode_le_bytes(p, n);
        },
        Endianness::BigEndian => {
            assert(le_bytes(p, n).reverse().reverse() =~= le_bytes(p, n));
            lemma_le_decode_le_bytes(p, n);
        },
    }
}

} // verus!
