//! UTF-8 encoding of character and string literals.
//!
//! The byte sequences are stated with vstd's UTF-8 specification
//! (`encode_scalar`, `encode_utf8`), so the round-trip facts proved there
//! carry over to this library's output.

use vstd::prelude::*;
use vstd::string::StrSliceExecFns;
use vstd::utf8::{char_is_scalar, encode_scalar, encode_utf8};

verus! {

/// Encoding distributes over concatenation of character sequences.
pub proof fn lemma_encode_utf8_concat(a: Seq<char>, b: Seq<char>)
    ensures
        encode_utf8(a + b) == encode_utf8(a) + encode_utf8(b),
    decreases a.len(),
{
    if a.len() == 0 {
        assert(a + b =~= b);
        assert(encode_utf8(a) =~= Seq::<u8>::empty());
        assert(encode_utf8(a) + encode_utf8(b) =~= encode_utf8(b));
    } else {
        assert((a + b).drop_first() =~= a.drop_first() + b);
        lemma_encode_utf8_concat(a.drop_first(), b);
        assert(encode_scalar((a + b)[0] as u32) + (encode_utf8(a.drop_first()) + encode_utf8(b))
            =~= (encode_scalar(a[0] as u32) + encode_utf8(a.drop_first())) + encode_utf8(b));
    }
}

/// Appends the UTF-8 encoding of one Unicode scalar: one to four bytes,
/// independent of any byte order.
pub fn encode_char(c: char, out: &mut Vec<u8>)
    ensures
        final(out)@ == old(out)@ + encode_scalar(c as u32),
{
    let u: u32 = c as u32;
    proof {
        char_is_scalar(c);
    }
    if u < 0x80 {
        out.push(u as u8);
        proof {
            assert(u as u8 == (u & 0x7F) as u8) by (bit_vector)
                requires
                    u < 0x80,
            ;
            assert(final(out)@ =~= old(out)@ + encode_scalar(c as u32));
        }
    } else if u < 0x800 {
        out.push(0xC0 | ((u >> 6) & 0x1F) as u8);
        out.push(0x80 | (u & 0x3F) as u8);
        proof {
            assert(final(out)@ =~= old(out)@ + encode_scalar(c as u32));
        }
    } else if u < 0x10000 {
        out.push(0xE0 | ((u >> 12) & 0x0F) as u8);
        out.push(0x80 | ((u >> 6) & 0x3F) as u8);
        out.push(0x80 | (u & 0x3F) as u8);
        proof {
            assert(final(out)@ =~= old(out)@ + encode_scalar(c as u32));
        }
    } else {
        out.push(0xF0 | ((u >> 18) & 0x7) as u8);
        out.push(0x80 | ((u >> 12) & 0x3F) as u8);
        out.push(0x80 | ((u >> 6) & 0x3F) as u8);
        out.push(0x80 | (u & 0x3F) as u8);
        proof {
            assert(final(out)@ =~= old(out)@ + encode_scalar(c as u32));
        }
    }
}

/// Appends the UTF-8 bytes of a string, in source order, with no
/// transformation and no terminator, independent of any byte order.
pub fn encode_text(s: &String, out: &mut Vec<u8>)
    ensures
        final(out)@ == old(out)@ + encode_utf8(s@),
{
    let n: usize = s.as_str().unicode_len();
    let mut i: usize = 0;
    proof {
        assert(s@.take(0) =~= Seq::<char>::empty());
        assert(encode_utf8(s@.take(0)) =~= Seq::<u8>::empty());
        assert(out@ =~= old(out)@ + encode_utf8(s@.take(0)));
    }
    while i < n
        invariant
            i <= n,
            n == s@.len(),
            out@ == old(out)@ + encode_utf8(s@.take(i as int)),
        decreases n - i,
    {
        let c: char = s.as_str().get_char(i);
        encode_char(c, out);
        proof {
            assert(s@.take(i + 1) =~= s@.take(i as int) + seq![s@[i as int]]);
            lemma_encode_utf8_concat(s@.take(i as int), seq![s@[i as int]]);
            let single = seq![s@[i as int]];
            assert(single.drop_first() =~= Seq::<char>::empty());
            assert(encode_utf8(Seq::<char>::empty()) =~= Seq::<u8>::empty());
            assert(encode_utf8(single) =~= encode_scalar(s@[i as int] as u32) + encode_utf8(
                Seq::<char>::empty(),
            ));
            assert(encode_utf8(single) =~= encode_scalar(s@[i as int] as u32));
        }
        i = i + 1;
    }
    proof {
        assert(s@.take(n as int) =~= s@);
    }
}

} // verus!
