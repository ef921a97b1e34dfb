//! The general properties of the encoder, stated and proved over the spec
//! functions that the contracts use.

use vstd::prelude::*;
use vstd::arithmetic::power2::{pow2, lemma2_to64, lemma2_to64_rest};
use vstd::arithmetic::div_mod::{lemma_mod_self_0, lemma_small_mod};
use vstd::utf8::{
    decode_utf8,
    encode_scalar,
    encode_utf8,
    encode_utf8_decode_utf8,
    encode_utf8_valid_utf8,
    valid_utf8,
};
use crate::floats::{
    demote_bits,
    float_bytes,
    float_pattern,
    float_width_bytes,
    lemma_demote_bits_bound,
    min_float_width,
    reconcile_float,
};
use crate::ints::{int_bytes, int_pattern, lemma_resolved_width_bound, min_int_width, reconcile_int};
use crate::model::{width_bits, width_bytes, is_signed, Element, Endianness, Expression, FloatWidth, IntWidth, Literal, LiteralKind};
use crate::compile::{compile_result, elem_result, lit_result};
use crate::wire::{lemma_uint_decode_uint_bytes, uint_decode};

verus! {

/// A non-negative integer with no suffix encodes at the smallest of one, two,
/// four or eight bytes able to hold it, and reading the bytes back at that
/// width and byte order yields the value again.
pub proof fn lemma_unsigned_minimal_width(m: u64, e: Endianness)
    ensures
        ({
            let w = min_int_width(false, m);
            &&& reconcile_int(w, None::<IntWidth>, m) == Some(w)
            &&& !is_signed(w)
            &&& (m as nat) < pow2(width_bits(w))
            &&& (width_bytes(w) == 1 <==> m <= 0xFF)
            &&& (width_bytes(w) == 2 <==> 0xFF < m <= 0xFFFF)
            &&& (width_bytes(w) == 4 <==> 0xFFFF < m <= 0xFFFFFFFF)
            &&& (width_bytes(w) == 8 <==> 0xFFFFFFFF < m)
            &&& int_bytes(false, m, w, e).len() == width_bytes(w)
            &&& uint_decode(int_bytes(false, m, w, e), e) == m as nat
        }),
{
    lemma2_to64();
    lemma2_to64_rest();
    let w = min_int_width(false, m);
    lemma_small_mod(m as nat, pow2(width_bits(w)));
    lemma_uint_decode_uint_bytes(int_pattern(false, m, w), width_bytes(w), e);
    assert(8 * width_bytes(w) == width_bits(w));
}

/// A negative integer encodes as the two's complement of its magnitude at the
/// resolved width: the bytes, read back as an unsigned pattern in the same
/// byte order, equal `2^bits - M` modulo `2^bits`.
pub proof fn lemma_twos_complement_bytes(m: u64, w: IntWidth, e: Endianness)
    requires
        (m as nat) < pow2(width_bits(w)),
    ensures
        int_bytes(true, m, w, e).len() == width_bytes(w),
        uint_decode(int_bytes(true, m, w, e), e) as int == (pow2(width_bits(w)) as int - m as int)
            % (pow2(width_bits(w)) as int),
{
    lemma2_to64();
    lemma2_to64_rest();
    let modulus = pow2(width_bits(w)) as int;
    let p = int_pattern(true, m, w);
    assert(p < modulus) by {
        assert((m as int) % modulus >= 0 && (m as int) % modulus < modulus);
    }
    lemma_uint_decode_uint_bytes(p, width_bytes(w), e);
    lemma_small_mod(p, pow2(width_bits(w)));
    assert(8 * width_bytes(w) == width_bits(w));
    lemma_small_mod(m as nat, pow2(width_bits(w)));
    assert((modulus - (m as int) % modulus) % modulus == (modulus - m as int) % modulus);
}

/// The signed reading of a byte sequence at a width: the unsigned pattern,
/// reduced by `2^bits` when the width is signed and the pattern's top bit is
/// set.
pub open spec fn decode_int(s: Seq<u8>, w: IntWidth, e: Endianness) -> int {
    let p = uint_decode(s, e) as int;
    if is_signed(w) && p >= pow2((width_bits(w) - 1) as nat) {
        p - pow2(width_bits(w))
    } else {
        p
    }
}

/// Round trip: for any integer literal and any accepted suffix, decoding the
/// produced bytes at the resolved width and byte order reproduces the
/// original value exactly. (The one family left out: a negative magnitude
/// above `2^63`, which the eight-byte signed width accepts and wraps.)
pub proof fn lemma_int_round_trip(
    negative: bool,
    m: u64,
    suffix: Option<IntWidth>,
    w: IntWidth,
    e: Endianness,
)
    requires
        reconcile_int(min_int_width(negative, m), suffix, m) == Some(w),
        negative ==> m as nat <= pow2(63),
    ensures
        decode_int(int_bytes(negative, m, w, e), w, e) == if negative {
            -(m as int)
        } else {
            m as int
        },
{
    lemma2_to64();
    lemma2_to64_rest();
    lemma_resolved_width_bound(negative, m, suffix, w);
    let p = int_pattern(negative, m, w);
    let modulus = pow2(width_bits(w)) as int;
    assert(p < modulus) by {
        assert((m as int) % modulus >= 0 && (m as int) % modulus < modulus);
    }
    lemma_uint_decode_uint_bytes(p, width_bytes(w), e);
    assert(8 * width_bytes(w) == width_bits(w));
    lemma_small_mod(p, pow2(width_bits(w)));
    lemma_small_mod(m as nat, pow2(width_bits(w)));
    if negative {
        if m == 0 {
            lemma_mod_self_0(modulus);
            assert(p == 0);
        } else {
            lemma_small_mod((pow2(width_bits(w)) - m as nat) as nat, pow2(width_bits(w)));
            assert(p == modulus - m as int);
        }
    }
}

/// Round trip for float literals: at the eight-byte width the bytes hold the
/// original binary64 pattern with the sign bit set exactly when the literal
/// was negated; at the four-byte width they hold the demoted binary32
/// pattern the same way — the value at the resolved width, exactly.
pub proof fn lemma_float_round_trip(
    negative: bool,
    bits: u64,
    suffix: Option<FloatWidth>,
    w: FloatWidth,
    e: Endianness,
)
    requires
        reconcile_float(min_float_width(bits), suffix) == Some(w),
        bits < 0x8000000000000000,
    ensures
        float_bytes(negative, bits, w, e).len() == float_width_bytes(w),
        w == FloatWidth::F64 ==> uint_decode(float_bytes(negative, bits, w, e), e) == bits as nat
            + if negative {
            0x8000000000000000nat
        } else {
            0nat
        },
        w == FloatWidth::F32 ==> uint_decode(float_bytes(negative, bits, w, e), e) == demote_bits(
            bits,
        ) as nat + if negative {
            0x80000000nat
        } else {
            0nat
        },
{
    lemma2_to64();
    lemma2_to64_rest();
    lemma_demote_bits_bound(bits);
    let p = float_pattern(negative, bits, w);
    lemma_uint_decode_uint_bytes(p, float_width_bytes(w), e);
    match w {
        FloatWidth::F32 => {
            lemma_small_mod(p, pow2(32));
        },
        FloatWidth::F64 => {
            lemma_small_mod(bits as nat, pow2(63));
            lemma_small_mod(p, pow2(64));
        },
    }
}

/// Character and string literals produce exactly the UTF-8 encoding of their
/// contents — hence exactly its byte length — unaffected by the byte order in
/// force.
pub proof fn lemma_text_order_independent(lit: Literal, e1: Endianness, e2: Endianness)
    requires
        lit.kind matches LiteralKind::Char { .. } || lit.kind matches LiteralKind::Text { .. },
    ensures
        lit_result(false, lit, e1) == lit_result(false, lit, e2),
        lit.kind matches LiteralKind::Char { value } ==> lit_result(false, lit, e1)
            == Ok::<Seq<u8>, crate::model::Error>(encode_scalar(value as u32)),
        lit.kind matches LiteralKind::Text { value } ==> lit_result(false, lit, e1)
            == Ok::<Seq<u8>, crate::model::Error>(encode_utf8(value@)),
{
}

/// A character encodes to exactly its UTF-8 width: one byte below 0x80, two
/// below 0x800, three below 0x10000, four beyond.
pub proof fn lemma_char_utf8_length(c: char)
    ensures
        encode_scalar(c as u32).len() == if (c as u32) < 0x80 {
            1nat
        } else if (c as u32) < 0x800 {
            2nat
        } else if (c as u32) < 0x10000 {
            3nat
        } else {
            4nat
        },
{
    vstd::utf8::char_is_scalar(c);
}

/// Round trip for character and string literals: the produced bytes are valid
/// UTF-8 and decode to the original characters.
pub proof fn lemma_text_round_trip(chars: Seq<char>)
    ensures
        valid_utf8(encode_utf8(chars)),
        decode_utf8(encode_utf8(chars)) == chars,
{
    encode_utf8_valid_utf8(chars);
    encode_utf8_decode_utf8(chars);
}

/// The resolved width, in bytes, of one encodable element: the reconciled
/// numeric width, or the UTF-8 byte count of a character or string.
pub open spec fn elem_width(el: Element, default: Endianness) -> nat {
    let negative = el.expr matches Expression::Neg(_);
    match el.expr {
        Expression::Lit(lit) | Expression::Neg(lit) => match lit.kind {
            LiteralKind::Int { magnitude, suffix } => match reconcile_int(
                min_int_width(negative, magnitude),
                suffix,
                magnitude,
            ) {
                Some(w) => width_bytes(w),
                None => 0,
            },
            LiteralKind::Float { magnitude, suffix } => match reconcile_float(
                min_float_width(magnitude),
                suffix,
            ) {
                Some(w) => float_width_bytes(w),
                None => 0,
            },
            LiteralKind::Char { value } => encode_scalar(value as u32).len(),
            LiteralKind::Text { value } => encode_utf8(value@).len(),
            LiteralKind::Other => 0,
        },
        _ => 0,
    }
}

/// The sum of the resolved widths of a list of elements.
pub open spec fn total_width(els: Seq<Element>, default: Endianness) -> nat
    decreases els.len(),
{
    if els.len() == 0 {
        0
    } else {
        elem_width(els[0], default) + total_width(els.drop_first(), default)
    }
}

/// Every literal is encoded into a contiguous run of bytes in input order,
/// so a successful compilation's length is the sum of each element's
/// resolved width.
pub proof fn lemma_output_length(els: Seq<Element>, default: Endianness)
    ensures
        compile_result(els, default) matches Ok(bytes) ==> bytes.len() == total_width(
            els,
            default,
        ),
    decreases els.len(),
{
    if els.len() > 0 {
        lemma_output_length(els.drop_first(), default);
        if compile_result(els, default) is Ok {
            let el = els[0];
            match elem_result(el, default) {
                Ok(first) => {
                    assert(first.len() == elem_width(el, default)) by {
                        lemma_elem_byte_count(el, default);
                    }
                },
                Err(_) => {},
            }
        }
    }
}

/// The bytes of one encodable element number exactly its resolved width.
pub proof fn lemma_elem_byte_count(el: Element, default: Endianness)
    ensures
        elem_result(el, default) matches Ok(bytes) ==> bytes.len() == elem_width(el, default),
{
}

} // verus!
