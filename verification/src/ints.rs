//! Width inference and two's-complement encoding for integer literals.

use vstd::prelude::*;
use vstd::arithmetic::power2::{pow2, lemma2_to64, lemma2_to64_rest};
use vstd::arithmetic::div_mod::{lemma_mod_self_0, lemma_small_mod};
use crate::model::{
    width_bytes,
    width_bits,
    is_signed,
    exec_width_bytes,
    exec_is_signed,
    EncodingWidth,
    Endianness,
    Error,
    IntWidth,
};
use crate::wire::{push_uint, uint_bytes};

verus! {

/// The smallest width able to hold a magnitude: unsigned widths for a
/// non-negative value, signed widths for a negative one. A negative value is
/// compared by magnitude, so the extra unit of two's-complement range (for
/// example 0x80 at eight bits) is admitted.
pub open spec fn min_int_width(negative: bool, m: u64) -> IntWidth {
    if negative {
        if m <= 0x80 {
            IntWidth::I8
        } else if m <= 0x8000 {
            IntWidth::I16
        } else if m <= 0x80000000 {
            IntWidth::I32
        } else {
            IntWidth::I64
        }
    } else {
        if m <= 0xFF {
            IntWidth::U8
        } else if m <= 0xFFFF {
            IntWidth::U16
        } else if m <= 0xFFFFFFFF {
            IntWidth::U32
        } else {
            IntWidth::U64
        }
    }
}

/// The widening-only reconciliation of the minimal width with an explicit
/// suffix: within one signedness family any widening is accepted; an unsigned
/// minimal width is promoted to a strictly larger signed width always, and to
/// the signed width of the same size only when the magnitude lies strictly
/// below that width's signed maximum plus one. Everything else (narrowing, a
/// negative value cast toward unsigned) is rejected.
pub open spec fn reconcile_int(min: IntWidth, suffix: Option<IntWidth>, m: u64) -> Option<
    IntWidth,
> {
    match suffix {
        None => Some(min),
        Some(req) => {
            if is_signed(min) == is_signed(req) && width_bytes(req) >= width_bytes(min) {
                Some(req)
            } else if !is_signed(min) && is_signed(req) && width_bytes(req) > width_bytes(min) {
                Some(req)
            } else if !is_signed(min) && is_signed(req) && width_bytes(req) == width_bytes(min) && (
            m as nat) < pow2((width_bits(req) - 1) as nat) {
                Some(req)
            } else {
                None
            }
        },
    }
}

/// The bit pattern written for a magnitude at a resolved width: the magnitude
/// itself when non-negative, its two's complement (with wraparound at the
/// width) when negative.
pub open spec fn int_pattern(negative: bool, m: u64, w: IntWidth) -> nat {
    let modulus = pow2(width_bits(w)) as int;
    if negative {
        (((modulus - (m as int) % modulus) % modulus) as nat)
    } else {
        (((m as int) % modulus) as nat)
    }
}

/// The encoded bytes of an integer literal at a resolved width and byte order.
pub open spec fn int_bytes(negative: bool, m: u64, w: IntWidth, e: Endianness) -> Seq<u8> {
    uint_bytes(int_pattern(negative, m, w), width_bytes(w), e)
}

/// A resolved width always holds the magnitude: an unsigned result is below
/// `2^bits`, a signed result taken by a non-negative value is strictly below
/// `2^(bits-1)`, and a negative value resolves only to a signed width with the
/// magnitude at most `2^(bits-1)` — except at 64 bits, where a larger negative
/// magnitude is accepted and wraps.
pub proof fn lemma_resolved_width_bound(
    negative: bool,
    m: u64,
    suffix: Option<IntWidth>,
    w: IntWidth,
)
    requires
        reconcile_int(min_int_width(negative, m), suffix, m) == Some(w),
    ensures
        (m as nat) < pow2(width_bits(w)),
        !negative && is_signed(w) ==> (m as nat) < pow2((width_bits(w) - 1) as nat),
        negative ==> is_signed(w),
        negative && width_bits(w) != 64 ==> (m as nat) <= pow2((width_bits(w) - 1) as nat),
{
    lemma2_to64();
    lemma2_to64_rest();
}

/// Executable twin of [`min_int_width`].
pub fn exec_min_int_width(negative: bool, m: u64) -> (w: IntWidth)
    ensures
        w == min_int_width(negative, m),
{
    if negative {
        if m <= 0x80 {
            IntWidth::I8
        } else if m <= 0x8000 {
            IntWidth::I16
        } else if m <= 0x80000000 {
            IntWidth::I32
        } else {
            IntWidth::I64
        }
    } else {
        if m <= 0xFF {
            IntWidth::U8
        } else if m <= 0xFFFF {
            IntWidth::U16
        } else if m <= 0xFFFFFFFF {
            IntWidth::U32
        } else {
            IntWidth::U64
        }
    }
}

/// The signed maximum plus one of a width: `2^(bits-1)`.
fn signed_bound(w: IntWidth) -> (b: u64)
    ensures
        b as nat == pow2((width_bits(w) - 1) as nat),
{
    proof {
        lemma2_to64();
        lemma2_to64_rest();
    }
    match w {
        IntWidth::U8 | IntWidth::I8 => 0x80,
        IntWidth::U16 | IntWidth::I16 => 0x8000,
        IntWidth::U32 | IntWidth::I32 => 0x80000000,
        IntWidth::U64 | IntWidth::I64 => 0x8000000000000000,
    }
}

/// Resolves the width of an integer literal against its optional suffix.
///
/// Returns the resolved width exactly when the reconciliation accepts the
/// pair, and otherwise the suffix error carrying the literal's text, its
/// sign, and the two widths involved.
pub fn int_to_suffix(text: String, negative: bool, magnitude: u64, suffix: Option<IntWidth>) -> (r:
    Result<IntWidth, Error>)
    ensures
        ({
            let min = min_int_width(negative, magnitude);
            match suffix {
                None => r == Ok::<IntWidth, Error>(min),
                Some(req) => match reconcile_int(min, suffix, magnitude) {
                    Some(w) => r == Ok::<IntWidth, Error>(w),
                    None => r == Err::<IntWidth, Error>(
                        Error::IncompatibleNumberSuffix {
                            text,
                            negative,
                            inferred: EncodingWidth::Int(min),
                            requested: EncodingWidth::Int(req),
                        },
                    ),
                },
            }
        }),
{
    let min = exec_min_int_width(negative, magnitude);
    match suffix {
        None => Ok(min),
        Some(req) => {
            let sm = exec_is_signed(min);
            let sr = exec_is_signed(req);
            let bm = exec_width_bytes(min);
            let br = exec_width_bytes(req);
            let accepted: bool = if sm == sr && br >= bm {
                true
            } else if !sm && sr && br > bm {
                true
            } else if !sm && sr && br == bm {
                magnitude < signed_bound(req)
            } else {
                false
            };
            if accepted {
                Ok(req)
            } else {
                Err(
                    Error::IncompatibleNumberSuffix {
                        text,
                        negative,
                        inferred: EncodingWidth::Int(min),
                        requested: EncodingWidth::Int(req),
                    },
                )
            }
        },
    }
}

/// The two's-complement bit pattern of a resolved literal, as a `u64`.
fn exec_int_pattern(negative: bool, magnitude: u64, w: IntWidth) -> (p: u64)
    requires
        (magnitude as nat) < pow2(width_bits(w)),
        negative && width_bits(w) != 64 ==> (magnitude as nat) <= pow2((width_bits(w) - 1) as nat),
    ensures
        p as nat == int_pattern(negative, magnitude, w),
{
    proof {
        lemma2_to64();
        lemma2_to64_rest();
        lemma_small_mod(magnitude as nat, pow2(width_bits(w)));
        lemma_mod_self_0(pow2(width_bits(w)) as int);
        if negative && magnitude > 0 {
            lemma_small_mod((pow2(width_bits(w)) - magnitude) as nat, pow2(width_bits(w)));
        }
    }
    if !negative {
        magnitude
    } else if magnitude == 0 {
        0
    } else {
        match w {
            IntWidth::U8 | IntWidth::I8 => 0x100 - magnitude,
            IntWidth::U16 | IntWidth::I16 => 0x10000 - magnitude,
            IntWidth::U32 | IntWidth::I32 => 0x100000000 - magnitude,
            IntWidth::U64 | IntWidth::I64 => (0xFFFFFFFFFFFFFFFF - magnitude) + 1,
        }
    }
}

/// Encodes one integer literal: resolves the width against the suffix, then
/// appends the two's-complement pattern at that width in the given byte
/// order. On a suffix mismatch the output is left unchanged and the suffix
/// error is returned.
pub fn bytify_implementation_int(
    text: String,
    negative: bool,
    magnitude: u64,
    suffix: Option<IntWidth>,
    e: Endianness,
    output: &mut Vec<u8>,
) -> (r: Result<(), Error>)
    ensures
        ({
            let min = min_int_width(negative, magnitude);
            match reconcile_int(min, suffix, magnitude) {
                Some(w) => r == Ok::<(), Error>(()) && final(output)@ == old(output)@ + int_bytes(
                    negative,
                    magnitude,
                    w,
                    e,
                ),
                None => final(output)@ == old(output)@ && (suffix matches Some(req) && r == Err::<
                    (),
                    Error,
                >(
                    Error::IncompatibleNumberSuffix {
                        text,
                        negative,
                        inferred: EncodingWidth::Int(min),
                        requested: EncodingWidth::Int(req),
                    },
                )),
            }
        }),
{
    let w = match int_to_suffix(text, negative, magnitude, suffix) {
        Ok(w) => w,
        Err(err) => {
            return Err(err);
        },
    };
    proof {
        lemma_resolved_width_bound(negative, magnitude, suffix, w);
    }
    let p = exec_int_pattern(negative, magnitude, w);
    let n = exec_width_bytes(w);
    push_uint(p, n, e, output);
    Ok(())
}

} // verus!
