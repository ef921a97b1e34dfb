//! Width inference and IEEE-754 encoding for float literals.
//!
//! A float literal is carried as the bit pattern of its binary64 magnitude
//! (sign bit clear). Encoding at eight bytes lays that pattern out as it is;
//! encoding at four bytes first narrows the pattern to binary32 with
//! round-to-nearest, ties-to-even rounding, computed here on the bits alone.

use vstd::prelude::*;
use vstd::arithmetic::power2::{
    pow2,
    lemma_pow2_adds,
    lemma_pow2_pos,
    lemma_pow2_strictly_increases,
    lemma2_to64,
    lemma2_to64_rest,
};
use vstd::arithmetic::div_mod::{lemma_basic_div, lemma_multiply_divide_lt, lemma_small_mod};
use crate::model::{EncodingWidth, Endianness, Error, FloatWidth};
use crate::wire::{push_uint, uint_bytes};

verus! {

/// The bit pattern of the binary64 value of the literal `3.40282347e+38`, the
/// threshold above which a float literal no longer fits the four-byte width.
/// (It sits a hair above the largest finite binary32 value.)
pub const FLOAT_WIDTH_THRESHOLD_BITS: u64 = 0x47EFFFFFE091FF3D;

/// The width, in bytes, of a resolved float width.
pub open spec fn float_width_bytes(w: FloatWidth) -> nat {
    match w {
        FloatWidth::F32 => 4,
        FloatWidth::F64 => 8,
    }
}

/// The smallest float width for a magnitude: eight bytes when the magnitude
/// exceeds the threshold, four bytes otherwise. For bit patterns with the
/// sign bit clear, comparing the patterns compares the values.
pub open spec fn min_float_width(bits: u64) -> FloatWidth {
    if bits > FLOAT_WIDTH_THRESHOLD_BITS {
        FloatWidth::F64
    } else {
        FloatWidth::F32
    }
}

/// The reconciliation of the minimal float width with an explicit suffix: the
/// only widening is four bytes to eight; narrowing eight to four is rejected.
pub open spec fn reconcile_float(min: FloatWidth, suffix: Option<FloatWidth>) -> Option<
    FloatWidth,
> {
    match suffix {
        None => Some(min),
        Some(req) => match (min, req) {
            (FloatWidth::F32, _) => Some(req),
            (FloatWidth::F64, FloatWidth::F64) => Some(FloatWidth::F64),
            _ => None,
        },
    }
}

/// Round-to-nearest, ties-to-even: the quotient `keep` is raised by one when
/// the discarded remainder lies above the halfway point, or lies exactly on
/// it while `keep` is odd.
pub open spec fn round_half_even(keep: nat, rem: nat, half: nat) -> nat {
    if rem > half || (rem == half && keep % 2 == 1) {
        keep + 1
    } else {
        keep
    }
}

/// The binary32 bit pattern nearest to the binary64 bit pattern `b` (sign bit
/// ignored), with ties broken to the even mantissa.
///
/// The exponent field of `b` is `e`, its mantissa field `m`. A normal result
/// drops 29 mantissa bits with rounding; a carry out of the mantissa flows
/// into the exponent field, saturating at the infinity pattern. Below the
/// normal range the full significand is scaled down to the binary32
/// subnormal grid and rounded there; a carry to the smallest normal again
/// flows naturally. An exponent field at the binary64 maximum is an infinity
/// or not-a-number pattern and maps to the corresponding binary32 pattern.
pub open spec fn demote_bits(b: u64) -> u32 {
    let e = ((b as nat) / 0x10000000000000) % 0x800;
    let m = (b as nat) % 0x10000000000000;
    if e == 0x7FF {
        if m == 0 {
            0x7F800000u32
        } else {
            0x7FC00000u32
        }
    } else if e >= 1151 {
        0x7F800000u32
    } else if e >= 897 {
        ((((e - 896) * 0x800000) as nat + round_half_even(m / 0x20000000, m % 0x20000000, 0x10000000)) as u32)
    } else {
        let ee: nat = if e == 0 {
            1
        } else {
            e
        };
        let sig: nat = if e == 0 {
            m
        } else {
            m + 0x10000000000000
        };
        let s: nat = (926 - ee) as nat;
        (round_half_even(sig / pow2(s), sig % pow2(s), pow2((s - 1) as nat)) as u32)
    }
}

/// The demoted pattern never exceeds the binary32 infinity pattern.
pub proof fn lemma_demote_bits_bound(b: u64)
    ensures
        demote_bits(b) <= 0x7FC00000,
{
    lemma2_to64();
    lemma2_to64_rest();
    let e = ((b as nat) / 0x10000000000000) % 0x800;
    let m = (b as nat) % 0x10000000000000;
    if e == 0x7FF || e >= 1151 {
    } else if e >= 897 {
        assert(m / 0x20000000 < 0x800000) by (nonlinear_arith)
            requires
                m < 0x10000000000000,
        ;
    } else {
        let ee: nat = if e == 0 {
            1
        } else {
            e
        };
        let sig: nat = if e == 0 {
            m
        } else {
            m + 0x10000000000000
        };
        let s: nat = (926 - ee) as nat;
        assert(sig < pow2(53));
        assert(pow2(53) * pow2((s - 30) as nat) == pow2((s + 23) as nat)) by {
            lemma_pow2_adds(53, (s - 30) as nat);
        }
        lemma_pow2_pos((s - 30) as nat);
        assert(pow2(53) <= pow2(53) * pow2((s - 30) as nat)) by (nonlinear_arith)
            requires
                pow2((s - 30) as nat) >= 1,
        ;
        assert(pow2((s + 23) as nat) == pow2(s) * pow2(23)) by {
            lemma_pow2_adds(s, 23);
        }
        lemma_pow2_pos(s);
        assert(sig / pow2(s) < pow2(23)) by (nonlinear_arith)
            requires
                sig < pow2(s) * pow2(23),
                pow2(s) > 0,
        ;
    }
}

/// Executable twin of [`demote_bits`].
pub fn demote(b: u64) -> (r: u32)
    ensures
        r == demote_bits(b),
        r <= 0x7FC00000,
{
    proof {
        lemma2_to64();
        lemma2_to64_rest();
        lemma_demote_bits_bound(b);
    }
    let e: u64 = (b / 0x10000000000000) % 0x800;
    let m: u64 = b % 0x10000000000000;
    if e == 0x7FF {
        if m == 0 {
            0x7F800000
        } else {
            0x7FC00000
        }
    } else if e >= 1151 {
        0x7F800000
    } else if e >= 897 {
        let keep: u64 = m / 0x20000000;
        let rem: u64 = m % 0x20000000;
        let up: u64 = if rem > 0x10000000 || (rem == 0x10000000 && keep % 2 == 1) {
            1
        } else {
            0
        };
        (((e - 896) * 0x800000 + keep + up) as u32)
    } else if e <= 872 {
        // the magnitude lies below half of the smallest positive binary32
        // subnormal, so it rounds to zero
        proof {
            let ee: nat = if e == 0 {
                1
            } else {
                e as nat
            };
            let sig: nat = if e == 0 {
                m as nat
            } else {
                m as nat + 0x10000000000000
            };
            let s: nat = (926 - ee) as nat;
            assert(sig < pow2(53));
            lemma_pow2_strictly_increases(53, s);
            if s > 54 {
                lemma_pow2_strictly_increases(53, (s - 1) as nat);
            }
            lemma_basic_div(sig as int, pow2(s) as int);
            lemma_small_mod(sig, pow2(s));
        }
        0
    } else {
        let sig: u64 = m + 0x10000000000000;
        let s: u64 = 926 - e;
        let ghost spec_s: nat = s as nat;
        let mut half: u64 = 1;
        let mut t: u64 = 0;
        proof {
            lemma_pow2_strictly_increases(0, 52);
        }
        while t < s - 1
            invariant
                t <= s - 1,
                30 <= s <= 53,
                half == pow2(t as nat),
                half <= pow2(52),
            decreases s - t,
        {
            proof {
                lemma2_to64();
                lemma2_to64_rest();
                lemma_pow2_adds(t as nat, 1);
                lemma_pow2_strictly_increases(t as nat, 52);
                if t as nat + 1 < 52 {
                    lemma_pow2_strictly_increases((t + 1) as nat, 52);
                }
            }
            half = half * 2;
            t = t + 1;
        }
        let p: u64 = half * 2;
        proof {
            lemma_pow2_adds((s - 1) as nat, 1);
            assert(p == pow2(spec_s));
            lemma_pow2_pos(spec_s);
        }
        let keep: u64 = sig / p;
        proof {
            lemma_multiply_divide_lt(sig as int, p as int, 0x800000);
        }
        let rem: u64 = sig % p;
        let up: u64 = if rem > half || (rem == half && keep % 2 == 1) {
            1
        } else {
            0
        };
        ((keep + up) as u32)
    }
}

/// The bit pattern written for a float literal at a resolved width: at eight
/// bytes the binary64 pattern itself, at four bytes the demoted binary32
/// pattern; a negative sign sets the top bit of the pattern.
pub open spec fn float_pattern(negative: bool, bits: u64, w: FloatWidth) -> nat {
    match w {
        FloatWidth::F32 => demote_bits(bits) as nat + if negative {
            0x80000000nat
        } else {
            0nat
        },
        FloatWidth::F64 => if negative {
            (bits as nat) % 0x8000000000000000 + 0x8000000000000000
        } else {
            bits as nat
        },
    }
}

/// The encoded bytes of a float literal at a resolved width and byte order.
pub open spec fn float_bytes(negative: bool, bits: u64, w: FloatWidth, e: Endianness) -> Seq<u8> {
    uint_bytes(float_pattern(negative, bits, w), float_width_bytes(w), e)
}

/// Resolves the width of a float literal against its optional suffix.
///
/// Returns the resolved width exactly when the reconciliation accepts the
/// pair, and otherwise the suffix error carrying the literal's text, its
/// sign, and the two widths involved.
pub fn float_to_suffix(text: String, negative: bool, magnitude: u64, suffix: Option<FloatWidth>)
    -> (r: Result<FloatWidth, Error>)
    ensures
        ({
            let min = min_float_width(magnitude);
            match suffix {
                None => r == Ok::<FloatWidth, Error>(min),
                Some(req) => match reconcile_float(min, suffix) {
                    Some(w) => r == Ok::<FloatWidth, Error>(w),
                    None => r == Err::<FloatWidth, Error>(
                        Error::IncompatibleNumberSuffix {
                            text,
                            negative,
                            inferred: EncodingWidth::Float(min),
                            requested: EncodingWidth::Float(req),
                        },
                    ),
                },
            }
        }),
{
    let min = if magnitude > FLOAT_WIDTH_THRESHOLD_BITS {
        FloatWidth::F64
    } else {
        FloatWidth::F32
    };
    match suffix {
        None => Ok(min),
        Some(req) => match (min, req) {
            (FloatWidth::F32, req) => Ok(req),
            (FloatWidth::F64, FloatWidth::F64) => Ok(FloatWidth::F64),
            (min, req) => Err(
                Error::IncompatibleNumberSuffix {
                    text,
                    negative,
                    inferred: EncodingWidth::Float(min),
                    requested: EncodingWidth::Float(req),
                },
            ),
        },
    }
}

/// Encodes one float literal: resolves the width against the suffix, then
/// appends the IEEE-754 pattern at that width in the given byte order. On a
/// suffix mismatch the output is left unchanged and the suffix error is
/// returned.
pub fn bytify_implementation_float(
    text: String,
    negative: bool,
    magnitude: u64,
    suffix: Option<FloatWidth>,
    e: Endianness,
    output: &mut Vec<u8>,
) -> (r: Result<(), Error>)
    ensures
        ({
            let min = min_float_width(magnitude);
            match reconcile_float(min, suffix) {
                Some(w) => r == Ok::<(), Error>(()) && final(output)@ == old(output)@ + float_bytes(
                    negative,
                    magnitude,
                    w,
                    e,
                ),
                None => final(output)@ == old(output)@ && (suffix matches Some(req) && r == Err::<
                    (),
                    Error,
                >(
                    Error::IncompatibleNumberSuffix {
                        text,
                        negative,
                        inferred: EncodingWidth::Float(min),
                        requested: EncodingWidth::Float(req),
                    },
                )),
            }
        }),
{
    let w = match float_to_suffix(text, negative, magnitude, suffix) {
        Ok(w) => w,
        Err(err) => {
            return Err(err);
        },
    };
    match w {
        FloatWidth::F32 => {
            let d: u32 = demote(magnitude);
            let p: u32 = if negative {
                d + 0x80000000
            } else {
                d
            };
            push_uint(p as u64, 4, e, output);
        },
        FloatWidth::F64 => {
            let p: u64 = if negative {
                (magnitude % 0x8000000000000000) + 0x8000000000000000
            } else {
                magnitude
            };
            push_uint(p, 8, e, output);
        },
    }
    Ok(())
}

} // verus!
