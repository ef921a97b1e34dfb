//! The expression dispatcher: walks the ordered input list, resolves the
//! byte-order tag of each element, routes literals and negated literals to
//! the encoders, and concatenates the encoded bytes. Encoding is
//! all-or-nothing: the first invalid element aborts the pass.

use vstd::prelude::*;
use vstd::string::StrSliceExecFns;
use vstd::utf8::{encode_scalar, encode_utf8};
use crate::floats::{bytify_implementation_float, float_bytes, min_float_width, reconcile_float};
use crate::ints::{bytify_implementation_int, int_bytes, min_int_width, reconcile_int};
use crate::model::{Element, EncodingWidth, Endianness, Error, Expression, Literal, LiteralKind};
use crate::text::{encode_char, encode_text};

verus! {

/// The default byte order, applied to every element that carries no tag.
pub const DEFAULT_ENDIANNESS: Endianness = Endianness::LittleEndian;

/// The byte order named by a tag: exactly the four spellings `be`, `BE`,
/// `le`, `LE` are recognized.
pub open spec fn parse_tag(tag: Seq<char>) -> Option<Endianness> {
    if tag == seq!['b', 'e'] || tag == seq!['B', 'E'] {
        Some(Endianness::BigEndian)
    } else if tag == seq!['l', 'e'] || tag == seq!['L', 'E'] {
        Some(Endianness::LittleEndian)
    } else {
        None
    }
}

/// The bytes or error of one literal, encoded with the given sign at the
/// given byte order. The caller has already ruled out a negated character,
/// string, or unsupported literal.
pub open spec fn lit_result(negative: bool, lit: Literal, e: Endianness) -> Result<Seq<u8>, Error> {
    match lit.kind {
        LiteralKind::Int { magnitude, suffix } => match reconcile_int(
            min_int_width(negative, magnitude),
            suffix,
            magnitude,
        ) {
            Some(w) => Ok(int_bytes(negative, magnitude, w, e)),
            None => Err(
                Error::IncompatibleNumberSuffix {
                    text: lit.text,
                    negative,
                    inferred: EncodingWidth::Int(min_int_width(negative, magnitude)),
                    requested: match suffix {
                        Some(req) => EncodingWidth::Int(req),
                        None => EncodingWidth::Int(min_int_width(negative, magnitude)),
                    },
                },
            ),
        },
        LiteralKind::Float { magnitude, suffix } => match reconcile_float(
            min_float_width(magnitude),
            suffix,
        ) {
            Some(w) => Ok(float_bytes(negative, magnitude, w, e)),
            None => Err(
                Error::IncompatibleNumberSuffix {
                    text: lit.text,
                    negative,
                    inferred: EncodingWidth::Float(min_float_width(magnitude)),
                    requested: match suffix {
                        Some(req) => EncodingWidth::Float(req),
                        None => EncodingWidth::Float(min_float_width(magnitude)),
                    },
                },
            ),
        },
        LiteralKind::Char { value } => Ok(encode_scalar(value as u32)),
        LiteralKind::Text { value } => Ok(encode_utf8(value@)),
        LiteralKind::Other => Err(Error::UnsupportedLit { text: lit.text }),
    }
}

/// The bytes or error of one expression node at a resolved byte order:
/// literals encode with a positive sign; a negation encodes an integer or
/// float literal with a negative sign and rejects every other operand; the
/// remaining shapes are rejected with their documented error kinds.
pub open spec fn expr_result(expr: Expression, e: Endianness) -> Result<Seq<u8>, Error> {
    match expr {
        Expression::Lit(lit) => lit_result(false, lit, e),
        Expression::Neg(lit) => match lit.kind {
            LiteralKind::Int { .. } | LiteralKind::Float { .. } => lit_result(true, lit, e),
            _ => Err(Error::UnsupportedPrefixedExpression { text: lit.text }),
        },
        Expression::Prefixed { text } => Err(Error::UnsupportedPrefixedExpression { text }),
        Expression::Other { text } => Err(Error::UnsupportedExpression { text }),
    }
}

/// The bytes or error of one element: an untagged element uses the default
/// byte order, a tagged one its tag's order, and an unrecognized tag spelling
/// is rejected before the inner expression is looked at.
pub open spec fn elem_result(el: Element, default: Endianness) -> Result<Seq<u8>, Error> {
    match el.order {
        None => expr_result(el.expr, default),
        Some(tag) => match parse_tag(tag@) {
            Some(e) => expr_result(el.expr, e),
            None => Err(Error::InvalidEndianness { tag }),
        },
    }
}

/// The bytes or error of a whole input list: the concatenation of every
/// element's bytes in input order, or the error of the first invalid element.
pub open spec fn compile_result(els: Seq<Element>, default: Endianness) -> Result<Seq<u8>, Error>
    decreases els.len(),
{
    if els.len() == 0 {
        Ok(Seq::<u8>::empty())
    } else {
        match elem_result(els[0], default) {
            Ok(first) => match compile_result(els.drop_first(), default) {
                Ok(rest) => Ok(first + rest),
                Err(err) => Err(err),
            },
            Err(err) => Err(err),
        }
    }
}

/// Resolves a byte-order tag, if the element carries one.
fn tag_endianness(tag: &String) -> (r: Option<Endianness>)
    ensures
        r == parse_tag(tag@),
{
    let s = tag.as_str();
    if s.unicode_len() != 2 {
        proof {
            assert(tag@ != seq!['b', 'e'] && tag@ != seq!['B', 'E'] && tag@ != seq!['l', 'e']
                && tag@ != seq!['L', 'E']) by {
                assert(seq!['b', 'e'].len() == 2);
                assert(seq!['B', 'E'].len() == 2);
                assert(seq!['l', 'e'].len() == 2);
                assert(seq!['L', 'E'].len() == 2);
            }
        }
        return None;
    }
    let c0 = s.get_char(0);
    let c1 = s.get_char(1);
    proof {
        assert(seq!['b', 'e'][0] == 'b' && seq!['b', 'e'][1] == 'e');
        assert(seq!['B', 'E'][0] == 'B' && seq!['B', 'E'][1] == 'E');
        assert(seq!['l', 'e'][0] == 'l' && seq!['l', 'e'][1] == 'e');
        assert(seq!['L', 'E'][0] == 'L' && seq!['L', 'E'][1] == 'E');
    }
    if (c0 == 'b' && c1 == 'e') || (c0 == 'B' && c1 == 'E') {
        proof {
            if c0 == 'b' {
                assert(tag@ =~= seq!['b', 'e']);
            } else {
                assert(tag@ =~= seq!['B', 'E']);
            }
        }
        Some(Endianness::BigEndian)
    } else if (c0 == 'l' && c1 == 'e') || (c0 == 'L' && c1 == 'E') {
        proof {
            if c0 == 'l' {
                assert(tag@ =~= seq!['l', 'e']);
            } else {
                assert(tag@ =~= seq!['L', 'E']);
            }
        }
        Some(Endianness::LittleEndian)
    } else {
        None
    }
}

/// Encodes one literal with the given sign at the given byte order, appending
/// its bytes, or returns its error with the output unchanged.
pub fn bytify_implementation_element(negative: bool, lit: Literal, e: Endianness, output: &mut Vec<
    u8,
>) -> (r: Result<(), Error>)
    ensures
        match lit_result(negative, lit, e) {
            Ok(bytes) => r == Ok::<(), Error>(()) && final(output)@ == old(output)@ + bytes,
            Err(err) => r == Err::<(), Error>(err) && final(output)@ == old(output)@,
        },
{
    let Literal { text, kind } = lit;
    match kind {
        LiteralKind::Int { magnitude, suffix } => bytify_implementation_int(
            text,
            negative,
            magnitude,
            suffix,
            e,
            output,
        ),
        LiteralKind::Float { magnitude, suffix } => bytify_implementation_float(
            text,
            negative,
            magnitude,
            suffix,
            e,
            output,
        ),
        LiteralKind::Char { value } => {
            encode_char(value, output);
            Ok(())
        },
        LiteralKind::Text { value } => {
            encode_text(&value, output);
            Ok(())
        },
        LiteralKind::Other => Err(Error::UnsupportedLit { text }),
    }
}

/// Encodes one element: resolves its byte-order tag, dispatches on the
/// expression shape, and appends the element's bytes, or returns the error of
/// the element with the output unchanged.
fn encode_element(el: Element, default: Endianness, output: &mut Vec<u8>) -> (r: Result<(), Error>)
    ensures
        match elem_result(el, default) {
            Ok(bytes) => r == Ok::<(), Error>(()) && final(output)@ == old(output)@ + bytes,
            Err(err) => r == Err::<(), Error>(err) && final(output)@ == old(output)@,
        },
{
    let Element { order, expr } = el;
    let e: Endianness = match order {
        None => default,
        Some(tag) => match tag_endianness(&tag) {
            Some(e) => e,
            None => {
                return Err(Error::InvalidEndianness { tag });
            },
        },
    };
    match expr {
        Expression::Lit(lit) => bytify_implementation_element(false, lit, e, output),
        Expression::Neg(lit) => match lit.kind {
            LiteralKind::Int { .. } | LiteralKind::Float { .. } => bytify_implementation_element(
                true,
                lit,
                e,
                output,
            ),
            _ => Err(Error::UnsupportedPrefixedExpression { text: lit.text }),
        },
        Expression::Prefixed { text } => Err(Error::UnsupportedPrefixedExpression { text }),
        Expression::Other { text } => Err(Error::UnsupportedExpression { text }),
    }
}

/// Compiles a whole input list at the given default byte order: on success
/// the returned buffer holds exactly the concatenation of every element's
/// encoding in input order; on the first invalid element that element's error
/// is returned instead.
pub fn bytify_implementation(input: Vec<Element>, default: Endianness) -> (r: Result<
    Vec<u8>,
    Error,
>)
    ensures
        match compile_result(input@, default) {
            Ok(bytes) => r matches Ok(v) && v@ == bytes,
            Err(err) => r == Err::<Vec<u8>, Error>(err),
        },
{
    let ghost orig = input@;
    let mut pending = input;
    let mut output: Vec<u8> = Vec::new();
    proof {
        assert(output@ + Seq::<u8>::empty() =~= output@);
    }
    while pending.len() > 0
        invariant
            orig == input@,
            compile_result(orig, default) == (match compile_result(pending@, default) {
                Ok(rest) => Ok::<Seq<u8>, Error>(output@ + rest),
                Err(err) => Err::<Seq<u8>, Error>(err),
            }),
        decreases pending.len(),
    {
        let ghost before = pending@;
        let el = pending.remove(0);
        proof {
            assert(pending@ =~= before.drop_first());
            assert(el == before[0]);
        }
        let ghost out_before = output@;
        match encode_element(el, default, &mut output) {
            Ok(()) => {
                proof {
                    let bytes = match elem_result(el, default) {
                        Ok(b) => b,
                        Err(_) => Seq::<u8>::empty(),
                    };
                    match compile_result(pending@, default) {
                        Ok(rest) => {
                            assert(out_before + (bytes + rest) =~= (out_before + bytes) + rest);
                        },
                        Err(_) => {},
                    }
                }
            },
            Err(err) => {
                proof {
                    assert(compile_result(before, default) == Err::<Seq<u8>, Error>(err));
                    assert(compile_result(orig, default) == Err::<Seq<u8>, Error>(err));
                }
                return Err(err);
            },
        }
    }
    proof {
        assert(pending@.len() == 0);
        assert(output@ + Seq::<u8>::empty() =~= output@);
    }
    Ok(output)
}

/// Compiles a whole input list at the build-time default byte order.
pub fn bytify(input: Vec<Element>) -> (r: Result<Vec<u8>, Error>)
    ensures
        match compile_result(input@, DEFAULT_ENDIANNESS) {
            Ok(bytes) => r matches Ok(v) && v@ == bytes,
            Err(err) => r == Err::<Vec<u8>, Error>(err),
        },
{
    bytify_implementation(input, DEFAULT_ENDIANNESS)
}

} // verus!
