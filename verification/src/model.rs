//! The data model: literal values, expression nodes, byte order, widths, and
//! the error taxonomy.

use vstd::prelude::*;

verus! {

/// The byte order used to lay out a multi-byte numeric value.
#[derive(Clone, Copy, Debug, PartialEq, Eq, Structural)]
pub enum Endianness {
    LittleEndian,
    BigEndian,
}

/// An integer width and signedness, as written in a literal suffix.
#[derive(Clone, Copy, Debug, PartialEq, Eq, Structural)]
pub enum IntWidth {
    U8,
    U16,
    U32,
    U64,
    I8,
    I16,
    I32,
    I64,
}

/// A float width, as written in a literal suffix.
#[derive(Clone, Copy, Debug, PartialEq, Eq, Structural)]
pub enum FloatWidth {
    F32,
    F64,
}

/// The resolved width of one numeric literal.
#[derive(Clone, Copy, Debug, PartialEq, Eq, Structural)]
pub enum EncodingWidth {
    Int(IntWidth),
    Float(FloatWidth),
}

/// The value of one literal, together with its optional width suffix.
#[derive(Debug)]
pub enum LiteralKind {
    /// An integer literal: its unsigned magnitude and optional suffix.
    Int { magnitude: u64, suffix: Option<IntWidth> },
    /// A float literal: the IEEE-754 binary64 bit pattern of its magnitude
    /// (sign bit clear) and optional suffix.
    Float { magnitude: u64, suffix: Option<FloatWidth> },
    /// A character literal: a single Unicode scalar.
    Char { value: char },
    /// A string literal.
    Text { value: String },
    /// A literal of a kind this compiler does not encode (for example a byte
    /// string or a boolean).
    Other,
}

/// One literal as it appeared in the input, with its source text kept for
/// error reporting.
#[derive(Debug)]
pub struct Literal {
    pub text: String,
    pub kind: LiteralKind,
}

/// One expression node of the input list, before the optional byte-order tag
/// is taken into account.
#[derive(Debug)]
pub enum Expression {
    /// A plain literal.
    Lit(Literal),
    /// A single arithmetic negation of a literal.
    Neg(Literal),
    /// A unary operator this compiler does not accept: either an operator
    /// other than negation, or a negation of something that is not a literal
    /// (a nested negation included). Carries the text of the whole expression.
    Prefixed { text: String },
    /// Any other expression shape (a variable, a call, ...), carrying its
    /// text.
    Other { text: String },
}

/// One element of the input list: an expression node, optionally wrapped in a
/// byte-order tag whose spelling is validated during compilation.
#[derive(Debug)]
pub struct Element {
    pub order: Option<String>,
    pub expr: Expression,
}

/// The closed set of failure kinds.
///
/// `UnsupportedNumberSuffix` (a resolved width outside the numeric
/// enumeration), `InvalidInput` (a malformed input list, detected by the
/// parsing collaborator) and `IO` (a failing output sink) are part of the
/// taxonomy but are never produced here: the typed model rules the first out,
/// and this library parses no source text and appends only to an in-memory
/// buffer.
#[derive(Debug)]
pub enum Error {
    /// An expression that is not a literal, a negated literal, or a tagged
    /// one of those.
    UnsupportedExpression { text: String },
    /// A unary operator applied to an operand that cannot be negated.
    UnsupportedPrefixedExpression { text: String },
    /// A literal of a kind this compiler does not encode.
    UnsupportedLit { text: String },
    /// A resolved width outside the numeric enumeration.
    UnsupportedNumberSuffix,
    /// A malformed input list.
    InvalidInput,
    /// A byte-order tag with an unrecognized spelling.
    InvalidEndianness { tag: String },
    /// A width suffix that the inferred minimal width cannot widen to.
    IncompatibleNumberSuffix {
        text: String,
        negative: bool,
        inferred: EncodingWidth,
        requested: EncodingWidth,
    },
    /// A failure while appending to the output.
    IO,
}

impl Error {
    /// The error for an expression shape this compiler does not accept.
    pub fn unsupported_expression(text: String) -> (e: Error)
        ensures
            e == (Error::UnsupportedExpression { text }),
    {
        Error::UnsupportedExpression { text }
    }

    /// The error for a literal kind this compiler does not encode.
    pub fn unsupported_lit(text: String) -> (e: Error)
        ensures
            e == (Error::UnsupportedLit { text }),
    {
        Error::UnsupportedLit { text }
    }

    /// The error for a unary operator applied to an operand that cannot be
    /// negated.
    pub fn unsupported_prefixed_expression(text: String) -> (e: Error)
        ensures
            e == (Error::UnsupportedPrefixedExpression { text }),
    {
        Error::UnsupportedPrefixedExpression { text }
    }
}

/// The width, in bytes, of a resolved integer width.
pub open spec fn width_bytes(w: IntWidth) -> nat {
    match w {
        IntWidth::U8 => 1,
        IntWidth::U16 => 2,
        IntWidth::U32 => 4,
        IntWidth::U64 => 8,
        IntWidth::I8 => 1,
        IntWidth::I16 => 2,
        IntWidth::I32 => 4,
        IntWidth::I64 => 8,
    }
}

/// The width, in bits, of a resolved integer width.
pub open spec fn width_bits(w: IntWidth) -> nat {
    8 * width_bytes(w)
}

/// Whether an integer width is of the signed family.
pub open spec fn is_signed(w: IntWidth) -> bool {
    match w {
        IntWidth::I8 | IntWidth::I16 | IntWidth::I32 | IntWidth::I64 => true,
        _ => false,
    }
}

/// Executable twin of [`width_bytes`].
pub fn exec_width_bytes(w: IntWidth) -> (n: usize)
    ensures
        n == width_bytes(w),
{
    match w {
        IntWidth::U8 | IntWidth::I8 => 1,
        IntWidth::U16 | IntWidth::I16 => 2,
        IntWidth::U32 | IntWidth::I32 => 4,
        IntWidth::U64 | IntWidth::I64 => 8,
    }
}

/// Executable twin of [`is_signed`].
pub fn exec_is_signed(w: IntWidth) -> (s: bool)
    ensures
        s == is_signed(w),
{
    match w {
        IntWidth::I8 | IntWidth::I16 | IntWidth::I32 | IntWidth::I64 => true,
        _ => false,
    }
}

} // verus!
