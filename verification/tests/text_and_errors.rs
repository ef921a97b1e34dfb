use bytify::compile::{bytify, bytify_implementation};
use bytify::model::{Element, Endianness, Error, Expression, Literal, LiteralKind};

fn lit_element(order: Option<&str>, expr: Expression) -> Element {
    Element { order: order.map(|s| s.to_string()), expr }
}

fn char_lit(c: char) -> Literal {
    Literal { text: format!("'{}'", c), kind: LiteralKind::Char { value: c } }
}

fn text_lit(s: &str) -> Literal {
    Literal { text: format!("\"{}\"", s), kind: LiteralKind::Text { value: s.to_string() } }
}

#[test]
fn characters_encode_as_utf8() {
    let out = bytify(vec![lit_element(None, Expression::Lit(char_lit('A')))]).unwrap();
    assert_eq!(out, vec![0x41]);
    let out = bytify(vec![lit_element(None, Expression::Lit(char_lit('\u{e9}')))]).unwrap();
    assert_eq!(out, vec![0xC3, 0xA9]);
    let out = bytify(vec![lit_element(None, Expression::Lit(char_lit('\u{20ac}')))]).unwrap();
    assert_eq!(out, vec![0xE2, 0x82, 0xAC]);
    let out = bytify(vec![lit_element(None, Expression::Lit(char_lit('\u{1d11e}')))]).unwrap();
    assert_eq!(out, vec![0xF0, 0x9D, 0x84, 0x9E]);
}

#[test]
fn strings_encode_as_utf8_without_terminator() {
    let s = "h\u{e9}llo \u{20ac}";
    let out = bytify(vec![lit_element(None, Expression::Lit(text_lit(s)))]).unwrap();
    assert_eq!(out, s.as_bytes().to_vec());
    assert_eq!(out.len(), s.len());
    let out = bytify(vec![lit_element(None, Expression::Lit(text_lit("")))]).unwrap();
    assert_eq!(out, Vec::<u8>::new());
}

#[test]
fn byte_order_tags_do_not_affect_text() {
    let s = "h\u{e9}llo";
    let le = bytify(vec![lit_element(Some("LE"), Expression::Lit(text_lit(s)))]).unwrap();
    let be = bytify(vec![lit_element(Some("BE"), Expression::Lit(text_lit(s)))]).unwrap();
    assert_eq!(le, be);
    assert_eq!(le, s.as_bytes().to_vec());
    let le = bytify(vec![lit_element(Some("le"), Expression::Lit(char_lit('\u{20ac}')))]).unwrap();
    let be = bytify(vec![lit_element(Some("be"), Expression::Lit(char_lit('\u{20ac}')))]).unwrap();
    assert_eq!(le, be);
}

#[test]
fn unrecognized_tags_fail() {
    for bad in ["Be", "bE", "lE", "Le", "BEE", "", "xx", "big"] {
        let err = bytify(vec![lit_element(Some(bad), Expression::Lit(char_lit('A')))])
            .unwrap_err();
        match err {
            Error::InvalidEndianness { tag } => assert_eq!(tag, bad),
            other => panic!("unexpected error: {:?}", other),
        }
    }
}

#[test]
fn unsupported_shapes_raise_their_own_kinds() {
    let err = bytify(vec![lit_element(
        None,
        Expression::Other { text: "some_variable".to_string() },
    )])
    .unwrap_err();
    match err {
        Error::UnsupportedExpression { text } => assert_eq!(text, "some_variable"),
        other => panic!("unexpected error: {:?}", other),
    }

    let err = bytify(vec![lit_element(None, Expression::Neg(text_lit("oops")))]).unwrap_err();
    assert!(matches!(err, Error::UnsupportedPrefixedExpression { .. }));

    let err = bytify(vec![lit_element(None, Expression::Neg(char_lit('x')))]).unwrap_err();
    assert!(matches!(err, Error::UnsupportedPrefixedExpression { .. }));

    let err = bytify(vec![lit_element(
        None,
        Expression::Prefixed { text: "- - 1".to_string() },
    )])
    .unwrap_err();
    assert!(matches!(err, Error::UnsupportedPrefixedExpression { .. }));

    let err = bytify(vec![lit_element(
        None,
        Expression::Lit(Literal { text: "b\"bytes\"".to_string(), kind: LiteralKind::Other }),
    )])
    .unwrap_err();
    match err {
        Error::UnsupportedLit { text } => assert_eq!(text, "b\"bytes\""),
        other => panic!("unexpected error: {:?}", other),
    }
}

#[test]
fn first_invalid_element_aborts() {
    let err = bytify(vec![
        lit_element(None, Expression::Lit(char_lit('A'))),
        lit_element(Some("nope"), Expression::Lit(char_lit('B'))),
        lit_element(None, Expression::Other { text: "later".to_string() }),
    ])
    .unwrap_err();
    assert!(matches!(err, Error::InvalidEndianness { .. }));
}

#[test]
fn big_endian_default_applies_to_untagged_elements() {
    let out = bytify_implementation(
        vec![lit_element(
            None,
            Expression::Lit(Literal {
                text: "258".to_string(),
                kind: LiteralKind::Int { magnitude: 258, suffix: None },
            }),
        )],
        Endianness::BigEndian,
    )
    .unwrap();
    assert_eq!(out, vec![0x01, 0x02]);
}

#[test]
fn empty_input_gives_empty_output() {
    assert_eq!(bytify(vec![]).unwrap(), Vec::<u8>::new());
}

#[test]
fn error_constructors_carry_their_text() {
    let e = Error::unsupported_expression("a + b".to_string());
    assert!(matches!(e, Error::UnsupportedExpression { ref text } if text == "a + b"));
    let e = Error::unsupported_lit("b\"x\"".to_string());
    assert!(matches!(e, Error::UnsupportedLit { ref text } if text == "b\"x\""));
    let e = Error::unsupported_prefixed_expression("! true".to_string());
    assert!(matches!(e, Error::UnsupportedPrefixedExpression { ref text } if text == "! true"));
}
