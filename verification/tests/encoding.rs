use bytify::compile::bytify;
use bytify::model::{Element, EncodingWidth, Error, Expression, IntWidth, Literal, LiteralKind};

fn int_element(order: Option<&str>, negative: bool, magnitude: u64, suffix: Option<IntWidth>) -> Element {
    let lit = Literal {
        text: format!("{}", magnitude),
        kind: LiteralKind::Int { magnitude, suffix },
    };
    Element {
        order: order.map(|s| s.to_string()),
        expr: if negative { Expression::Neg(lit) } else { Expression::Lit(lit) },
    }
}

#[test]
fn unsigned_minimal_widths() {
    assert_eq!(bytify(vec![int_element(None, false, 0, None)]).unwrap(), vec![0]);
    assert_eq!(bytify(vec![int_element(None, false, 255, None)]).unwrap(), vec![255]);
    assert_eq!(bytify(vec![int_element(None, false, 256, None)]).unwrap(), vec![0, 1]);
    assert_eq!(bytify(vec![int_element(None, false, 300, None)]).unwrap(), vec![44, 1]);
    assert_eq!(bytify(vec![int_element(None, false, 65535, None)]).unwrap(), vec![0xFF, 0xFF]);
    assert_eq!(bytify(vec![int_element(None, false, 65536, None)]).unwrap(), vec![0, 0, 1, 0]);
    assert_eq!(
        bytify(vec![int_element(None, false, 0x1_0000_0000, None)]).unwrap(),
        vec![0, 0, 0, 0, 1, 0, 0, 0]
    );
}

#[test]
fn negative_twos_complement() {
    assert_eq!(bytify(vec![int_element(None, true, 1, None)]).unwrap(), vec![0xFF]);
    assert_eq!(bytify(vec![int_element(None, true, 128, None)]).unwrap(), vec![0x80]);
    assert_eq!(bytify(vec![int_element(None, true, 129, None)]).unwrap(), vec![0x7F, 0xFF]);
    assert_eq!(bytify(vec![int_element(None, true, 300, None)]).unwrap(), vec![0xD4, 0xFE]);
    assert_eq!(
        bytify(vec![int_element(None, true, 0x8000_0001, None)]).unwrap(),
        (-(0x8000_0001i64)).to_le_bytes().to_vec()
    );
}

#[test]
fn suffix_widening_zero_extends() {
    assert_eq!(
        bytify(vec![int_element(None, false, 200, Some(IntWidth::U8))]).unwrap(),
        vec![200]
    );
    assert_eq!(
        bytify(vec![int_element(None, false, 200, Some(IntWidth::U16))]).unwrap(),
        vec![200, 0]
    );
    assert_eq!(
        bytify(vec![int_element(None, false, 200, Some(IntWidth::U32))]).unwrap(),
        vec![200, 0, 0, 0]
    );
    assert_eq!(
        bytify(vec![int_element(Some("BE"), false, 200, Some(IntWidth::U16))]).unwrap(),
        vec![0, 200]
    );
}

#[test]
fn suffix_narrowing_fails() {
    let err = bytify(vec![int_element(None, false, 300, Some(IntWidth::U8))]).unwrap_err();
    match err {
        Error::IncompatibleNumberSuffix { negative, inferred, requested, .. } => {
            assert!(!negative);
            assert_eq!(inferred, EncodingWidth::Int(IntWidth::U16));
            assert_eq!(requested, EncodingWidth::Int(IntWidth::U8));
        },
        other => panic!("unexpected error: {:?}", other),
    }
}

#[test]
fn unsigned_to_signed_promotion_boundary() {
    assert_eq!(
        bytify(vec![int_element(None, false, 127, Some(IntWidth::I8))]).unwrap(),
        vec![127]
    );
    let err = bytify(vec![int_element(None, false, 128, Some(IntWidth::I8))]).unwrap_err();
    assert!(matches!(err, Error::IncompatibleNumberSuffix { .. }));
    assert_eq!(
        bytify(vec![int_element(None, false, 128, Some(IntWidth::I16))]).unwrap(),
        vec![128, 0]
    );
    assert_eq!(
        bytify(vec![int_element(None, false, 0x7FFF_FFFF_FFFF_FFFF, Some(IntWidth::I64))])
            .unwrap(),
        0x7FFF_FFFF_FFFF_FFFFu64.to_le_bytes().to_vec()
    );
    let err =
        bytify(vec![int_element(None, false, 0x8000_0000_0000_0000, Some(IntWidth::I64))])
            .unwrap_err();
    assert!(matches!(err, Error::IncompatibleNumberSuffix { .. }));
}

#[test]
fn negative_with_signed_suffix_widens() {
    assert_eq!(
        bytify(vec![int_element(None, true, 1, Some(IntWidth::I32))]).unwrap(),
        (-1i32).to_le_bytes().to_vec()
    );
    let err = bytify(vec![int_element(None, true, 300, Some(IntWidth::I8))]).unwrap_err();
    assert!(matches!(err, Error::IncompatibleNumberSuffix { .. }));
    let err = bytify(vec![int_element(None, true, 1, Some(IntWidth::U8))]).unwrap_err();
    assert!(matches!(err, Error::IncompatibleNumberSuffix { .. }));
}

#[test]
fn byte_order_override_per_element() {
    let out = bytify(vec![
        int_element(Some("BE"), false, 1, Some(IntWidth::U16)),
        int_element(Some("LE"), false, 1, Some(IntWidth::U16)),
    ])
    .unwrap();
    assert_eq!(out, vec![0x00, 0x01, 0x01, 0x00]);
}

#[test]
fn lowercase_tags_and_default_order() {
    let out = bytify(vec![
        int_element(Some("be"), false, 0x1234, None),
        int_element(Some("le"), false, 0x1234, None),
        int_element(None, false, 0x1234, None),
    ])
    .unwrap();
    assert_eq!(out, vec![0x12, 0x34, 0x34, 0x12, 0x34, 0x12]);
}

#[test]
fn elements_concatenate_in_order() {
    let out = bytify(vec![
        int_element(None, false, 1, None),
        int_element(None, false, 0x0203, None),
        int_element(None, true, 4, None),
    ])
    .unwrap();
    assert_eq!(out, vec![1, 0x03, 0x02, 0xFC]);
}

#[test]
fn integer_round_trips() {
    for &(m, neg) in &[(0u64, false), (1, false), (255, false), (300, false), (70000, false),
        (0x1_0000_0000, false), (1, true), (128, true), (129, true), (0x8000_0000, true)] {
        let out = bytify(vec![int_element(None, neg, m, None)]).unwrap();
        let mut buf = [0u8; 8];
        buf[..out.len()].copy_from_slice(&out);
        let p = u64::from_le_bytes(buf);
        let width_bits = 8 * out.len() as u32;
        if neg {
            let expected = (1u128 << width_bits) - m as u128;
            assert_eq!(p as u128, expected);
        } else {
            assert_eq!(p, m);
        }
    }
}
