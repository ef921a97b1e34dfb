use bytify::compile::bytify;
use bytify::floats::FLOAT_WIDTH_THRESHOLD_BITS;
use bytify::model::{Element, EncodingWidth, Error, Expression, FloatWidth, Literal, LiteralKind};

fn float_element(order: Option<&str>, negative: bool, value: f64, suffix: Option<FloatWidth>) -> Element {
    let lit = Literal {
        text: format!("{}", value),
        kind: LiteralKind::Float { magnitude: value.to_bits(), suffix },
    };
    Element {
        order: order.map(|s| s.to_string()),
        expr: if negative { Expression::Neg(lit) } else { Expression::Lit(lit) },
    }
}

#[test]
fn threshold_is_the_literal_constant() {
    assert_eq!(FLOAT_WIDTH_THRESHOLD_BITS, 3.40282347e+38f64.to_bits());
}

#[test]
fn float_boundary_widths() {
    let above = bytify(vec![float_element(None, false, 3.40282348e38, None)]).unwrap();
    assert_eq!(above.len(), 8);
    assert_eq!(above, 3.40282348e38f64.to_le_bytes().to_vec());

    let below = bytify(vec![float_element(None, false, 3.40282346e38, None)]).unwrap();
    assert_eq!(below.len(), 4);
    assert_eq!(below, (3.40282346e38f64 as f32).to_le_bytes().to_vec());

    let err = bytify(vec![float_element(None, false, 3.40282348e38, Some(FloatWidth::F32))])
        .unwrap_err();
    match err {
        Error::IncompatibleNumberSuffix { negative, inferred, requested, .. } => {
            assert!(!negative);
            assert_eq!(inferred, EncodingWidth::Float(FloatWidth::F64));
            assert_eq!(requested, EncodingWidth::Float(FloatWidth::F32));
        },
        other => panic!("unexpected error: {:?}", other),
    }
}

#[test]
fn float_widening_and_same_width() {
    let out = bytify(vec![float_element(None, false, 1.5, Some(FloatWidth::F64))]).unwrap();
    assert_eq!(out, 1.5f64.to_le_bytes().to_vec());
    let out = bytify(vec![float_element(None, false, 1.5, Some(FloatWidth::F32))]).unwrap();
    assert_eq!(out, 1.5f32.to_le_bytes().to_vec());
    let out = bytify(vec![float_element(None, false, 1e300, Some(FloatWidth::F64))]).unwrap();
    assert_eq!(out, 1e300f64.to_le_bytes().to_vec());
}

#[test]
fn narrowing_matches_rust_casts() {
    let samples: &[f64] = &[
        0.0,
        1.0,
        1.5,
        0.1,
        2.0 / 3.0,
        1234.5678,
        65504.0,
        16777217.0,
        3.1415926535897932,
        1e-5,
        1e-38,
        1.1754943508222875e-38,
        1.1754942106924411e-38,
        1.401298464324817e-45,
        7.006492321624085e-46,
        7.006492321624087e-46,
        1e-40,
        1e-44,
        2.3509886e-38,
        3.4028234663852886e38,
        3.40282347e38,
        1.0000000596046448,
        1.0000000596046447,
        1.0000001192092896,
    ];
    for &v in samples {
        let out = bytify(vec![float_element(None, false, v, Some(FloatWidth::F32))]).unwrap();
        assert_eq!(
            out,
            (v as f32).to_le_bytes().to_vec(),
            "narrowing mismatch for {:e} (bits {:#x})",
            v,
            v.to_bits()
        );
    }
}

#[test]
fn negative_floats_set_the_sign_bit() {
    let out = bytify(vec![float_element(None, true, 1.5, None)]).unwrap();
    assert_eq!(out, (-1.5f32).to_le_bytes().to_vec());
    let out = bytify(vec![float_element(None, true, 1e300, None)]).unwrap();
    assert_eq!(out, (-1e300f64).to_le_bytes().to_vec());
}

#[test]
fn float_byte_order_tags() {
    let out = bytify(vec![float_element(Some("BE"), false, 1.5, None)]).unwrap();
    assert_eq!(out, 1.5f32.to_be_bytes().to_vec());
    let out = bytify(vec![float_element(Some("be"), false, 1e300, None)]).unwrap();
    assert_eq!(out, 1e300f64.to_be_bytes().to_vec());
}
