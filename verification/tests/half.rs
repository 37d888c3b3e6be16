use softfloat_wrapper::{RoundingMode, F16};
use std::cmp::Ordering;

const SIGN: u16 = 0x8000;
const POS_INF: u16 = 0x7c00;
const QUIET_NAN: u16 = 0x7e00;
const SIGNALING_NAN: u16 = 0x7c01;
const ONE: u16 = 0x3c00;

/// The number that a pattern denotes, which a 64-bit float holds exactly.
fn value(bits: u16) -> f64 {
    let negative = bits & SIGN != 0;
    let exponent = i32::from((bits >> 10) & 0x1f);
    let fraction = f64::from(bits & 0x3ff);
    let magnitude = if exponent == 0x1f {
        if fraction == 0.0 {
            f64::INFINITY
        } else {
            f64::NAN
        }
    } else if exponent == 0 {
        fraction * 2f64.powi(-24)
    } else {
        (1024.0 + fraction) * 2f64.powi(exponent - 25)
    };
    if negative {
        -magnitude
    } else {
        magnitude
    }
}

fn samples() -> Vec<u16> {
    let mut v = Vec::new();
    for m in [0, POS_INF, QUIET_NAN, SIGNALING_NAN, 0x7fff, 0x7dff, ONE, 1, 0x03ff, 0x0400, 0x7bff] {
        v.push(m);
        v.push(m | SIGN);
    }
    let mut x: u16 = 0x1d87;
    for _ in 0..300 {
        x = x.wrapping_mul(25_173).wrapping_add(13_849);
        v.push(x);
        v.push(x ^ SIGN);
    }
    v
}

#[test]
fn f16_bits_round_trip() {
    for x in 0..=u16::MAX {
        assert_eq!(F16::from_bits(x).bits(), x);
    }
}

#[test]
fn f16_set_payload_replaces_pattern() {
    let mut a = F16::from_bits(ONE);
    a.set_payload(POS_INF);
    assert_eq!(a.bits(), POS_INF);
    assert!(a.is_infinite());
}

#[test]
fn f16_layout_constants() {
    assert_eq!(F16::EXPONENT_BIT, 0x1f);
    assert_eq!(F16::FRACTION_BIT, 0x3ff);
    assert_eq!(F16::SIGN_POS, 15);
    assert_eq!(F16::EXPONENT_POS, 10);
}

#[test]
fn f16_fields() {
    // -3.140625
    let a = F16::from_bits(0xc248);
    assert_eq!(a.sign(), 1);
    assert_eq!(a.exponent(), 16);
    assert_eq!(a.fraction(), 0x248);

    for x in 0..=u16::MAX {
        let c = F16::from_bits(x);
        assert_eq!((c.sign() << 15) | (c.exponent() << 10) | c.fraction(), x);
    }
}

#[test]
fn f16_classes() {
    let classes = [
        // pattern, nan, signaling, infinite, zero
        (0, false, false, false, true),
        (SIGN, false, false, false, true),
        (POS_INF, false, false, true, false),
        (POS_INF | SIGN, false, false, true, false),
        (QUIET_NAN, true, false, false, false),
        (0xffff, true, false, false, false),
        (SIGNALING_NAN, true, true, false, false),
        (0xfdff, true, true, false, false),
        (ONE, false, false, false, false),
        (1, false, false, false, false),
        (0x7bff, false, false, false, false),
    ];
    for (bits, nan, signaling, infinite, zero) in classes {
        let a = F16::from_bits(bits);
        assert_eq!(a.is_nan(), nan, "{bits:#x}");
        assert_eq!(a.is_signaling_nan(), signaling, "{bits:#x}");
        assert_eq!(a.is_infinite(), infinite, "{bits:#x}");
        assert_eq!(a.is_zero(), zero, "{bits:#x}");
    }
    for x in 0..=u16::MAX {
        let a = F16::from_bits(x);
        let h = value(x);
        assert_eq!(a.is_nan(), h.is_nan());
        assert_eq!(a.is_infinite(), h.is_infinite());
        assert_eq!(a.is_zero(), h == 0.0);
        assert_eq!(a.is_signaling_nan(), h.is_nan() && x & 0x0200 == 0);
    }
}

#[test]
fn f16_comparisons_agree_with_values() {
    let s = samples();
    for &x in &s {
        for &y in &s {
            let (a, b) = (F16::from_bits(x), F16::from_bits(y));
            let (ha, hb) = (value(x), value(y));
            assert_eq!(a.eq(b), ha == hb, "{x:#x} == {y:#x}");
            assert_eq!(a.lt(b), ha < hb, "{x:#x} < {y:#x}");
            assert_eq!(a.le(b), ha <= hb, "{x:#x} <= {y:#x}");
            assert_eq!(a.lt_quiet(b), ha < hb, "{x:#x} < {y:#x}");
            assert_eq!(a.le_quiet(b), ha <= hb, "{x:#x} <= {y:#x}");
            assert_eq!(a.compare(b), ha.partial_cmp(&hb), "{x:#x} ? {y:#x}");
        }
    }
}

#[test]
fn f16_compare_with_itself() {
    for x in 0..=u16::MAX {
        let a = F16::from_bits(x);
        let expected = if a.is_nan() { None } else { Some(Ordering::Equal) };
        assert_eq!(a.compare(a), expected, "{x:#x}");
        assert_eq!(a.eq(a), !a.is_nan());
    }
    assert_eq!(F16::from_bits(0).compare(F16::from_bits(SIGN)), Some(Ordering::Equal));
}

#[test]
fn f16_invalid_on_comparison() {
    let one = F16::from_bits(ONE);
    let quiet = F16::from_bits(QUIET_NAN);
    let signaling = F16::from_bits(SIGNALING_NAN);

    assert!(!one.signaling_comparison_is_invalid(one));
    assert!(one.signaling_comparison_is_invalid(quiet));
    assert!(signaling.signaling_comparison_is_invalid(one));

    assert!(!one.quiet_comparison_is_invalid(one));
    assert!(!quiet.quiet_comparison_is_invalid(one));
    assert!(one.quiet_comparison_is_invalid(signaling));
}

#[test]
fn f16_to_f16_is_identity() {
    for x in 0..=u16::MAX {
        assert_eq!(F16::from_bits(x).to_f16(RoundingMode::TiesToEven).bits(), x);
    }
}
