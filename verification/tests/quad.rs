use softfloat_wrapper::{RoundingMode, F128};
use std::cmp::Ordering;

const SIGN: u128 = 1 << 127;
const POS_INF: u128 = 0x7fff << 112;
const QUIET_NAN: u128 = (0x7fff << 112) | (1 << 111);
const SIGNALING_NAN: u128 = (0x7fff << 112) | 1;
const ONE: u128 = 0x3fff << 112;
const LEAST_SUBNORMAL: u128 = 1;
const GREATEST_SUBNORMAL: u128 = (1 << 112) - 1;
const LEAST_NORMAL: u128 = 1 << 112;
const GREATEST_FINITE: u128 = (0x7ffe << 112) | ((1 << 112) - 1);

/// The 128-bit pattern of a 64-bit number that is zero, normal or infinite.
fn widen(x: f64) -> u128 {
    let bits = u128::from(x.to_bits());
    let sign = (bits >> 63) << 127;
    let exponent = (bits >> 52) & 0x7ff;
    let fraction = (bits & 0xf_ffff_ffff_ffff) << 60;
    if exponent == 0 {
        assert_eq!(fraction, 0);
        sign
    } else if exponent == 0x7ff {
        assert_eq!(fraction, 0);
        sign | POS_INF
    } else {
        sign | ((exponent + 16383 - 1023) << 112) | fraction
    }
}

fn numbers() -> Vec<f64> {
    let mut v = vec![
        0.0,
        -0.0,
        1.0,
        -1.0,
        f64::INFINITY,
        f64::NEG_INFINITY,
        f64::MAX,
        f64::MIN,
        f64::MIN_POSITIVE,
        -f64::MIN_POSITIVE,
        1.5,
        -1.5,
        3.141592653589793,
    ];
    let mut x: u64 = 0x9e37_79b9_7f4a_7c15;
    while v.len() < 400 {
        x = x.wrapping_mul(6_364_136_223_846_793_005).wrapping_add(1_442_695_040_888_963_407);
        let h = f64::from_bits(x);
        if h.is_normal() {
            v.push(h);
            v.push(-h);
            v.push(f64::from_bits(x ^ 1));
        }
    }
    v
}

#[test]
fn f128_bits_round_trip() {
    for x in [0, 1, SIGN, POS_INF, QUIET_NAN, ONE, GREATEST_FINITE, u128::MAX] {
        assert_eq!(F128::from_bits(x).bits(), x);
    }
    for h in numbers() {
        assert_eq!(F128::from_bits(widen(h)).bits(), widen(h));
    }
}

#[test]
fn f128_set_payload_replaces_pattern() {
    let mut a = F128::from_bits(ONE);
    a.set_payload(u128::MAX);
    assert_eq!(a.bits(), u128::MAX);
}

#[test]
fn f128_from_words() {
    assert_eq!(F128::from_words(0, 0).bits(), 0);
    assert_eq!(F128::from_words(1, 0).bits(), 1);
    assert_eq!(F128::from_words(0, 1).bits(), 1 << 64);
    assert_eq!(F128::from_words(0, 0x3fff_0000_0000_0000).bits(), ONE);
    assert_eq!(
        F128::from_words(0x0123_4567_89ab_cdef, 0xfedc_ba98_7654_3210).bits(),
        0xfedc_ba98_7654_3210_0123_4567_89ab_cdef
    );
    assert_eq!(F128::from_words(u64::MAX, u64::MAX).bits(), u128::MAX);
    assert_eq!(F128::from_words(u64::MAX, 0).bits(), u128::from(u64::MAX));
}

#[test]
fn f128_layout_constants() {
    assert_eq!(F128::EXPONENT_BIT, 0x7fff);
    assert_eq!(F128::FRACTION_BIT, (1 << 112) - 1);
    assert_eq!(F128::SIGN_POS, 127);
    assert_eq!(F128::EXPONENT_POS, 112);
}

#[test]
fn f128_fields() {
    let a = F128::from_bits(0xc000_921f_b544_42d1_8469_898c_c517_01b8);
    assert_eq!(a.sign(), 1);
    assert_eq!(a.exponent(), 0x4000);
    assert_eq!(a.fraction(), 0x921f_b544_42d1_8469_898c_c517_01b8);

    let b = F128::from_bits(ONE);
    assert_eq!(b.sign(), 0);
    assert_eq!(b.exponent(), 16383);
    assert_eq!(b.fraction(), 0);

    let c = F128::from_bits(u128::MAX);
    assert_eq!(c.sign(), 1);
    assert_eq!(c.exponent(), 0x7fff);
    assert_eq!(c.fraction(), (1 << 112) - 1);
}

#[test]
fn f128_classes() {
    let classes = [
        // pattern, nan, signaling, infinite, zero
        (0, false, false, false, true),
        (SIGN, false, false, false, true),
        (POS_INF, false, false, true, false),
        (POS_INF | SIGN, false, false, true, false),
        (QUIET_NAN, true, false, false, false),
        (u128::MAX, true, false, false, false),
        (SIGNALING_NAN, true, true, false, false),
        (SIGNALING_NAN | SIGN, true, true, false, false),
        (QUIET_NAN - 1, true, true, false, false),
        (ONE, false, false, false, false),
        (LEAST_SUBNORMAL, false, false, false, false),
        (GREATEST_FINITE, false, false, false, false),
    ];
    for (bits, nan, signaling, infinite, zero) in classes {
        let a = F128::from_bits(bits);
        assert_eq!(a.is_nan(), nan, "{bits:#x}");
        assert_eq!(a.is_signaling_nan(), signaling, "{bits:#x}");
        assert_eq!(a.is_infinite(), infinite, "{bits:#x}");
        assert_eq!(a.is_zero(), zero, "{bits:#x}");
    }
}

#[test]
fn f128_comparisons_agree_with_narrower_numbers() {
    let s = numbers();
    for &ha in &s {
        for &hb in &s {
            let (a, b) = (F128::from_bits(widen(ha)), F128::from_bits(widen(hb)));
            assert_eq!(a.eq(b), ha == hb, "{ha:e} == {hb:e}");
            assert_eq!(a.lt(b), ha < hb, "{ha:e} < {hb:e}");
            assert_eq!(a.le(b), ha <= hb, "{ha:e} <= {hb:e}");
            assert_eq!(a.lt_quiet(b), ha < hb, "{ha:e} < {hb:e}");
            assert_eq!(a.le_quiet(b), ha <= hb, "{ha:e} <= {hb:e}");
            assert_eq!(a.compare(b), ha.partial_cmp(&hb), "{ha:e} ? {hb:e}");
        }
    }
}

#[test]
fn f128_order_of_chosen_values() {
    let ascending = [
        POS_INF | SIGN,
        GREATEST_FINITE | SIGN,
        ONE | SIGN,
        LEAST_NORMAL | SIGN,
        GREATEST_SUBNORMAL | SIGN,
        LEAST_SUBNORMAL | SIGN,
        0,
        LEAST_SUBNORMAL,
        GREATEST_SUBNORMAL,
        LEAST_NORMAL,
        ONE,
        GREATEST_FINITE,
        POS_INF,
    ];
    for i in 0..ascending.len() {
        for j in 0..ascending.len() {
            let a = F128::from_bits(ascending[i]);
            let b = F128::from_bits(ascending[j]);
            assert_eq!(a.lt(b), i < j);
            assert_eq!(a.le(b), i <= j);
            assert_eq!(a.eq(b), i == j);
            assert_eq!(a.compare(b), Some(i.cmp(&j)));
        }
    }
}

#[test]
fn f128_compare_special_cases() {
    let p = F128::from_bits(0);
    let n = F128::from_bits(SIGN);
    assert_eq!(p.compare(n), Some(Ordering::Equal));
    assert!(p.eq(n));
    assert!(!p.lt(n));
    assert!(!n.lt(p));

    for nan in [QUIET_NAN, SIGNALING_NAN, u128::MAX] {
        let q = F128::from_bits(nan);
        assert_eq!(q.compare(q), None);
        assert_eq!(q.compare(p), None);
        assert_eq!(p.compare(q), None);
        assert!(!q.eq(q));
        assert!(!q.le(q));
        assert!(!q.lt(p));
    }
}

#[test]
fn f128_invalid_on_comparison() {
    let one = F128::from_bits(ONE);
    let quiet = F128::from_bits(QUIET_NAN);
    let signaling = F128::from_bits(SIGNALING_NAN);

    assert!(!one.signaling_comparison_is_invalid(one));
    assert!(one.signaling_comparison_is_invalid(quiet));
    assert!(signaling.signaling_comparison_is_invalid(one));

    assert!(!one.quiet_comparison_is_invalid(one));
    assert!(!quiet.quiet_comparison_is_invalid(one));
    assert!(one.quiet_comparison_is_invalid(signaling));
}

#[test]
fn f128_to_f128_is_identity() {
    for x in [0, SIGN, ONE, QUIET_NAN, SIGNALING_NAN, GREATEST_FINITE, u128::MAX] {
        assert_eq!(F128::from_bits(x).to_f128(RoundingMode::TowardPositive).bits(), x);
    }
}
