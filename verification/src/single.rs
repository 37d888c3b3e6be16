//! The 32-bit format: one sign bit, eight exponent bits, 23 fraction bits.

use crate::ieee::{lemma_units_increase, partial_order, units_of, Datum};
use crate::rounding::RoundingMode;
use std::cmp::Ordering;
use vstd::arithmetic::power2::{lemma2_to64, pow2};
use vstd::prelude::*;

verus! {

/// Whether the sign bit of a pattern is set.
pub open spec fn sign_of(bits: u32) -> bool {
    bits >= 0x8000_0000
}

/// The exponent field of a pattern.
pub open spec fn exponent_of(bits: u32) -> nat {
    (bits / 0x80_0000 % 0x100) as nat
}

/// The fraction field of a pattern.
pub open spec fn fraction_of(bits: u32) -> nat {
    (bits % 0x80_0000) as nat
}

/// What a pattern denotes. The unit is 2^-149.
pub open spec fn datum_of(bits: u32) -> Datum {
    if exponent_of(bits) < 0xff {
        Datum::Finite {
            negative: sign_of(bits),
            units: units_of(23, exponent_of(bits), fraction_of(bits)),
        }
    } else if fraction_of(bits) == 0 {
        Datum::Infinite { negative: sign_of(bits) }
    } else {
        Datum::Nan
    }
}

/// Whether a pattern is a signaling NaN: a NaN whose first fraction bit is
/// clear.
pub open spec fn is_signaling(bits: u32) -> bool {
    datum_of(bits) is Nan && fraction_of(bits) < 0x40_0000
}

/// A value of the 32-bit format. Any pattern is a value; none is normalised
/// or otherwise changed when it is stored.
#[derive(Copy, Clone, Debug)]
pub struct F32 {
    v: u32,
}

impl View for F32 {
    type V = u32;

    /// The stored pattern.
    closed spec fn view(&self) -> u32 {
        self.v
    }
}

impl F32 {
    /// Mask of the exponent field, once shifted down to bit 0.
    pub const EXPONENT_BIT: u32 = 0xff;

    /// Mask of the fraction field.
    pub const FRACTION_BIT: u32 = 0x7f_ffff;

    /// Position of the sign bit.
    pub const SIGN_POS: usize = 31;

    /// Position of the lowest exponent bit.
    pub const EXPONENT_POS: usize = 23;

    /// What this value denotes.
    pub open spec fn datum(&self) -> Datum {
        datum_of(self@)
    }

    /// The value with the pattern `v`.
    pub closed spec fn spec_from_bits(v: u32) -> F32 {
        F32 { v }
    }

    /// Makes the value with the pattern `v`. Every pattern is accepted.
    #[verifier::when_used_as_spec(spec_from_bits)]
    pub fn from_bits(v: u32) -> (r: F32)
        ensures
            r == F32::from_bits(v),
            r@ == v,
    {
        F32 { v }
    }

    /// Returns the pattern of this value.
    pub fn bits(&self) -> (r: u32)
        ensures
            r == self@,
    {
        self.v
    }

    /// Replaces the pattern of this value by `x`.
    pub fn set_payload(&mut self, x: u32)
        ensures
            final(self)@ == x,
    {
        self.v = x;
    }

    /// Returns the sign bit: 1 for a set sign, else 0.
    pub fn sign(&self) -> (r: u32)
        ensures
            r == if sign_of(self@) { 1u32 } else { 0u32 },
    {
        let v: u32 = self.v;
        assert((v >> 31) & 1 == if v >= 0x8000_0000 { 1u32 } else { 0u32 })
            by (bit_vector);
        (v >> Self::SIGN_POS) & 1
    }

    /// Returns the exponent field.
    pub fn exponent(&self) -> (r: u32)
        ensures
            r == exponent_of(self@),
    {
        let v: u32 = self.v;
        assert((v >> 23) & 0xff == v / 0x80_0000 % 0x100)
            by (bit_vector);
        (v >> Self::EXPONENT_POS) & Self::EXPONENT_BIT
    }

    /// Returns the fraction field.
    pub fn fraction(&self) -> (r: u32)
        ensures
            r == fraction_of(self@),
    {
        let v: u32 = self.v;
        assert(v & 0x7f_ffff == v % 0x80_0000) by (bit_vector);
        v & Self::FRACTION_BIT
    }

    /// Whether this value is not a number.
    pub fn is_nan(&self) -> (r: bool)
        ensures
            r == (self.datum() is Nan),
    {
        self.exponent() == Self::EXPONENT_BIT && self.fraction() != 0
    }

    /// Whether this value is a signaling NaN.
    pub fn is_signaling_nan(&self) -> (r: bool)
        ensures
            r == is_signaling(self@),
    {
        self.is_nan() && self.fraction() < 0x40_0000
    }

    /// Whether this value is an infinity, of either sign.
    pub fn is_infinite(&self) -> (r: bool)
        ensures
            r == (self.datum() is Infinite),
    {
        self.exponent() == Self::EXPONENT_BIT && self.fraction() == 0
    }

    /// Whether this value is a zero, of either sign.
    pub fn is_zero(&self) -> (r: bool)
        ensures
            r == self.datum().is_zero(),
    {
        proof {
            lemma_zero_units(self@);
        }
        self.exponent() == 0 && self.fraction() == 0
    }

    /// Whether the sign bit is set.
    fn is_negative(&self) -> (r: bool)
        ensures
            r == sign_of(self@),
    {
        self.sign() == 1
    }

    /// The pattern without its sign bit.
    fn magnitude(&self) -> (r: u32)
        ensures
            r == self@ % 0x8000_0000,
    {
        let v: u32 = self.v;
        assert(v & 0x7fff_ffff == v % 0x8000_0000) by (bit_vector);
        v & 0x7fff_ffff
    }

    /// Whether both are numbers and the same number. No NaN equals anything,
    /// itself included; the two zeros are equal.
    pub fn eq(&self, x: F32) -> (r: bool)
        ensures
            r == self.datum().is_same_number(x.datum()),
    {
        if self.is_nan() || x.is_nan() {
            return false;
        }
        proof {
            lemma_order_by_pattern(self@, x@);
        }
        self.v == x.v || (self.magnitude() == 0 && x.magnitude() == 0)
    }

    /// Whether both are numbers and this one is less than `x`.
    pub fn lt(&self, x: F32) -> (r: bool)
        ensures
            r == self.datum().is_below(x.datum()),
    {
        if self.is_nan() || x.is_nan() {
            return false;
        }
        proof {
            lemma_order_by_pattern(self@, x@);
        }
        let a: u32 = self.magnitude();
        let b: u32 = x.magnitude();
        if self.is_negative() != x.is_negative() {
            self.is_negative() && (a != 0 || b != 0)
        } else if self.is_negative() {
            b < a
        } else {
            a < b
        }
    }

    /// Whether both are numbers and this one is less than or equal to `x`.
    pub fn le(&self, x: F32) -> (r: bool)
        ensures
            r == self.datum().is_at_most(x.datum()),
    {
        let below = self.lt(x);
        below || self.eq(x)
    }

    /// As [`F32::lt`] in what it returns. The two differ in when they raise
    /// the invalid-operation condition: this one as
    /// [`F32::quiet_comparison_is_invalid`] says, that one as
    /// [`F32::signaling_comparison_is_invalid`] says.
    pub fn lt_quiet(&self, x: F32) -> (r: bool)
        ensures
            r == self.datum().is_below(x.datum()),
    {
        self.lt(x)
    }

    /// As [`F32::le`] in what it returns. The two differ in when they raise
    /// the invalid-operation condition: this one as
    /// [`F32::quiet_comparison_is_invalid`] says, that one as
    /// [`F32::signaling_comparison_is_invalid`] says.
    pub fn le_quiet(&self, x: F32) -> (r: bool)
        ensures
            r == self.datum().is_at_most(x.datum()),
    {
        self.le(x)
    }

    /// Whether `lt` and `le` of this value and `x` raise the
    /// invalid-operation condition: they do as soon as one operand is a NaN.
    pub fn signaling_comparison_is_invalid(&self, x: F32) -> (r: bool)
        ensures
            r == (self.datum() is Nan || x.datum() is Nan),
    {
        self.is_nan() || x.is_nan()
    }

    /// Whether `eq`, `lt_quiet` and `le_quiet` of this value and `x` raise
    /// the invalid-operation condition: they do only where one operand is a
    /// signaling NaN.
    pub fn quiet_comparison_is_invalid(&self, x: F32) -> (r: bool)
        ensures
            r == (is_signaling(self@) || is_signaling(x@)),
    {
        self.is_signaling_nan() || x.is_signaling_nan()
    }

    /// Orders this value against `x`: `None` where one of them is a NaN,
    /// else how the two numbers stand. The two zeros are equal.
    pub fn compare(&self, x: F32) -> (r: Option<Ordering>)
        ensures
            r == partial_order(self.datum(), x.datum()),
    {
        let eq = self.eq(x);
        let lt = self.lt(x);
        if self.is_nan() || x.is_nan() {
            None
        } else if eq {
            Some(Ordering::Equal)
        } else if lt {
            Some(Ordering::Less)
        } else {
            Some(Ordering::Greater)
        }
    }

    /// Converts to the 32-bit format, which changes nothing, whatever the
    /// rounding direction.
    pub fn to_f32(&self, _rnd: RoundingMode) -> (r: F32)
        ensures
            r == *self,
    {
        F32::from_bits(self.bits())
    }

    /// The three fields partition the pattern: the sign bit on top, the
    /// exponent field below it, the fraction field at the bottom.
    pub proof fn law_fields_partition(bits: u32)
        ensures
            exponent_of(bits) <= 0xff,
            fraction_of(bits) < 0x80_0000,
            bits == (if sign_of(bits) { 0x8000_0000int } else { 0int })
                + exponent_of(bits) * 0x80_0000 + fraction_of(bits),
    {
    }

    /// Two numbers compare equal exactly when their patterns are the same or
    /// both are zeros.
    pub proof fn law_equal_by_pattern_or_zero(a: F32, b: F32)
        requires
            !(a.datum() is Nan),
            !(b.datum() is Nan),
        ensures
            partial_order(a.datum(), b.datum()) == Some(Ordering::Equal) <==> a@ == b@ || (
            a.datum().is_zero() && b.datum().is_zero()),
    {
        lemma_order_by_pattern(a@, b@);
        lemma_zero_units(a@);
        lemma_zero_units(b@);
    }

    /// A value made from a pattern holds that pattern.
    pub proof fn law_pattern_is_kept(x: u32)
        ensures
            F32::from_bits(x)@ == x,
    {
    }

    /// A value is the one made from its pattern: two values with one pattern
    /// are one value.
    pub proof fn law_value_is_its_pattern(a: F32)
        ensures
            F32::from_bits(a@) == a,
    {
    }
}

/// There are 2^23 fractions.
proof fn lemma_fraction_count()
    ensures
        pow2(23) == 0x80_0000,
{
    lemma2_to64();
}

/// The order of two numbers, read off their patterns: by sign first, then by
/// the patterns without sign, which grow with the magnitude.
pub proof fn lemma_order_by_pattern(a: u32, b: u32)
    requires
        !(datum_of(a) is Nan),
        !(datum_of(b) is Nan),
    ensures
        datum_of(a).is_same_number(datum_of(b)) <==> a == b || (a % 0x8000_0000 == 0
            && b % 0x8000_0000 == 0),
        datum_of(a).is_below(datum_of(b)) <==> if sign_of(a) != sign_of(b) {
            sign_of(a) && (a % 0x8000_0000 != 0 || b % 0x8000_0000 != 0)
        } else if sign_of(a) {
            b % 0x8000_0000 < a % 0x8000_0000
        } else {
            a % 0x8000_0000 < b % 0x8000_0000
        },
{
    lemma_fraction_count();
    lemma_zero_units(a);
    lemma_zero_units(b);
    let (ea, fa) = (exponent_of(a), fraction_of(a));
    let (eb, fb) = (exponent_of(b), fraction_of(b));
    let ma = a % 0x8000_0000;
    let mb = b % 0x8000_0000;
    assert(ma == ea * 0x80_0000 + fa);
    assert(mb == eb * 0x80_0000 + fb);
    if ea < 0xff && eb < 0xff {
        if ma < mb {
            lemma_units_increase(23, ea, fa, eb, fb);
        } else if mb < ma {
            lemma_units_increase(23, eb, fb, ea, fa);
        }
    }
}

/// Only the two zeros have no units.
pub proof fn lemma_zero_units(bits: u32)
    ensures
        datum_of(bits) is Finite ==> (datum_of(bits)->units == 0 <==> exponent_of(bits) == 0
            && fraction_of(bits) == 0),
{
    lemma_fraction_count();
    let e = exponent_of(bits);
    let f = fraction_of(bits);
    if e != 0 || f != 0 {
        lemma_units_increase(23, 0, 0, e, f);
    }
}

} // verus!
