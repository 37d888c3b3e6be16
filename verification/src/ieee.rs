//! What the patterns of a binary format denote, and how the denoted values
//! are ordered. Everything here is specification and proof; the formats
//! themselves live in their own modules.

use std::cmp::Ordering;
use vstd::arithmetic::power2::{
    lemma_pow2_pos, lemma_pow2_strictly_increases, lemma_pow2_unfold, pow2,
};
use vstd::prelude::*;

verus! {

/// The meaning of one bit pattern.
///
/// Every finite value of a format is a whole multiple of the format's least
/// positive value, its unit (2^-149 for the 32-bit format); `units` counts
/// that multiple. Zero keeps its sign.
pub enum Datum {
    /// Not a number.
    Nan,
    /// An infinity.
    Infinite { negative: bool },
    /// The number `units` times the unit, negated if `negative`.
    Finite { negative: bool, units: nat },
}

impl Datum {
    /// The finite number in units, with its sign. Both zeros are 0.
    pub open spec fn signed_units(self) -> int
        recommends
            self is Finite,
    {
        if self->Finite_negative {
            -(self->units as int)
        } else {
            self->units as int
        }
    }

    /// Whether this is a zero, of either sign.
    pub open spec fn is_zero(self) -> bool {
        self is Finite && self->units == 0
    }

    /// Whether `self` is a number less than the number `other`. False as
    /// soon as one of them is not a number.
    pub open spec fn is_below(self, other: Datum) -> bool {
        match (self, other) {
            (Datum::Nan, _) => false,
            (_, Datum::Nan) => false,
            (Datum::Infinite { negative: a }, Datum::Infinite { negative: b }) => a && !b,
            (Datum::Infinite { negative }, Datum::Finite { .. }) => negative,
            (Datum::Finite { .. }, Datum::Infinite { negative }) => !negative,
            (Datum::Finite { .. }, Datum::Finite { .. }) => self.signed_units()
                < other.signed_units(),
        }
    }

    /// Whether both are numbers and `self` is less than or equal to
    /// `other`.
    pub open spec fn is_at_most(self, other: Datum) -> bool {
        self.is_below(other) || self.is_same_number(other)
    }

    /// Whether both are numbers, and the same number. The two zeros are the
    /// same number.
    pub open spec fn is_same_number(self, other: Datum) -> bool {
        match (self, other) {
            (Datum::Infinite { negative: a }, Datum::Infinite { negative: b }) => a == b,
            (Datum::Finite { .. }, Datum::Finite { .. }) => self.signed_units()
                == other.signed_units(),
            _ => false,
        }
    }
}

/// How two data stand to each other: nothing where one of them is not a
/// number, else the order of the two numbers.
pub open spec fn partial_order(a: Datum, b: Datum) -> Option<Ordering> {
    if a is Nan || b is Nan {
        None
    } else if a.is_below(b) {
        Some(Ordering::Less)
    } else if b.is_below(a) {
        Some(Ordering::Greater)
    } else {
        Some(Ordering::Equal)
    }
}

/// The outcome of ordering says which of the three relations holds: exactly
/// one does between two numbers, and none where one of the two is not a
/// number.
pub proof fn law_order_names_the_relation(a: Datum, b: Datum)
    ensures
        partial_order(a, b) == Some(Ordering::Less) <==> a.is_below(b),
        partial_order(a, b) == Some(Ordering::Equal) <==> a.is_same_number(b),
        partial_order(a, b) == Some(Ordering::Greater) <==> b.is_below(a),
        partial_order(a, b) is None <==> a is Nan || b is Nan,
{
}

/// Ordered against itself a number is equal, and a NaN is unordered.
pub proof fn law_order_with_itself(a: Datum)
    ensures
        partial_order(a, a) == if a is Nan {
            None::<Ordering>
        } else {
            Some(Ordering::Equal)
        },
{
}

/// Two zeros are equal, whatever their signs.
pub proof fn law_zeros_are_equal(a: Datum, b: Datum)
    requires
        a.is_zero(),
        b.is_zero(),
    ensures
        a.is_same_number(b),
        partial_order(a, b) == Some(Ordering::Equal),
{
}

/// A NaN is neither equal to anything nor below or above anything, itself
/// included.
pub proof fn law_nan_is_unordered(a: Datum, b: Datum)
    requires
        a is Nan || b is Nan,
    ensures
        !a.is_same_number(b),
        !a.is_below(b),
        !b.is_below(a),
        partial_order(a, b) is None,
{
}

/// The magnitude, in units, that a format with `fraction_bits` fraction bits
/// gives to the exponent field `exponent` and the fraction field `fraction`:
/// the fraction alone while the exponent field is zero, and above that the
/// fraction with its hidden leading bit, doubled with every step of the
/// exponent.
pub open spec fn units_of(fraction_bits: nat, exponent: nat, fraction: nat) -> nat {
    if exponent == 0 {
        fraction
    } else {
        (pow2(fraction_bits) + fraction) * pow2((exponent - 1) as nat)
    }
}

/// A larger exponent field, or the same with a larger fraction field, gives
/// a larger magnitude.
pub proof fn lemma_units_increase(fraction_bits: nat, e1: nat, f1: nat, e2: nat, f2: nat)
    requires
        f1 < pow2(fraction_bits),
        f2 < pow2(fraction_bits),
        e1 < e2 || (e1 == e2 && f1 < f2),
    ensures
        units_of(fraction_bits, e1, f1) < units_of(fraction_bits, e2, f2),
{
    let p = pow2(fraction_bits);
    lemma_pow2_pos(fraction_bits);
    if e1 == e2 {
        if e1 > 0 {
            let s = pow2((e1 - 1) as nat);
            lemma_pow2_pos((e1 - 1) as nat);
            assert((p + f1) * s < (p + f2) * s) by (nonlinear_arith)
                requires
                    f1 < f2,
                    s > 0,
            ;
        }
    } else {
        let s2 = pow2((e2 - 1) as nat);
        lemma_pow2_pos((e2 - 1) as nat);
        assert(p * s2 <= (p + f2) * s2) by (nonlinear_arith)
            requires
                s2 > 0,
        ;
        if e1 == 0 {
            assert(p <= p * s2) by (nonlinear_arith)
                requires
                    s2 > 0,
                    p > 0,
            ;
        } else {
            let s1 = pow2((e1 - 1) as nat);
            lemma_pow2_pos((e1 - 1) as nat);
            lemma_pow2_unfold(e1);
            assert(pow2(e1) <= s2) by {
                if e1 < e2 - 1 {
                    lemma_pow2_strictly_increases(e1, (e2 - 1) as nat);
                }
            }
            assert((p + f1) * s1 < p * s2) by (nonlinear_arith)
                requires
                    f1 < p,
                    s1 > 0,
                    2 * s1 <= s2,
            ;
        }
    }
}

} // verus!
