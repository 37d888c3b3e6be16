//! The rounding directions of IEEE-754.

use vstd::prelude::*;

verus! {

/// The direction in which an inexact result is brought to a representable
/// value. It is chosen anew for every operation and owned by no value.
#[derive(Copy, Clone, Debug)]
pub enum RoundingMode {
    /// To the nearest value; of two equally near, to the one whose last
    /// fraction bit is zero.
    TiesToEven,
    /// To the nearest value that is not larger in magnitude.
    TowardZero,
    /// To the nearest value that is not greater.
    TowardNegative,
    /// To the nearest value that is not less.
    TowardPositive,
    /// To the nearest value; of two equally near, to the one larger in
    /// magnitude.
    TiesToAway,
}

impl RoundingMode {
    /// The number under which Berkeley SoftFloat knows this direction.
    pub open spec fn code(self) -> u8 {
        match self {
            RoundingMode::TiesToEven => 0,
            RoundingMode::TowardZero => 1,
            RoundingMode::TowardNegative => 2,
            RoundingMode::TowardPositive => 3,
            RoundingMode::TiesToAway => 4,
        }
    }

    /// Returns the number that a SoftFloat kernel expects for this direction.
    pub fn to_softfloat(&self) -> (r: u8)
        ensures
            r == self.code(),
    {
        match self {
            RoundingMode::TiesToEven => 0,
            RoundingMode::TowardZero => 1,
            RoundingMode::TowardNegative => 2,
            RoundingMode::TowardPositive => 3,
            RoundingMode::TiesToAway => 4,
        }
    }
}

} // verus!
