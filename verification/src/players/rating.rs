use vstd::prelude::*;

verus! {

/// The class of a floating-point value, as `f64::classify` reports it.
#[derive(Debug, Clone, Copy, PartialEq, Eq, Structural)]
pub enum FloatClass {
    Nan,
    Infinite,
    Zero,
    Subnormal,
    Normal,
}

/// Why a number is not a valid player rating.
#[derive(Debug, Clone, Copy, PartialEq, Eq, Structural)]
pub enum InvalidPlayerRating {
    /// is NaN
    IsNaN,
    /// is ∞
    IsInfinity,
    /// is subnormal
    IsSubnormal,
    /// is negative
    IsNegative,
}

/// The verdict on a rating of class `class` whose sign bit is `negative`
/// (`TryFrom<f64> for PlayerRating`): zero and normal numbers without a sign
/// bit are accepted.
pub open spec fn rating_verdict(class: FloatClass, negative: bool) -> Result<(), InvalidPlayerRating> {
    match class {
        FloatClass::Nan => Err(InvalidPlayerRating::IsNaN),
        FloatClass::Infinite => Err(InvalidPlayerRating::IsInfinity),
        FloatClass::Subnormal => Err(InvalidPlayerRating::IsSubnormal),
        _ => if negative {
            Err(InvalidPlayerRating::IsNegative)
        } else {
            Ok(())
        },
    }
}

/// Decides whether a number of class `class` with sign bit `negative` is a
/// valid player rating.
pub fn check_rating(class: FloatClass, negative: bool) -> (r: Result<(), InvalidPlayerRating>)
    ensures
        r == rating_verdict(class, negative),
{
    match class {
        FloatClass::Nan => Err(InvalidPlayerRating::IsNaN),
        FloatClass::Infinite => Err(InvalidPlayerRating::IsInfinity),
        FloatClass::Subnormal => Err(InvalidPlayerRating::IsSubnormal),
        FloatClass::Zero | FloatClass::Normal => {
            if negative {
                Err(InvalidPlayerRating::IsNegative)
            } else {
                Ok(())
            }
        },
    }
}

} // verus!
