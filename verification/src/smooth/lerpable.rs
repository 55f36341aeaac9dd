use vstd::prelude::*;

verus! {

/// Values that can be blended towards another value by a scalar amount.
pub trait Lerpable: Sized {
    type Scalar;

    /// Blends `self` towards `other` by `scalar`.
    fn lerp(&self, other: &Self, scalar: Self::Scalar) -> Self;
}

} // verus!
