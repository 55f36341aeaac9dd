use vstd::prelude::*;

verus! {

/// Values that can be blended towards another value along a circle around an origin.
pub trait CircleLerpable: Sized {
    type Origin: Copy + Clone;
    type Scalar: Copy + Clone;

    /// Blends `self` towards `other` along a circle around `origin` by `scalar`.
    fn circle_lerp(&self, other: &Self, origin: Self::Origin, scalar: Self::Scalar) -> Self;
}

} // verus!
