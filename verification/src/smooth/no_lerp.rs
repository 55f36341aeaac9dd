use vstd::prelude::*;
use core::ops::Deref;
use super::Lerpable;

verus! {

/// A value that jumps to its new value instead of blending towards it.
#[derive(Default, Copy, Clone)]
pub struct NoLerp<T: Lerpable + Copy>(pub T);

impl<T: Lerpable + Copy> Lerpable for NoLerp<T> {
    type Scalar = T::Scalar;

    /// Gives `other` whatever the scalar.
    fn lerp(&self, other: &Self, _scalar: Self::Scalar) -> (blended: Self)
        ensures
            blended == *other,
    {
        *other
    }
}

impl<T: Lerpable + Copy> Deref for NoLerp<T> {
    type Target = T;

    fn deref(&self) -> (inner: &Self::Target)
        ensures
            *inner == self.0,
    {
        &self.0
    }
}

} // verus!
