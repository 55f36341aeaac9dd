use vstd::prelude::*;
use super::{CircleLerpable, Lerpable};

verus! {

/// A value together with the way it is to be reached when blended towards:
/// `From` is a value blending starts from, `Linear` is reached along a straight line,
/// `Circle` along a circle around the given origin.
#[derive(Copy, Clone)]
pub enum MultiLerp<T: Copy + Clone + Lerpable + CircleLerpable> {
    From(T),
    Linear(T),
    Circle(T, T::Origin),
}

impl<T: Lerpable + CircleLerpable + Copy + Clone> MultiLerp<T> {
    /// The value held, whichever way it is reached.
    pub open spec fn value(self) -> T {
        match self {
            MultiLerp::From(value) => value,
            MultiLerp::Linear(value) => value,
            MultiLerp::Circle(value, _) => value,
        }
    }

    /// The value held, whichever way it is reached.
    pub fn reveal_value(&self) -> (value: T)
        ensures
            value == self.value(),
    {
        match self {
            Self::From(value) => *value,
            Self::Linear(value) => *value,
            Self::Circle(value, ..) => *value,
        }
    }
}

/// True when `blended` is what blending `start` towards `target` by `scalar` gives: the
/// value of a `From` target, the `T::lerp` blend towards a `Linear` target, the
/// `T::circle_lerp` blend around the origin of a `Circle` target.
pub open spec fn blended_towards<T: Lerpable + CircleLerpable<Scalar = <T as Lerpable>::Scalar> + Copy + Clone>(
    start: T,
    target: MultiLerp<T>,
    scalar: <T as Lerpable>::Scalar,
    blended: T,
) -> bool {
    match target {
        MultiLerp::From(value) => blended == value,
        MultiLerp::Linear(value) => call_ensures(T::lerp, (&start, &value, scalar), blended),
        MultiLerp::Circle(value, origin) => call_ensures(
            T::circle_lerp,
            (&start, &value, origin, scalar),
            blended,
        ),
    }
}

impl<T: Lerpable + CircleLerpable<Scalar = <T as Lerpable>::Scalar> + Copy + Clone> Lerpable for MultiLerp<T> {
    type Scalar = <T as Lerpable>::Scalar;

    /// Blending towards a `From` value gives that value; towards a `Linear` value, the
    /// straight-line blend (`T::lerp`) of the values held; towards a `Circle` value, the
    /// blend around its origin (`T::circle_lerp`). The result is always a value to blend
    /// from.
    fn lerp(&self, other: &Self, scalar: Self::Scalar) -> (blended: Self)
        ensures
            blended is From,
            blended_towards(self.value(), *other, scalar, blended.value()),
    {
        Self::From(
            match other {
                Self::From(value) => *value,
                Self::Linear(value) => self.reveal_value().lerp(value, scalar),
                Self::Circle(value, origin) => CircleLerpable::circle_lerp(&self.reveal_value(), value, *origin, scalar),
            },
        )
    }
}

impl<T: Lerpable + CircleLerpable + Copy + Default> Default for MultiLerp<T> {
    /// A default value, reached along a straight line.
    fn default() -> (value: Self)
        ensures
            value is Linear,
            call_ensures(T::default, (), value.value()),
    {
        Self::Linear(T::default())
    }
}

} // verus!
