use vstd::prelude::*;

verus! {

/// Values that can be gathered in small amounts and given out in whole steps.
pub trait Accumulatable: Sized {
    type Threshold;

    /// The empty amount.
    fn zero() -> Self;

    /// Adds `other` and takes out whole steps of `threshold`, which are returned.
    fn accumulate(&mut self, other: &Self, threshold: Self::Threshold) -> Option<Self>;
}

/// Gathers amounts until they make up whole steps.
#[derive(Copy, Clone, Default)]
pub struct Accumulator<T: Accumulatable> {
    value: T,
}

impl<T: Accumulatable> View for Accumulator<T> {
    type V = T;

    /// The amount gathered and not yet given out.
    closed spec fn view(&self) -> T {
        self.value
    }
}

impl<T: Accumulatable> Accumulator<T> {
    /// An accumulator holding the empty amount `T::zero()`.
    pub fn new() -> (accumulator: Self)
        ensures
            call_ensures(T::zero, (), accumulator@),
    {
        Self { value: T::zero() }
    }

    /// Drops the amount gathered, holding `T::zero()` again.
    pub fn clear(&mut self)
        ensures
            call_ensures(T::zero, (), final(self)@),
    {
        self.value = T::zero();
    }

    /// Adds `other` with `T::accumulate`; returns the whole steps of `threshold` that it
    /// completes, if any. The amount gathered before and after, and what is returned, are
    /// exactly those of one call of `T::accumulate` on the amount gathered.
    pub fn accumulate(&mut self, other: &T, threshold: T::Threshold) -> (taken: Option<T>)
        ensures
            exists|gathered: &mut T| {
                &&& *gathered == old(self)@
                &&& *final(gathered) == final(self)@
                &&& call_ensures(T::accumulate, (gathered, other, threshold), taken)
            },
    {
        self.value.accumulate(other, threshold)
    }

    /// The amount gathered and not yet given out.
    pub fn residue(&self) -> (residue: &T)
        ensures
            *residue == self@,
    {
        &self.value
    }
}

} // verus!
