use vstd::prelude::*;

verus! {

/// Reading a flag that resets itself once it has been read.
pub trait BoolPoll: Sized {
    fn poll(&mut self) -> Self;
}

/// Polling a flag: the value read, and the flag's value afterwards.
pub open spec fn polled(flag: bool) -> (bool, bool) {
    (flag, false)
}

impl BoolPoll for bool {
    /// Returns the flag's value and clears it.
    fn poll(&mut self) -> (was_set: bool)
        ensures
            (was_set, *final(self)) == polled(*old(self)),
    {
        if *self {
            *self = false;
            true
        } else {
            false
        }
    }
}

/// A flag reads as set at most once: polling it again right away reads `false`.
pub proof fn lemma_poll_twice(flag: bool)
    ensures
        polled(polled(flag).1).0 == false,
        polled(polled(flag).1).1 == false,
{
}

} // verus!
