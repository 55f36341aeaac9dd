use vstd::prelude::*;

verus! {

/// A handle to an object (a "squid") of the document: the number that the world
/// (`Ocean`) handed out when the object was added. A number is never handed out twice.
#[derive(Clone, Copy, PartialEq, Eq, Structural, Debug, Hash)]
pub struct SquidRef(pub u64);

/// A handle to a part (a "limb") of an object.
#[derive(Clone, Copy, PartialEq, Eq, Structural, Debug, Hash)]
pub struct SquidLimbRef(pub u64);

} // verus!
