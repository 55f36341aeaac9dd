use vstd::prelude::*;

verus! {

/// What an entry of an object's context menu does.
#[derive(Copy, Clone, PartialEq, Eq, Structural, Debug)]
pub enum ContextAction {
    DeleteSelected,
    DuplicateSelected,
    GrabSelected,
}

} // verus!
