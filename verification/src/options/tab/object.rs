use vstd::prelude::*;

verus! {

/// The options tab for the selected object; it holds no state of its own.
pub struct Object {}

impl Object {
    pub fn new() -> (tab: Self)
        ensures
            tab == (Object {}),
    {
        Self {}
    }
}

} // verus!
