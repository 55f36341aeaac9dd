use vstd::prelude::*;

verus! {

/// Whether a key press was taken by the component it was offered to.
#[derive(Debug, PartialEq, Eq, Structural, Clone, Copy)]
pub enum KeyCapture {
    Capture,
    Miss,
}

impl KeyCapture {
    /// `Some` of a capture, `None` of a miss.
    pub fn to_option(self) -> (option: Option<KeyCapture>)
        ensures
            option == (if self == KeyCapture::Miss { None } else { Some(self) }),
    {
        if self != KeyCapture::Miss {
            Some(self)
        } else {
            None
        }
    }
}

} // verus!
