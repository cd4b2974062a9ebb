use vstd::prelude::*;

verus! {

/// The post-processing pass. It has no state and draws nothing yet.
#[derive(Debug, PartialEq, Eq, Structural)]
pub struct PostProcessingPass {}

impl PostProcessingPass {
    pub fn new() -> (r: Self)
        ensures
            r == (PostProcessingPass {}),
    {
        PostProcessingPass {}
    }

    /// Records nothing.
    pub fn render(&self) {
    }

    /// Keeps nothing that depends on the window size, so it leaves the pass as it is.
    pub fn resize(&mut self)
        ensures
            *final(self) == *old(self),
    {
    }
}

} // verus!
