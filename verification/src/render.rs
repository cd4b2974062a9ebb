pub mod pass;

use vstd::prelude::*;

verus! {

/// The index of an image of the swapchain.
#[derive(Debug, Copy, Clone, PartialEq, Eq, Structural)]
pub struct SwapchainIndex(pub usize);

impl SwapchainIndex {
    pub fn new(index: usize) -> (r: SwapchainIndex)
        ensures
            r == SwapchainIndex(index),
    {
        SwapchainIndex(index)
    }
}

} // verus!
