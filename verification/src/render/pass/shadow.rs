//! The layout of the shader binding tables of the ray traced shadow pass.
use vstd::prelude::*;

use crate::utility::{aligned_size, is_power_of_two};

verus! {

/// Where the shader group handles lie in the handle storage the driver fills: one group each
/// for ray generation, miss and hit, at aligned offsets.
#[derive(Clone, Copy, Debug, PartialEq, Eq)]
pub struct ShaderBindingTableLayout {
    pub handle_size: u32,
    pub handle_size_aligned: u32,
    /// The size of the handle storage: one aligned handle per group.
    pub sbt_size: u32,
    pub raygen: (usize, usize),
    pub miss: (usize, usize),
    pub hit: (usize, usize),
}

/// The layout of the handles of `group_count` shader groups of `handle_size` bytes each, at
/// offsets aligned to `handle_alignment`. The storage must hold the three tables' handles.
pub fn shader_binding_table_layout(handle_size: u32, handle_alignment: u32, group_count: u32) -> (r:
    ShaderBindingTableLayout)
    requires
        is_power_of_two(handle_alignment),
        handle_size + handle_alignment - 1 <= u32::MAX,
        forall|a: u32| #![trigger a % handle_alignment]
            a % handle_alignment == 0 && handle_size <= a < handle_size + handle_alignment ==> {
                &&& group_count * a <= u32::MAX
                &&& 2 * a + handle_size <= group_count * a
            },
    ensures
        r.handle_size == handle_size,
        r.handle_size_aligned % handle_alignment == 0,
        handle_size <= r.handle_size_aligned < handle_size + handle_alignment,
        r.sbt_size == group_count * r.handle_size_aligned,
        r.raygen == (0usize, handle_size as usize),
        r.miss == (r.handle_size_aligned as usize, (r.handle_size_aligned + handle_size) as usize),
        r.hit == ((2 * r.handle_size_aligned) as usize, (2 * r.handle_size_aligned + handle_size) as usize),
        r.hit.1 <= r.sbt_size,
{
    let handle_size_aligned = aligned_size(handle_size, handle_alignment);
    assert(handle_size_aligned % handle_alignment == 0);
    let sbt_size = group_count * handle_size_aligned;
    let hs = handle_size as usize;
    let hsa = handle_size_aligned as usize;
    ShaderBindingTableLayout {
        handle_size,
        handle_size_aligned,
        sbt_size,
        raygen: (0, hs),
        miss: (hsa, hsa + hs),
        hit: (hsa * 2, hsa * 2 + hs),
    }
}

} // verus!
