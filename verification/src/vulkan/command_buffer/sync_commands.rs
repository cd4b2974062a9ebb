//! The synchronisation commands: pipeline barriers and layout transitions.
use vstd::prelude::*;

use crate::vulkan::flags::{
    ACCESS_MEMORY_READ, ACCESS_MEMORY_WRITE, ACCESS_SHADER_READ, ACCESS_SHADER_WRITE, STAGE_ALL_COMMANDS,
};
use crate::vulkan::sync_manager::resource_access::{BufferHandle, ImageAccess, ImageAccessInfo, ImageHandle, ImageSubresourceRange};

verus! {

/// A global memory barrier (`VkMemoryBarrier2`).
#[derive(Clone, Copy, Debug, PartialEq, Eq, Structural)]
pub struct MemoryBarrier {
    pub src_stage_mask: u64,
    pub src_access_mask: u64,
    pub dst_stage_mask: u64,
    pub dst_access_mask: u64,
}

/// A barrier on a range of a buffer (`VkBufferMemoryBarrier2`).
#[derive(Clone, Copy, Debug, PartialEq, Eq, Structural)]
pub struct BufferMemoryBarrier {
    pub src_stage_mask: u64,
    pub src_access_mask: u64,
    pub dst_stage_mask: u64,
    pub dst_access_mask: u64,
    pub src_queue_family_index: u32,
    pub dst_queue_family_index: u32,
    pub buffer: BufferHandle,
    pub offset: u64,
    pub size: u64,
}

/// A barrier on mip levels of an image, with a layout transition (`VkImageMemoryBarrier2`).
#[derive(Clone, Copy, Debug, PartialEq, Eq, Structural)]
pub struct ImageMemoryBarrier {
    pub src_stage_mask: u64,
    pub src_access_mask: u64,
    pub dst_stage_mask: u64,
    pub dst_access_mask: u64,
    pub old_layout: i32,
    pub new_layout: i32,
    pub src_queue_family_index: u32,
    pub dst_queue_family_index: u32,
    pub image: ImageHandle,
    pub subresource_range: ImageSubresourceRange,
}

/// A pipeline barrier command (`vkCmdPipelineBarrier2`).
pub struct CmdPipelineBarrier {
    pub dependency_flags: u32,
    pub memory_barriers: Vec<MemoryBarrier>,
    pub buffer_memory_barriers: Vec<BufferMemoryBarrier>,
    pub image_memory_barriers: Vec<ImageMemoryBarrier>,
}

/// A barrier that waits for everything: all commands, all memory accesses.
pub struct CmdFullBarrier {}

/// The access kinds the full barrier waits for and makes visible.
pub open spec fn full_barrier_access() -> u64 {
    ACCESS_MEMORY_READ | ACCESS_MEMORY_WRITE | ACCESS_SHADER_WRITE | ACCESS_SHADER_READ
}

impl CmdFullBarrier {
    /// The pipeline barrier the command records: one memory barrier from all commands and
    /// all memory accesses to all commands and all memory accesses.
    pub fn barrier(&self) -> (r: CmdPipelineBarrier)
        ensures
            r.dependency_flags == 0,
            r.memory_barriers@ == seq![
                MemoryBarrier {
                    src_stage_mask: STAGE_ALL_COMMANDS,
                    src_access_mask: full_barrier_access(),
                    dst_stage_mask: STAGE_ALL_COMMANDS,
                    dst_access_mask: full_barrier_access(),
                },
            ],
            r.buffer_memory_barriers@.len() == 0,
            r.image_memory_barriers@.len() == 0,
    {
        let access = ACCESS_MEMORY_READ | ACCESS_MEMORY_WRITE | ACCESS_SHADER_WRITE | ACCESS_SHADER_READ;
        let mut memory_barriers: Vec<MemoryBarrier> = Vec::new();
        memory_barriers.push(
            MemoryBarrier {
                src_stage_mask: STAGE_ALL_COMMANDS,
                src_access_mask: access,
                dst_stage_mask: STAGE_ALL_COMMANDS,
                dst_access_mask: access,
            },
        );
        assert(memory_barriers@ =~= seq![
            MemoryBarrier {
                src_stage_mask: STAGE_ALL_COMMANDS,
                src_access_mask: full_barrier_access(),
                dst_stage_mask: STAGE_ALL_COMMANDS,
                dst_access_mask: full_barrier_access(),
            },
        ]);
        CmdPipelineBarrier {
            dependency_flags: 0,
            memory_barriers,
            buffer_memory_barriers: Vec::new(),
            image_memory_barriers: Vec::new(),
        }
    }
}

/// Moves mip levels of an image into a new layout.
#[derive(Clone, Copy, Debug, PartialEq, Eq, Structural)]
pub struct CmdLayoutTransition {
    pub image: ImageHandle,
    pub new_layout: i32,
    pub subresource_range: ImageSubresourceRange,
}

impl CmdLayoutTransition {
    /// The access the transition announces: by all commands, of all memory access kinds, in
    /// the new layout, on its subresource range.
    pub fn access(&self) -> (r: ImageAccess)
        ensures
            r == (ImageAccess {
                image: self.image,
                layout: self.new_layout,
                access: ImageAccessInfo {
                    stage: STAGE_ALL_COMMANDS,
                    access: full_barrier_access(),
                    subresource_range: self.subresource_range,
                },
            }),
    {
        ImageAccess::new(
            self.image,
            STAGE_ALL_COMMANDS,
            ACCESS_MEMORY_READ | ACCESS_MEMORY_WRITE | ACCESS_SHADER_WRITE | ACCESS_SHADER_READ,
            self.new_layout,
            self.subresource_range,
        )
    }
}

} // verus!
