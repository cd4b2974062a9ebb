//! The raw values of the Vulkan enumerations and bit masks the renderer's decisions use.
use vstd::prelude::*;

verus! {

// VkAccessFlags2
pub const ACCESS_NONE: u64 = 0;
pub const ACCESS_SHADER_READ: u64 = 0x20;
pub const ACCESS_SHADER_WRITE: u64 = 0x40;
pub const ACCESS_COLOR_ATTACHMENT_WRITE: u64 = 0x100;
pub const ACCESS_DEPTH_STENCIL_ATTACHMENT_WRITE: u64 = 0x400;
pub const ACCESS_TRANSFER_READ: u64 = 0x800;
pub const ACCESS_TRANSFER_WRITE: u64 = 0x1000;
pub const ACCESS_HOST_WRITE: u64 = 0x4000;
pub const ACCESS_MEMORY_READ: u64 = 0x8000;
pub const ACCESS_MEMORY_WRITE: u64 = 0x10000;
pub const ACCESS_ACCELERATION_STRUCTURE_READ: u64 = 0x20_0000;
pub const ACCESS_ACCELERATION_STRUCTURE_WRITE: u64 = 0x40_0000;
pub const ACCESS_SHADER_STORAGE_WRITE: u64 = 0x4_0000_0000;

// VkPipelineStageFlags2
pub const STAGE_NONE: u64 = 0;
pub const STAGE_TRANSFER: u64 = 0x1000;
pub const STAGE_ALL_COMMANDS: u64 = 0x10000;
pub const STAGE_ACCELERATION_STRUCTURE_BUILD: u64 = 0x200_0000;

// VkImageLayout
pub const LAYOUT_UNDEFINED: i32 = 0;
pub const LAYOUT_SHADER_READ_ONLY_OPTIMAL: i32 = 5;
pub const LAYOUT_TRANSFER_SRC_OPTIMAL: i32 = 6;
pub const LAYOUT_TRANSFER_DST_OPTIMAL: i32 = 7;

// VkImageAspectFlags
pub const ASPECT_COLOR: u32 = 1;
pub const ASPECT_DEPTH: u32 = 2;

/// `VK_WHOLE_SIZE`
pub const WHOLE_SIZE: u64 = 0xFFFF_FFFF_FFFF_FFFF;

/// `VK_QUEUE_FAMILY_IGNORED`
pub const QUEUE_FAMILY_IGNORED: u32 = 0xFFFF_FFFF;

/// The access kinds that write.
pub const WRITE_ACCESS_FLAGS: u64 = 0x4_0001_5540;

} // verus!
