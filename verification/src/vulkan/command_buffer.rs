//! The recorded commands whose contents the renderer decides: pipeline barriers and the
//! accesses that copies, blits and builds announce to the synchronisation.
pub mod commands;
pub mod sync_commands;

pub use self::commands::{
    BufferImageCopy, BuildGeometryInfo, CmdBlitImage, CmdBuildAccelerationStructures, CmdCopyBuffer, CmdCopyBufferToImage,
    EndCommandBuffer,
    GeometryData, ImageBlit, ImageSubresourceLayers,
};
pub use self::sync_commands::{
    BufferMemoryBarrier, CmdFullBarrier, CmdLayoutTransition, CmdPipelineBarrier, ImageMemoryBarrier, MemoryBarrier,
};
