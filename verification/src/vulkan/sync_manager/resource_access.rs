use vstd::prelude::*;

use super::interval::KeyRange;
use crate::vulkan::flags::{
    ACCESS_MEMORY_READ, ACCESS_MEMORY_WRITE, STAGE_ALL_COMMANDS, WHOLE_SIZE, WRITE_ACCESS_FLAGS,
};

verus! {

pub open spec fn spec_is_write(access: u64) -> bool {
    access & WRITE_ACCESS_FLAGS != 0
}

/// Whether an access mask holds an access kind that writes.
pub fn is_write(access: u64) -> (r: bool)
    ensures
        r == spec_is_write(access),
{
    access & WRITE_ACCESS_FLAGS != 0
}

/// A buffer as the synchronisation tracks it: its resource key and its size in bytes.
#[derive(Clone, Copy, Debug, PartialEq, Eq, Structural)]
pub struct BufferHandle {
    pub key: u64,
    pub size: u64,
}

/// An image as the synchronisation tracks it: its resource key and its number of mip levels.
#[derive(Clone, Copy, Debug, PartialEq, Eq, Structural)]
pub struct ImageHandle {
    pub key: u64,
    pub mip_levels: u32,
}

#[derive(Clone, Copy, Debug, PartialEq, Eq, Structural)]
pub struct BufferAccessInfo {
    pub stage: u64,
    pub access: u64,
    pub offset: u64,
    pub size: u64,
}

#[derive(Clone, Copy, Debug, PartialEq, Eq, Structural)]
pub struct BufferAccess {
    pub buffer: BufferHandle,
    pub access: BufferAccessInfo,
}

impl BufferAccess {
    /// An access that waits for everything that happened to the whole buffer.
    pub fn wait_all(buffer: BufferHandle) -> (r: Self)
        ensures
            r == (BufferAccess {
                buffer,
                access: BufferAccessInfo {
                    stage: STAGE_ALL_COMMANDS,
                    access: ACCESS_MEMORY_READ | ACCESS_MEMORY_WRITE,
                    offset: 0,
                    size: WHOLE_SIZE,
                },
            }),
    {
        BufferAccess {
            buffer,
            access: BufferAccessInfo {
                stage: STAGE_ALL_COMMANDS,
                access: ACCESS_MEMORY_READ | ACCESS_MEMORY_WRITE,
                offset: 0,
                size: WHOLE_SIZE,
            },
        }
    }

    /// An access to the whole buffer.
    pub fn entire_buffer(buffer: BufferHandle, stage: u64, access_flags: u64) -> (r: Self)
        ensures
            r == (BufferAccess {
                buffer,
                access: BufferAccessInfo { stage, access: access_flags, offset: 0, size: WHOLE_SIZE },
            }),
    {
        BufferAccess {
            buffer,
            access: BufferAccessInfo { access: access_flags, stage, offset: 0, size: WHOLE_SIZE },
        }
    }
}

impl BufferAccessInfo {
    pub open spec fn spec_is_write(self) -> bool {
        spec_is_write(self.access)
    }

    /// The accessed bytes `[offset, offset + size)`; `WHOLE_SIZE` reaches to the last
    /// representable byte.
    pub open spec fn spec_range(self) -> KeyRange {
        if self.size == WHOLE_SIZE {
            KeyRange { start: self.offset, end: (WHOLE_SIZE - 1) as u64 }
        } else {
            KeyRange { start: self.offset, end: (self.offset + self.size - 1) as u64 }
        }
    }

    /// The accesses whose range can be formed: a non-empty range that does not overflow.
    pub open spec fn range_ok(self) -> bool {
        if self.size == WHOLE_SIZE {
            self.offset < WHOLE_SIZE
        } else {
            0 < self.size && self.offset + self.size <= u64::MAX
        }
    }

    pub fn is_write(&self) -> (r: bool)
        ensures
            r == self.spec_is_write(),
    {
        is_write(self.access)
    }

    pub fn range(&self) -> (r: KeyRange)
        requires
            self.range_ok(),
        ensures
            r == self.spec_range(),
            r.valid(),
    {
        if self.size == WHOLE_SIZE {
            return KeyRange::ie(self.offset, WHOLE_SIZE);
        } else {
            KeyRange::ie(self.offset, self.offset + self.size)
        }
    }
}

/// The mirror of `VkImageSubresourceRange`.
#[derive(Clone, Copy, Debug, PartialEq, Eq, Structural)]
pub struct ImageSubresourceRange {
    pub aspect_mask: u32,
    pub base_mip_level: u32,
    pub level_count: u32,
    pub base_array_layer: u32,
    pub layer_count: u32,
}

#[derive(Clone, Copy, Debug, PartialEq, Eq, Structural)]
pub struct ImageAccessInfo {
    pub stage: u64,
    pub access: u64,
    pub subresource_range: ImageSubresourceRange,
}

#[derive(Clone, Copy, Debug, PartialEq, Eq, Structural)]
pub struct ImageAccess {
    pub image: ImageHandle,
    /// The layout the image is in during the access.
    pub layout: i32,
    pub access: ImageAccessInfo,
}

impl ImageAccess {
    pub fn new(
        image: ImageHandle,
        stage: u64,
        access: u64,
        layout: i32,
        subresource_range: ImageSubresourceRange,
    ) -> (r: Self)
        ensures
            r == (ImageAccess { image, layout, access: ImageAccessInfo { stage, access, subresource_range } }),
    {
        ImageAccess { image, layout, access: ImageAccessInfo { access, stage, subresource_range } }
    }
}

impl ImageAccessInfo {
    /// An access writes when it writes memory or changes the layout.
    pub open spec fn spec_is_write(self, new_layout: i32, old_layout: Option<i32>) -> bool {
        spec_is_write(self.access) || Some(new_layout) != old_layout
    }

    /// The accessed mip levels `[base, base + count)`.
    pub open spec fn spec_range(self) -> KeyRange {
        KeyRange {
            start: self.subresource_range.base_mip_level as u64,
            end: (self.subresource_range.base_mip_level + self.subresource_range.level_count - 1) as u64,
        }
    }

    pub fn is_write(&self, new_layout: i32, old_layout: Option<i32>) -> (r: bool)
        ensures
            r == self.spec_is_write(new_layout, old_layout),
    {
        is_write(self.access) || !(match old_layout {
            Some(l) => l == new_layout,
            None => false,
        })
    }

    pub fn range(&self) -> (r: KeyRange)
        requires
            self.subresource_range.level_count > 0,
        ensures
            r == self.spec_range(),
            r.valid(),
    {
        let base = self.subresource_range.base_mip_level as u64;
        KeyRange::ie(base, base + self.subresource_range.level_count as u64)
    }
}


/// The access kinds that write are shader writes (`0x40`), colour and depth attachment writes
/// (`0x100`, `0x400`), transfer writes (`0x1000`), host writes (`0x4000`), memory writes
/// (`0x1_0000`) and shader storage writes (`0x4_0000_0000`): an access mask writes exactly when
/// it holds one of them. Reads of shaders, transfers and memory alone never write.
pub proof fn lemma_write_access_kinds(access: u64)
    ensures
        spec_is_write(access) <==> (access & 0x40 != 0 || access & 0x100 != 0 || access & 0x400 != 0 || access
            & 0x1000 != 0 || access & 0x4000 != 0 || access & 0x1_0000 != 0 || access & 0x4_0000_0000 != 0),
        spec_is_write(access) ==> forall|more: u64| #[trigger] spec_is_write(access | more),
{
    assert(spec_is_write(access) <==> (access & 0x40 != 0 || access & 0x100 != 0 || access & 0x400 != 0 || access
        & 0x1000 != 0 || access & 0x4000 != 0 || access & 0x1_0000 != 0 || access & 0x4_0000_0000 != 0)) by (bit_vector);
    assert forall|more: u64| spec_is_write(access) implies #[trigger] spec_is_write(access | more) by {
        assert(access & 0x4_0001_5540 != 0 ==> (access | more) & 0x4_0001_5540 != 0) by (bit_vector);
    }
}

/// An image access counts as a write, replacing the last write and the reads since, when it
/// writes memory or when it moves the image out of the layout it was in: any access in a layout
/// other than the recorded one, or with no recorded layout, is a write; in the recorded layout
/// it is a write exactly when its access mask writes.
pub proof fn lemma_image_access_writes(info: ImageAccessInfo, new_layout: i32, old_layout: i32)
    ensures
        new_layout != old_layout ==> info.spec_is_write(new_layout, Some(old_layout)),
        info.spec_is_write(new_layout, None),
        info.spec_is_write(new_layout, Some(new_layout)) == spec_is_write(info.access),
        spec_is_write(info.access) ==> info.spec_is_write(new_layout, Some(old_layout)),
{
}

} // verus!
