//! The commands that announce accesses to the synchronisation before they are recorded.
use vstd::prelude::*;

use crate::vulkan::flags::{
    ACCESS_ACCELERATION_STRUCTURE_READ, ACCESS_ACCELERATION_STRUCTURE_WRITE, ACCESS_TRANSFER_READ, ACCESS_TRANSFER_WRITE,
    LAYOUT_TRANSFER_DST_OPTIMAL, LAYOUT_TRANSFER_SRC_OPTIMAL, STAGE_ACCELERATION_STRUCTURE_BUILD, STAGE_TRANSFER,
    WHOLE_SIZE,
};
use crate::vulkan::image::{full_subresource_range, Extent3D, Offset3D};
use crate::vulkan::sync_manager::concat;
use crate::vulkan::sync_manager::resource_access::{
    BufferAccess, BufferAccessInfo, BufferHandle, ImageAccess, ImageAccessInfo, ImageHandle, ImageSubresourceRange,
};

verus! {

/// An access to the whole of buffer `buffer`.
pub open spec fn whole_buffer(buffer: BufferHandle, stage: u64, access: u64) -> BufferAccess {
    BufferAccess { buffer, access: BufferAccessInfo { stage, access, offset: 0, size: WHOLE_SIZE } }
}

/// The bitwise or of all of `s`; 0 for none.
pub open spec fn or_all(s: Seq<u32>) -> u32
    decreases s.len(),
{
    if s.len() == 0 {
        0
    } else {
        or_all(s.drop_last()) | s.last()
    }
}

/// The bitwise or of all of `s`.
pub fn or_all_of(s: &Vec<u32>) -> (r: u32)
    ensures
        r == or_all(s@),
{
    let mut acc: u32 = 0;
    let mut i: usize = 0;
    while i < s.len()
        invariant
            0 <= i <= s@.len(),
            acc == or_all(s@.take(i as int)),
        decreases s@.len() - i,
    {
        assert(s@.take(i + 1).drop_last() =~= s@.take(i as int));
        acc = acc | s[i];
        i = i + 1;
    }
    assert(s@.take(s@.len() as int) =~= s@);
    acc
}

/// Copies regions between two buffers. The regions themselves are handed to the device as
/// they are; the synchronisation sees the whole buffers.
#[derive(Clone, Copy, Debug, PartialEq, Eq, Structural)]
pub struct CmdCopyBuffer {
    pub src_buffer: BufferHandle,
    pub dst_buffer: BufferHandle,
}

impl CmdCopyBuffer {
    /// A transfer read of the whole source and a transfer write of the whole destination.
    pub fn buffer_accesses(&self) -> (r: Vec<BufferAccess>)
        ensures
            r@ == seq![
                whole_buffer(self.src_buffer, STAGE_TRANSFER, ACCESS_TRANSFER_READ),
                whole_buffer(self.dst_buffer, STAGE_TRANSFER, ACCESS_TRANSFER_WRITE),
            ],
    {
        let mut r: Vec<BufferAccess> = Vec::new();
        r.push(BufferAccess::entire_buffer(self.src_buffer, STAGE_TRANSFER, ACCESS_TRANSFER_READ));
        r.push(BufferAccess::entire_buffer(self.dst_buffer, STAGE_TRANSFER, ACCESS_TRANSFER_WRITE));
        assert(r@ =~= seq![
            whole_buffer(self.src_buffer, STAGE_TRANSFER, ACCESS_TRANSFER_READ),
            whole_buffer(self.dst_buffer, STAGE_TRANSFER, ACCESS_TRANSFER_WRITE),
        ]);
        r
    }
}

/// The layers of one mip level of an image (`VkImageSubresourceLayers`).
#[derive(Clone, Copy, Debug, PartialEq, Eq, Structural)]
pub struct ImageSubresourceLayers {
    pub aspect_mask: u32,
    pub mip_level: u32,
    pub base_array_layer: u32,
    pub layer_count: u32,
}

/// A region of a buffer copied into one mip level of an image (`VkBufferImageCopy`).
#[derive(Clone, Copy, Debug, PartialEq, Eq, Structural)]
pub struct BufferImageCopy {
    pub buffer_offset: u64,
    pub buffer_row_length: u32,
    pub buffer_image_height: u32,
    pub image_subresource: ImageSubresourceLayers,
    pub image_offset: Offset3D,
    pub image_extent: Extent3D,
}

/// Copies regions of a buffer into an image in `dst_image_layout`; the barrier before it moves
/// all mip levels of the image into that layout.
pub struct CmdCopyBufferToImage {
    pub src_buffer: BufferHandle,
    pub dst_image: ImageHandle,
    pub dst_image_layout: i32,
    pub regions: Vec<BufferImageCopy>,
}

/// The aspect masks of the copied regions.
pub open spec fn copy_aspects(regions: Seq<BufferImageCopy>) -> Seq<u32> {
    regions.map_values(|r: BufferImageCopy| r.image_subresource.aspect_mask)
}

/// The write of all mip levels of `image` in `layout`, for the aspects `aspect_mask`.
pub open spec fn copy_to_image_access(image: ImageHandle, layout: i32, aspect_mask: u32) -> ImageAccess {
    ImageAccess {
        image,
        layout,
        access: ImageAccessInfo {
            stage: STAGE_TRANSFER,
            access: ACCESS_TRANSFER_WRITE,
            subresource_range: ImageSubresourceRange {
                aspect_mask,
                base_mip_level: 0,
                level_count: image.mip_levels,
                base_array_layer: 0,
                layer_count: 1,
            },
        },
    }
}

impl CmdCopyBufferToImage {
    /// The aspects any region copies.
    pub fn aspect_mask(&self) -> (r: u32)
        ensures
            r == or_all(copy_aspects(self.regions@)),
    {
        let mut masks: Vec<u32> = Vec::new();
        let mut i: usize = 0;
        while i < self.regions.len()
            invariant
                0 <= i <= self.regions@.len(),
                masks@ == copy_aspects(self.regions@.take(i as int)),
            decreases self.regions@.len() - i,
        {
            masks.push(self.regions[i].image_subresource.aspect_mask);
            assert(self.regions@.take(i + 1) =~= self.regions@.take(i as int).push(self.regions@[i as int]));
            assert(masks@ =~= copy_aspects(self.regions@.take(i + 1)));
            i = i + 1;
        }
        assert(self.regions@.take(self.regions@.len() as int) =~= self.regions@);
        or_all_of(&masks)
    }

    /// A transfer read of the whole source buffer.
    pub fn buffer_accesses(&self) -> (r: Vec<BufferAccess>)
        ensures
            r@ == seq![whole_buffer(self.src_buffer, STAGE_TRANSFER, ACCESS_TRANSFER_READ)],
    {
        let mut r: Vec<BufferAccess> = Vec::new();
        r.push(BufferAccess::entire_buffer(self.src_buffer, STAGE_TRANSFER, ACCESS_TRANSFER_READ));
        assert(r@ =~= seq![whole_buffer(self.src_buffer, STAGE_TRANSFER, ACCESS_TRANSFER_READ)]);
        r
    }

    /// A transfer write of all mip levels of the image, in the copy's layout, for the aspects
    /// the regions copy.
    pub fn image_accesses(&self) -> (r: Vec<ImageAccess>)
        ensures
            r@ == seq![copy_to_image_access(self.dst_image, self.dst_image_layout, or_all(copy_aspects(self.regions@)))],
    {
        let aspect = self.aspect_mask();
        let mut r: Vec<ImageAccess> = Vec::new();
        r.push(
            ImageAccess::new(
                self.dst_image,
                STAGE_TRANSFER,
                ACCESS_TRANSFER_WRITE,
                self.dst_image_layout,
                full_subresource_range(self.dst_image.mip_levels, aspect),
            ),
        );
        assert(r@ =~= seq![copy_to_image_access(self.dst_image, self.dst_image_layout, or_all(copy_aspects(self.regions@)))]);
        r
    }
}

/// A region of one image blitted onto a region of another (`VkImageBlit`).
#[derive(Clone, Copy, Debug, PartialEq, Eq)]
pub struct ImageBlit {
    pub src_subresource: ImageSubresourceLayers,
    pub src_offsets: [Offset3D; 2],
    pub dst_subresource: ImageSubresourceLayers,
    pub dst_offsets: [Offset3D; 2],
}

/// The aspect masks of the source side of the regions.
pub open spec fn src_aspects(regions: Seq<ImageBlit>) -> Seq<u32> {
    regions.map_values(|r: ImageBlit| r.src_subresource.aspect_mask)
}

/// The aspect masks of the destination side of the regions.
pub open spec fn dst_aspects(regions: Seq<ImageBlit>) -> Seq<u32> {
    regions.map_values(|r: ImageBlit| r.dst_subresource.aspect_mask)
}

/// The access to one side of a blit region: a transfer read of the source level in the
/// transfer source layout (`src`), or a transfer write of the destination level in the
/// transfer destination layout, with the aspects `aspect_mask`.
pub open spec fn blit_access(image: ImageHandle, layers: ImageSubresourceLayers, aspect_mask: u32, src: bool) -> ImageAccess {
    ImageAccess {
        image,
        layout: if src {
            LAYOUT_TRANSFER_SRC_OPTIMAL
        } else {
            LAYOUT_TRANSFER_DST_OPTIMAL
        },
        access: ImageAccessInfo {
            stage: STAGE_TRANSFER,
            access: if src {
                ACCESS_TRANSFER_READ
            } else {
                ACCESS_TRANSFER_WRITE
            },
            subresource_range: ImageSubresourceRange {
                aspect_mask,
                base_mip_level: layers.mip_level,
                level_count: 1,
                base_array_layer: layers.base_array_layer,
                layer_count: layers.layer_count,
            },
        },
    }
}

/// Blits regions of one image onto another.
pub struct CmdBlitImage {
    pub src_image: ImageHandle,
    pub dst_image: ImageHandle,
    pub regions: Vec<ImageBlit>,
    /// The raw `VkFilter`.
    pub filter: i32,
}

impl CmdBlitImage {
    /// For each region, the access to its source level, then the one to its destination level;
    /// each side with the aspects of that side of all regions.
    pub fn image_accesses(&self) -> (r: Vec<ImageAccess>)
        ensures
            r@.len() == 2 * self.regions@.len(),
            forall|i: int| #![trigger self.regions@[i]] 0 <= i < self.regions@.len() ==> {
                &&& r@[2 * i] == blit_access(
                    self.src_image,
                    self.regions@[i].src_subresource,
                    or_all(src_aspects(self.regions@)),
                    true,
                )
                &&& r@[2 * i + 1] == blit_access(
                    self.dst_image,
                    self.regions@[i].dst_subresource,
                    or_all(dst_aspects(self.regions@)),
                    false,
                )
            },
    {
        let mut src_masks: Vec<u32> = Vec::new();
        let mut dst_masks: Vec<u32> = Vec::new();
        let mut i: usize = 0;
        while i < self.regions.len()
            invariant
                0 <= i <= self.regions@.len(),
                src_masks@ == src_aspects(self.regions@.take(i as int)),
                dst_masks@ == dst_aspects(self.regions@.take(i as int)),
            decreases self.regions@.len() - i,
        {
            src_masks.push(self.regions[i].src_subresource.aspect_mask);
            dst_masks.push(self.regions[i].dst_subresource.aspect_mask);
            assert(self.regions@.take(i + 1) =~= self.regions@.take(i as int).push(self.regions@[i as int]));
            assert(src_masks@ =~= src_aspects(self.regions@.take(i + 1)));
            assert(dst_masks@ =~= dst_aspects(self.regions@.take(i + 1)));
            i = i + 1;
        }
        assert(self.regions@.take(self.regions@.len() as int) =~= self.regions@);
        let src_aspect = or_all_of(&src_masks);
        let dst_aspect = or_all_of(&dst_masks);
        let mut r: Vec<ImageAccess> = Vec::new();
        let mut j: usize = 0;
        while j < self.regions.len()
            invariant
                0 <= j <= self.regions@.len(),
                src_aspect == or_all(src_aspects(self.regions@)),
                dst_aspect == or_all(dst_aspects(self.regions@)),
                r@.len() == 2 * j,
                forall|k: int| #![trigger self.regions@[k]] 0 <= k < j ==> {
                    &&& r@[2 * k] == blit_access(self.src_image, self.regions@[k].src_subresource, src_aspect, true)
                    &&& r@[2 * k + 1] == blit_access(self.dst_image, self.regions@[k].dst_subresource, dst_aspect, false)
                },
            decreases self.regions@.len() - j,
        {
            let region = self.regions[j];
            r.push(
                ImageAccess::new(
                    self.src_image,
                    STAGE_TRANSFER,
                    ACCESS_TRANSFER_READ,
                    LAYOUT_TRANSFER_SRC_OPTIMAL,
                    ImageSubresourceRange {
                        aspect_mask: src_aspect,
                        base_mip_level: region.src_subresource.mip_level,
                        level_count: 1,
                        base_array_layer: region.src_subresource.base_array_layer,
                        layer_count: region.src_subresource.layer_count,
                    },
                ),
            );
            r.push(
                ImageAccess::new(
                    self.dst_image,
                    STAGE_TRANSFER,
                    ACCESS_TRANSFER_WRITE,
                    LAYOUT_TRANSFER_DST_OPTIMAL,
                    ImageSubresourceRange {
                        aspect_mask: dst_aspect,
                        base_mip_level: region.dst_subresource.mip_level,
                        level_count: 1,
                        base_array_layer: region.dst_subresource.base_array_layer,
                        layer_count: region.dst_subresource.layer_count,
                    },
                ),
            );
            assert(self.regions@[j as int] == region);
            j = j + 1;
        }
        r
    }
}

/// The buffers one geometry of an acceleration structure build reads.
#[derive(Clone, Copy, Debug, PartialEq, Eq, Structural)]
pub enum GeometryData {
    Triangles { vertex_data: BufferHandle, index_data: BufferHandle, transform_data: Option<BufferHandle> },
    Aabbs { data: BufferHandle },
    Instances { data: BufferHandle },
}

/// The buffers of one acceleration structure build: the structure it updates, the one it
/// builds, its scratch space and its geometries.
pub struct BuildGeometryInfo {
    pub src_acceleration_structure: Option<BufferHandle>,
    pub dst_acceleration_structure: Option<BufferHandle>,
    pub scratch_data: Option<BufferHandle>,
    pub geometry: Vec<GeometryData>,
}

/// An access of the acceleration structure build stage to the whole of an optional buffer.
pub open spec fn build_access(buffer: Option<BufferHandle>, access: u64) -> Seq<BufferAccess> {
    match buffer {
        Some(b) => seq![whole_buffer(b, STAGE_ACCELERATION_STRUCTURE_BUILD, access)],
        None => Seq::empty(),
    }
}

/// The reads of a geometry's buffers: vertices, indices and transforms, or its boxes or
/// instances.
pub open spec fn geometry_accesses(g: GeometryData) -> Seq<BufferAccess> {
    match g {
        GeometryData::Triangles { vertex_data, index_data, transform_data } => build_access(
            Some(vertex_data),
            ACCESS_ACCELERATION_STRUCTURE_READ,
        ) + build_access(Some(index_data), ACCESS_ACCELERATION_STRUCTURE_READ) + build_access(
            transform_data,
            ACCESS_ACCELERATION_STRUCTURE_READ,
        ),
        GeometryData::Aabbs { data } => build_access(Some(data), ACCESS_ACCELERATION_STRUCTURE_READ),
        GeometryData::Instances { data } => build_access(Some(data), ACCESS_ACCELERATION_STRUCTURE_READ),
    }
}

/// The accesses of the geometries of a build, in turn.
pub open spec fn geometries_accesses(geometry: Seq<GeometryData>) -> Seq<BufferAccess> {
    concat(geometry.map_values(|g: GeometryData| geometry_accesses(g)))
}

/// The accesses of one build: a read of the structure it updates, a write of the one it
/// builds, a read and write of the scratch space, then the reads of each geometry.
pub open spec fn build_info_accesses(info: BuildGeometryInfo) -> Seq<BufferAccess> {
    build_access(info.src_acceleration_structure, ACCESS_ACCELERATION_STRUCTURE_READ) + build_access(
        info.dst_acceleration_structure,
        ACCESS_ACCELERATION_STRUCTURE_WRITE,
    ) + build_access(info.scratch_data, ACCESS_ACCELERATION_STRUCTURE_READ | ACCESS_ACCELERATION_STRUCTURE_WRITE)
        + geometries_accesses(info.geometry@)
}

/// The accesses of the builds, in turn.
pub open spec fn builds_accesses(infos: Seq<BuildGeometryInfo>) -> Seq<BufferAccess> {
    concat(infos.map_values(|info: BuildGeometryInfo| build_info_accesses(info)))
}

fn push_build_access(out: &mut Vec<BufferAccess>, buffer: Option<BufferHandle>, access: u64)
    ensures
        final(out)@ == old(out)@ + build_access(buffer, access),
{
    match buffer {
        Some(b) => {
            out.push(BufferAccess::entire_buffer(b, STAGE_ACCELERATION_STRUCTURE_BUILD, access));
        },
        None => {},
    }
    assert(out@ =~= old(out)@ + build_access(buffer, access));
}

fn push_geometry_accesses(out: &mut Vec<BufferAccess>, g: &GeometryData)
    ensures
        final(out)@ == old(out)@ + geometry_accesses(*g),
{
    match g {
        GeometryData::Triangles { vertex_data, index_data, transform_data } => {
            push_build_access(out, Some(*vertex_data), ACCESS_ACCELERATION_STRUCTURE_READ);
            push_build_access(out, Some(*index_data), ACCESS_ACCELERATION_STRUCTURE_READ);
            push_build_access(out, *transform_data, ACCESS_ACCELERATION_STRUCTURE_READ);
        },
        GeometryData::Aabbs { data } => {
            push_build_access(out, Some(*data), ACCESS_ACCELERATION_STRUCTURE_READ);
        },
        GeometryData::Instances { data } => {
            push_build_access(out, Some(*data), ACCESS_ACCELERATION_STRUCTURE_READ);
        },
    }
    assert(out@ =~= old(out)@ + geometry_accesses(*g));
}

/// Builds acceleration structures.
pub struct CmdBuildAccelerationStructures {
    pub build_infos: Vec<BuildGeometryInfo>,
}

impl CmdBuildAccelerationStructures {
    /// The accesses of each build in turn.
    pub fn buffer_accesses(&self) -> (r: Vec<BufferAccess>)
        ensures
            r@ == builds_accesses(self.build_infos@),
    {
        let mut out: Vec<BufferAccess> = Vec::new();
        let mut i: usize = 0;
        while i < self.build_infos.len()
            invariant
                0 <= i <= self.build_infos@.len(),
                out@ == builds_accesses(self.build_infos@.take(i as int)),
            decreases self.build_infos@.len() - i,
        {
            let info = &self.build_infos[i];
            let ghost before = out@;
            push_build_access(&mut out, info.src_acceleration_structure, ACCESS_ACCELERATION_STRUCTURE_READ);
            push_build_access(&mut out, info.dst_acceleration_structure, ACCESS_ACCELERATION_STRUCTURE_WRITE);
            push_build_access(
                &mut out,
                info.scratch_data,
                ACCESS_ACCELERATION_STRUCTURE_READ | ACCESS_ACCELERATION_STRUCTURE_WRITE,
            );
            let ghost head = out@;
            let mut k: usize = 0;
            while k < info.geometry.len()
                invariant
                    0 <= k <= info.geometry@.len(),
                    out@ == head + geometries_accesses(info.geometry@.take(k as int)),
                decreases info.geometry@.len() - k,
            {
                push_geometry_accesses(&mut out, &info.geometry[k]);
                proof {
                    let s = info.geometry@.take(k + 1).map_values(|g: GeometryData| geometry_accesses(g));
                    assert(s.drop_last() =~= info.geometry@.take(k as int).map_values(|g: GeometryData| geometry_accesses(g)));
                    assert(out@ =~= head + geometries_accesses(info.geometry@.take(k + 1)));
                }
                k = k + 1;
            }
            proof {
                assert(info.geometry@.take(info.geometry@.len() as int) =~= info.geometry@);
                let s = self.build_infos@.take(i + 1).map_values(|x: BuildGeometryInfo| build_info_accesses(x));
                assert(s.drop_last() =~= self.build_infos@.take(i as int).map_values(|x: BuildGeometryInfo| build_info_accesses(x)));
                assert(out@ =~= before + build_info_accesses(self.build_infos@[i as int]));
            }
            i = i + 1;
        }
        assert(self.build_infos@.take(self.build_infos@.len() as int) =~= self.build_infos@);
        out
    }
}

/// Ends the recording of a command buffer. It carries nothing; the device call is made where
/// the command buffer is submitted.
pub struct EndCommandBuffer {}

} // verus!
