use round_cat::vulkan::command_buffer::commands::{
    BufferImageCopy, BuildGeometryInfo, CmdBlitImage, CmdBuildAccelerationStructures, CmdCopyBuffer, CmdCopyBufferToImage, GeometryData,
    ImageBlit, ImageSubresourceLayers,
};
use round_cat::vulkan::command_buffer::{CmdFullBarrier, CmdLayoutTransition};
use round_cat::vulkan::flags::{
    ACCESS_ACCELERATION_STRUCTURE_READ, ACCESS_ACCELERATION_STRUCTURE_WRITE, ACCESS_MEMORY_READ, ACCESS_MEMORY_WRITE,
    ACCESS_SHADER_READ, ACCESS_SHADER_WRITE, ACCESS_TRANSFER_READ, ACCESS_TRANSFER_WRITE, ASPECT_COLOR, ASPECT_DEPTH,
    LAYOUT_TRANSFER_DST_OPTIMAL, LAYOUT_TRANSFER_SRC_OPTIMAL, STAGE_ALL_COMMANDS, STAGE_TRANSFER, WHOLE_SIZE,
};
use round_cat::vulkan::image::{copy_from_buffer_for_texture, Extent3D, Offset3D, UploadCommand, UploadError};
use round_cat::vulkan::sync_manager::resource_access::{BufferAccess, BufferHandle, ImageHandle, ImageSubresourceRange};
use round_cat::vulkan::sync_manager::SyncManagerInternal;

fn buffer(key: u64) -> BufferHandle {
    BufferHandle { key, size: 64 }
}

#[test]
fn full_barrier_waits_for_everything() {
    let cmd = CmdFullBarrier {}.barrier();
    assert_eq!(cmd.memory_barriers.len(), 1);
    let all = ACCESS_MEMORY_READ | ACCESS_MEMORY_WRITE | ACCESS_SHADER_WRITE | ACCESS_SHADER_READ;
    assert_eq!(cmd.memory_barriers[0].src_stage_mask, STAGE_ALL_COMMANDS);
    assert_eq!(cmd.memory_barriers[0].src_access_mask, all);
    assert_eq!(cmd.memory_barriers[0].dst_access_mask, all);
    assert!(cmd.buffer_memory_barriers.is_empty() && cmd.image_memory_barriers.is_empty());
}

#[test]
fn layout_transition_access() {
    let range = ImageSubresourceRange { aspect_mask: ASPECT_COLOR, base_mip_level: 1, level_count: 2, base_array_layer: 0, layer_count: 1 };
    let t = CmdLayoutTransition { image: ImageHandle { key: 9, mip_levels: 4 }, new_layout: 5, subresource_range: range };
    let a = t.access();
    assert_eq!(a.layout, 5);
    assert_eq!(a.access.stage, STAGE_ALL_COMMANDS);
    assert_eq!(a.access.subresource_range, range);
}

#[test]
fn copy_buffer_reads_source_writes_destination() {
    let accesses = CmdCopyBuffer { src_buffer: buffer(1), dst_buffer: buffer(2) }.buffer_accesses();
    assert_eq!(
        accesses,
        vec![
            BufferAccess::entire_buffer(buffer(1), STAGE_TRANSFER, ACCESS_TRANSFER_READ),
            BufferAccess::entire_buffer(buffer(2), STAGE_TRANSFER, ACCESS_TRANSFER_WRITE),
        ]
    );
    assert_eq!(accesses[0].access.size, WHOLE_SIZE);
}

#[test]
fn copy_to_image_writes_all_levels_of_the_copied_aspects() {
    let cmd = CmdCopyBufferToImage {
        src_buffer: buffer(1),
        dst_image: ImageHandle { key: 3, mip_levels: 5 },
        dst_image_layout: LAYOUT_TRANSFER_DST_OPTIMAL,
        regions: vec![copy_region(ASPECT_COLOR), copy_region(ASPECT_DEPTH)],
    };
    assert_eq!(cmd.aspect_mask(), ASPECT_COLOR | ASPECT_DEPTH);
    assert_eq!(cmd.buffer_accesses().len(), 1);
    let images = cmd.image_accesses();
    assert_eq!(images.len(), 1);
    assert_eq!(images[0].access.subresource_range.level_count, 5);
    assert_eq!(images[0].access.subresource_range.aspect_mask, ASPECT_COLOR | ASPECT_DEPTH);
    assert_eq!(images[0].layout, LAYOUT_TRANSFER_DST_OPTIMAL);
}

fn copy_region(aspect_mask: u32) -> BufferImageCopy {
    BufferImageCopy {
        buffer_offset: 0,
        buffer_row_length: 0,
        buffer_image_height: 0,
        image_subresource: layers(aspect_mask, 0),
        image_offset: Offset3D { x: 0, y: 0, z: 0 },
        image_extent: Extent3D { width: 4, height: 4, depth: 1 },
    }
}

#[test]
fn texture_upload_fills_the_mip_chain() {
    let image = ImageHandle { key: 7, mip_levels: 3 };
    let commands = copy_from_buffer_for_texture(image, Extent3D { width: 4, height: 4, depth: 1 }, buffer(1), true).unwrap();
    assert_eq!(commands.len(), 6);
    match &commands[0] {
        UploadCommand::Copy(c) => {
            assert_eq!(c.dst_image_layout, LAYOUT_TRANSFER_DST_OPTIMAL);
            assert_eq!(c.regions[0].image_extent, Extent3D { width: 4, height: 4, depth: 1 });
        }
        _ => panic!("the upload starts with the copy"),
    }
    match &commands[1] {
        UploadCommand::Transition(t) => {
            assert_eq!(t.new_layout, LAYOUT_TRANSFER_SRC_OPTIMAL);
            assert_eq!(t.subresource_range.base_mip_level, 0);
        }
        _ => panic!("the first level is made a blit source"),
    }
    match &commands[4] {
        UploadCommand::Blit(b) => {
            assert_eq!(b.regions[0].src_subresource.mip_level, 1);
            assert_eq!(b.regions[0].dst_subresource.mip_level, 2);
            assert_eq!(b.regions[0].src_offsets[1], Offset3D { x: 2, y: 2, z: 1 });
            assert_eq!(b.regions[0].dst_offsets[1], Offset3D { x: 1, y: 1, z: 1 });
        }
        _ => panic!("the second level is blitted onto the third"),
    }
    match &commands[5] {
        UploadCommand::Transition(t) => {
            assert_eq!(t.new_layout, 5);
            assert_eq!(t.subresource_range.level_count, 3);
        }
        _ => panic!("the upload ends with the move to shader reads"),
    }
}

#[test]
fn texture_upload_without_linear_blits_fails() {
    let image = ImageHandle { key: 7, mip_levels: 3 };
    let r = copy_from_buffer_for_texture(image, Extent3D { width: 4, height: 4, depth: 1 }, buffer(1), false);
    assert_eq!(r.err(), Some(UploadError::NoLinearBlit));
    assert_eq!(UploadError::NoLinearBlit.message(), "texture format does not support linear blitting");
}

fn layers(aspect_mask: u32, mip_level: u32) -> ImageSubresourceLayers {
    ImageSubresourceLayers { aspect_mask, mip_level, base_array_layer: 0, layer_count: 1 }
}

#[test]
fn blit_accesses_one_level_on_each_side() {
    let origin = Offset3D { x: 0, y: 0, z: 0 };
    let region = ImageBlit {
        src_subresource: layers(ASPECT_COLOR, 0),
        src_offsets: [origin, Offset3D { x: 4, y: 4, z: 1 }],
        dst_subresource: layers(ASPECT_COLOR, 1),
        dst_offsets: [origin, Offset3D { x: 2, y: 2, z: 1 }],
    };
    let image = ImageHandle { key: 2, mip_levels: 3 };
    let cmd = CmdBlitImage { src_image: image, dst_image: image, regions: vec![region], filter: 1 };
    let accesses = cmd.image_accesses();
    assert_eq!(accesses.len(), 2);
    assert_eq!(accesses[0].layout, LAYOUT_TRANSFER_SRC_OPTIMAL);
    assert_eq!(accesses[0].access.access, ACCESS_TRANSFER_READ);
    assert_eq!(accesses[0].access.subresource_range.base_mip_level, 0);
    assert_eq!(accesses[1].layout, LAYOUT_TRANSFER_DST_OPTIMAL);
    assert_eq!(accesses[1].access.subresource_range.base_mip_level, 1);
    assert_eq!(accesses[1].access.subresource_range.level_count, 1);
}

#[test]
fn acceleration_structure_builds_announce_their_buffers() {
    let info = BuildGeometryInfo {
        src_acceleration_structure: None,
        dst_acceleration_structure: Some(buffer(1)),
        scratch_data: Some(buffer(2)),
        geometry: vec![
            GeometryData::Triangles { vertex_data: buffer(3), index_data: buffer(4), transform_data: None },
            GeometryData::Instances { data: buffer(5) },
        ],
    };
    let accesses = CmdBuildAccelerationStructures { build_infos: vec![info] }.buffer_accesses();
    let keys: Vec<u64> = accesses.iter().map(|a| a.buffer.key).collect();
    assert_eq!(keys, vec![1, 2, 3, 4, 5]);
    assert_eq!(accesses[0].access.access, ACCESS_ACCELERATION_STRUCTURE_WRITE);
    assert_eq!(accesses[1].access.access, ACCESS_ACCELERATION_STRUCTURE_READ | ACCESS_ACCELERATION_STRUCTURE_WRITE);
    assert_eq!(accesses[4].access.access, ACCESS_ACCELERATION_STRUCTURE_READ);
}

#[test]
fn texture_upload_is_recorded_level_by_level() {
    let mut s = SyncManagerInternal::new();
    let image = ImageHandle { key: s.get_image(), mip_levels: 3 };
    let staging = BufferHandle { key: s.get_buffer(), size: 64 };
    let commands = copy_from_buffer_for_texture(image, Extent3D { width: 4, height: 4, depth: 1 }, staging, true).unwrap();
    let mut level_barriers = vec![];
    for command in &commands {
        let barrier = match command {
            UploadCommand::Copy(copy) => s.add_accesses(copy.buffer_accesses(), copy.image_accesses()),
            UploadCommand::Transition(t) => s.add_accesses(vec![], vec![t.access()]),
            UploadCommand::Blit(b) => s.add_accesses(vec![], b.image_accesses()),
        }
        .unwrap();
        level_barriers.push(barrier.image_memory_barriers);
    }
    // The first level moves from the copy's layout into the blit source layout on its own.
    let moved = &level_barriers[1];
    assert_eq!(moved.len(), 1);
    assert_eq!(moved[0].old_layout, LAYOUT_TRANSFER_DST_OPTIMAL);
    assert_eq!(moved[0].new_layout, LAYOUT_TRANSFER_SRC_OPTIMAL);
    assert_eq!(moved[0].subresource_range.base_mip_level, 0);
    assert_eq!(moved[0].subresource_range.level_count, 1);
}
