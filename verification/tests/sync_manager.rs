use round_cat::vulkan::command_buffer::{BufferMemoryBarrier, ImageMemoryBarrier};
use round_cat::vulkan::flags::{
    ACCESS_MEMORY_READ, ACCESS_SHADER_READ, ACCESS_SHADER_WRITE, ACCESS_TRANSFER_READ, ACCESS_TRANSFER_WRITE,
    ASPECT_COLOR, LAYOUT_SHADER_READ_ONLY_OPTIMAL, LAYOUT_TRANSFER_DST_OPTIMAL, LAYOUT_TRANSFER_SRC_OPTIMAL, LAYOUT_UNDEFINED,
    QUEUE_FAMILY_IGNORED, STAGE_ALL_COMMANDS, STAGE_TRANSFER, WHOLE_SIZE,
};
use round_cat::vulkan::sync_manager::interval::KeyRange;
use round_cat::vulkan::sync_manager::resource_access::{
    BufferAccess, BufferAccessInfo, BufferHandle, ImageAccess, ImageAccessInfo, ImageHandle, ImageSubresourceRange,
};
use round_cat::vulkan::sync_manager::{
    buffer_barrier, combine_all, image_barrier, ResourceAccessInfo, ResourceRW, SyncError, SyncManagerInternal,
};

const STAGE_FRAGMENT_SHADER: u64 = 0x80;

fn transfer_write() -> ResourceAccessInfo {
    ResourceAccessInfo::Write { stage: STAGE_TRANSFER, access: ACCESS_TRANSFER_WRITE }
}

#[test]
fn combine_is_union_and_write_wins() {
    let r = ResourceAccessInfo::Read { stage: 0x1, access: 0x20 };
    let w = ResourceAccessInfo::Write { stage: 0x2, access: 0x40 };
    assert_eq!(r.combine(&w), ResourceAccessInfo::Write { stage: 0x3, access: 0x60 });
    assert_eq!(w.combine(&r), ResourceAccessInfo::Write { stage: 0x3, access: 0x60 });
    assert_eq!(r.combine(&r), r);
    assert_eq!(ResourceAccessInfo::empty().combine(&w), w);
    assert_eq!(r.stage(), 0x1);
    assert_eq!(w.access(), 0x40);
}

#[test]
fn combine_all_skips_idle_accesses_when_asked() {
    let waits = vec![
        ResourceAccessInfo::Write { stage: 0x4, access: 0 },
        ResourceAccessInfo::Read { stage: 0x1, access: 0x20 },
    ];
    assert_eq!(combine_all(&waits, true), ResourceAccessInfo::Read { stage: 0x1, access: 0x20 });
    assert_eq!(combine_all(&waits, false), ResourceAccessInfo::Write { stage: 0x5, access: 0x20 });
    assert_eq!(combine_all(&vec![], false), ResourceAccessInfo::empty());
}

#[test]
fn buffer_barrier_only_for_waits_on_memory() {
    let buffer = BufferHandle { key: 3, size: 64 };
    let access = BufferAccess::entire_buffer(buffer, STAGE_FRAGMENT_SHADER, ACCESS_SHADER_READ);
    assert_eq!(buffer_barrier(&vec![], &access), None);
    assert_eq!(buffer_barrier(&vec![ResourceAccessInfo::Read { stage: 0x1, access: 0 }], &access), None);
    let b = buffer_barrier(&vec![transfer_write()], &access).unwrap();
    assert_eq!(
        b,
        BufferMemoryBarrier {
            src_stage_mask: STAGE_TRANSFER,
            src_access_mask: ACCESS_TRANSFER_WRITE,
            dst_stage_mask: STAGE_FRAGMENT_SHADER,
            dst_access_mask: ACCESS_SHADER_READ,
            src_queue_family_index: QUEUE_FAMILY_IGNORED,
            dst_queue_family_index: QUEUE_FAMILY_IGNORED,
            buffer,
            offset: 0,
            size: WHOLE_SIZE,
        }
    );
}

#[test]
fn image_barrier_covers_the_stretch() {
    let image = ImageHandle { key: 1, mip_levels: 8 };
    let range = ImageSubresourceRange {
        aspect_mask: ASPECT_COLOR,
        base_mip_level: 2,
        level_count: 4,
        base_array_layer: 0,
        layer_count: 1,
    };
    let access = ImageAccess::new(image, STAGE_TRANSFER, ACCESS_TRANSFER_READ, LAYOUT_SHADER_READ_ONLY_OPTIMAL, range);
    let b = image_barrier(&vec![transfer_write()], KeyRange::ii(3, 5), LAYOUT_TRANSFER_DST_OPTIMAL, &access);
    assert_eq!(b.src_stage_mask, STAGE_TRANSFER);
    assert_eq!(b.src_access_mask, ACCESS_TRANSFER_WRITE);
    assert_eq!(b.old_layout, LAYOUT_TRANSFER_DST_OPTIMAL);
    assert_eq!(b.new_layout, LAYOUT_SHADER_READ_ONLY_OPTIMAL);
    assert_eq!(b.subresource_range.base_mip_level, 3);
    assert_eq!(b.subresource_range.level_count, 3);
    assert_eq!(b.subresource_range.aspect_mask, ASPECT_COLOR);
}

#[test]
fn resource_rw_write_waits_for_the_reads_since_the_last_write() {
    let mut rw = ResourceRW::new(KeyRange::ie(0, 100));
    assert!(rw.add_write(KeyRange::ie(0, 100), transfer_write()).is_empty());
    let read = ResourceAccessInfo::Read { stage: STAGE_FRAGMENT_SHADER, access: ACCESS_SHADER_READ };
    let waits = rw.add_read(KeyRange::ie(10, 20), read, ResourceAccessInfo::into_combined);
    assert_eq!(waits, vec![transfer_write()]);
    let w2 = ResourceAccessInfo::Write { stage: 0x80, access: ACCESS_SHADER_WRITE };
    let waits = rw.add_write(KeyRange::ie(10, 20), w2);
    assert_eq!(waits, vec![read]);
    let waits = rw.add_write(KeyRange::ie(15, 18), transfer_write());
    assert_eq!(waits, vec![w2]);
}

#[test]
fn resource_rw_combines_reads_on_the_same_range() {
    let mut rw = ResourceRW::new(KeyRange::ie(0, 10));
    let r1 = ResourceAccessInfo::Read { stage: 0x1, access: 0x20 };
    let r2 = ResourceAccessInfo::Read { stage: 0x80, access: ACCESS_SHADER_READ };
    assert!(rw.add_read(KeyRange::ie(0, 10), r1, ResourceAccessInfo::into_combined).is_empty());
    assert!(rw.add_read(KeyRange::ie(0, 10), r2, ResourceAccessInfo::into_combined).is_empty());
    let waits = rw.add_write(KeyRange::ie(0, 10), transfer_write());
    assert_eq!(waits, vec![ResourceAccessInfo::Read { stage: 0x81, access: 0x20 | ACCESS_SHADER_READ }]);
}

#[test]
fn resource_rw_records_a_one_point_write() {
    let mut rw = ResourceRW::new(KeyRange::ie(0, 10));
    assert!(rw.add_write(KeyRange::ii(4, 4), transfer_write()).is_empty());
    let read = ResourceAccessInfo::Read { stage: STAGE_FRAGMENT_SHADER, access: ACCESS_SHADER_READ };
    assert_eq!(rw.add_read(KeyRange::ii(4, 4), read, ResourceAccessInfo::into_combined), vec![transfer_write()]);
}

#[test]
fn sync_manager_hands_out_keys_in_order() {
    let mut s = SyncManagerInternal::new();
    assert_eq!(s.get_buffer(), 0);
    assert_eq!(s.get_buffer(), 1);
    assert_eq!(s.get_image(), 0);
}

#[test]
fn read_after_write_waits_for_the_write() {
    let mut s = SyncManagerInternal::new();
    let key = s.get_buffer();
    let write = BufferAccessInfo { stage: STAGE_TRANSFER, access: ACCESS_TRANSFER_WRITE, offset: 0, size: WHOLE_SIZE };
    assert!(s.add_buffer_access(key, 256, write).is_empty());
    let read = BufferAccessInfo { stage: STAGE_FRAGMENT_SHADER, access: ACCESS_SHADER_READ, offset: 0, size: 64 };
    assert_eq!(s.add_buffer_access(key, 256, read), vec![transfer_write()]);
    // The read is recorded: a later write on its bytes waits for it.
    let write2 = BufferAccessInfo { stage: STAGE_FRAGMENT_SHADER, access: ACCESS_SHADER_WRITE, offset: 0, size: 64 };
    assert_eq!(
        s.add_buffer_access(key, 256, write2),
        vec![ResourceAccessInfo::Read { stage: STAGE_FRAGMENT_SHADER, access: ACCESS_SHADER_READ }]
    );
}

#[test]
fn write_after_read_of_the_whole_buffer_waits_for_the_read() {
    let mut s = SyncManagerInternal::new();
    let key = s.get_buffer();
    let whole = |stage, access| BufferAccessInfo { stage, access, offset: 0, size: WHOLE_SIZE };
    assert!(s.add_buffer_access(key, 256, whole(STAGE_TRANSFER, ACCESS_TRANSFER_WRITE)).is_empty());
    assert_eq!(s.add_buffer_access(key, 256, whole(STAGE_FRAGMENT_SHADER, ACCESS_SHADER_READ)), vec![transfer_write()]);
    assert_eq!(
        s.add_buffer_access(key, 256, whole(STAGE_TRANSFER, ACCESS_TRANSFER_WRITE)),
        vec![ResourceAccessInfo::Read { stage: STAGE_FRAGMENT_SHADER, access: ACCESS_SHADER_READ }]
    );
}

#[test]
fn removed_buffer_starts_afresh() {
    let mut s = SyncManagerInternal::new();
    let key = s.get_buffer();
    let write = BufferAccessInfo { stage: STAGE_TRANSFER, access: ACCESS_TRANSFER_WRITE, offset: 0, size: 16 };
    let _ = s.add_buffer_access(key, 16, write);
    s.remove_buffer(key);
    assert!(s.add_buffer_access(key, 16, write).is_empty());
    s.clear_all();
    assert!(s.add_buffer_access(key, 16, write).is_empty());
}

#[test]
fn add_accesses_barriers_for_copy_then_read() {
    let mut s = SyncManagerInternal::new();
    let buffer = BufferHandle { key: s.get_buffer(), size: 128 };
    let write = BufferAccess::entire_buffer(buffer, STAGE_TRANSFER, ACCESS_TRANSFER_WRITE);
    let first = s.add_accesses(vec![write], vec![]).unwrap();
    assert!(first.buffer_memory_barriers.is_empty());
    assert!(first.image_memory_barriers.is_empty());
    assert!(first.memory_barriers.is_empty());
    assert_eq!(first.dependency_flags, 0);
    let read = BufferAccess::entire_buffer(buffer, STAGE_FRAGMENT_SHADER, ACCESS_SHADER_READ);
    let second = s.add_accesses(vec![read], vec![]).unwrap();
    assert_eq!(second.buffer_memory_barriers.len(), 1);
    assert_eq!(second.buffer_memory_barriers[0].src_stage_mask, STAGE_TRANSFER);
    assert_eq!(second.buffer_memory_barriers[0].src_access_mask, ACCESS_TRANSFER_WRITE);
    assert_eq!(second.buffer_memory_barriers[0].dst_access_mask, ACCESS_SHADER_READ);
}

fn all_levels(levels: u32) -> ImageSubresourceRange {
    ImageSubresourceRange { aspect_mask: ASPECT_COLOR, base_mip_level: 0, level_count: levels, base_array_layer: 0, layer_count: 1 }
}

#[test]
fn image_layout_transitions_wait_for_the_last_write() {
    let mut s = SyncManagerInternal::new();
    let image = ImageHandle { key: s.get_image(), mip_levels: 4 };
    let upload = ImageAccess::new(image, STAGE_TRANSFER, ACCESS_TRANSFER_WRITE, LAYOUT_TRANSFER_DST_OPTIMAL, all_levels(4));
    let first = s.add_accesses(vec![], vec![upload]).unwrap();
    assert_eq!(
        first.image_memory_barriers,
        vec![ImageMemoryBarrier {
            src_stage_mask: 0,
            src_access_mask: 0,
            dst_stage_mask: STAGE_TRANSFER,
            dst_access_mask: ACCESS_TRANSFER_WRITE,
            old_layout: LAYOUT_UNDEFINED,
            new_layout: LAYOUT_TRANSFER_DST_OPTIMAL,
            src_queue_family_index: QUEUE_FAMILY_IGNORED,
            dst_queue_family_index: QUEUE_FAMILY_IGNORED,
            image,
            subresource_range: all_levels(4),
        }]
    );
    let sample = ImageAccess::new(image, STAGE_FRAGMENT_SHADER, ACCESS_SHADER_READ, LAYOUT_SHADER_READ_ONLY_OPTIMAL, all_levels(4));
    let second = s.add_accesses(vec![], vec![sample]).unwrap();
    assert_eq!(second.image_memory_barriers.len(), 1);
    let b = second.image_memory_barriers[0];
    assert_eq!(b.src_stage_mask, STAGE_TRANSFER);
    assert_eq!(b.src_access_mask, ACCESS_TRANSFER_WRITE);
    assert_eq!(b.old_layout, LAYOUT_TRANSFER_DST_OPTIMAL);
    assert_eq!(b.new_layout, LAYOUT_SHADER_READ_ONLY_OPTIMAL);
}

#[test]
fn first_access_to_a_one_level_image_finds_it_undefined() {
    let mut s = SyncManagerInternal::new();
    let access = ImageAccessInfo { stage: STAGE_TRANSFER, access: ACCESS_TRANSFER_WRITE, subresource_range: all_levels(1) };
    let r = s.add_image_access(0, 1, LAYOUT_TRANSFER_DST_OPTIMAL, access).unwrap();
    assert_eq!(r, vec![(KeyRange::ii(0, 0), LAYOUT_UNDEFINED, vec![])]);
}

#[test]
fn whole_image_accesses_wait_for_the_last_write() {
    let mut s = SyncManagerInternal::new();
    let upload = ImageAccessInfo { stage: STAGE_TRANSFER, access: ACCESS_TRANSFER_WRITE, subresource_range: all_levels(3) };
    let r = s.add_image_access(0, 3, LAYOUT_TRANSFER_DST_OPTIMAL, upload).unwrap();
    assert_eq!(r, vec![(KeyRange::ii(0, 2), LAYOUT_UNDEFINED, vec![])]);
    let sample = ImageAccessInfo { stage: STAGE_FRAGMENT_SHADER, access: ACCESS_SHADER_READ, subresource_range: all_levels(3) };
    let r = s.add_image_access(0, 3, LAYOUT_SHADER_READ_ONLY_OPTIMAL, sample).unwrap();
    assert_eq!(r, vec![(KeyRange::ii(0, 2), LAYOUT_TRANSFER_DST_OPTIMAL, vec![transfer_write()])]);
}

#[test]
fn partial_image_access_keeps_the_layout_of_its_levels() {
    let mut s = SyncManagerInternal::new();
    let upload = ImageAccessInfo { stage: STAGE_TRANSFER, access: ACCESS_TRANSFER_WRITE, subresource_range: all_levels(2) };
    let r = s.add_image_access(0, 3, LAYOUT_TRANSFER_DST_OPTIMAL, upload).unwrap();
    assert_eq!(r, vec![(KeyRange::ii(0, 1), LAYOUT_UNDEFINED, vec![])]);
    let again = ImageAccessInfo { stage: STAGE_TRANSFER, access: ACCESS_TRANSFER_WRITE, subresource_range: all_levels(2) };
    let r = s.add_image_access(0, 3, LAYOUT_TRANSFER_DST_OPTIMAL, again).unwrap();
    assert_eq!(r, vec![(KeyRange::ii(0, 1), LAYOUT_TRANSFER_DST_OPTIMAL, vec![transfer_write()])]);
    // The level the accesses did not reach is still undefined.
    let sample = ImageAccessInfo { stage: STAGE_FRAGMENT_SHADER, access: ACCESS_SHADER_READ, subresource_range: all_levels(3) };
    let r = s.add_image_access(0, 3, LAYOUT_SHADER_READ_ONLY_OPTIMAL, sample).unwrap();
    assert_eq!(
        r,
        vec![
            (KeyRange::ii(0, 1), LAYOUT_TRANSFER_DST_OPTIMAL, vec![transfer_write()]),
            (KeyRange::ii(2, 2), LAYOUT_UNDEFINED, vec![]),
        ]
    );
}

fn level(level: u32) -> ImageSubresourceRange {
    ImageSubresourceRange { aspect_mask: ASPECT_COLOR, base_mip_level: level, level_count: 1, base_array_layer: 0, layer_count: 1 }
}

#[test]
fn single_level_access_after_a_whole_image_access() {
    let mut s = SyncManagerInternal::new();
    let upload = ImageAccessInfo { stage: STAGE_TRANSFER, access: ACCESS_TRANSFER_WRITE, subresource_range: all_levels(3) };
    let _ = s.add_image_access(0, 3, LAYOUT_TRANSFER_DST_OPTIMAL, upload).unwrap();
    let read = ImageAccessInfo { stage: STAGE_TRANSFER, access: ACCESS_TRANSFER_READ, subresource_range: level(1) };
    let r = s.add_image_access(0, 3, LAYOUT_TRANSFER_SRC_OPTIMAL, read).unwrap();
    assert_eq!(r, vec![(KeyRange::ii(1, 1), LAYOUT_TRANSFER_DST_OPTIMAL, vec![transfer_write()])]);
}

#[test]
fn single_level_image_access_finds_the_level_undefined() {
    let mut s = SyncManagerInternal::new();
    let image = ImageHandle { key: s.get_image(), mip_levels: 4 };
    let one = ImageAccess::new(image, STAGE_ALL_COMMANDS, ACCESS_MEMORY_READ, LAYOUT_TRANSFER_DST_OPTIMAL, all_levels(1));
    let cmd = s.add_accesses(vec![], vec![one]).unwrap();
    assert_eq!(cmd.image_memory_barriers.len(), 1);
    assert_eq!(cmd.image_memory_barriers[0].old_layout, LAYOUT_UNDEFINED);
    assert_eq!(cmd.image_memory_barriers[0].subresource_range, all_levels(1));
}

#[test]
fn access_past_the_layout_slots_is_refused() {
    let mut s = SyncManagerInternal::new();
    let image = ImageHandle { key: s.get_image(), mip_levels: 4 };
    let range = ImageSubresourceRange { aspect_mask: ASPECT_COLOR, base_mip_level: 2, level_count: 3, base_array_layer: 0, layer_count: 1 };
    let access = ImageAccess::new(image, STAGE_TRANSFER, ACCESS_TRANSFER_WRITE, LAYOUT_TRANSFER_DST_OPTIMAL, range);
    assert_eq!(s.add_accesses(vec![], vec![access]).err(), Some(SyncError::LayoutSlotOutOfRange));
}

#[test]
fn partial_access_reports_the_accessed_levels() {
    let mut s = SyncManagerInternal::new();
    let image = ImageHandle { key: s.get_image(), mip_levels: 8 };
    let range = ImageSubresourceRange { aspect_mask: ASPECT_COLOR, base_mip_level: 2, level_count: 3, base_array_layer: 0, layer_count: 1 };
    let access = ImageAccess::new(image, STAGE_TRANSFER, ACCESS_TRANSFER_WRITE, LAYOUT_TRANSFER_DST_OPTIMAL, range);
    let cmd = s.add_accesses(vec![], vec![access]).unwrap();
    assert_eq!(cmd.image_memory_barriers.len(), 1);
    assert_eq!(cmd.image_memory_barriers[0].old_layout, LAYOUT_UNDEFINED);
    assert_eq!(cmd.image_memory_barriers[0].subresource_range, range);
}

#[test]
fn sync_error_messages_are_not_empty() {
    assert!(!SyncError::LayoutSlotOutOfRange.message().is_empty());
    assert_eq!(SyncError::LayoutMissing.message(), "All slots in the range map should be filled");
    assert!(!SyncError::LayoutOutsideAccess.message().is_empty());
}

#[test]
fn combination_does_not_depend_on_order() {
    let a = ResourceAccessInfo::Read { stage: 0x1, access: 0x20 };
    let b = ResourceAccessInfo::Write { stage: 0x1000, access: 0x1000 };
    let c = ResourceAccessInfo::Read { stage: 0x80, access: 0 };
    for skip_idle in [true, false] {
        let forward = combine_all(&vec![a, b, c], skip_idle);
        assert_eq!(combine_all(&vec![c, b, a], skip_idle), forward);
        assert_eq!(combine_all(&vec![b, a, c, a], skip_idle), forward);
    }
}
