use round_cat::render::pass::shadow::shader_binding_table_layout;
use round_cat::utility::aligned_size;
use round_cat::vulkan::context::{device_type_rank, find_physical_device, DeviceCandidate, DEVICE_TYPE_CPU, DEVICE_TYPE_DISCRETE_GPU, DEVICE_TYPE_INTEGRATED_GPU};
use round_cat::vulkan::image::{extent_to_offset, full_subresource_range, max_mip_levels, mip_chain_blits, mip_level, Extent3D, Offset3D};
use round_cat::vulkan::memory::find_memorytype_index;

fn extent(width: u32, height: u32, depth: u32) -> Extent3D {
    Extent3D { width, height, depth }
}

#[test]
fn aligned_size_rounds_up_to_the_alignment() {
    assert_eq!(aligned_size(10, 8), 16);
    assert_eq!(aligned_size(16, 16), 16);
    assert_eq!(aligned_size(0, 4), 0);
    assert_eq!(aligned_size(33, 1), 33);
    assert_eq!(aligned_size(u32::MAX, 1), u32::MAX);
    assert_eq!(aligned_size(u32::MAX - 7, 8), u32::MAX - 7);
    assert_eq!(aligned_size(u32::MAX - 14, 8), u32::MAX - 7);
}

#[test]
fn max_mip_levels_is_log2_of_the_largest_side_plus_one() {
    assert_eq!(max_mip_levels(extent(1024, 512, 1)), 11);
    assert_eq!(max_mip_levels(extent(1, 1, 1)), 1);
    assert_eq!(max_mip_levels(extent(3, 1000, 1)), 10);
    assert_eq!(max_mip_levels(extent(0, 0, 0)), 0);
    assert_eq!(max_mip_levels(extent(u32::MAX, 1, 1)), 32);
}

#[test]
fn mip_levels_halve_each_side_down_to_one() {
    let base = extent(1024, 512, 1);
    assert_eq!(mip_level(base, 0), Some(base));
    assert_eq!(mip_level(base, 1), Some(extent(512, 256, 1)));
    assert_eq!(mip_level(base, 10), Some(extent(1, 1, 1)));
    assert_eq!(mip_level(base, 11), None);
    assert_eq!(mip_level(extent(4, 2, 1), 2), Some(extent(1, 1, 1)));
}

#[test]
fn offsets_and_ranges() {
    assert_eq!(extent_to_offset(extent(4, 5, 6)), Offset3D { x: 4, y: 5, z: 6 });
    assert_eq!(extent_to_offset(extent(u32::MAX, 0, 1)).x, -1);
    let r = full_subresource_range(7, 1);
    assert_eq!((r.aspect_mask, r.base_mip_level, r.level_count, r.base_array_layer, r.layer_count), (1, 0, 7, 0, 1));
}

#[test]
fn mip_chain_blits_go_level_by_level() {
    let blits = mip_chain_blits(extent(8, 4, 1), 4);
    assert_eq!(blits.len(), 3);
    assert_eq!(blits[0].level, 1);
    assert_eq!(blits[0].src_size, Offset3D { x: 8, y: 4, z: 1 });
    assert_eq!(blits[0].dst_size, Offset3D { x: 4, y: 2, z: 1 });
    assert_eq!(blits[2].src_size, Offset3D { x: 2, y: 1, z: 1 });
    assert_eq!(blits[2].dst_size, Offset3D { x: 1, y: 1, z: 1 });
    assert!(mip_chain_blits(extent(8, 4, 1), 1).is_empty());
    assert!(mip_chain_blits(extent(8, 4, 1), 0).is_empty());
}

#[test]
fn memory_type_is_the_first_allowed_with_all_flags() {
    let flags = vec![0b001, 0b011, 0b110, 0b111];
    assert_eq!(find_memorytype_index(0b1111, &flags, 0b010), Some(1));
    assert_eq!(find_memorytype_index(0b1101, &flags, 0b010), Some(2));
    assert_eq!(find_memorytype_index(0b0001, &flags, 0b010), None);
    assert_eq!(find_memorytype_index(0b1111, &flags, 0), Some(0));
    assert_eq!(find_memorytype_index(0b1111, &vec![], 0), None);
}

fn candidate(supports_swapchain: bool, families: Vec<bool>, device_type: i32) -> DeviceCandidate {
    DeviceCandidate { supports_swapchain, queue_families_suitable: families, device_type }
}

#[test]
fn discrete_gpus_are_preferred() {
    assert_eq!(device_type_rank(DEVICE_TYPE_DISCRETE_GPU), 0);
    assert_eq!(device_type_rank(DEVICE_TYPE_CPU), 3);
    assert_eq!(device_type_rank(42), 5);
    let devices = vec![
        candidate(true, vec![true], DEVICE_TYPE_INTEGRATED_GPU),
        candidate(false, vec![true], DEVICE_TYPE_DISCRETE_GPU),
        candidate(true, vec![false, false, true], DEVICE_TYPE_DISCRETE_GPU),
        candidate(true, vec![true], DEVICE_TYPE_DISCRETE_GPU),
    ];
    assert_eq!(find_physical_device(&devices), Some((2, 2)));
    let none = vec![candidate(true, vec![false], DEVICE_TYPE_DISCRETE_GPU), candidate(false, vec![true], DEVICE_TYPE_CPU)];
    assert_eq!(find_physical_device(&none), None);
}

#[test]
fn shader_binding_tables_lie_at_aligned_offsets() {
    let layout = shader_binding_table_layout(32, 64, 3);
    assert_eq!(layout.handle_size_aligned, 64);
    assert_eq!(layout.sbt_size, 192);
    assert_eq!(layout.raygen, (0, 32));
    assert_eq!(layout.miss, (64, 96));
    assert_eq!(layout.hit, (128, 160));
}
