use round_cat::bow::Bow;
use round_cat::buffer::IntoSlice;
use round_cat::input_map::{InputMap, MouseButton};
use round_cat::loader::animation::{get_and_next, AnimationKeyframe};
use round_cat::loader::asset::{Asset, AssetId, AssetIdGenerator, AssetIds, Assets};
use round_cat::loader::mesh::{cube_face, unit_cube_indices, LoadedMesh};
use round_cat::loader::scene_loader::{
    gltf_image_format_to_vulkan_format, sampler_info, FilterAndMipmapMode, GltfImageFormat, MagFilter, MinFilter,
    WrappingMode,
};
use round_cat::loader::texture::{AddressMode, ColorSpace, Filter, ImageFormat, LoadedSampler, MipmapMode, SamplerInfo};
use round_cat::render::pass::post_processing::PostProcessingPass;
use round_cat::render::SwapchainIndex;
use round_cat::vulkan::formats::{convert_format, sampler_settings, FORMAT_R8G8B8A8_SRGB, FORMAT_R16_UNORM};

#[test]
fn asset_ids_come_from_a_shared_counter() {
    let generator = AssetIdGenerator::new();
    let clone = generator.clone();
    assert_eq!(generator.next(), AssetId::new(0));
    assert_eq!(clone.next(), AssetId::new(1));
    assert_eq!(generator.next(), AssetId(2));
}

#[test]
fn an_index_keeps_its_first_id() {
    let generator = AssetIdGenerator::new();
    let mut ids = AssetIds::new();
    let a = ids.to_asset_id(5, &generator);
    let b = ids.to_asset_id(7, &generator);
    assert_ne!(a, b);
    assert_eq!(ids.to_asset_id(5, &generator), a);
    assert_eq!(ids.to_asset_id(7, &generator), b);
}

#[test]
fn assets_start_empty() {
    let assets: Assets<LoadedSampler> = Assets::new();
    assert!(assets.assets.is_empty());
    let sampler = LoadedSampler {
        id: AssetId(4),
        sampler_info: SamplerInfo {
            min_filter: Filter::Linear,
            mag_filter: Filter::Nearest,
            mipmap_mode: MipmapMode::Linear,
            address_mode: [AddressMode::Repeat; 3],
        },
    };
    assert_eq!(sampler.id(), AssetId(4));
}

#[test]
fn get_and_next_wraps_around() {
    let values = vec![10, 20, 30];
    assert_eq!(get_and_next(&values, 0, || 0), (10, 20));
    assert_eq!(get_and_next(&values, 2, || 0), (30, 10));
    assert_eq!(get_and_next(&values, 5, || -1), (-1, 10));
    assert_eq!(AnimationKeyframe::default(), AnimationKeyframe(0));
}

#[test]
fn unit_cube_has_two_triangles_per_face() {
    let indices = unit_cube_indices();
    assert_eq!(indices.len(), 36);
    assert_eq!(&indices[0..12], &[0, 1, 2, 2, 3, 0, 4, 5, 6, 6, 7, 4]);
    assert_eq!(indices[35], 20);
    assert!(indices.iter().all(|i| *i < 24));
    assert_eq!(cube_face(1), [5, 4, 7, 6]);
    let mesh = LoadedMesh { id: AssetId(1), vertices: vec![(); 24], indices };
    assert_eq!(mesh.id(), AssetId(1));
}

#[test]
fn rgb_images_get_an_opaque_alpha() {
    let (bytes, format) = gltf_image_format_to_vulkan_format(vec![1, 2, 3, 4, 5, 6, 7], &GltfImageFormat::R8G8B8);
    assert_eq!(bytes, vec![1, 2, 3, 255, 4, 5, 6, 255]);
    assert_eq!(format, ImageFormat::R8G8B8A8_UNORM);
    let (bytes, format) = gltf_image_format_to_vulkan_format(vec![9, 9], &GltfImageFormat::R16);
    assert_eq!(bytes, vec![9, 9]);
    assert_eq!(format, ImageFormat::R16_UNORM);
    assert_eq!(
        gltf_image_format_to_vulkan_format(vec![], &GltfImageFormat::R32G32B32A32FLOAT).1,
        ImageFormat::R32G32B32A32_SFLOAT
    );
}

#[test]
fn gltf_sampler_settings() {
    assert_eq!(AddressMode::from(WrappingMode::MirroredRepeat), AddressMode::MirroredRepeat);
    assert_eq!(Filter::from(MagFilter::Nearest), Filter::Nearest);
    assert_eq!(
        FilterAndMipmapMode::from(MinFilter::NearestMipmapLinear),
        FilterAndMipmapMode { min_filter: Filter::Nearest, mipmap_mode: MipmapMode::Linear }
    );
    let info = sampler_info(None, Some(MagFilter::Nearest), WrappingMode::Repeat);
    assert_eq!(info.min_filter, Filter::Linear);
    assert_eq!(info.mipmap_mode, MipmapMode::Nearest);
    assert_eq!(info.mag_filter, Filter::Nearest);
    assert_eq!(info.address_mode, [AddressMode::Repeat, AddressMode::Repeat, AddressMode::ClampToEdge]);
    let s = sampler_settings(&info);
    assert_eq!((s.mag_filter, s.min_filter, s.mipmap_mode), (0, 1, 0));
    assert_eq!((s.address_mode_u, s.address_mode_v, s.address_mode_w), (0, 0, 2));
}

#[test]
fn formats_by_color_space() {
    assert_eq!(convert_format(ImageFormat::R8G8B8A8_UNORM, ColorSpace::SRGB), FORMAT_R8G8B8A8_SRGB);
    assert_eq!(convert_format(ImageFormat::R16_UNORM, ColorSpace::Linear), FORMAT_R16_UNORM);
}

#[test]
fn bow_reads_borrowed_and_owned() {
    let value = 5;
    let borrowed: Bow<i32> = Bow::from(&value);
    let owned: Bow<i32> = Bow::from(6);
    assert_eq!(*borrowed.as_ref(), 5);
    assert_eq!(*owned.as_ref(), 6);
}

#[test]
fn into_slice_views() {
    let one = 3u8;
    assert_eq!(one.as_sliced(), &[3u8]);
    let data: &[u8] = &[1, 2];
    assert_eq!(IntoSlice::<u8>::as_sliced(&data), &[1u8, 2]);
    let v = vec![4u16, 5];
    assert_eq!(round_cat::vulkan::buffer::IntoSlice::<u16>::as_sliced(&v), &[4u16, 5]);
}

#[test]
fn small_render_types() {
    assert_eq!(SwapchainIndex::new(2), SwapchainIndex(2));
    let mut pass = PostProcessingPass::new();
    pass.render();
    pass.resize();
    assert_eq!(pass, PostProcessingPass {});
}

#[test]
fn input_map_tracks_held_keys_and_buttons() {
    let mut input = InputMap::new();
    assert!(!input.is_pressed(10));
    input.update_key_press(10);
    assert!(input.is_pressed(10));
    assert!(!input.is_pressed(11));
    input.update_key_release(10);
    assert!(!input.is_pressed(10));
    input.update_mouse_press(MouseButton::Right);
    input.update_mouse_press(MouseButton::Middle);
    assert!(input.is_mouse_pressed(MouseButton::Right));
    assert!(!input.is_mouse_pressed(MouseButton::Left));
    assert!(!input.is_mouse_pressed(MouseButton::Middle));
    input.update_mouse_release(MouseButton::Right);
    assert!(!input.is_mouse_pressed(MouseButton::Right));
}
