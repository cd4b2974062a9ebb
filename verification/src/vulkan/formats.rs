//! The Vulkan values of the loader's image formats and sampler settings.
use vstd::prelude::*;

use crate::loader::texture::{AddressMode, ColorSpace, Filter, ImageFormat, MipmapMode, SamplerInfo};

verus! {

// VkFormat
pub const FORMAT_R8_UNORM: i32 = 9;
pub const FORMAT_R8_SRGB: i32 = 15;
pub const FORMAT_R8G8_UNORM: i32 = 16;
pub const FORMAT_R8G8_SRGB: i32 = 22;
pub const FORMAT_R8G8B8A8_UNORM: i32 = 37;
pub const FORMAT_R8G8B8A8_SRGB: i32 = 43;
pub const FORMAT_R16_UNORM: i32 = 70;
pub const FORMAT_R16G16_UNORM: i32 = 77;
pub const FORMAT_R16G16B16A16_UNORM: i32 = 91;
pub const FORMAT_R32G32B32A32_SFLOAT: i32 = 109;

// VkFilter and VkSamplerMipmapMode
pub const FILTER_NEAREST: i32 = 0;
pub const FILTER_LINEAR: i32 = 1;

// VkSamplerAddressMode
pub const ADDRESS_MODE_REPEAT: i32 = 0;
pub const ADDRESS_MODE_MIRRORED_REPEAT: i32 = 1;
pub const ADDRESS_MODE_CLAMP_TO_EDGE: i32 = 2;
pub const ADDRESS_MODE_CLAMP_TO_BORDER: i32 = 3;

pub open spec fn spec_filter(filter: Filter) -> i32 {
    match filter {
        Filter::Nearest => FILTER_NEAREST,
        Filter::Linear => FILTER_LINEAR,
    }
}

/// The `VkFilter` of a filter.
pub fn convert_filter(filter: &Filter) -> (r: i32)
    ensures
        r == spec_filter(*filter),
{
    match filter {
        Filter::Nearest => FILTER_NEAREST,
        Filter::Linear => FILTER_LINEAR,
    }
}

pub open spec fn spec_mipmap_mode(mode: MipmapMode) -> i32 {
    match mode {
        MipmapMode::Nearest => FILTER_NEAREST,
        MipmapMode::Linear => FILTER_LINEAR,
    }
}

/// The `VkSamplerMipmapMode` of a mipmap mode.
pub fn convert_mipmap_mode(mode: &MipmapMode) -> (r: i32)
    ensures
        r == spec_mipmap_mode(*mode),
{
    match mode {
        MipmapMode::Nearest => FILTER_NEAREST,
        MipmapMode::Linear => FILTER_LINEAR,
    }
}

pub open spec fn spec_address_mode(address_mode: AddressMode) -> i32 {
    match address_mode {
        AddressMode::ClampToEdge => ADDRESS_MODE_CLAMP_TO_EDGE,
        AddressMode::MirroredRepeat => ADDRESS_MODE_MIRRORED_REPEAT,
        AddressMode::Repeat => ADDRESS_MODE_REPEAT,
        AddressMode::ClampToBorder => ADDRESS_MODE_CLAMP_TO_BORDER,
    }
}

/// The `VkSamplerAddressMode` of an address mode.
pub fn convert_address_mode(address_mode: &AddressMode) -> (r: i32)
    ensures
        r == spec_address_mode(*address_mode),
{
    match address_mode {
        AddressMode::ClampToEdge => ADDRESS_MODE_CLAMP_TO_EDGE,
        AddressMode::MirroredRepeat => ADDRESS_MODE_MIRRORED_REPEAT,
        AddressMode::Repeat => ADDRESS_MODE_REPEAT,
        AddressMode::ClampToBorder => ADDRESS_MODE_CLAMP_TO_BORDER,
    }
}

/// The settings of a Vulkan sampler, as raw Vulkan values.
#[derive(Clone, Copy, Debug, PartialEq, Eq, Structural)]
pub struct SamplerSettings {
    pub mag_filter: i32,
    pub min_filter: i32,
    pub mipmap_mode: i32,
    pub address_mode_u: i32,
    pub address_mode_v: i32,
    pub address_mode_w: i32,
}

/// The settings of the sampler made for a loaded sampler.
pub fn sampler_settings(info: &SamplerInfo) -> (r: SamplerSettings)
    ensures
        r == (SamplerSettings {
            mag_filter: spec_filter(info.mag_filter),
            min_filter: spec_filter(info.min_filter),
            mipmap_mode: spec_mipmap_mode(info.mipmap_mode),
            address_mode_u: spec_address_mode(info.address_mode[0]),
            address_mode_v: spec_address_mode(info.address_mode[1]),
            address_mode_w: spec_address_mode(info.address_mode[2]),
        }),
{
    SamplerSettings {
        mag_filter: convert_filter(&info.mag_filter),
        min_filter: convert_filter(&info.min_filter),
        mipmap_mode: convert_mipmap_mode(&info.mipmap_mode),
        address_mode_u: convert_address_mode(&info.address_mode[0]),
        address_mode_v: convert_address_mode(&info.address_mode[1]),
        address_mode_w: convert_address_mode(&info.address_mode[2]),
    }
}

/// Whether a format has a Vulkan format in a color space: in sRGB only the 8 bit formats do.
pub open spec fn format_supported(format: ImageFormat, color_space: ColorSpace) -> bool {
    color_space is SRGB ==> (format is R8_UNORM || format is R8G8_UNORM || format is R8G8B8A8_UNORM)
}

/// Whether a format has a Vulkan format in a color space.
pub fn is_format_supported(format: ImageFormat, color_space: ColorSpace) -> (r: bool)
    ensures
        r == format_supported(format, color_space),
{
    match color_space {
        ColorSpace::Linear => true,
        ColorSpace::SRGB => match format {
            ImageFormat::R8_UNORM | ImageFormat::R8G8_UNORM | ImageFormat::R8G8B8A8_UNORM => true,
            _ => false,
        },
    }
}

pub open spec fn spec_convert_format(format: ImageFormat, color_space: ColorSpace) -> i32 {
    match (format, color_space) {
        (ImageFormat::R8_UNORM, ColorSpace::SRGB) => FORMAT_R8_SRGB,
        (ImageFormat::R8G8_UNORM, ColorSpace::SRGB) => FORMAT_R8G8_SRGB,
        (ImageFormat::R8G8B8A8_UNORM, ColorSpace::SRGB) => FORMAT_R8G8B8A8_SRGB,
        (ImageFormat::R8_UNORM, _) => FORMAT_R8_UNORM,
        (ImageFormat::R8G8_UNORM, _) => FORMAT_R8G8_UNORM,
        (ImageFormat::R8G8B8A8_UNORM, _) => FORMAT_R8G8B8A8_UNORM,
        (ImageFormat::R16_UNORM, _) => FORMAT_R16_UNORM,
        (ImageFormat::R16G16_UNORM, _) => FORMAT_R16G16_UNORM,
        (ImageFormat::R16G16B16A16_UNORM, _) => FORMAT_R16G16B16A16_UNORM,
        (ImageFormat::R32G32B32A32_SFLOAT, _) => FORMAT_R32G32B32A32_SFLOAT,
    }
}

/// The `VkFormat` of an image format in a color space.
pub fn convert_format(format: ImageFormat, color_space: ColorSpace) -> (r: i32)
    requires
        format_supported(format, color_space),
    ensures
        r == spec_convert_format(format, color_space),
{
    match (format, color_space) {
        (ImageFormat::R8_UNORM, ColorSpace::Linear) => FORMAT_R8_UNORM,
        (ImageFormat::R8G8_UNORM, ColorSpace::Linear) => FORMAT_R8G8_UNORM,
        (ImageFormat::R8G8B8A8_UNORM, ColorSpace::Linear) => FORMAT_R8G8B8A8_UNORM,
        (ImageFormat::R16_UNORM, ColorSpace::Linear) => FORMAT_R16_UNORM,
        (ImageFormat::R16G16_UNORM, ColorSpace::Linear) => FORMAT_R16G16_UNORM,
        (ImageFormat::R16G16B16A16_UNORM, ColorSpace::Linear) => FORMAT_R16G16B16A16_UNORM,
        (ImageFormat::R32G32B32A32_SFLOAT, ColorSpace::Linear) => FORMAT_R32G32B32A32_SFLOAT,
        (ImageFormat::R8_UNORM, ColorSpace::SRGB) => FORMAT_R8_SRGB,
        (ImageFormat::R8G8_UNORM, ColorSpace::SRGB) => FORMAT_R8G8_SRGB,
        (ImageFormat::R8G8B8A8_UNORM, ColorSpace::SRGB) => FORMAT_R8G8B8A8_SRGB,
        (_, ColorSpace::SRGB) => FORMAT_R8_SRGB,
    }
}


/// An image format keeps its own Vulkan format in the linear colour space: 8 bit unsigned
/// normalized formats as `VK_FORMAT_R8_UNORM` (9), `R8G8_UNORM` (16) and `R8G8B8A8_UNORM` (37),
/// 16 bit ones as `R16_UNORM` (70), `R16G16_UNORM` (77) and `R16G16B16A16_UNORM` (91), and the
/// float one as `R32G32B32A32_SFLOAT` (109); only the sRGB colour space gives an sRGB format:
/// `R8_SRGB` (15), `R8G8_SRGB` (22), `R8G8B8A8_SRGB` (43), each for the 8 bit format with the
/// same channels. No linear format is ever an sRGB one, and two formats never share a Vulkan
/// format in one colour space.
pub proof fn lemma_format_by_color_space(f: ImageFormat, g: ImageFormat, c: ColorSpace)
    ensures
        f is R8_UNORM ==> spec_convert_format(f, ColorSpace::Linear) == 9 && spec_convert_format(f, ColorSpace::SRGB)
            == 15,
        f is R8G8_UNORM ==> spec_convert_format(f, ColorSpace::Linear) == 16 && spec_convert_format(f, ColorSpace::SRGB)
            == 22,
        f is R8G8B8A8_UNORM ==> spec_convert_format(f, ColorSpace::Linear) == 37 && spec_convert_format(
            f,
            ColorSpace::SRGB,
        ) == 43,
        f is R16_UNORM ==> spec_convert_format(f, ColorSpace::Linear) == 70,
        f is R16G16_UNORM ==> spec_convert_format(f, ColorSpace::Linear) == 77,
        f is R16G16B16A16_UNORM ==> spec_convert_format(f, ColorSpace::Linear) == 91,
        f is R32G32B32A32_SFLOAT ==> spec_convert_format(f, ColorSpace::Linear) == 109,
        spec_convert_format(f, ColorSpace::Linear) != 15 && spec_convert_format(f, ColorSpace::Linear) != 22
            && spec_convert_format(f, ColorSpace::Linear) != 43,
        format_supported(f, c) && format_supported(g, c) && f != g ==> spec_convert_format(f, c) != spec_convert_format(g, c),
        format_supported(f, ColorSpace::Linear),
        format_supported(f, ColorSpace::SRGB) <==> (f is R8_UNORM || f is R8G8_UNORM || f is R8G8B8A8_UNORM),
{
}

/// The Vulkan values of filters, mipmap modes and address modes: nearest is 0 and linear 1,
/// and the address modes repeat, mirrored repeat, clamp to edge and clamp to border are 0 to 3.
pub proof fn lemma_sampler_values(f: Filter, m: MipmapMode, a: AddressMode)
    ensures
        spec_filter(f) == (if f is Linear { 1i32 } else { 0i32 }),
        spec_mipmap_mode(m) == (if m is Linear { 1i32 } else { 0i32 }),
        a is Repeat ==> spec_address_mode(a) == 0,
        a is MirroredRepeat ==> spec_address_mode(a) == 1,
        a is ClampToEdge ==> spec_address_mode(a) == 2,
        a is ClampToBorder ==> spec_address_mode(a) == 3,
{
}

} // verus!
