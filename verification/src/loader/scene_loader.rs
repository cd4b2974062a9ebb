//! What the scene loader decides from a glTF file's samplers and images.
use vstd::prelude::*;

use super::texture::{AddressMode, Filter, ImageFormat, MipmapMode, SamplerInfo};

verus! {

/// How a glTF sampler wraps texture coordinates.
#[derive(Clone, Copy, Debug, PartialEq, Eq, Structural)]
pub enum WrappingMode {
    ClampToEdge,
    MirroredRepeat,
    Repeat,
}

/// A glTF magnification filter.
#[derive(Clone, Copy, Debug, PartialEq, Eq, Structural)]
pub enum MagFilter {
    Nearest,
    Linear,
}

/// A glTF minification filter, with the filter between mip levels.
#[derive(Clone, Copy, Debug, PartialEq, Eq, Structural)]
pub enum MinFilter {
    Nearest,
    Linear,
    NearestMipmapNearest,
    LinearMipmapNearest,
    NearestMipmapLinear,
    LinearMipmapLinear,
}

/// The pixel formats of decoded glTF images.
#[allow(non_camel_case_types)]
#[derive(Clone, Copy, Debug, PartialEq, Eq, Structural)]
pub enum GltfImageFormat {
    R8,
    R8G8,
    R8G8B8,
    R8G8B8A8,
    R16,
    R16G16,
    R16G16B16,
    R16G16B16A16,
    R32G32B32FLOAT,
    R32G32B32A32FLOAT,
}

/// The address mode of a wrapping mode.
pub open spec fn address_mode_of(wrapping_mode: WrappingMode) -> AddressMode {
    match wrapping_mode {
        WrappingMode::ClampToEdge => AddressMode::ClampToEdge,
        WrappingMode::MirroredRepeat => AddressMode::MirroredRepeat,
        WrappingMode::Repeat => AddressMode::Repeat,
    }
}

/// The filter of a magnification filter.
pub open spec fn filter_of(filter: MagFilter) -> Filter {
    match filter {
        MagFilter::Nearest => Filter::Nearest,
        MagFilter::Linear => Filter::Linear,
    }
}

/// A minification filter split in two: the filter within a level is linear for the linear
/// filters; the one between levels is linear only for the `*MipmapLinear` filters.
pub open spec fn filter_and_mipmap_of(min_filter: MinFilter) -> FilterAndMipmapMode {
    FilterAndMipmapMode {
        min_filter: if min_filter is Linear || min_filter is LinearMipmapNearest || min_filter is LinearMipmapLinear {
            Filter::Linear
        } else {
            Filter::Nearest
        },
        mipmap_mode: if min_filter is NearestMipmapLinear || min_filter is LinearMipmapLinear {
            MipmapMode::Linear
        } else {
            MipmapMode::Nearest
        },
    }
}

impl From<WrappingMode> for AddressMode {
    fn from(wrapping_mode: WrappingMode) -> (r: Self) {
        match wrapping_mode {
            WrappingMode::ClampToEdge => AddressMode::ClampToEdge,
            WrappingMode::MirroredRepeat => AddressMode::MirroredRepeat,
            WrappingMode::Repeat => AddressMode::Repeat,
        }
    }
}

impl vstd::std_specs::convert::FromSpecImpl<WrappingMode> for AddressMode {
    open spec fn obeys_from_spec() -> bool {
        true
    }

    open spec fn from_spec(wrapping_mode: WrappingMode) -> Self {
        address_mode_of(wrapping_mode)
    }
}

impl From<MagFilter> for Filter {
    fn from(filter: MagFilter) -> (r: Self) {
        match filter {
            MagFilter::Nearest => Filter::Nearest,
            MagFilter::Linear => Filter::Linear,
        }
    }
}

impl vstd::std_specs::convert::FromSpecImpl<MagFilter> for Filter {
    open spec fn obeys_from_spec() -> bool {
        true
    }

    open spec fn from_spec(filter: MagFilter) -> Self {
        filter_of(filter)
    }
}

/// A minification filter split into the filter within a level and the one between levels.
#[derive(Clone, Copy, Debug, PartialEq, Eq, Structural)]
pub struct FilterAndMipmapMode {
    pub min_filter: Filter,
    pub mipmap_mode: MipmapMode,
}

impl From<MinFilter> for FilterAndMipmapMode {
    fn from(min_filter: MinFilter) -> (r: Self) {
        let (min_filter, mipmap_mode) = match min_filter {
            MinFilter::Nearest => (Filter::Nearest, MipmapMode::Nearest),
            MinFilter::Linear => (Filter::Linear, MipmapMode::Nearest),
            MinFilter::NearestMipmapNearest => (Filter::Nearest, MipmapMode::Nearest),
            MinFilter::LinearMipmapNearest => (Filter::Linear, MipmapMode::Nearest),
            MinFilter::NearestMipmapLinear => (Filter::Nearest, MipmapMode::Linear),
            MinFilter::LinearMipmapLinear => (Filter::Linear, MipmapMode::Linear),
        };
        FilterAndMipmapMode { min_filter, mipmap_mode }
    }
}

impl vstd::std_specs::convert::FromSpecImpl<MinFilter> for FilterAndMipmapMode {
    open spec fn obeys_from_spec() -> bool {
        true
    }

    open spec fn from_spec(min_filter: MinFilter) -> Self {
        filter_and_mipmap_of(min_filter)
    }
}

/// The sampler settings of a glTF sampler: its filters, linear where it names none, and its
/// horizontal wrapping mode for both texture coordinates, clamped in depth.
pub fn sampler_info(min_filter: Option<MinFilter>, mag_filter: Option<MagFilter>, wrap_s: WrappingMode) -> (r:
    SamplerInfo)
    ensures
        r.min_filter == filter_and_mipmap_of(min_filter.unwrap_or(MinFilter::Linear)).min_filter,
        r.mipmap_mode == filter_and_mipmap_of(min_filter.unwrap_or(MinFilter::Linear)).mipmap_mode,
        r.mag_filter == filter_of(mag_filter.unwrap_or(MagFilter::Linear)),
        r.address_mode@ == seq![address_mode_of(wrap_s), address_mode_of(wrap_s), AddressMode::ClampToEdge],
{
    let min = match min_filter {
        Some(f) => f,
        None => MinFilter::Linear,
    };
    let mag = match mag_filter {
        Some(f) => f,
        None => MagFilter::Linear,
    };
    let FilterAndMipmapMode { min_filter, mipmap_mode } = FilterAndMipmapMode::from(min);
    let address_mode: [AddressMode; 3] = [AddressMode::from(wrap_s), AddressMode::from(wrap_s), AddressMode::ClampToEdge];
    let r = SamplerInfo { min_filter, mag_filter: Filter::from(mag), mipmap_mode, address_mode };
    assert(r.address_mode@ =~= seq![address_mode_of(wrap_s), address_mode_of(wrap_s), AddressMode::ClampToEdge]);
    r
}

/// The formats with an image format of their own, or that are widened to one.
pub open spec fn gltf_format_supported(format: GltfImageFormat) -> bool {
    !(format is R16G16B16) && !(format is R32G32B32FLOAT)
}

/// Three-channel 8 bit pixels with a fourth, opaque channel: each whole pixel of `rgb` followed
/// by 255; a trailing partial pixel is dropped.
pub open spec fn with_alpha(rgb: Seq<u8>) -> Seq<u8> {
    Seq::new(
        (4 * (rgb.len() / 3)) as nat,
        |i: int|
            if i % 4 == 3 {
                255u8
            } else {
                rgb[3 * (i / 4) + i % 4]
            },
    )
}

/// Appends the three channels at `base` of `rgb` and an opaque alpha.
fn push_opaque_pixel(out: &mut Vec<u8>, rgb: &Vec<u8>, base: usize)
    requires
        base + 2 < rgb@.len(),
    ensures
        final(out)@ == old(out)@ + seq![rgb@[base as int], rgb@[base + 1], rgb@[base + 2], 255u8],
{
    let _ = rgb.len();
    out.push(rgb[base]);
    out.push(rgb[base + 1]);
    out.push(rgb[base + 2]);
    out.push(255);
    assert(out@ =~= old(out)@ + seq![rgb@[base as int], rgb@[base + 1], rgb@[base + 2], 255u8]);
}

/// The image format of a glTF pixel format, with the pixels in that format: 8 bit RGB images
/// get an alpha channel, the others keep their bytes.
pub fn gltf_image_format_to_vulkan_format(image: Vec<u8>, format: &GltfImageFormat) -> (r: (Vec<u8>, ImageFormat))
    requires
        gltf_format_supported(*format),
    ensures
        *format is R8G8B8 ==> r.0@ == with_alpha(image@) && r.1 == ImageFormat::R8G8B8A8_UNORM,
        !(*format is R8G8B8) ==> r.0@ == image@,
        *format is R8 ==> r.1 == ImageFormat::R8_UNORM,
        *format is R8G8 ==> r.1 == ImageFormat::R8G8_UNORM,
        *format is R8G8B8A8 ==> r.1 == ImageFormat::R8G8B8A8_UNORM,
        *format is R16 ==> r.1 == ImageFormat::R16_UNORM,
        *format is R16G16 ==> r.1 == ImageFormat::R16G16_UNORM,
        *format is R16G16B16A16 ==> r.1 == ImageFormat::R16G16B16A16_UNORM,
        *format is R32G32B32A32FLOAT ==> r.1 == ImageFormat::R32G32B32A32_SFLOAT,
{
    match format {
        GltfImageFormat::R8 => (image, ImageFormat::R8_UNORM),
        GltfImageFormat::R8G8 => (image, ImageFormat::R8G8_UNORM),
        GltfImageFormat::R8G8B8 => {
            let mut image_with_alpha: Vec<u8> = Vec::new();
            let n = image.len() / 3;
            let mut i: usize = 0;
            let mut base: usize = 0;
            while i < n
                invariant
                    n == image@.len() / 3,
                    image@.len() <= usize::MAX,
                    0 <= i <= n,
                    base == 3 * i,
                    image_with_alpha@ == with_alpha(image@).take(4 * i),
                decreases n - i,
            {
                assert(base + 3 <= image@.len()) by (nonlinear_arith)
                    requires
                        i < n,
                        base == 3 * i,
                        n == image@.len() / 3,
                ;
                push_opaque_pixel(&mut image_with_alpha, &image, base);
                proof {
                    let w = with_alpha(image@);
                    assert forall|k: int| 4 * i <= k < 4 * i + 4 implies #[trigger] w[k] == image_with_alpha@[k] by {
                        assert(k / 4 == i);
                    }
                    assert(image_with_alpha@ =~= w.take(4 * i + 4));
                }
                i = i + 1;
                base = base + 3;
            }
            assert(image_with_alpha@ =~= with_alpha(image@));
            (image_with_alpha, ImageFormat::R8G8B8A8_UNORM)
        },
        GltfImageFormat::R8G8B8A8 => (image, ImageFormat::R8G8B8A8_UNORM),
        GltfImageFormat::R16 => (image, ImageFormat::R16_UNORM),
        GltfImageFormat::R16G16 => (image, ImageFormat::R16G16_UNORM),
        GltfImageFormat::R16G16B16A16 => (image, ImageFormat::R16G16B16A16_UNORM),
        GltfImageFormat::R32G32B32A32FLOAT => (image, ImageFormat::R32G32B32A32_SFLOAT),
        _ => (image, ImageFormat::R8_UNORM),
    }
}


/// A glTF minification filter names two filters. The one between mip levels is linear exactly
/// for the filters that end in `MipmapLinear`, and nearest for the others (with no mipmap part,
/// the nearest level is taken). The one within a level is linear exactly for the filters that
/// start with `Linear`. So the two filters that differ only between levels share the filter
/// within a level, and the two that differ only within a level share the one between levels.
pub proof fn lemma_min_filter_parts(f: MinFilter)
    ensures
        (filter_and_mipmap_of(f).mipmap_mode == MipmapMode::Linear) <==> (f == MinFilter::NearestMipmapLinear || f
            == MinFilter::LinearMipmapLinear),
        (filter_and_mipmap_of(f).min_filter == Filter::Linear) <==> (f == MinFilter::Linear || f
            == MinFilter::LinearMipmapNearest || f == MinFilter::LinearMipmapLinear),
        filter_and_mipmap_of(MinFilter::LinearMipmapNearest).min_filter == filter_and_mipmap_of(
            MinFilter::LinearMipmapLinear,
        ).min_filter,
        filter_and_mipmap_of(MinFilter::NearestMipmapNearest).min_filter == filter_and_mipmap_of(
            MinFilter::NearestMipmapLinear,
        ).min_filter,
        filter_and_mipmap_of(MinFilter::NearestMipmapLinear).mipmap_mode == filter_and_mipmap_of(
            MinFilter::LinearMipmapLinear,
        ).mipmap_mode,
        filter_and_mipmap_of(MinFilter::Nearest) == filter_and_mipmap_of(MinFilter::NearestMipmapNearest),
        filter_and_mipmap_of(MinFilter::Linear) == filter_and_mipmap_of(MinFilter::LinearMipmapNearest),
{
}

/// A magnification filter is taken as it is, and a wrapping mode is the address mode of the
/// same name.
pub proof fn lemma_mag_filter_and_wrapping(f: MagFilter, w: WrappingMode)
    ensures
        (filter_of(f) == Filter::Linear) <==> (f == MagFilter::Linear),
        (address_mode_of(w) == AddressMode::Repeat) <==> (w == WrappingMode::Repeat),
        (address_mode_of(w) == AddressMode::MirroredRepeat) <==> (w == WrappingMode::MirroredRepeat),
        (address_mode_of(w) == AddressMode::ClampToEdge) <==> (w == WrappingMode::ClampToEdge),
{
}

} // verus!
