//! Mip level arithmetic of images.
use vstd::prelude::*;

use crate::vulkan::command_buffer::commands::{BufferImageCopy, CmdBlitImage, CmdCopyBufferToImage, ImageBlit, ImageSubresourceLayers};
use crate::vulkan::command_buffer::sync_commands::CmdLayoutTransition;
use crate::vulkan::flags::{
    ASPECT_COLOR, LAYOUT_SHADER_READ_ONLY_OPTIMAL, LAYOUT_TRANSFER_DST_OPTIMAL, LAYOUT_TRANSFER_SRC_OPTIMAL,
};
use crate::vulkan::formats::FILTER_LINEAR;
use crate::vulkan::sync_manager::resource_access::{BufferHandle, ImageHandle, ImageSubresourceRange};

verus! {

/// The size of an image or of one of its mip levels (`VkExtent3D`).
#[derive(Clone, Copy, Debug, PartialEq, Eq, Structural)]
pub struct Extent3D {
    pub width: u32,
    pub height: u32,
    pub depth: u32,
}

/// A corner of a region of an image (`VkOffset3D`).
#[derive(Clone, Copy, Debug, PartialEq, Eq, Structural)]
pub struct Offset3D {
    pub x: i32,
    pub y: i32,
    pub z: i32,
}

/// The number of binary digits of `x`: 0 for 0, else `floor(log2(x)) + 1`.
pub open spec fn bit_len(x: nat) -> nat
    decreases x,
{
    if x == 0 {
        0
    } else {
        1 + bit_len(x / 2)
    }
}

/// The largest of three values.
pub open spec fn max3(a: u32, b: u32, c: u32) -> u32 {
    if a >= b && a >= c {
        a
    } else if b >= c {
        b
    } else {
        c
    }
}

proof fn lemma_bit_len_or(a: u32, b: u32)
    ensures
        bit_len((a | b) as nat) == if bit_len(a as nat) >= bit_len(b as nat) {
            bit_len(a as nat)
        } else {
            bit_len(b as nat)
        },
    decreases a + b,
{
    assert((a | b) / 2 == (a / 2) | (b / 2)) by (bit_vector);
    assert((a | b == 0) <==> (a == 0 && b == 0)) by (bit_vector);
    if a != 0 || b != 0 {
        lemma_bit_len_or(a / 2, b / 2);
    }
}

proof fn lemma_bit_len_monotone(a: nat, b: nat)
    requires
        a <= b,
    ensures
        bit_len(a) <= bit_len(b),
    decreases b,
{
    if a != 0 {
        lemma_bit_len_monotone(a / 2, b / 2);
    }
}

/// The bit length of a positive value bounds it by powers of two.
pub proof fn lemma_bit_len_bounds(x: nat)
    requires
        x > 0,
    ensures
        vstd::arithmetic::power2::pow2((bit_len(x) - 1) as nat) <= x < vstd::arithmetic::power2::pow2(bit_len(x)),
    decreases x,
{
    assert(bit_len(x) == 1 + bit_len(x / 2));
    vstd::arithmetic::power2::lemma_pow2_unfold(bit_len(x));
    if x / 2 > 0 {
        lemma_bit_len_bounds(x / 2);
        vstd::arithmetic::power2::lemma_pow2_unfold(bit_len(x / 2));
        assert(vstd::arithmetic::power2::pow2((bit_len(x) - 1) as nat) == vstd::arithmetic::power2::pow2(bit_len(x / 2)));
    } else {
        assert(bit_len(x / 2) == 0);
        vstd::arithmetic::power2::lemma2_to64();
    }
}

/// The number of levels of a complete mip chain of an image of size `extent`:
/// `floor(log2(max(width, height, depth))) + 1`, or 0 for an empty extent.
pub fn max_mip_levels(extent: Extent3D) -> (r: u32)
    ensures
        r == bit_len(max3(extent.width, extent.height, extent.depth) as nat),
        r <= 32,
{
    let mut v: u32 = extent.width | extent.height | extent.depth;
    let ghost all = v;
    let mut n: u32 = 0;
    proof {
        lemma_bit_len_or(extent.width | extent.height, extent.depth);
        lemma_bit_len_or(extent.width, extent.height);
        let (w, h, d) = (extent.width as nat, extent.height as nat, extent.depth as nat);
        let m = max3(extent.width, extent.height, extent.depth) as nat;
        lemma_bit_len_monotone(w, m);
        lemma_bit_len_monotone(h, m);
        lemma_bit_len_monotone(d, m);
        assert(bit_len(all as nat) == bit_len(m));
        lemma_bit_len_bounds_u32(all);
    }
    while v > 0
        invariant
            bit_len(all as nat) == n + bit_len(v as nat),
            bit_len(all as nat) <= 32,
        decreases v,
    {
        assert(v >> 1 == v / 2) by (bit_vector);
        v = v >> 1;
        n = n + 1;
    }
    n
}

proof fn lemma_bit_len_bounds_u32(x: u32)
    ensures
        bit_len(x as nat) <= 32,
{
    if x > 0 {
        lemma_bit_len_bounds(x as nat);
        vstd::arithmetic::power2::lemma2_to64();
        if bit_len(x as nat) > 32 {
            vstd::arithmetic::power2::lemma_pow2_strictly_increases(32, (bit_len(x as nat) - 1) as nat);
        }
    }
}

/// One side of a mip level: halved `level` times, at least 1.
pub open spec fn level_side(side: u32, level: u32) -> u32 {
    if side >> level >= 1 {
        side >> level
    } else {
        1
    }
}

/// Each mip level halves the sides of the one before it, rounding down and never going below
/// one: a side of level `level + 1` is half that side of level `level`, or 1 where half is 0;
/// level 0 keeps the side, or makes it 1 where it is 0.
pub proof fn lemma_level_side_halves(side: u32, level: u32)
    requires
        level < 31,
    ensures
        level_side(side, (level + 1) as u32) == (if level_side(side, level) / 2 >= 1 {
            level_side(side, level) / 2
        } else {
            1
        }),
        level_side(side, 0) == (if side >= 1 { side } else { 1 }),
        level_side(side, level) >= 1,
{
    let l1 = (level + 1) as u32;
    assert(side >> l1 == (side >> level) / 2) by (bit_vector)
        requires
            level < 31,
            l1 == level + 1,
    ;
    assert(side >> 0u32 == side) by (bit_vector);
}

/// The size of mip level `level` of an image of size `base_extent`: the base size for level
/// 0; none past the complete mip chain; otherwise each side halved `level` times, at least 1.
pub open spec fn spec_mip_level(base_extent: Extent3D, level: u32) -> Option<Extent3D> {
    if level == 0 {
        Some(base_extent)
    } else if level >= bit_len(max3(base_extent.width, base_extent.height, base_extent.depth) as nat) {
        None
    } else {
        Some(
            Extent3D {
                width: level_side(base_extent.width, level),
                height: level_side(base_extent.height, level),
                depth: level_side(base_extent.depth, level),
            },
        )
    }
}

/// The size of mip level `level` of an image of size `base_extent`.
pub fn mip_level(base_extent: Extent3D, level: u32) -> (r: Option<Extent3D>)
    ensures
        r == spec_mip_level(base_extent, level),
{
    if level == 0 {
        Some(base_extent)
    } else if level >= max_mip_levels(base_extent) {
        None
    } else {
        let w = base_extent.width >> level;
        let h = base_extent.height >> level;
        let d = base_extent.depth >> level;
        Some(
            Extent3D {
                width: if w >= 1 { w } else { 1 },
                height: if h >= 1 { h } else { 1 },
                depth: if d >= 1 { d } else { 1 },
            },
        )
    }
}

/// The far corner of a region of size `extent`; sides past `i32::MAX` wrap around.
pub fn extent_to_offset(extent: Extent3D) -> (r: Offset3D)
    ensures
        r == (Offset3D { x: extent.width as i32, y: extent.height as i32, z: extent.depth as i32 }),
{
    Offset3D { x: extent.width as i32, y: extent.height as i32, z: extent.depth as i32 }
}

/// All mip levels of the one layer of an image of `mip_levels` levels, for `aspect_mask`.
pub fn full_subresource_range(mip_levels: u32, aspect_mask: u32) -> (r: ImageSubresourceRange)
    ensures
        r == (ImageSubresourceRange {
            aspect_mask,
            base_mip_level: 0,
            level_count: mip_levels,
            base_array_layer: 0,
            layer_count: 1,
        }),
{
    ImageSubresourceRange { aspect_mask, base_mip_level: 0, level_count: mip_levels, base_array_layer: 0, layer_count: 1 }
}

/// One step of filling a mip chain: a blit of the whole of level `level - 1` (a region from
/// the origin to `src_size`) onto the whole of level `level` (to `dst_size`).
#[derive(Clone, Copy, Debug, PartialEq, Eq, Structural)]
pub struct MipBlit {
    pub level: u32,
    pub src_size: Offset3D,
    pub dst_size: Offset3D,
}

/// The far corner of mip level `level` of an image of size `base_extent`.
pub open spec fn level_corner(base_extent: Extent3D, level: u32) -> Offset3D {
    let e = spec_mip_level(base_extent, level).unwrap();
    Offset3D { x: e.width as i32, y: e.height as i32, z: e.depth as i32 }
}

/// The blits that fill the mip chain of an image of size `extent` and `num_levels` levels from
/// its level 0: one for each level from 1 on, each from the level before it.
pub fn mip_chain_blits(extent: Extent3D, num_levels: u32) -> (r: Vec<MipBlit>)
    requires
        num_levels <= bit_len(max3(extent.width, extent.height, extent.depth) as nat),
    ensures
        num_levels == 0 ==> r@.len() == 0,
        num_levels > 0 ==> r@.len() == num_levels - 1,
        forall|i: int| #![trigger r@[i]] 0 <= i < r@.len() ==> {
            &&& r@[i].level == i + 1
            &&& r@[i].src_size == level_corner(extent, i as u32)
            &&& r@[i].dst_size == level_corner(extent, (i + 1) as u32)
        },
{
    let mut blits: Vec<MipBlit> = Vec::new();
    let mut level: u32 = 1;
    while level < num_levels
        invariant
            1 <= level,
            num_levels > 0 ==> level <= num_levels,
            num_levels == 0 ==> level == 1,
            num_levels <= bit_len(max3(extent.width, extent.height, extent.depth) as nat),
            blits@.len() == level - 1,
            forall|i: int| #![trigger blits@[i]] 0 <= i < blits@.len() ==> {
                &&& blits@[i].level == i + 1
                &&& blits@[i].src_size == level_corner(extent, i as u32)
                &&& blits@[i].dst_size == level_corner(extent, (i + 1) as u32)
            },
        decreases num_levels - level,
    {
        let src = match mip_level(extent, level - 1) {
            Some(e) => e,
            None => extent,
        };
        let dst = match mip_level(extent, level) {
            Some(e) => e,
            None => extent,
        };
        blits.push(MipBlit { level, src_size: extent_to_offset(src), dst_size: extent_to_offset(dst) });
        level = level + 1;
    }
    blits
}

/// A command of a texture upload.
pub enum UploadCommand {
    Copy(CmdCopyBufferToImage),
    Transition(CmdLayoutTransition),
    Blit(CmdBlitImage),
}

/// The color layers of mip level `level`.
pub open spec fn color_level(level: u32) -> ImageSubresourceLayers {
    ImageSubresourceLayers { aspect_mask: ASPECT_COLOR, mip_level: level, base_array_layer: 0, layer_count: 1 }
}

/// The copy of a whole image of size `extent`, tightly packed from the start of a buffer, into
/// level 0.
pub open spec fn base_level_copy(extent: Extent3D) -> BufferImageCopy {
    BufferImageCopy {
        buffer_offset: 0,
        buffer_row_length: 0,
        buffer_image_height: 0,
        image_subresource: color_level(0),
        image_offset: Offset3D { x: 0, y: 0, z: 0 },
        image_extent: extent,
    }
}

/// The move of mip levels `base .. base + count` of `image` into `layout`.
pub open spec fn color_transition(image: ImageHandle, layout: i32, base: u32, count: u32) -> CmdLayoutTransition {
    CmdLayoutTransition {
        image,
        new_layout: layout,
        subresource_range: ImageSubresourceRange {
            aspect_mask: ASPECT_COLOR,
            base_mip_level: base,
            level_count: count,
            base_array_layer: 0,
            layer_count: 1,
        },
    }
}

/// The blit of the whole of level `level - 1` onto the whole of level `level`.
pub open spec fn is_level_blit(r: ImageBlit, extent: Extent3D, level: u32) -> bool {
    &&& r.src_subresource == color_level((level - 1) as u32)
    &&& r.dst_subresource == color_level(level)
    &&& r.src_offsets@ == seq![Offset3D { x: 0, y: 0, z: 0 }, level_corner(extent, (level - 1) as u32)]
    &&& r.dst_offsets@ == seq![Offset3D { x: 0, y: 0, z: 0 }, level_corner(extent, level)]
}

fn level_blit(extent: Extent3D, level: u32) -> (r: ImageBlit)
    requires
        1 <= level < bit_len(max3(extent.width, extent.height, extent.depth) as nat),
    ensures
        is_level_blit(r, extent, level),
{
    let src = match mip_level(extent, level - 1) {
        Some(e) => e,
        None => extent,
    };
    let dst = match mip_level(extent, level) {
        Some(e) => e,
        None => extent,
    };
    let origin = Offset3D { x: 0, y: 0, z: 0 };
    let r = ImageBlit {
        src_subresource: ImageSubresourceLayers {
            aspect_mask: ASPECT_COLOR,
            mip_level: level - 1,
            base_array_layer: 0,
            layer_count: 1,
        },
        src_offsets: [origin, extent_to_offset(src)],
        dst_subresource: ImageSubresourceLayers { aspect_mask: ASPECT_COLOR, mip_level: level, base_array_layer: 0, layer_count: 1 },
        dst_offsets: [origin, extent_to_offset(dst)],
    };
    assert(r.src_offsets@ =~= seq![origin, level_corner(extent, (level - 1) as u32)]);
    assert(r.dst_offsets@ =~= seq![origin, level_corner(extent, level)]);
    r
}

/// The commands of one step of an upload: `r` is command `i` of the upload of `buffer` into
/// `image` of size `extent`, which has `n` mip levels. The base level is copied in the transfer
/// destination layout; then each level from 1 on is blitted from the one before it, after that
/// one is moved into the transfer source layout; last, all levels are moved into the layout
/// for shader reads.
pub open spec fn is_upload_command(r: UploadCommand, i: int, image: ImageHandle, extent: Extent3D, buffer: BufferHandle) -> bool {
    let n = image.mip_levels;
    if i == 0 {
        r matches UploadCommand::Copy(c) && c.src_buffer == buffer && c.dst_image == image && c.dst_image_layout
            == LAYOUT_TRANSFER_DST_OPTIMAL && c.regions@ == seq![base_level_copy(extent)]
    } else if i % 2 == 1 && (i + 1) / 2 < n {
        r matches UploadCommand::Transition(t) && t == color_transition(
            image,
            LAYOUT_TRANSFER_SRC_OPTIMAL,
            ((i - 1) / 2) as u32,
            1,
        )
    } else if i % 2 == 0 && i / 2 < n {
        r matches UploadCommand::Blit(b) && b.src_image == image && b.dst_image == image && b.filter == FILTER_LINEAR
            && b.regions@.len() == 1 && is_level_blit(b.regions@[0], extent, (i / 2) as u32)
    } else {
        r matches UploadCommand::Transition(t) && t == color_transition(image, LAYOUT_SHADER_READ_ONLY_OPTIMAL, 0, n)
    }
}

/// Why a texture upload cannot be planned.
#[derive(Clone, Copy, Debug, PartialEq, Eq, Structural)]
pub enum UploadError {
    /// The image's format cannot be blitted with linear filtering, which the mip chain needs.
    NoLinearBlit,
}

impl UploadError {
    /// The message the renderer stops with.
    pub fn message(&self) -> (r: &'static str)
        ensures
            r@ == "texture format does not support linear blitting"@,
    {
        match self {
            UploadError::NoLinearBlit => "texture format does not support linear blitting",
        }
    }
}

/// The commands that upload the base level of a texture from `buffer` into `image` (of size
/// `extent`) and fill its mip chain, one blit per level. The chain is blitted with linear
/// filtering, so the upload fails when the image's format does not support linear filtering of
/// optimally tiled images (`supports_linear_blit`): the texture cannot be made.
pub fn copy_from_buffer_for_texture(
    image: ImageHandle,
    extent: Extent3D,
    buffer: BufferHandle,
    supports_linear_blit: bool,
) -> (r: Result<Vec<UploadCommand>, UploadError>)
    requires
        image.mip_levels <= bit_len(max3(extent.width, extent.height, extent.depth) as nat),
    ensures
        r is Err <==> !supports_linear_blit,
        r is Err ==> r == Err::<Vec<UploadCommand>, UploadError>(UploadError::NoLinearBlit),
        r matches Ok(v) ==> v@.len() == if image.mip_levels == 0 { 2 } else { 2 * image.mip_levels },
        r matches Ok(v) ==> forall|i: int| 0 <= i < v@.len() ==> #[trigger] is_upload_command(v@[i], i, image, extent, buffer),
{
    if !supports_linear_blit {
        return Err(UploadError::NoLinearBlit);
    }
    let num_levels = image.mip_levels;
    let mut commands: Vec<UploadCommand> = Vec::new();
    let mut regions: Vec<BufferImageCopy> = Vec::new();
    regions.push(
        BufferImageCopy {
            buffer_offset: 0,
            buffer_row_length: 0,
            buffer_image_height: 0,
            image_subresource: ImageSubresourceLayers { aspect_mask: ASPECT_COLOR, mip_level: 0, base_array_layer: 0, layer_count: 1 },
            image_offset: Offset3D { x: 0, y: 0, z: 0 },
            image_extent: extent,
        },
    );
    assert(regions@ =~= seq![base_level_copy(extent)]);
    commands.push(
        UploadCommand::Copy(
            CmdCopyBufferToImage { src_buffer: buffer, dst_image: image, dst_image_layout: LAYOUT_TRANSFER_DST_OPTIMAL, regions },
        ),
    );
    let mut level: u32 = 1;
    while level < num_levels
        invariant
            1 <= level,
            num_levels == image.mip_levels,
            num_levels > 0 ==> level <= num_levels,
            num_levels == 0 ==> level == 1,
            num_levels <= bit_len(max3(extent.width, extent.height, extent.depth) as nat),
            commands@.len() == 2 * level - 1,
            forall|i: int| 0 <= i < commands@.len() ==> #[trigger] is_upload_command(commands@[i], i, image, extent, buffer),
        decreases num_levels - level,
    {
        commands.push(
            UploadCommand::Transition(
                CmdLayoutTransition {
                    image,
                    new_layout: LAYOUT_TRANSFER_SRC_OPTIMAL,
                    subresource_range: ImageSubresourceRange {
                        aspect_mask: ASPECT_COLOR,
                        base_mip_level: level - 1,
                        level_count: 1,
                        base_array_layer: 0,
                        layer_count: 1,
                    },
                },
            ),
        );
        let mut blits: Vec<ImageBlit> = Vec::new();
        blits.push(level_blit(extent, level));
        commands.push(UploadCommand::Blit(CmdBlitImage { src_image: image, dst_image: image, regions: blits, filter: FILTER_LINEAR }));
        proof {
            let t = 2 * level - 1;
            assert(t % 2 == 1 && (t + 1) / 2 == level && (t - 1) / 2 == level - 1);
            assert((t + 1) % 2 == 0 && (t + 1) / 2 == level);
            assert(is_upload_command(commands@[t], t, image, extent, buffer));
            assert(is_upload_command(commands@[t + 1], t + 1, image, extent, buffer));
        }
        level = level + 1;
    }
    commands.push(
        UploadCommand::Transition(
            CmdLayoutTransition {
                image,
                new_layout: LAYOUT_SHADER_READ_ONLY_OPTIMAL,
                subresource_range: ImageSubresourceRange {
                    aspect_mask: ASPECT_COLOR,
                    base_mip_level: 0,
                    level_count: num_levels,
                    base_array_layer: 0,
                    layer_count: 1,
                },
            },
        ),
    );
    proof {
        let t = commands@.len() - 1;
        if num_levels > 0 {
            assert(level == num_levels);
            assert(t == 2 * num_levels - 1);
            assert(t % 2 == 1 && (t + 1) / 2 == num_levels);
        } else {
            assert(t == 1);
        }
        assert(is_upload_command(commands@[t], t, image, extent, buffer));
    }
    Ok(commands)
}

} // verus!
