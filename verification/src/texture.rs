use vstd::prelude::*;
use vstd::arithmetic::div_mod::lemma_div_is_ordered_by_denominator;
use vstd::arithmetic::power2::{lemma2_to64, lemma_pow2_pos, lemma_pow2_strictly_increases, pow2};
use vstd::bits::lemma_u32_shr_is_div;

use crate::buffer::DeviceSlice;
use crate::format::{aspect_spec, has_depth_spec, Format};
use crate::image::{
    AccessMask, Extent2D, ImageAspect, ImageBarrier, ImageLayout, SubresourceRange,
    STAGE_FRAGMENT_SHADER, STAGE_TOP_OF_PIPE, STAGE_TRANSFER,
};

verus! {

/// One mip level of a texture: its index, size in texels, size in bytes and
/// offset of its data from the start of the texture's data.
#[derive(Copy, Clone, Debug, Default)]
pub struct MipMap {
    pub index: u32,
    pub width: u32,
    pub height: u32,
    pub size: u32,
    pub offset: u32,
}

impl MipMap {
    /// The name a pipeline file gives to "every mip level".
    pub const ALL_LEVELS_NAME: &'static str = "ALL";

    /// The level number that stands for "every mip level".
    pub const ALL_LEVELS_VALUE: u8 = 255;

    /// Whether `v` is the name that stands for every mip level.
    pub fn is_all_levels_name(v: &str) -> (r: bool)
        ensures
            r == (v@ == Self::ALL_LEVELS_NAME@),
    {
        v.to_owned() == Self::ALL_LEVELS_NAME.to_owned()
    }

    /// Whether `v` is the level number that stands for every mip level.
    pub fn is_all_levels_value(v: u8) -> (r: bool)
        ensures
            r == (v == Self::ALL_LEVELS_VALUE),
    {
        v == Self::ALL_LEVELS_VALUE
    }

    pub fn extent(&self) -> (r: Extent2D)
        ensures
            r == (Extent2D { width: self.width, height: self.height }),
    {
        Extent2D { width: self.width, height: self.height }
    }
}

/// The side of mip level `index` of an image whose side is `value`:
/// `max(1, floor(value / 2^index))`.
pub open spec fn mip_dimension(index: nat, value: u32) -> int {
    let v = value as int / pow2(index) as int;
    if v < 1 {
        1
    } else {
        v
    }
}

/// Each mip level is at least one texel wide and no wider than the level
/// before it.
pub proof fn lemma_mip_dimensions_shrink(index: nat, value: u32)
    ensures
        1 <= mip_dimension(index + 1, value) <= mip_dimension(index, value),
{
    lemma_pow2_strictly_increases(index, index + 1);
    lemma_pow2_pos(index);
    lemma_div_is_ordered_by_denominator(value as int, pow2(index) as int, pow2(index + 1) as int);
}

/// Side of mip level `index` of an image whose side is `value`.
pub fn mip_dimensions_of(index: usize, value: u32) -> (r: u32)
    ensures
        r == mip_dimension(index as nat, value),
{
    if index >= 32 {
        proof {
            lemma2_to64();
            if index > 32 {
                lemma_pow2_strictly_increases(32, index as nat);
            }
            assert(value as int / pow2(index as nat) as int == 0) by (nonlinear_arith)
                requires
                    pow2(index as nat) > value,
            {
            }
        }
        1
    } else {
        let v = value >> (index as u32);
        proof {
            lemma_u32_shr_is_div(value, index as u32);
        }
        if v == 0 {
            1
        } else {
            v
        }
    }
}

/// Image usage bits, with the values Vulkan gives them.
pub const IMAGE_USAGE_TRANSFER_SRC: u32 = 0x1;

pub const IMAGE_USAGE_TRANSFER_DST: u32 = 0x2;

pub const IMAGE_USAGE_SAMPLED: u32 = 0x4;

pub const IMAGE_USAGE_COLOR_ATTACHMENT: u32 = 0x10;

pub const IMAGE_USAGE_DEPTH_STENCIL_ATTACHMENT: u32 = 0x20;

/// The usages an image of `format` is created with: textures are copied into
/// and sampled; attachments are also blitted and rendered into.
pub open spec fn usage_flags_spec(format: Format, is_attachment: bool) -> u32 {
    if !is_attachment {
        IMAGE_USAGE_TRANSFER_DST | IMAGE_USAGE_SAMPLED
    } else if has_depth_spec(format) {
        IMAGE_USAGE_SAMPLED | IMAGE_USAGE_TRANSFER_DST | IMAGE_USAGE_TRANSFER_SRC
            | IMAGE_USAGE_DEPTH_STENCIL_ATTACHMENT
    } else {
        IMAGE_USAGE_SAMPLED | IMAGE_USAGE_TRANSFER_DST | IMAGE_USAGE_TRANSFER_SRC
            | IMAGE_USAGE_COLOR_ATTACHMENT
    }
}

pub fn usage_flags_for(format: Format, is_attachment: bool) -> (r: u32)
    ensures
        r == usage_flags_spec(format, is_attachment),
{
    if !is_attachment {
        return IMAGE_USAGE_TRANSFER_DST | IMAGE_USAGE_SAMPLED;
    }
    let depth_or_color = if format.has_depth() {
        IMAGE_USAGE_DEPTH_STENCIL_ATTACHMENT
    } else {
        IMAGE_USAGE_COLOR_ATTACHMENT
    };
    // for attachment sampling, transfer flags for blits
    IMAGE_USAGE_SAMPLED | IMAGE_USAGE_TRANSFER_DST | IMAGE_USAGE_TRANSFER_SRC | depth_or_color
}

/// A copy from a buffer into one mip level of an image: the data starts at
/// `buffer_offset`, is tightly packed and covers `extent` texels of one layer.
#[derive(Copy, Clone, Debug, PartialEq, Eq, Structural)]
pub struct BufferImageCopy {
    pub buffer_offset: u64,
    pub aspect: ImageAspect,
    pub mip_level: u32,
    pub layer_count: u32,
    pub extent: Extent2D,
}

/// A texture on the device. `memory`, `image` and `view` are raw handles;
/// `staging` holds the texture's data until it is uploaded.
pub struct Texture {
    pub id: u32,
    pub format: Format,
    pub mip_maps: Vec<MipMap>,
    pub name: String,
    pub memory: u64,
    pub image: u64,
    pub view: u64,
    pub staging: Option<DeviceSlice>,
}

/// The commands that upload a texture: a transition into a copy destination,
/// the copies from the staging buffer and a transition for sampling.
pub struct TextureUpload {
    pub initial: ImageBarrier,
    pub staging_buffer: u64,
    pub regions: Vec<BufferImageCopy>,
    pub end: ImageBarrier,
}

/// Sum of the sizes of the mip levels.
pub open spec fn sizes_sum(m: Seq<MipMap>) -> int
    decreases m.len(),
{
    if m.len() == 0 {
        0
    } else {
        sizes_sum(m.drop_last()) + m.last().size
    }
}

/// The copy of mip level `mm` whose data lies at `offset + mm.offset`.
pub open spec fn copy_region(aspect: ImageAspect, offset: u64, mm: MipMap) -> BufferImageCopy {
    BufferImageCopy {
        buffer_offset: (offset + mm.offset) as u64,
        aspect,
        mip_level: mm.index,
        layer_count: 1,
        extent: Extent2D { width: mm.width, height: mm.height },
    }
}

/// Whether every mip level's data offset, added to `offset`, fits in `u64`.
pub open spec fn offsets_fit(m: Seq<MipMap>, offset: u64) -> bool {
    forall|i: int| 0 <= i < m.len() ==> offset + #[trigger] m[i].offset <= u64::MAX
}

/// Whether every mip level's data offset, added to `offset`, fits in `u64`,
/// as copying the mip levels from a buffer at `offset` needs.
pub fn offsets_fit_check(m: &Vec<MipMap>, offset: u64) -> (r: bool)
    ensures
        r == offsets_fit(m@, offset),
{
    let mut i: usize = 0;
    while i < m.len()
        invariant
            i <= m.len(),
            forall|j: int| 0 <= j < i ==> offset + #[trigger] m@[j].offset <= u64::MAX,
        decreases m.len() - i,
    {
        if m[i].offset as u64 > u64::MAX - offset {
            return false;
        }
        i = i + 1;
    }
    true
}

impl Texture {
    /// The range of every mip level of the texture.
    pub open spec fn range_spec(&self) -> SubresourceRange {
        SubresourceRange {
            aspect: aspect_spec(self.format),
            base_mip_level: 0,
            level_count: self.mip_maps.len() as u32,
            base_array_layer: 0,
            layer_count: 1,
        }
    }

    /// The transition that makes the texture a copy destination.
    pub open spec fn initial_barrier_spec(&self) -> ImageBarrier {
        ImageBarrier {
            image: self.image,
            src_access: AccessMask::Nothing,
            dst_access: AccessMask::TransferWrite,
            old_layout: ImageLayout::Undefined,
            new_layout: ImageLayout::TransferDstOptimal,
            src_stages: STAGE_TOP_OF_PIPE,
            dst_stages: STAGE_TRANSFER,
            range: self.range_spec(),
        }
    }

    /// The transition that makes the copied texture readable by shaders.
    pub open spec fn end_barrier_spec(&self) -> ImageBarrier {
        ImageBarrier {
            image: self.image,
            src_access: AccessMask::TransferWrite,
            dst_access: AccessMask::ShaderRead,
            old_layout: ImageLayout::TransferDstOptimal,
            new_layout: ImageLayout::ShaderReadOnlyOptimal,
            src_stages: STAGE_TRANSFER,
            dst_stages: STAGE_FRAGMENT_SHADER,
            range: self.range_spec(),
        }
    }

    pub fn is_uploaded(&self) -> (r: bool)
        ensures
            r == self.staging.is_none(),
    {
        self.staging.is_none()
    }

    pub fn mip_map_count(&self) -> (r: u32)
        ensures
            r == self.mip_maps.len() as u32,
    {
        self.mip_maps.len() as u32
    }

    pub fn width(&self) -> (r: u32)
        requires
            self.mip_maps.len() > 0,
        ensures
            r == self.mip_maps[0].width,
    {
        self.mip_maps[0].width
    }

    pub fn height(&self) -> (r: u32)
        requires
            self.mip_maps.len() > 0,
        ensures
            r == self.mip_maps[0].height,
    {
        self.mip_maps[0].height
    }

    pub fn extent(&self) -> (r: Extent2D)
        requires
            self.mip_maps.len() > 0,
        ensures
            r == (Extent2D { width: self.mip_maps[0].width, height: self.mip_maps[0].height }),
    {
        Extent2D { width: self.width(), height: self.height() }
    }

    /// Size in bytes of all the mip levels together.
    pub fn size(&self) -> (r: u32)
        requires
            sizes_sum(self.mip_maps@) <= u32::MAX,
        ensures
            r == sizes_sum(self.mip_maps@),
    {
        let mut total: u32 = 0;
        let mut i: usize = 0;
        while i < self.mip_maps.len()
            invariant
                i <= self.mip_maps.len(),
                total == sizes_sum(self.mip_maps@.take(i as int)),
                sizes_sum(self.mip_maps@) <= u32::MAX,
            decreases self.mip_maps.len() - i,
        {
            proof {
                assert(self.mip_maps@.take(i as int + 1).drop_last() == self.mip_maps@.take(i as int));
                lemma_sizes_sum_prefix(self.mip_maps@, i as int + 1);
            }
            total = total + self.mip_maps[i].size;
            i = i + 1;
        }
        proof {
            assert(self.mip_maps@.take(i as int) == self.mip_maps@);
        }
        total
    }

    pub fn subresource_range(&self) -> (r: SubresourceRange)
        ensures
            r == self.range_spec(),
    {
        SubresourceRange {
            aspect: self.format.aspect(),
            base_mip_level: 0,
            level_count: self.mip_map_count(),
            base_array_layer: 0,
            layer_count: 1,
        }
    }

    /// One copy per mip level, from a buffer that holds the texture's data at
    /// `offset`.
    pub fn buffer_copy_regions(&self, offset: u64) -> (r: Vec<BufferImageCopy>)
        requires
            offsets_fit(self.mip_maps@, offset),
        ensures
            r@ == self.mip_maps@.map_values(|mm: MipMap| copy_region(aspect_spec(self.format), offset, mm)),
    {
        let aspect = self.format.aspect();
        let mut regions: Vec<BufferImageCopy> = Vec::new();
        let mut i: usize = 0;
        while i < self.mip_maps.len()
            invariant
                i <= self.mip_maps.len(),
                aspect == aspect_spec(self.format),
                offsets_fit(self.mip_maps@, offset),
                regions@ == self.mip_maps@.take(i as int).map_values(
                    |mm: MipMap| copy_region(aspect_spec(self.format), offset, mm),
                ),
            decreases self.mip_maps.len() - i,
        {
            let mm = self.mip_maps[i];
            regions.push(
                BufferImageCopy {
                    buffer_offset: offset + mm.offset as u64,
                    aspect,
                    mip_level: mm.index,
                    layer_count: 1,
                    extent: mm.extent(),
                },
            );
            proof {
                assert(self.mip_maps@.take(i as int + 1) == self.mip_maps@.take(i as int).push(mm));
            }
            i = i + 1;
        }
        proof {
            assert(self.mip_maps@.take(i as int) == self.mip_maps@);
        }
        regions
    }

    /// The commands that upload the staged data into the texture.
    pub fn upload(&self) -> (r: TextureUpload)
        requires
            self.staging.is_some(),
            offsets_fit(self.mip_maps@, self.staging.unwrap().offset),
        ensures
            r.initial == self.initial_barrier_spec(),
            r.end == self.end_barrier_spec(),
            r.staging_buffer == self.staging.unwrap().buffer,
            r.regions@ == self.mip_maps@.map_values(
                |mm: MipMap| copy_region(aspect_spec(self.format), self.staging.unwrap().offset, mm),
            ),
    {
        let range = self.subresource_range();
        let initial = ImageBarrier {
            image: self.image,
            src_access: AccessMask::Nothing,
            dst_access: AccessMask::TransferWrite,
            old_layout: ImageLayout::Undefined,
            new_layout: ImageLayout::TransferDstOptimal,
            src_stages: STAGE_TOP_OF_PIPE,
            dst_stages: STAGE_TRANSFER,
            range,
        };
        let end = ImageBarrier {
            image: self.image,
            src_access: AccessMask::TransferWrite,
            dst_access: AccessMask::ShaderRead,
            old_layout: ImageLayout::TransferDstOptimal,
            new_layout: ImageLayout::ShaderReadOnlyOptimal,
            src_stages: STAGE_TRANSFER,
            dst_stages: STAGE_FRAGMENT_SHADER,
            range,
        };
        let staging = match &self.staging {
            Some(s) => *s,
            None => {
                proof {
                    assert(false);
                }
                DeviceSlice::empty()
            },
        };
        TextureUpload {
            initial,
            staging_buffer: staging.buffer,
            regions: self.buffer_copy_regions(staging.offset),
            end,
        }
    }
}

/// The sum over a prefix grows by the size of the next level.
proof fn lemma_sizes_sum_prefix(m: Seq<MipMap>, n: int)
    requires
        0 < n <= m.len(),
    ensures
        sizes_sum(m.take(n)) == sizes_sum(m.take(n - 1)) + m[n - 1].size,
        sizes_sum(m.take(n)) <= sizes_sum(m),
    decreases m.len() - n,
{
    assert(m.take(n).drop_last() == m.take(n - 1));
    if n < m.len() {
        lemma_sizes_sum_prefix(m, n + 1);
    } else {
        assert(m.take(n) == m);
    }
}

} // verus!
