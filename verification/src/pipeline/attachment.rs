use vstd::prelude::*;

use crate::format::{aspect_spec, Format};
use crate::image::{
    AccessMask, Extent2D, ImageAspect, ImageBarrier, ImageLayout, LoadOp, Offset2D, Rect2D,
    RenderingAttachmentInfo, StoreOp, SubresourceRange, REMAINING_MIP_LEVELS,
    STAGE_COLOR_ATTACHMENT_OUTPUT,
};
use crate::texture::MipMap;

verus! {

/// An image that passes render into or sample from. `memory`, `image`, `view`
/// and the per level views are raw handles; `vk_format` is the raw Vulkan
/// format. `level_usage` is the mip level passes use, or every level when it
/// is `MipMap::ALL_LEVELS_VALUE`.
#[derive(Clone)]
pub struct Attachment {
    pub name: String,
    pub memory: u64,
    pub format: Format,
    pub vk_format: i32,
    pub image: u64,
    pub view: u64,
    pub per_level_views: Vec<u64>,
    pub level_usage: u8,
    pub extent: Extent2D,
    pub descriptor_index: u32,
}

/// The range `count` mip levels from `base`, of the first array layer.
pub open spec fn range_with_levels(aspect: ImageAspect, base: u32, count: u32) -> SubresourceRange {
    SubresourceRange {
        aspect,
        base_mip_level: base,
        level_count: count,
        base_array_layer: 0,
        layer_count: 1,
    }
}

/// The color range of every mip level.
pub open spec fn color_range() -> SubresourceRange {
    range_with_levels(ImageAspect { color: true, depth: false, stencil: false }, 0, REMAINING_MIP_LEVELS)
}

/// The transition of swapchain image `image` into a color attachment.
pub open spec fn default_write_barrier(image: u64) -> ImageBarrier {
    ImageBarrier {
        image,
        src_access: AccessMask::MemoryRead,
        dst_access: AccessMask::MemoryWrite,
        old_layout: ImageLayout::Undefined,
        new_layout: ImageLayout::AttachmentOptimal,
        src_stages: STAGE_COLOR_ATTACHMENT_OUTPUT,
        dst_stages: STAGE_COLOR_ATTACHMENT_OUTPUT,
        range: color_range(),
    }
}

/// The handles in `s` other than `v`, in order.
pub open spec fn views_other_than(s: Seq<u64>, v: u64) -> Seq<u64>
    decreases s.len(),
{
    if s.len() == 0 {
        s
    } else if s.last() == v {
        views_other_than(s.drop_last(), v)
    } else {
        views_other_than(s.drop_last(), v).push(s.last())
    }
}

impl Attachment {
    /// The name of the attachment that stands for the swapchain image.
    pub const DEFAULT_NAME: &'static str = "default";

    /// Whether this attachment stands for the swapchain image.
    pub open spec fn is_default_spec(&self) -> bool {
        self.name@ == Self::DEFAULT_NAME@
    }

    /// Number of mip levels: one per level view, and at least one.
    pub fn levels(&self) -> (r: u8)
        ensures
            r == (if self.per_level_views.len() < 1 {
                1
            } else {
                self.per_level_views.len()
            }) as u8,
    {
        let n = if self.per_level_views.len() < 1 {
            1
        } else {
            self.per_level_views.len()
        };
        n as u8
    }

    pub fn per_level_view(&self, level: u8) -> (r: u64)
        requires
            level < self.per_level_views.len(),
        ensures
            r == self.per_level_views[level as int],
    {
        self.per_level_views[level as usize]
    }

    /// The view passes use: the view of every level, or that of the level in use.
    pub fn usage_view(&self) -> (r: u64)
        requires
            self.level_usage == MipMap::ALL_LEVELS_VALUE || self.level_usage
                < self.per_level_views.len(),
        ensures
            r == (if self.level_usage == MipMap::ALL_LEVELS_VALUE {
                self.view
            } else {
                self.per_level_views[self.level_usage as int]
            }),
    {
        if MipMap::is_all_levels_value(self.level_usage) {
            self.view
        } else {
            self.per_level_view(self.level_usage)
        }
    }

    /// The views that destroying the attachment releases: the main view, then
    /// the level views that are not the main view. The swapchain owns those of
    /// the default attachment.
    pub fn views_to_destroy(&self) -> (r: Vec<u64>)
        ensures
            self.is_default_spec() ==> r@ == Seq::<u64>::empty(),
            !self.is_default_spec() ==> r@ == seq![self.view] + views_other_than(
                self.per_level_views@,
                self.view,
            ),
    {
        let mut r: Vec<u64> = Vec::new();
        if self.is_default() {
            return r;
        }
        let mut others: Vec<u64> = Vec::new();
        let mut i: usize = 0;
        while i < self.per_level_views.len()
            invariant
                i <= self.per_level_views.len(),
                others@ == views_other_than(self.per_level_views@.take(i as int), self.view),
            decreases self.per_level_views.len() - i,
        {
            let v = self.per_level_views[i];
            proof {
                assert(self.per_level_views@.take(i as int + 1).drop_last()
                    == self.per_level_views@.take(i as int));
            }
            if v != self.view {
                others.push(v);
            }
            i = i + 1;
        }
        proof {
            assert(self.per_level_views@.take(i as int) == self.per_level_views@);
        }
        r.push(self.view);
        r.append(&mut others);
        r
    }

    /// The attachment that stands for a swapchain image.
    pub fn default_attachment_of(vk_format: i32, image: u64, image_view: u64, extent: Extent2D) -> (r:
        Attachment)
        ensures
            r.is_default_spec(),
            r.format == Format::UNDEFINED,
            r.vk_format == vk_format,
            r.image == image,
            r.memory == 0,
            r.view == image_view,
            r.per_level_views@ == seq![image_view],
            r.level_usage == 0,
            r.extent == extent,
            r.descriptor_index == 0,
    {
        Attachment {
            format: Format::UNDEFINED,
            vk_format,
            image,
            memory: 0,
            name: Self::DEFAULT_NAME.to_owned(),
            view: image_view,
            per_level_views: vec![image_view],
            level_usage: 0,
            extent,
            descriptor_index: 0,
        }
    }

    pub fn is_default(&self) -> (r: bool)
        ensures
            r == self.is_default_spec(),
    {
        self.name == Self::DEFAULT_NAME.to_owned()
    }

    /// The whole attachment, from the origin.
    pub fn render_area_no_offset(&self) -> (r: Rect2D)
        ensures
            r == (Rect2D { offset: Offset2D { x: 0, y: 0 }, extent: self.extent }),
    {
        Rect2D { offset: Offset2D { x: 0, y: 0 }, extent: self.extent }
    }

    /// The transition of a swapchain image into a color attachment.
    pub fn default_attachment_write_barrier(image: u64) -> (r: ImageBarrier)
        ensures
            r == default_write_barrier(image),
    {
        ImageBarrier {
            image,
            src_access: AccessMask::MemoryRead,
            dst_access: AccessMask::MemoryWrite,
            old_layout: ImageLayout::Undefined,
            new_layout: ImageLayout::AttachmentOptimal,
            src_stages: STAGE_COLOR_ATTACHMENT_OUTPUT,
            dst_stages: STAGE_COLOR_ATTACHMENT_OUTPUT,
            range: Self::color_subresource_range(),
        }
    }

    /// The transition of a rendered swapchain image for presenting; presenting
    /// expects no access mask.
    pub fn default_attachment_present_barrier(image: u64) -> (r: ImageBarrier)
        ensures
            r == (ImageBarrier {
                image,
                src_access: AccessMask::MemoryWrite,
                dst_access: AccessMask::Nothing,
                old_layout: ImageLayout::AttachmentOptimal,
                new_layout: ImageLayout::PresentSrc,
                src_stages: STAGE_COLOR_ATTACHMENT_OUTPUT,
                dst_stages: STAGE_COLOR_ATTACHMENT_OUTPUT,
                range: color_range(),
            }),
    {
        ImageBarrier {
            image,
            src_access: AccessMask::MemoryWrite,
            dst_access: AccessMask::Nothing,
            old_layout: ImageLayout::AttachmentOptimal,
            new_layout: ImageLayout::PresentSrc,
            src_stages: STAGE_COLOR_ATTACHMENT_OUTPUT,
            dst_stages: STAGE_COLOR_ATTACHMENT_OUTPUT,
            range: Self::color_subresource_range(),
        }
    }

    /// The swapchain image as a color attachment that is cleared and stored.
    pub fn default_attachment_rendering_attachment_info(a: &Attachment) -> (r:
        RenderingAttachmentInfo)
        ensures
            r == (RenderingAttachmentInfo {
                image_view: a.view,
                image_layout: ImageLayout::AttachmentOptimal,
                load_op: LoadOp::Clear,
                store_op: StoreOp::Store,
            }),
    {
        RenderingAttachmentInfo {
            image_view: a.view,
            image_layout: ImageLayout::AttachmentOptimal,
            load_op: LoadOp::Clear,
            store_op: StoreOp::Store,
        }
    }

    pub fn color_subresource_range() -> (r: SubresourceRange)
        ensures
            r == color_range(),
    {
        Self::default_subresource_range(ImageAspect::color())
    }

    /// Every mip level of the given aspect.
    pub fn default_subresource_range(aspect: ImageAspect) -> (r: SubresourceRange)
        ensures
            r == range_with_levels(aspect, 0, REMAINING_MIP_LEVELS),
    {
        Self::subresource_range_wlevels(aspect, 0, REMAINING_MIP_LEVELS)
    }

    pub fn subresource_range_wlevels(aspect: ImageAspect, base: u32, count: u32) -> (r:
        SubresourceRange)
        ensures
            r == range_with_levels(aspect, base, count),
    {
        SubresourceRange {
            aspect,
            base_mip_level: base,
            level_count: count,
            base_array_layer: 0,
            layer_count: 1,
        }
    }

    /// The range of each single mip level of an image of `format` with
    /// `levels` levels, which the per level views cover.
    pub fn per_level_ranges(format: Format, levels: u8) -> (r: Vec<SubresourceRange>)
        ensures
            r.len() == levels,
            forall|i: int|
                0 <= i < levels ==> #[trigger] r[i] == range_with_levels(
                    aspect_spec(format),
                    i as u32,
                    1,
                ),
    {
        let aspect = format.aspect();
        let mut r: Vec<SubresourceRange> = Vec::new();
        let mut l: u8 = 0;
        while l < levels
            invariant
                l <= levels,
                aspect == aspect_spec(format),
                r.len() == l,
                forall|i: int|
                    0 <= i < l ==> #[trigger] r[i] == range_with_levels(
                        aspect_spec(format),
                        i as u32,
                        1,
                    ),
            decreases levels - l,
        {
            r.push(Self::subresource_range_wlevels(aspect, l as u32, 1));
            l = l + 1;
        }
        r
    }
}

} // verus!
