use vstd::prelude::*;

use crate::format::{is_srgb_spec, Format, MAX_FORMAT};
use crate::image::Extent2D;

verus! {

/// Present modes, with the values Vulkan gives them.
pub const PRESENT_MODE_IMMEDIATE: i32 = 0;

pub const PRESENT_MODE_MAILBOX: i32 = 1;

pub const PRESENT_MODE_FIFO: i32 = 2;

pub const PRESENT_MODE_FIFO_RELAXED: i32 = 3;

/// The width the surface reports when the swapchain decides its extent.
pub const UNDEFINED_EXTENT_WIDTH: u32 = 0xFFFF_FFFF;

/// The extent of the swapchain: the surface's own, or the one asked for when
/// the surface leaves it to the swapchain.
pub fn surface_extent(current: Extent2D, width: u32, height: u32) -> (r: Extent2D)
    ensures
        r == (if current.width == UNDEFINED_EXTENT_WIDTH {
            Extent2D { width, height }
        } else {
            current
        }),
{
    if current.width == UNDEFINED_EXTENT_WIDTH {
        Extent2D { width, height }
    } else {
        current
    }
}

/// The present mode: with vsync, relaxed vsync where the surface offers it
/// and plain vsync otherwise; without vsync, immediate presenting.
pub fn present_mode(present_modes: &Vec<i32>, is_vsync_enabled: bool) -> (r: i32)
    ensures
        r == (if is_vsync_enabled && present_modes@.contains(PRESENT_MODE_FIFO_RELAXED) {
            PRESENT_MODE_FIFO_RELAXED
        } else if is_vsync_enabled {
            PRESENT_MODE_FIFO
        } else {
            PRESENT_MODE_IMMEDIATE
        }),
{
    let mut i: usize = 0;
    while i < present_modes.len()
        invariant
            i <= present_modes.len(),
            forall|j: int|
                0 <= j < i ==> !(is_vsync_enabled && #[trigger] present_modes@[j]
                    == PRESENT_MODE_FIFO_RELAXED),
        decreases present_modes.len() - i,
    {
        let mode = present_modes[i];
        if is_vsync_enabled && mode == PRESENT_MODE_FIFO_RELAXED {
            // if vsync is enabled, prefer dynamic vsync
            return mode;
        }
        i = i + 1;
    }
    if is_vsync_enabled {
        // otherwise default to hard vsync
        PRESENT_MODE_FIFO
    } else {
        // no vsync at all
        PRESENT_MODE_IMMEDIATE
    }
}

/// Number of swapchain images to ask for: one more than the surface's
/// minimum, within its maximum when it has one (a maximum of 0 means none).
pub fn desired_image_count(min_image_count: u32, max_image_count: u32) -> (r: u32)
    requires
        min_image_count < u32::MAX,
    ensures
        r == (if max_image_count > 0 && min_image_count + 1 > max_image_count {
            max_image_count as int
        } else {
            min_image_count + 1
        }),
{
    let desired = min_image_count + 1;
    if max_image_count > 0 && desired > max_image_count {
        return max_image_count;
    }
    desired
}

/// The number of a format.
pub open spec fn number_of(f: Format) -> u32 {
    f as u32
}

/// The format of the numbering of formats `raw` stands for.
pub open spec fn format_numbered(raw: u32) -> Format {
    choose|f: Format| #[trigger] number_of(f) == raw
}

/// Whether the surface format `raw` is a format of the numbering stored with
/// sRGB encoding.
pub open spec fn srgb_numbered(raw: u32) -> bool {
    raw <= MAX_FORMAT && is_srgb_spec(format_numbered(raw))
}

/// The formats the search reads are in the numbering: every one up to the
/// first sRGB format.
pub open spec fn formats_readable(formats: Seq<u32>) -> bool {
    forall|j: int|
        0 <= j < formats.len() && (forall|k: int| 0 <= k < j ==> !srgb_numbered(#[trigger] formats[k]))
            ==> #[trigger] formats[j] <= MAX_FORMAT
}

/// The position of the surface format to use among those the surface
/// offers: the first sRGB one, else the first.
pub fn surface_format(formats: &Vec<u32>) -> (r: usize)
    requires
        formats.len() > 0,
        formats_readable(formats@),
    ensures
        r < formats.len(),
        srgb_numbered(formats@[r as int]) ==> forall|k: int|
            0 <= k < r ==> !srgb_numbered(#[trigger] formats@[k]),
        !srgb_numbered(formats@[r as int]) ==> r == 0 && forall|k: int|
            0 <= k < formats.len() ==> !srgb_numbered(#[trigger] formats@[k]),
{
    let mut i: usize = 0;
    while i < formats.len()
        invariant
            i <= formats.len(),
            formats_readable(formats@),
            forall|k: int| 0 <= k < i ==> !srgb_numbered(#[trigger] formats@[k]),
        decreases formats.len() - i,
    {
        let raw = formats[i];
        assert(raw <= MAX_FORMAT);
        let format = Format::of_u32(raw);
        proof {
            assert(number_of(format) == raw);
            assert(number_of(format_numbered(raw)) == raw);
            assert(format_numbered(raw) == format);
        }
        if format.is_srgb() {
            return i;
        }
        i = i + 1;
    }
    0
}

} // verus!
