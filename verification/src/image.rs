use vstd::prelude::*;

verus! {

/// Width and height of an image, in texels.
#[derive(Copy, Clone, Debug, PartialEq, Eq, Structural, Default)]
pub struct Extent2D {
    pub width: u32,
    pub height: u32,
}

/// A 2D offset, in texels.
#[derive(Copy, Clone, Debug, PartialEq, Eq, Structural, Default)]
pub struct Offset2D {
    pub x: i32,
    pub y: i32,
}

/// A rectangle: an offset and an extent.
#[derive(Copy, Clone, Debug, PartialEq, Eq, Structural, Default)]
pub struct Rect2D {
    pub offset: Offset2D,
    pub extent: Extent2D,
}

/// Which aspects of an image a view, copy or barrier touches.
#[derive(Copy, Clone, Debug, PartialEq, Eq, Structural)]
pub struct ImageAspect {
    pub color: bool,
    pub depth: bool,
    pub stencil: bool,
}

impl ImageAspect {
    /// Only the color aspect.
    pub fn color() -> (r: Self)
        ensures
            r == (ImageAspect { color: true, depth: false, stencil: false }),
    {
        ImageAspect { color: true, depth: false, stencil: false }
    }
}

/// The layouts an image goes through in the render pipeline.
#[derive(Copy, Clone, Debug, PartialEq, Eq, Structural)]
pub enum ImageLayout {
    Undefined,
    TransferSrcOptimal,
    TransferDstOptimal,
    AttachmentOptimal,
    ReadOnlyOptimal,
    ShaderReadOnlyOptimal,
    PresentSrc,
}

/// The memory accesses a barrier waits for or makes available.
#[derive(Copy, Clone, Debug, PartialEq, Eq, Structural)]
pub enum AccessMask {
    Nothing,
    MemoryRead,
    MemoryWrite,
    TransferWrite,
    ShaderRead,
}

/// Pipeline stages a barrier waits for or blocks, one bit per stage.
pub const STAGE_TRANSFER: u32 = 1;

pub const STAGE_EARLY_FRAGMENT_TESTS: u32 = 2;

pub const STAGE_LATE_FRAGMENT_TESTS: u32 = 4;

pub const STAGE_COLOR_ATTACHMENT_OUTPUT: u32 = 8;

pub const STAGE_FRAGMENT_SHADER: u32 = 16;

pub const STAGE_ALL_COMMANDS: u32 = 32;

pub const STAGE_TOP_OF_PIPE: u32 = 64;

/// Count of mip levels that reaches to the last level of the image.
pub const REMAINING_MIP_LEVELS: u32 = 0xFFFF_FFFF;

/// The part of an image a view or barrier refers to.
#[derive(Copy, Clone, Debug, PartialEq, Eq, Structural)]
pub struct SubresourceRange {
    pub aspect: ImageAspect,
    pub base_mip_level: u32,
    pub level_count: u32,
    pub base_array_layer: u32,
    pub layer_count: u32,
}

/// A layout transition and memory dependency on a range of an image.
/// `image` is the raw handle of the image.
#[derive(Copy, Clone, Debug, PartialEq, Eq, Structural)]
pub struct ImageBarrier {
    pub image: u64,
    pub src_access: AccessMask,
    pub dst_access: AccessMask,
    pub old_layout: ImageLayout,
    pub new_layout: ImageLayout,
    pub src_stages: u32,
    pub dst_stages: u32,
    pub range: SubresourceRange,
}

/// What rendering does with an attachment's contents before drawing.
#[derive(Copy, Clone, Debug, PartialEq, Eq, Structural)]
pub enum LoadOp {
    Load,
    Clear,
    DontCare,
}

/// What rendering does with an attachment's contents after drawing.
#[derive(Copy, Clone, Debug, PartialEq, Eq, Structural)]
pub enum StoreOp {
    Store,
    DontCare,
    Nothing,
}

/// How a rendering pass uses one attachment; `image_view` is a raw handle.
/// The clear value is chosen where the pass is built.
#[derive(Copy, Clone, Debug, PartialEq, Eq, Structural)]
pub struct RenderingAttachmentInfo {
    pub image_view: u64,
    pub image_layout: ImageLayout,
    pub load_op: LoadOp,
    pub store_op: StoreOp,
}

} // verus!
