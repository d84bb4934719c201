use vstd::prelude::*;

use crate::image::{Extent2D, ImageAspect};
use crate::UsedAsIndex;

verus! {

/// Image formats, in the order in which pipeline files and the client number them.
#[derive(Copy, Clone, PartialEq, Eq, Debug, Structural)]
#[allow(non_camel_case_types)]
pub enum Format {
    UNDEFINED,
    A1R5G5B5_UNORM_PACK16,
    A2B10G10R10_SINT_PACK32,
    A2B10G10R10_SNORM_PACK32,
    A2B10G10R10_SSCALED_PACK32,
    A2B10G10R10_UINT_PACK32,
    A2B10G10R10_UNORM_PACK32,
    A2B10G10R10_USCALED_PACK32,
    A2R10G10B10_SINT_PACK32,
    A2R10G10B10_SNORM_PACK32,
    A2R10G10B10_SSCALED_PACK32,
    A2R10G10B10_UINT_PACK32,
    A2R10G10B10_UNORM_PACK32,
    A2R10G10B10_USCALED_PACK32,
    A8B8G8R8_SINT_PACK32,
    A8B8G8R8_SNORM_PACK32,
    A8B8G8R8_SRGB_PACK32,
    A8B8G8R8_SSCALED_PACK32,
    A8B8G8R8_UINT_PACK32,
    A8B8G8R8_UNORM_PACK32,
    A8B8G8R8_USCALED_PACK32,
    ASTC_10X10_SRGB_BLOCK,
    ASTC_10X10_UNORM_BLOCK,
    ASTC_10X5_SRGB_BLOCK,
    ASTC_10X5_UNORM_BLOCK,
    ASTC_10X6_SRGB_BLOCK,
    ASTC_10X6_UNORM_BLOCK,
    ASTC_10X8_SRGB_BLOCK,
    ASTC_10X8_UNORM_BLOCK,
    ASTC_12X10_SRGB_BLOCK,
    ASTC_12X10_UNORM_BLOCK,
    ASTC_12X12_SRGB_BLOCK,
    ASTC_12X12_UNORM_BLOCK,
    ASTC_4X4_SRGB_BLOCK,
    ASTC_4X4_UNORM_BLOCK,
    ASTC_5X4_SRGB_BLOCK,
    ASTC_5X4_UNORM_BLOCK,
    ASTC_5X5_SRGB_BLOCK,
    ASTC_5X5_UNORM_BLOCK,
    ASTC_6X5_SRGB_BLOCK,
    ASTC_6X5_UNORM_BLOCK,
    ASTC_6X6_SRGB_BLOCK,
    ASTC_6X6_UNORM_BLOCK,
    ASTC_8X5_SRGB_BLOCK,
    ASTC_8X5_UNORM_BLOCK,
    ASTC_8X6_SRGB_BLOCK,
    ASTC_8X6_UNORM_BLOCK,
    ASTC_8X8_SRGB_BLOCK,
    ASTC_8X8_UNORM_BLOCK,
    B10G11R11_UFLOAT_PACK32,
    B4G4R4A4_UNORM_PACK16,
    B5G5R5A1_UNORM_PACK16,
    B5G6R5_UNORM_PACK16,
    B8G8R8A8_SINT,
    B8G8R8A8_SNORM,
    B8G8R8A8_SRGB,
    B8G8R8A8_SSCALED,
    B8G8R8A8_UINT,
    B8G8R8A8_UNORM,
    B8G8R8A8_USCALED,
    B8G8R8_SINT,
    B8G8R8_SNORM,
    B8G8R8_SRGB,
    B8G8R8_SSCALED,
    B8G8R8_UINT,
    B8G8R8_UNORM,
    B8G8R8_USCALED,
    BC1_RGBA_SRGB_BLOCK,
    BC1_RGBA_UNORM_BLOCK,
    BC1_RGB_SRGB_BLOCK,
    BC1_RGB_UNORM_BLOCK,
    BC2_SRGB_BLOCK,
    BC2_UNORM_BLOCK,
    BC3_SRGB_BLOCK,
    BC3_UNORM_BLOCK,
    BC4_SNORM_BLOCK,
    BC4_UNORM_BLOCK,
    BC5_SNORM_BLOCK,
    BC5_UNORM_BLOCK,
    BC6H_SFLOAT_BLOCK,
    BC6H_UFLOAT_BLOCK,
    BC7_SRGB_BLOCK,
    BC7_UNORM_BLOCK,
    D16_UNORM,
    D16_UNORM_S8_UINT,
    D24_UNORM_S8_UINT,
    D32_SFLOAT,
    D32_SFLOAT_S8_UINT,
    E5B9G9R9_UFLOAT_PACK32,
    EAC_R11G11_SNORM_BLOCK,
    EAC_R11G11_UNORM_BLOCK,
    EAC_R11_SNORM_BLOCK,
    EAC_R11_UNORM_BLOCK,
    ETC2_R8G8B8A1_SRGB_BLOCK,
    ETC2_R8G8B8A1_UNORM_BLOCK,
    ETC2_R8G8B8A8_SRGB_BLOCK,
    ETC2_R8G8B8A8_UNORM_BLOCK,
    ETC2_R8G8B8_SRGB_BLOCK,
    ETC2_R8G8B8_UNORM_BLOCK,
    R16G16B16A16_SFLOAT,
    R16G16B16A16_SINT,
    R16G16B16A16_SNORM,
    R16G16B16A16_SSCALED,
    R16G16B16A16_UINT,
    R16G16B16A16_UNORM,
    R16G16B16A16_USCALED,
    R16G16B16_SFLOAT,
    R16G16B16_SINT,
    R16G16B16_SNORM,
    R16G16B16_SSCALED,
    R16G16B16_UINT,
    R16G16B16_UNORM,
    R16G16B16_USCALED,
    R16G16_SFLOAT,
    R16G16_SINT,
    R16G16_SNORM,
    R16G16_SSCALED,
    R16G16_UINT,
    R16G16_UNORM,
    R16G16_USCALED,
    R16_SFLOAT,
    R16_SINT,
    R16_SNORM,
    R16_SSCALED,
    R16_UINT,
    R16_UNORM,
    R16_USCALED,
    R32G32B32A32_SFLOAT,
    R32G32B32A32_SINT,
    R32G32B32A32_UINT,
    R32G32B32_SFLOAT,
    R32G32B32_SINT,
    R32G32B32_UINT,
    R32G32_SFLOAT,
    R32G32_SINT,
    R32G32_UINT,
    R32_SFLOAT,
    R32_SINT,
    R32_UINT,
    R4G4B4A4_UNORM_PACK16,
    R4G4_UNORM_PACK8,
    R5G5B5A1_UNORM_PACK16,
    R5G6B5_UNORM_PACK16,
    R64G64B64A64_SFLOAT,
    R64G64B64A64_SINT,
    R64G64B64A64_UINT,
    R64G64B64_SFLOAT,
    R64G64B64_SINT,
    R64G64B64_UINT,
    R64G64_SFLOAT,
    R64G64_SINT,
    R64G64_UINT,
    R64_SFLOAT,
    R64_SINT,
    R64_UINT,
    R8G8B8A8_SINT,
    R8G8B8A8_SNORM,
    R8G8B8A8_SRGB,
    R8G8B8A8_SSCALED,
    R8G8B8A8_UINT,
    R8G8B8A8_UNORM,
    R8G8B8A8_USCALED,
    R8G8B8_SINT,
    R8G8B8_SNORM,
    R8G8B8_SRGB,
    R8G8B8_SSCALED,
    R8G8B8_UINT,
    R8G8B8_UNORM,
    R8G8B8_USCALED,
    R8G8_SINT,
    R8G8_SNORM,
    R8G8_SRGB,
    R8G8_SSCALED,
    R8G8_UINT,
    R8G8_UNORM,
    R8G8_USCALED,
    R8_SINT,
    R8_SNORM,
    R8_SRGB,
    R8_SSCALED,
    R8_UINT,
    R8_UNORM,
    R8_USCALED,
    S8_UINT,
    X8_D24_UNORM_PACK32,
}

/// The largest number a format has.
pub const MAX_FORMAT: u8 = 184u8;

impl UsedAsIndex<MAX_FORMAT> for Format {}

/// Block-compressed formats: the BC, ASTC and ETC2 ranges of the numbering.
pub open spec fn is_compressed_spec(f: Format) -> bool {
    ||| (Format::BC1_RGBA_SRGB_BLOCK as u8 <= f as u8 && f as u8 <= Format::BC7_UNORM_BLOCK as u8)
    ||| (Format::ASTC_10X10_SRGB_BLOCK as u8 <= f as u8 && f as u8 <= Format::ASTC_8X8_UNORM_BLOCK as u8)
    ||| (Format::ETC2_R8G8B8A1_SRGB_BLOCK as u8 <= f as u8 && f as u8 <= Format::ETC2_R8G8B8_UNORM_BLOCK as u8)
}

/// Formats with a depth component: the `D` range of the numbering and `X8_D24_UNORM_PACK32`.
pub open spec fn has_depth_spec(f: Format) -> bool {
    (Format::D16_UNORM as u8 <= f as u8 && f as u8 <= Format::D32_SFLOAT_S8_UINT as u8)
        || f == Format::X8_D24_UNORM_PACK32
}

/// Formats with a stencil component.
pub open spec fn has_stencil_spec(f: Format) -> bool {
    f == Format::D16_UNORM_S8_UINT || f == Format::D24_UNORM_S8_UINT || f
        == Format::D32_SFLOAT_S8_UINT || f == Format::S8_UINT
}

/// The aspects of an image of this format: depth and stencil as the format
/// has them, or color when it has neither.
pub open spec fn aspect_spec(f: Format) -> ImageAspect {
    if !has_depth_spec(f) && !has_stencil_spec(f) {
        ImageAspect { color: true, depth: false, stencil: false }
    } else {
        ImageAspect { color: false, depth: has_depth_spec(f), stencil: has_stencil_spec(f) }
    }
}

/// BC1 formats store 8 bytes per 4x4 block.
pub open spec fn is_bc1(f: Format) -> bool {
    f == Format::BC1_RGBA_SRGB_BLOCK || f == Format::BC1_RGBA_UNORM_BLOCK || f
        == Format::BC1_RGB_SRGB_BLOCK || f == Format::BC1_RGB_UNORM_BLOCK
}

/// BC2 and BC3 formats store 16 bytes per 4x4 block.
pub open spec fn is_bc2_or_bc3(f: Format) -> bool {
    f == Format::BC2_SRGB_BLOCK || f == Format::BC2_UNORM_BLOCK || f == Format::BC3_SRGB_BLOCK
        || f == Format::BC3_UNORM_BLOCK
}

/// Bytes an image of `width` x `height` texels takes in a BC1, BC2 or BC3
/// format: its texels make `width * height / 16` blocks of 4x4 texels.
pub open spec fn size_for_spec(f: Format, width: u32, height: u32) -> int {
    if is_bc1(f) {
        (width * height) / 16 * 8
    } else {
        (width * height) / 16 * 16
    }
}

/// The image sizes `size_for` can compute without overflowing `u32`.
pub open spec fn size_for_fits(f: Format, width: u32, height: u32) -> bool {
    &&& is_bc1(f) || is_bc2_or_bc3(f)
    &&& width * height <= u32::MAX
    &&& size_for_spec(f, width, height) <= u32::MAX
}

/// Formats stored with sRGB encoding.
pub open spec fn is_srgb_spec(f: Format) -> bool {
    f == Format::A8B8G8R8_SRGB_PACK32
        || f == Format::ASTC_10X10_SRGB_BLOCK
        || f == Format::ASTC_10X5_SRGB_BLOCK
        || f == Format::ASTC_10X6_SRGB_BLOCK
        || f == Format::ASTC_10X8_SRGB_BLOCK
        || f == Format::ASTC_12X10_SRGB_BLOCK
        || f == Format::ASTC_12X12_SRGB_BLOCK
        || f == Format::ASTC_4X4_SRGB_BLOCK
        || f == Format::ASTC_5X4_SRGB_BLOCK
        || f == Format::ASTC_5X5_SRGB_BLOCK
        || f == Format::ASTC_6X5_SRGB_BLOCK
        || f == Format::ASTC_6X6_SRGB_BLOCK
        || f == Format::ASTC_8X5_SRGB_BLOCK
        || f == Format::ASTC_8X6_SRGB_BLOCK
        || f == Format::ASTC_8X8_SRGB_BLOCK
        || f == Format::B8G8R8A8_SRGB
        || f == Format::B8G8R8_SRGB
        || f == Format::BC1_RGBA_SRGB_BLOCK
        || f == Format::BC1_RGB_SRGB_BLOCK
        || f == Format::BC2_SRGB_BLOCK
        || f == Format::BC3_SRGB_BLOCK
        || f == Format::BC7_SRGB_BLOCK
        || f == Format::ETC2_R8G8B8A1_SRGB_BLOCK
        || f == Format::ETC2_R8G8B8A8_SRGB_BLOCK
        || f == Format::ETC2_R8G8B8_SRGB_BLOCK
        || f == Format::R8G8B8A8_SRGB
        || f == Format::R8G8B8_SRGB
        || f == Format::R8G8_SRGB
        || f == Format::R8_SRGB
}

impl Format {
    pub fn is_compressed(self) -> (r: bool)
        ensures
            r == is_compressed_spec(self),
    {
        let v = self as u8;
        (v >= Format::BC1_RGBA_SRGB_BLOCK as u8 && v <= Format::BC7_UNORM_BLOCK as u8) ||
        // Probably useless
        (v >= Format::ASTC_10X10_SRGB_BLOCK as u8 && v <= Format::ASTC_8X8_UNORM_BLOCK as u8) || (v
            >= Format::ETC2_R8G8B8A1_SRGB_BLOCK as u8 && v <= Format::ETC2_R8G8B8_UNORM_BLOCK as u8)
    }

    pub fn has_depth(self) -> (r: bool)
        ensures
            r == has_depth_spec(self),
    {
        let v = self as u8;
        (v >= Format::D16_UNORM as u8 && v <= Format::D32_SFLOAT_S8_UINT as u8) || v
            == Format::X8_D24_UNORM_PACK32 as u8
    }

    pub fn has_stencil(self) -> (r: bool)
        ensures
            r == has_stencil_spec(self),
    {
        match self {
            Format::D16_UNORM_S8_UINT | Format::D24_UNORM_S8_UINT | Format::D32_SFLOAT_S8_UINT
            | Format::S8_UINT => true,
            _ => false,
        }
    }

    /// Whether the format has a depth or a stencil component.
    pub fn has_depth_or_stencil(self) -> (r: bool)
        ensures
            r == (has_depth_spec(self) || has_stencil_spec(self)),
    {
        self.has_depth() || self.has_stencil()
    }

    pub fn is_srgb(self) -> (r: bool)
        ensures
            r == is_srgb_spec(self),
    {
        match self {
            Format::A8B8G8R8_SRGB_PACK32
            | Format::ASTC_10X10_SRGB_BLOCK
            | Format::ASTC_10X5_SRGB_BLOCK
            | Format::ASTC_10X6_SRGB_BLOCK
            | Format::ASTC_10X8_SRGB_BLOCK
            | Format::ASTC_12X10_SRGB_BLOCK
            | Format::ASTC_12X12_SRGB_BLOCK
            | Format::ASTC_4X4_SRGB_BLOCK
            | Format::ASTC_5X4_SRGB_BLOCK
            | Format::ASTC_5X5_SRGB_BLOCK
            | Format::ASTC_6X5_SRGB_BLOCK
            | Format::ASTC_6X6_SRGB_BLOCK
            | Format::ASTC_8X5_SRGB_BLOCK
            | Format::ASTC_8X6_SRGB_BLOCK
            | Format::ASTC_8X8_SRGB_BLOCK
            | Format::B8G8R8A8_SRGB
            | Format::B8G8R8_SRGB
            | Format::BC1_RGBA_SRGB_BLOCK
            | Format::BC1_RGB_SRGB_BLOCK
            | Format::BC2_SRGB_BLOCK
            | Format::BC3_SRGB_BLOCK
            | Format::BC7_SRGB_BLOCK
            | Format::ETC2_R8G8B8A1_SRGB_BLOCK
            | Format::ETC2_R8G8B8A8_SRGB_BLOCK
            | Format::ETC2_R8G8B8_SRGB_BLOCK
            | Format::R8G8B8A8_SRGB
            | Format::R8G8B8_SRGB
            | Format::R8G8_SRGB
            | Format::R8_SRGB => true,
            _ => false,
        }
    }

    pub fn aspect(self) -> (r: ImageAspect)
        ensures
            r == aspect_spec(self),
    {
        let depth = self.has_depth();
        let stencil = self.has_stencil();
        if !depth && !stencil {
            ImageAspect { color: true, depth: false, stencil: false }
        } else {
            ImageAspect { color: false, depth, stencil }
        }
    }

    /// Size in bytes of a `width` x `height` image; defined per 4x4 block for
    /// the BC1, BC2 and BC3 formats, the only ones it accepts.
    pub fn size_for(self, width: u32, height: u32) -> (r: u32)
        requires
            size_for_fits(self, width, height),
        ensures
            r == size_for_spec(self, width, height),
    {
        match self {
            // size is defined per 4x4 block for BC formats
            Format::BC1_RGBA_SRGB_BLOCK
            | Format::BC1_RGBA_UNORM_BLOCK
            | Format::BC1_RGB_SRGB_BLOCK
            | Format::BC1_RGB_UNORM_BLOCK => width * height / 16 * 8,
            _ => width * height / 16 * 16,
        }
    }

    pub fn size_for_extent(self, extent: Extent2D) -> (r: u32)
        requires
            size_for_fits(self, extent.width, extent.height),
        ensures
            r == size_for_spec(self, extent.width, extent.height),
    {
        self.size_for(extent.width, extent.height)
    }

    pub fn of_u8(v: u8) -> (r: Self)
        requires
            v <= Format::MAX_VALUE,
        ensures
            r as u8 == v,
    {
        match v {
            0 => Format::UNDEFINED,
            1 => Format::A1R5G5B5_UNORM_PACK16,
            2 => Format::A2B10G10R10_SINT_PACK32,
            3 => Format::A2B10G10R10_SNORM_PACK32,
            4 => Format::A2B10G10R10_SSCALED_PACK32,
            5 => Format::A2B10G10R10_UINT_PACK32,
            6 => Format::A2B10G10R10_UNORM_PACK32,
            7 => Format::A2B10G10R10_USCALED_PACK32,
            8 => Format::A2R10G10B10_SINT_PACK32,
            9 => Format::A2R10G10B10_SNORM_PACK32,
            10 => Format::A2R10G10B10_SSCALED_PACK32,
            11 => Format::A2R10G10B10_UINT_PACK32,
            12 => Format::A2R10G10B10_UNORM_PACK32,
            13 => Format::A2R10G10B10_USCALED_PACK32,
            14 => Format::A8B8G8R8_SINT_PACK32,
            15 => Format::A8B8G8R8_SNORM_PACK32,
            16 => Format::A8B8G8R8_SRGB_PACK32,
            17 => Format::A8B8G8R8_SSCALED_PACK32,
            18 => Format::A8B8G8R8_UINT_PACK32,
            19 => Format::A8B8G8R8_UNORM_PACK32,
            20 => Format::A8B8G8R8_USCALED_PACK32,
            21 => Format::ASTC_10X10_SRGB_BLOCK,
            22 => Format::ASTC_10X10_UNORM_BLOCK,
            23 => Format::ASTC_10X5_SRGB_BLOCK,
            24 => Format::ASTC_10X5_UNORM_BLOCK,
            25 => Format::ASTC_10X6_SRGB_BLOCK,
            26 => Format::ASTC_10X6_UNORM_BLOCK,
            27 => Format::ASTC_10X8_SRGB_BLOCK,
            28 => Format::ASTC_10X8_UNORM_BLOCK,
            29 => Format::ASTC_12X10_SRGB_BLOCK,
            30 => Format::ASTC_12X10_UNORM_BLOCK,
            31 => Format::ASTC_12X12_SRGB_BLOCK,
            32 => Format::ASTC_12X12_UNORM_BLOCK,
            33 => Format::ASTC_4X4_SRGB_BLOCK,
            34 => Format::ASTC_4X4_UNORM_BLOCK,
            35 => Format::ASTC_5X4_SRGB_BLOCK,
            36 => Format::ASTC_5X4_UNORM_BLOCK,
            37 => Format::ASTC_5X5_SRGB_BLOCK,
            38 => Format::ASTC_5X5_UNORM_BLOCK,
            39 => Format::ASTC_6X5_SRGB_BLOCK,
            40 => Format::ASTC_6X5_UNORM_BLOCK,
            41 => Format::ASTC_6X6_SRGB_BLOCK,
            42 => Format::ASTC_6X6_UNORM_BLOCK,
            43 => Format::ASTC_8X5_SRGB_BLOCK,
            44 => Format::ASTC_8X5_UNORM_BLOCK,
            45 => Format::ASTC_8X6_SRGB_BLOCK,
            46 => Format::ASTC_8X6_UNORM_BLOCK,
            47 => Format::ASTC_8X8_SRGB_BLOCK,
            48 => Format::ASTC_8X8_UNORM_BLOCK,
            49 => Format::B10G11R11_UFLOAT_PACK32,
            50 => Format::B4G4R4A4_UNORM_PACK16,
            51 => Format::B5G5R5A1_UNORM_PACK16,
            52 => Format::B5G6R5_UNORM_PACK16,
            53 => Format::B8G8R8A8_SINT,
            54 => Format::B8G8R8A8_SNORM,
            55 => Format::B8G8R8A8_SRGB,
            56 => Format::B8G8R8A8_SSCALED,
            57 => Format::B8G8R8A8_UINT,
            58 => Format::B8G8R8A8_UNORM,
            59 => Format::B8G8R8A8_USCALED,
            60 => Format::B8G8R8_SINT,
            61 => Format::B8G8R8_SNORM,
            62 => Format::B8G8R8_SRGB,
            63 => Format::B8G8R8_SSCALED,
            64 => Format::B8G8R8_UINT,
            65 => Format::B8G8R8_UNORM,
            66 => Format::B8G8R8_USCALED,
            67 => Format::BC1_RGBA_SRGB_BLOCK,
            68 => Format::BC1_RGBA_UNORM_BLOCK,
            69 => Format::BC1_RGB_SRGB_BLOCK,
            70 => Format::BC1_RGB_UNORM_BLOCK,
            71 => Format::BC2_SRGB_BLOCK,
            72 => Format::BC2_UNORM_BLOCK,
            73 => Format::BC3_SRGB_BLOCK,
            74 => Format::BC3_UNORM_BLOCK,
            75 => Format::BC4_SNORM_BLOCK,
            76 => Format::BC4_UNORM_BLOCK,
            77 => Format::BC5_SNORM_BLOCK,
            78 => Format::BC5_UNORM_BLOCK,
            79 => Format::BC6H_SFLOAT_BLOCK,
            80 => Format::BC6H_UFLOAT_BLOCK,
            81 => Format::BC7_SRGB_BLOCK,
            82 => Format::BC7_UNORM_BLOCK,
            83 => Format::D16_UNORM,
            84 => Format::D16_UNORM_S8_UINT,
            85 => Format::D24_UNORM_S8_UINT,
            86 => Format::D32_SFLOAT,
            87 => Format::D32_SFLOAT_S8_UINT,
            88 => Format::E5B9G9R9_UFLOAT_PACK32,
            89 => Format::EAC_R11G11_SNORM_BLOCK,
            90 => Format::EAC_R11G11_UNORM_BLOCK,
            91 => Format::EAC_R11_SNORM_BLOCK,
            92 => Format::EAC_R11_UNORM_BLOCK,
            93 => Format::ETC2_R8G8B8A1_SRGB_BLOCK,
            94 => Format::ETC2_R8G8B8A1_UNORM_BLOCK,
            95 => Format::ETC2_R8G8B8A8_SRGB_BLOCK,
            96 => Format::ETC2_R8G8B8A8_UNORM_BLOCK,
            97 => Format::ETC2_R8G8B8_SRGB_BLOCK,
            98 => Format::ETC2_R8G8B8_UNORM_BLOCK,
            99 => Format::R16G16B16A16_SFLOAT,
            100 => Format::R16G16B16A16_SINT,
            101 => Format::R16G16B16A16_SNORM,
            102 => Format::R16G16B16A16_SSCALED,
            103 => Format::R16G16B16A16_UINT,
            104 => Format::R16G16B16A16_UNORM,
            105 => Format::R16G16B16A16_USCALED,
            106 => Format::R16G16B16_SFLOAT,
            107 => Format::R16G16B16_SINT,
            108 => Format::R16G16B16_SNORM,
            109 => Format::R16G16B16_SSCALED,
            110 => Format::R16G16B16_UINT,
            111 => Format::R16G16B16_UNORM,
            112 => Format::R16G16B16_USCALED,
            113 => Format::R16G16_SFLOAT,
            114 => Format::R16G16_SINT,
            115 => Format::R16G16_SNORM,
            116 => Format::R16G16_SSCALED,
            117 => Format::R16G16_UINT,
            118 => Format::R16G16_UNORM,
            119 => Format::R16G16_USCALED,
            120 => Format::R16_SFLOAT,
            121 => Format::R16_SINT,
            122 => Format::R16_SNORM,
            123 => Format::R16_SSCALED,
            124 => Format::R16_UINT,
            125 => Format::R16_UNORM,
            126 => Format::R16_USCALED,
            127 => Format::R32G32B32A32_SFLOAT,
            128 => Format::R32G32B32A32_SINT,
            129 => Format::R32G32B32A32_UINT,
            130 => Format::R32G32B32_SFLOAT,
            131 => Format::R32G32B32_SINT,
            132 => Format::R32G32B32_UINT,
            133 => Format::R32G32_SFLOAT,
            134 => Format::R32G32_SINT,
            135 => Format::R32G32_UINT,
            136 => Format::R32_SFLOAT,
            137 => Format::R32_SINT,
            138 => Format::R32_UINT,
            139 => Format::R4G4B4A4_UNORM_PACK16,
            140 => Format::R4G4_UNORM_PACK8,
            141 => Format::R5G5B5A1_UNORM_PACK16,
            142 => Format::R5G6B5_UNORM_PACK16,
            143 => Format::R64G64B64A64_SFLOAT,
            144 => Format::R64G64B64A64_SINT,
            145 => Format::R64G64B64A64_UINT,
            146 => Format::R64G64B64_SFLOAT,
            147 => Format::R64G64B64_SINT,
            148 => Format::R64G64B64_UINT,
            149 => Format::R64G64_SFLOAT,
            150 => Format::R64G64_SINT,
            151 => Format::R64G64_UINT,
            152 => Format::R64_SFLOAT,
            153 => Format::R64_SINT,
            154 => Format::R64_UINT,
            155 => Format::R8G8B8A8_SINT,
            156 => Format::R8G8B8A8_SNORM,
            157 => Format::R8G8B8A8_SRGB,
            158 => Format::R8G8B8A8_SSCALED,
            159 => Format::R8G8B8A8_UINT,
            160 => Format::R8G8B8A8_UNORM,
            161 => Format::R8G8B8A8_USCALED,
            162 => Format::R8G8B8_SINT,
            163 => Format::R8G8B8_SNORM,
            164 => Format::R8G8B8_SRGB,
            165 => Format::R8G8B8_SSCALED,
            166 => Format::R8G8B8_UINT,
            167 => Format::R8G8B8_UNORM,
            168 => Format::R8G8B8_USCALED,
            169 => Format::R8G8_SINT,
            170 => Format::R8G8_SNORM,
            171 => Format::R8G8_SRGB,
            172 => Format::R8G8_SSCALED,
            173 => Format::R8G8_UINT,
            174 => Format::R8G8_UNORM,
            175 => Format::R8G8_USCALED,
            176 => Format::R8_SINT,
            177 => Format::R8_SNORM,
            178 => Format::R8_SRGB,
            179 => Format::R8_SSCALED,
            180 => Format::R8_UINT,
            181 => Format::R8_UNORM,
            182 => Format::R8_USCALED,
            183 => Format::S8_UINT,
            _ => Format::X8_D24_UNORM_PACK32,
        }
    }

    pub fn of_u32(v: u32) -> (r: Self)
        requires
            v <= Format::MAX_VALUE as u32,
        ensures
            r as u32 == v,
    {
        Self::of_u8(v as u8)
    }

    pub fn of_usize(v: usize) -> (r: Self)
        requires
            v <= Format::MAX_VALUE as usize,
        ensures
            r as usize == v,
    {
        Self::of_u8(v as u8)
    }

    pub fn to_u8(self) -> (r: u8)
        ensures
            r == self as u8,
    {
        self as u8
    }

    pub fn to_u32(self) -> (r: u32)
        ensures
            r == self as u32,
    {
        self as u32
    }

    pub fn to_usize(self) -> (r: usize)
        ensures
            r == self as usize,
    {
        self as usize
    }
}

} // verus!
