use vstd::prelude::*;
use vstd::string::StringExecFns;

use super::state::{BlendFactor, PolygonFace, PolygonMode, StencilFunc, WindingOrder};
use crate::format::Format;
use crate::render_task::TaskKind;
use crate::shader_resource::ResourceKind;
use crate::UsedAsIndex;

verus! {

/// The render pipeline as a pipeline file describes it: the targets to render
/// into, the shader programs, and the passes in the order they run.
pub struct Pipeline {
    pub targets: Vec<Target>,
    pub programs: Vec<Program>,
    pub passes: Vec<PipelineStep>,
}

/// An image that passes render into and read from. `level` is the number of
/// mip levels it has.
pub struct Target {
    pub name: String,
    pub format: Format,
    pub width: U32OrF32,
    pub height: U32OrF32,
    pub level: u8,
}

/// A target a render pass samples, at mip level `level`, or at every level
/// when `level` is `MipMap::ALL_LEVELS_VALUE`.
pub struct AttachmentInput {
    pub name: String,
    pub sampler: DescOption<Sampler>,
    pub level: u8,
}

/// How an attachment input is sampled.
#[derive(Copy, Clone, Debug, PartialEq, Eq, Structural)]
pub struct Sampler {
    pub filter: Filtering,
    pub wrap_mode: WrapMode,
    pub compare_func: CompareFunc,
    pub anisotropy: u8,
}

/// A pass that draws the tasks of one kind into its outputs.
pub struct RenderPass {
    pub name: String,
    pub program: String,
    pub depth_stencil: Option<String>,
    pub batch: TaskKind,
    pub outputs: Vec<String>,
    pub inputs: Vec<AttachmentInput>,
    pub per_pass_updaters: Vec<UpdaterKind>,
    pub per_instance_updaters: Vec<UpdaterKind>,
    pub state: State,
    pub is_disabled: bool,
}

/// A rectangle of a blit, in texels or as fractions of the window.
#[derive(Copy, Clone, Debug, PartialEq, Eq, Structural)]
pub struct BlitRect {
    pub x: U32OrF32,
    pub y: U32OrF32,
    pub width: U32OrF32,
    pub height: U32OrF32,
}

/// The aspects a blit copies.
#[derive(Copy, Clone, Debug, PartialEq, Eq, Structural)]
pub enum BlitAttribute {
    Color,
    Depth,
    Stencil,
}

/// A pass that copies a rectangle of one target into another.
pub struct BlitPass {
    pub name: String,
    pub input: String,
    pub input_rect: BlitRect,
    pub output: String,
    pub output_rect: BlitRect,
    pub filter: Filtering,
    pub attributes: Vec<BlitAttribute>,
    pub is_disabled: bool,
}

/// A step of the pipeline: a render pass or a blit.
pub enum PipelineStep {
    Render(RenderPass),
    Blit(BlitPass),
}

impl PipelineStep {
    pub fn is_disabled(&self) -> (r: bool)
        ensures
            r == (match self {
                PipelineStep::Render(p) => p.is_disabled,
                PipelineStep::Blit(p) => p.is_disabled,
            }),
    {
        match self {
            PipelineStep::Render(p) => p.is_disabled,
            PipelineStep::Blit(p) => p.is_disabled,
        }
    }

    pub fn name(&self) -> (r: &str)
        ensures
            r@ == (match self {
                PipelineStep::Render(p) => p.name@,
                PipelineStep::Blit(p) => p.name@,
            }),
    {
        match self {
            PipelineStep::Render(p) => p.name.as_str(),
            PipelineStep::Blit(p) => p.name.as_str(),
        }
    }
}

/// The shader data a pass uploads, numbered as the resource kinds are.
#[derive(Copy, Clone, Debug, PartialEq, Eq, Structural)]
pub enum UpdaterKind {
    Transform,
    Material,
    DirLight,
    Frustum,
    ViewRay,
    PointLight,
    SpotLight,
    Joint,
    Sky,
    StaticShadow,
    TransformExtra,
    View,
    Timing,
}

impl UpdaterKind {
    /// The resource kind with the same number.
    pub fn to_resource_kind(self) -> (r: ResourceKind)
        ensures
            r as u8 == self as u8,
    {
        ResourceKind::of_u32(self as u32)
    }
}

/// The fixed function state of a render pass.
pub struct State {
    pub writing: DescOption<WriteDesc>,
    pub depth: DescOption<DepthDesc>,
    pub scissor: DescOption<ScissorDesc>,
    pub viewport: DescOption<ViewportDesc>,
    pub stencil: DescOption<StencilDesc>,
    pub triangle: DescOption<TriangleDesc>,
    pub blending: DescOption<BlendDesc>,
    pub clearing: DescOption<ClearDesc>,
}

/// The shaders of a program, by file name; empty names are absent stages.
pub struct Program {
    pub name: String,
    pub vertex: String,
    pub fragment: String,
    pub geometry: String,
}

#[derive(Copy, Clone, Debug, PartialEq, Eq, Structural)]
pub struct StencilDesc {
    pub func: CompareFunc,
    pub ref_value: u32,
    pub read_mask: u32,
    pub fail_op: StencilFunc,
    pub depth_fail_op: StencilFunc,
    pub pass_op: StencilFunc,
    pub disabled: bool,
}

#[derive(Copy, Clone, Debug, PartialEq, Eq, Structural)]
pub struct ScissorDesc {
    pub x: U32OrF32,
    pub y: U32OrF32,
    pub width: U32OrF32,
    pub height: U32OrF32,
}

#[derive(Copy, Clone, Debug, PartialEq, Eq, Structural)]
pub struct ViewportDesc {
    pub x: U32OrF32,
    pub y: U32OrF32,
    pub width: U32OrF32,
    pub height: U32OrF32,
}

/// Depth testing; the depth range is held as the bits of two `f32`.
#[derive(Copy, Clone, Debug, PartialEq, Eq, Structural)]
pub struct DepthDesc {
    pub func: CompareFunc,
    pub range_start: u32,
    pub range_end: u32,
    pub testing: bool,
    pub clamping: bool,
}

#[derive(Copy, Clone, Debug, PartialEq, Eq, Structural)]
pub struct TriangleDesc {
    pub front_face: WindingOrder,
    pub cull_face: PolygonFace,
    pub polygon_mode: PolygonMode,
}

#[derive(Copy, Clone, Debug, PartialEq, Eq, Structural)]
pub struct WriteDesc {
    pub color_mask: u32,
    pub depth: bool,
    pub stencil: bool,
}

impl WriteDesc {
    pub fn depth_or_stencil(self) -> (r: bool)
        ensures
            r == (self.depth || self.stencil),
    {
        self.depth || self.stencil
    }
}

#[derive(Copy, Clone, Debug, PartialEq, Eq, Structural)]
pub struct BlendDesc {
    pub disabled: bool,
    pub src_factor: BlendFactor,
    pub dst_factor: BlendFactor,
}

/// What a pass clears its attachments to; the depth value is held as the bits
/// of an `f32`.
#[derive(Copy, Clone, Debug, PartialEq, Eq, Structural)]
pub struct ClearDesc {
    pub color: Option<u32>,
    pub depth: Option<u32>,
    pub stencil: Option<u32>,
}

/// Texture filtering.
#[derive(Copy, Clone, Debug, PartialEq, Eq, Hash, Structural)]
pub enum Filtering {
    Linear,
    Nearest,
}

/// The largest number of a `Filtering`.
pub const MAX_FILTERING: u8 = 1u8;

impl UsedAsIndex<MAX_FILTERING> for Filtering {}

impl Filtering {
    pub fn of_u8(v: u8) -> (r: Self)
        requires
            v <= Filtering::MAX_VALUE,
        ensures
            r as u8 == v,
    {
        match v {
            0 => Filtering::Linear,
            _ => Filtering::Nearest,
        }
    }

    pub fn of_u32(v: u32) -> (r: Self)
        requires
            v <= Filtering::MAX_VALUE as u32,
        ensures
            r as u32 == v,
    {
        Self::of_u8(v as u8)
    }

    pub fn to_u8(self) -> (r: u8)
        ensures
            r == self as u8,
    {
        self as u8
    }
}

/// How texture coordinates outside the image wrap.
#[derive(Copy, Clone, Debug, PartialEq, Eq, Hash, Structural)]
pub enum WrapMode {
    Repeat,
    MirroredRepeat,
    ClampToEdge,
}

/// The largest number of a `WrapMode`.
pub const MAX_WRAP_MODE: u8 = 2u8;

impl UsedAsIndex<MAX_WRAP_MODE> for WrapMode {}

impl WrapMode {
    pub fn of_u8(v: u8) -> (r: Self)
        requires
            v <= WrapMode::MAX_VALUE,
        ensures
            r as u8 == v,
    {
        match v {
            0 => WrapMode::Repeat,
            1 => WrapMode::MirroredRepeat,
            _ => WrapMode::ClampToEdge,
        }
    }

    pub fn of_u32(v: u32) -> (r: Self)
        requires
            v <= WrapMode::MAX_VALUE as u32,
        ensures
            r as u32 == v,
    {
        Self::of_u8(v as u8)
    }

    pub fn to_u8(self) -> (r: u8)
        ensures
            r == self as u8,
    {
        self as u8
    }
}

/// Sampler comparisons; `NoCompare` marks a sampler that does not compare.
#[derive(Copy, Clone, Debug, PartialEq, Eq, Hash, Structural)]
pub enum CompareFunc {
    NoCompare,
    Always,
    Never,
    Less,
    LessOrEqual,
    Greater,
    GreaterOrEqual,
    Equal,
    NotEqual,
}

/// The largest number of a `CompareFunc`.
pub const MAX_COMPARE_FUNC: u8 = 8u8;

impl UsedAsIndex<MAX_COMPARE_FUNC> for CompareFunc {}

impl CompareFunc {
    pub fn of_u8(v: u8) -> (r: Self)
        requires
            v <= CompareFunc::MAX_VALUE,
        ensures
            r as u8 == v,
    {
        match v {
            0 => CompareFunc::NoCompare,
            1 => CompareFunc::Always,
            2 => CompareFunc::Never,
            3 => CompareFunc::Less,
            4 => CompareFunc::LessOrEqual,
            5 => CompareFunc::Greater,
            6 => CompareFunc::GreaterOrEqual,
            7 => CompareFunc::Equal,
            _ => CompareFunc::NotEqual,
        }
    }

    pub fn of_u32(v: u32) -> (r: Self)
        requires
            v <= CompareFunc::MAX_VALUE as u32,
        ensures
            r as u32 == v,
    {
        Self::of_u8(v as u8)
    }

    pub fn to_u8(self) -> (r: u8)
        ensures
            r == self as u8,
    {
        self as u8
    }
}

/// A size in texels, or a fraction of the window held as the bits of an `f32`.
#[derive(Copy, Clone, Debug, PartialEq, Eq, Structural)]
pub enum U32OrF32 {
    U32(u32),
    F32(u32),
}

/// The bits of the `f32` 1.0.
pub const F32_ONE_BITS: u32 = 0x3F80_0000;

/// Depth a pass clears to by default: the bits of the `f32` 1.0.
pub const DEFAULT_DEPTH_CLEAR_BITS: u32 = 0x3F80_0000;

pub const DEFAULT_STENCIL_CLEAR_VALUE: u32 = 0;

pub const DEFAULT_COLOR_CLEAR_VALUE: u32 = 0;

/// The named values a descriptor may take in a pipeline file.
#[derive(Copy, Clone, Debug, PartialEq, Eq, Structural)]
pub enum OptionPredefined {
    Default,
    No,
    Yes,
}

/// A descriptor in a pipeline file: a named value, a specific name that the
/// handler knows, or the descriptor itself.
pub enum DescOption<T> {
    Predefined(OptionPredefined),
    Specific(String),
    Configured(T),
}

impl<T: Copy> Clone for DescOption<T> {
    fn clone(&self) -> (r: Self)
        ensures
            r == *self,
    {
        match self {
            DescOption::Predefined(p) => DescOption::Predefined(*p),
            DescOption::Specific(s) => DescOption::Specific(s.clone()),
            DescOption::Configured(v) => DescOption::Configured(*v),
        }
    }
}

/// Descriptors with predefined values. A type has only some of them.
pub trait Predefined<T>: Sized {
    /// Whether the type has the predefined value `p`.
    spec fn has_predefined(p: OptionPredefined) -> bool;

    /// The predefined value `p`.
    spec fn predefined(p: OptionPredefined) -> T;

    /// The predefined value `p`, which the type has.
    fn of_predefined(p: OptionPredefined) -> (r: T)
        requires
            Self::has_predefined(p),
        ensures
            r == Self::predefined(p),
    ;

    fn def() -> (r: T)
        requires
            Self::has_predefined(OptionPredefined::Default),
        ensures
            r == Self::predefined(OptionPredefined::Default),
    {
        Self::of_predefined(OptionPredefined::Default)
    }

    fn yes() -> (r: T)
        requires
            Self::has_predefined(OptionPredefined::Yes),
        ensures
            r == Self::predefined(OptionPredefined::Yes),
    {
        Self::of_predefined(OptionPredefined::Yes)
    }

    fn no() -> (r: T)
        requires
            Self::has_predefined(OptionPredefined::No),
        ensures
            r == Self::predefined(OptionPredefined::No),
    {
        Self::of_predefined(OptionPredefined::No)
    }
}

/// Whether `H` can turn `desc` into a descriptor.
pub open spec fn resolvable<T: Predefined<T>, H: DescHandler<T>>(desc: DescOption<T>) -> bool {
    match desc {
        DescOption::Predefined(p) => T::has_predefined(p),
        DescOption::Specific(s) => H::has_specific(s@),
        DescOption::Configured(_) => true,
    }
}

/// The descriptor `H` turns `desc` into.
pub open spec fn resolved<T: Predefined<T>, H: DescHandler<T>>(desc: DescOption<T>) -> T {
    match desc {
        DescOption::Predefined(p) => T::predefined(p),
        DescOption::Specific(s) => H::specific(s@),
        DescOption::Configured(v) => v,
    }
}

/// Turns descriptor options into descriptors; a handler knows some specific names.
pub trait DescHandler<T: Predefined<T>>: Sized {
    /// Whether the handler knows the specific name `desc`.
    spec fn has_specific(desc: Seq<char>) -> bool;

    /// The descriptor a specific name stands for.
    spec fn specific(desc: Seq<char>) -> T;

    fn handle_option(desc: DescOption<T>) -> (r: T)
        requires
            match desc {
                DescOption::Predefined(p) => T::has_predefined(p),
                DescOption::Specific(s) => Self::has_specific(s@),
                DescOption::Configured(_) => true,
            },
        ensures
            r == match desc {
                DescOption::Predefined(p) => T::predefined(p),
                DescOption::Specific(s) => Self::specific(s@),
                DescOption::Configured(v) => v,
            },
    ;

    fn handle_specific(desc: &String) -> (r: T)
        requires
            Self::has_specific(desc@),
        ensures
            r == Self::specific(desc@),
    {
        Self::handle_option(DescOption::Specific(desc.clone()))
    }
}

impl Predefined<Sampler> for Sampler {
    open spec fn has_predefined(p: OptionPredefined) -> bool {
        p == OptionPredefined::Default
    }

    open spec fn predefined(p: OptionPredefined) -> Sampler {
        Sampler {
            anisotropy: 1,
            compare_func: CompareFunc::NoCompare,
            filter: Filtering::Linear,
            wrap_mode: WrapMode::ClampToEdge,
        }
    }

    fn of_predefined(p: OptionPredefined) -> (r: Sampler) {
        match p {
            OptionPredefined::Default => {
                Sampler {
                    anisotropy: 1,
                    compare_func: CompareFunc::NoCompare,
                    filter: Filtering::Linear,
                    wrap_mode: WrapMode::ClampToEdge,
                }
            },
            OptionPredefined::Yes => unreached(),
            OptionPredefined::No => unreached(),
        }
    }
}

impl Predefined<TriangleDesc> for TriangleDesc {
    open spec fn has_predefined(p: OptionPredefined) -> bool {
        p == OptionPredefined::Default
    }

    open spec fn predefined(p: OptionPredefined) -> TriangleDesc {
        TriangleDesc {
            front_face: WindingOrder::Ccw,
            cull_face: PolygonFace::Back,
            polygon_mode: PolygonMode::Fill,
        }
    }

    fn of_predefined(p: OptionPredefined) -> (r: TriangleDesc) {
        match p {
            OptionPredefined::Default => {
                TriangleDesc {
                    front_face: WindingOrder::Ccw,
                    cull_face: PolygonFace::Back,
                    polygon_mode: PolygonMode::Fill,
                }
            },
            OptionPredefined::Yes => unreached(),
            OptionPredefined::No => unreached(),
        }
    }
}

impl Predefined<ScissorDesc> for ScissorDesc {
    open spec fn has_predefined(p: OptionPredefined) -> bool {
        p == OptionPredefined::Default
    }

    open spec fn predefined(p: OptionPredefined) -> ScissorDesc {
        ScissorDesc {
            x: U32OrF32::U32(0),
            y: U32OrF32::U32(0),
            width: U32OrF32::F32(F32_ONE_BITS),
            height: U32OrF32::F32(F32_ONE_BITS),
        }
    }

    fn of_predefined(p: OptionPredefined) -> (r: ScissorDesc) {
        match p {
            OptionPredefined::Default => {
                ScissorDesc {
                    x: U32OrF32::U32(0),
                    y: U32OrF32::U32(0),
                    width: U32OrF32::F32(F32_ONE_BITS),
                    height: U32OrF32::F32(F32_ONE_BITS),
                }
            },
            OptionPredefined::Yes => unreached(),
            OptionPredefined::No => unreached(),
        }
    }
}

impl Predefined<ViewportDesc> for ViewportDesc {
    open spec fn has_predefined(p: OptionPredefined) -> bool {
        p == OptionPredefined::Default
    }

    open spec fn predefined(p: OptionPredefined) -> ViewportDesc {
        ViewportDesc {
            x: U32OrF32::U32(0),
            y: U32OrF32::U32(0),
            width: U32OrF32::F32(F32_ONE_BITS),
            height: U32OrF32::F32(F32_ONE_BITS),
        }
    }

    fn of_predefined(p: OptionPredefined) -> (r: ViewportDesc) {
        match p {
            OptionPredefined::Default => {
                ViewportDesc {
                    x: U32OrF32::U32(0),
                    y: U32OrF32::U32(0),
                    width: U32OrF32::F32(F32_ONE_BITS),
                    height: U32OrF32::F32(F32_ONE_BITS),
                }
            },
            OptionPredefined::Yes => unreached(),
            OptionPredefined::No => unreached(),
        }
    }
}

impl Predefined<StencilDesc> for StencilDesc {
    open spec fn has_predefined(p: OptionPredefined) -> bool {
        p == OptionPredefined::No
    }

    open spec fn predefined(p: OptionPredefined) -> StencilDesc {
        StencilDesc {
            func: CompareFunc::Always,
            ref_value: 0,
            read_mask: 1,
            fail_op: StencilFunc::Keep,
            depth_fail_op: StencilFunc::Keep,
            pass_op: StencilFunc::Keep,
            disabled: true,
        }
    }

    fn of_predefined(p: OptionPredefined) -> (r: StencilDesc) {
        match p {
            OptionPredefined::Default => unreached(),
            OptionPredefined::Yes => unreached(),
            OptionPredefined::No => {
                StencilDesc {
                    func: CompareFunc::Always,
                    ref_value: 0,
                    read_mask: 1,
                    fail_op: StencilFunc::Keep,
                    depth_fail_op: StencilFunc::Keep,
                    pass_op: StencilFunc::Keep,
                    disabled: true,
                }
            },
        }
    }
}

impl Predefined<DepthDesc> for DepthDesc {
    open spec fn has_predefined(p: OptionPredefined) -> bool {
        p == OptionPredefined::Default || p == OptionPredefined::No
    }

    open spec fn predefined(p: OptionPredefined) -> DepthDesc {
        if p == OptionPredefined::Default {
            DepthDesc {
                func: CompareFunc::LessOrEqual,
                range_start: 0,
                range_end: F32_ONE_BITS,
                testing: true,
                clamping: false,
            }
        } else {
            DepthDesc {
                func: CompareFunc::LessOrEqual,
                range_start: 0,
                range_end: F32_ONE_BITS,
                testing: false,
                clamping: false,
            }
        }
    }

    fn of_predefined(p: OptionPredefined) -> (r: DepthDesc) {
        match p {
            OptionPredefined::Default => {
                DepthDesc {
                    func: CompareFunc::LessOrEqual,
                    range_start: 0,
                    range_end: F32_ONE_BITS,
                    testing: true,
                    clamping: false,
                }
            },
            OptionPredefined::Yes => unreached(),
            OptionPredefined::No => {
                DepthDesc {
                    func: CompareFunc::LessOrEqual,
                    range_start: 0,
                    range_end: F32_ONE_BITS,
                    testing: false,
                    clamping: false,
                }
            },
        }
    }
}

impl Predefined<BlendDesc> for BlendDesc {
    open spec fn has_predefined(p: OptionPredefined) -> bool {
        p == OptionPredefined::Yes || p == OptionPredefined::No
    }

    open spec fn predefined(p: OptionPredefined) -> BlendDesc {
        if p == OptionPredefined::Yes {
            BlendDesc {
                disabled: false,
                src_factor: BlendFactor::One,
                dst_factor: BlendFactor::One,
            }
        } else {
            BlendDesc {
                disabled: true,
                src_factor: BlendFactor::One,
                dst_factor: BlendFactor::One,
            }
        }
    }

    fn of_predefined(p: OptionPredefined) -> (r: BlendDesc) {
        match p {
            OptionPredefined::Default => unreached(),
            OptionPredefined::Yes => {
                BlendDesc {
                    disabled: false,
                    src_factor: BlendFactor::One,
                    dst_factor: BlendFactor::One,
                }
            },
            OptionPredefined::No => {
                BlendDesc {
                    disabled: true,
                    src_factor: BlendFactor::One,
                    dst_factor: BlendFactor::One,
                }
            },
        }
    }
}

impl Predefined<ClearDesc> for ClearDesc {
    open spec fn has_predefined(p: OptionPredefined) -> bool {
        p == OptionPredefined::Default || p == OptionPredefined::Yes || p == OptionPredefined::No
    }

    open spec fn predefined(p: OptionPredefined) -> ClearDesc {
        if p == OptionPredefined::Default {
            ClearDesc {
                color: Some(DEFAULT_COLOR_CLEAR_VALUE),
                depth: Some(DEFAULT_DEPTH_CLEAR_BITS),
                stencil: None,
            }
        } else {
            if p == OptionPredefined::Yes {
                ClearDesc {
                    color: Some(DEFAULT_COLOR_CLEAR_VALUE),
                    depth: Some(DEFAULT_DEPTH_CLEAR_BITS),
                    stencil: Some(DEFAULT_STENCIL_CLEAR_VALUE),
                }
            } else {
                ClearDesc {
                    color: None,
                    depth: None,
                    stencil: None,
                }
            }
        }
    }

    fn of_predefined(p: OptionPredefined) -> (r: ClearDesc) {
        match p {
            OptionPredefined::Default => {
                ClearDesc {
                    color: Some(DEFAULT_COLOR_CLEAR_VALUE),
                    depth: Some(DEFAULT_DEPTH_CLEAR_BITS),
                    stencil: None,
                }
            },
            OptionPredefined::Yes => {
                ClearDesc {
                    color: Some(DEFAULT_COLOR_CLEAR_VALUE),
                    depth: Some(DEFAULT_DEPTH_CLEAR_BITS),
                    stencil: Some(DEFAULT_STENCIL_CLEAR_VALUE),
                }
            },
            OptionPredefined::No => {
                ClearDesc {
                    color: None,
                    depth: None,
                    stencil: None,
                }
            },
        }
    }
}

impl Predefined<WriteDesc> for WriteDesc {
    open spec fn has_predefined(p: OptionPredefined) -> bool {
        p == OptionPredefined::Default || p == OptionPredefined::Yes || p == OptionPredefined::No
    }

    open spec fn predefined(p: OptionPredefined) -> WriteDesc {
        if p == OptionPredefined::Default {
            WriteDesc {
                color_mask: 0xFFFFFFFF,
                depth: true,
                stencil: false,
            }
        } else {
            if p == OptionPredefined::Yes {
                WriteDesc {
                    color_mask: 0xFFFFFFFF,
                    depth: true,
                    stencil: true,
                }
            } else {
                WriteDesc {
                    color_mask: 0,
                    depth: false,
                    stencil: false,
                }
            }
        }
    }

    fn of_predefined(p: OptionPredefined) -> (r: WriteDesc) {
        match p {
            OptionPredefined::Default => {
                WriteDesc {
                    color_mask: 0xFFFFFFFF,
                    depth: true,
                    stencil: false,
                }
            },
            OptionPredefined::Yes => {
                WriteDesc {
                    color_mask: 0xFFFFFFFF,
                    depth: true,
                    stencil: true,
                }
            },
            OptionPredefined::No => {
                WriteDesc {
                    color_mask: 0,
                    depth: false,
                    stencil: false,
                }
            },
        }
    }
}

impl DescHandler<Sampler> for Pipeline {
    open spec fn has_specific(desc: Seq<char>) -> bool {
        false
    }

    open spec fn specific(desc: Seq<char>) -> Sampler {
        Sampler::predefined(OptionPredefined::Default)
    }

    fn handle_option(desc: DescOption<Sampler>) -> (r: Sampler) {
        match desc {
            DescOption::Predefined(p) => Sampler::of_predefined(p),
            DescOption::Specific(_) => unreached(),
            DescOption::Configured(v) => v,
        }
    }
}

impl DescHandler<StencilDesc> for Pipeline {
    open spec fn has_specific(desc: Seq<char>) -> bool {
        false
    }

    open spec fn specific(desc: Seq<char>) -> StencilDesc {
        StencilDesc::predefined(OptionPredefined::Default)
    }

    fn handle_option(desc: DescOption<StencilDesc>) -> (r: StencilDesc) {
        match desc {
            DescOption::Predefined(p) => StencilDesc::of_predefined(p),
            DescOption::Specific(_) => unreached(),
            DescOption::Configured(v) => v,
        }
    }
}

impl DescHandler<TriangleDesc> for Pipeline {
    open spec fn has_specific(desc: Seq<char>) -> bool {
        false
    }

    open spec fn specific(desc: Seq<char>) -> TriangleDesc {
        TriangleDesc::predefined(OptionPredefined::Default)
    }

    fn handle_option(desc: DescOption<TriangleDesc>) -> (r: TriangleDesc) {
        match desc {
            DescOption::Predefined(p) => TriangleDesc::of_predefined(p),
            DescOption::Specific(_) => unreached(),
            DescOption::Configured(v) => v,
        }
    }
}

impl DescHandler<BlendDesc> for Pipeline {
    open spec fn has_specific(desc: Seq<char>) -> bool {
        false
    }

    open spec fn specific(desc: Seq<char>) -> BlendDesc {
        BlendDesc::predefined(OptionPredefined::Default)
    }

    fn handle_option(desc: DescOption<BlendDesc>) -> (r: BlendDesc) {
        match desc {
            DescOption::Predefined(p) => BlendDesc::of_predefined(p),
            DescOption::Specific(_) => unreached(),
            DescOption::Configured(v) => v,
        }
    }
}

impl DescHandler<DepthDesc> for Pipeline {
    open spec fn has_specific(desc: Seq<char>) -> bool {
        false
    }

    open spec fn specific(desc: Seq<char>) -> DepthDesc {
        DepthDesc::predefined(OptionPredefined::Default)
    }

    fn handle_option(desc: DescOption<DepthDesc>) -> (r: DepthDesc) {
        match desc {
            DescOption::Predefined(p) => DepthDesc::of_predefined(p),
            DescOption::Specific(_) => unreached(),
            DescOption::Configured(v) => v,
        }
    }
}

impl DescHandler<ScissorDesc> for Pipeline {
    open spec fn has_specific(desc: Seq<char>) -> bool {
        false
    }

    open spec fn specific(desc: Seq<char>) -> ScissorDesc {
        ScissorDesc::predefined(OptionPredefined::Default)
    }

    fn handle_option(desc: DescOption<ScissorDesc>) -> (r: ScissorDesc) {
        match desc {
            DescOption::Predefined(p) => ScissorDesc::of_predefined(p),
            DescOption::Specific(_) => unreached(),
            DescOption::Configured(v) => v,
        }
    }
}

impl DescHandler<ViewportDesc> for Pipeline {
    open spec fn has_specific(desc: Seq<char>) -> bool {
        false
    }

    open spec fn specific(desc: Seq<char>) -> ViewportDesc {
        ViewportDesc::predefined(OptionPredefined::Default)
    }

    fn handle_option(desc: DescOption<ViewportDesc>) -> (r: ViewportDesc) {
        match desc {
            DescOption::Predefined(p) => ViewportDesc::of_predefined(p),
            DescOption::Specific(_) => unreached(),
            DescOption::Configured(v) => v,
        }
    }
}

impl DescHandler<WriteDesc> for Pipeline {
    open spec fn has_specific(desc: Seq<char>) -> bool {
        desc == "COLOR"@ || desc == "DEPTH"@ || desc == "STENCIL"@
    }

    open spec fn specific(desc: Seq<char>) -> WriteDesc {
        if desc == "COLOR"@ {
            WriteDesc {
                color_mask: 0xFFFFFFFF,
                depth: false,
                stencil: false,
            }
        } else if desc == "DEPTH"@ {
            WriteDesc {
                color_mask: 0,
                depth: true,
                stencil: false,
            }
        } else {
            WriteDesc {
                color_mask: 0,
                depth: false,
                stencil: true,
            }
        }
    }

    fn handle_option(desc: DescOption<WriteDesc>) -> (r: WriteDesc) {
        match desc {
            DescOption::Predefined(p) => WriteDesc::of_predefined(p),
            DescOption::Specific(s) => {
                proof {
                    reveal_strlit("COLOR");
                    reveal_strlit("DEPTH");
                    reveal_strlit("STENCIL");
                }
                if s == String::from_str("COLOR") {
                    WriteDesc {
                        color_mask: 0xFFFFFFFF,
                        depth: false,
                        stencil: false,
                    }
                } else if s == String::from_str("DEPTH") {
                    WriteDesc {
                        color_mask: 0,
                        depth: true,
                        stencil: false,
                    }
                } else {
                    WriteDesc {
                        color_mask: 0,
                        depth: false,
                        stencil: true,
                    }
                }
            },
            DescOption::Configured(v) => v,
        }
    }
}

/// Whether the pipeline can turn the write descriptor option `desc` into a
/// write descriptor: every predefined and configured one, and the specific
/// names it knows.
pub fn write_resolvable(desc: &DescOption<WriteDesc>) -> (r: bool)
    ensures
        r == resolvable::<WriteDesc, Pipeline>(*desc),
{
    match desc {
        DescOption::Predefined(_) => true,
        DescOption::Specific(s) => {
            proof {
                reveal_strlit("COLOR");
                reveal_strlit("DEPTH");
                reveal_strlit("STENCIL");
            }
            *s == String::from_str("COLOR") || *s == String::from_str("DEPTH") || *s
                == String::from_str("STENCIL")
        },
        DescOption::Configured(_) => true,
    }
}

/// Whether the pipeline can resolve every descriptor of a render pass's
/// state.
pub open spec fn state_resolvable(st: State) -> bool {
    &&& resolvable::<WriteDesc, Pipeline>(st.writing)
    &&& resolvable::<DepthDesc, Pipeline>(st.depth)
    &&& resolvable::<ScissorDesc, Pipeline>(st.scissor)
    &&& resolvable::<ViewportDesc, Pipeline>(st.viewport)
    &&& resolvable::<StencilDesc, Pipeline>(st.stencil)
    &&& resolvable::<TriangleDesc, Pipeline>(st.triangle)
    &&& resolvable::<BlendDesc, Pipeline>(st.blending)
    &&& resolvable::<ClearDesc, Pipeline>(st.clearing)
}

/// Whether the pipeline can turn the clear descriptor option `desc` into a
/// clear descriptor: every predefined and configured one, and the specific
/// names it knows.
pub fn clear_resolvable(desc: &DescOption<ClearDesc>) -> (r: bool)
    ensures
        r == resolvable::<ClearDesc, Pipeline>(*desc),
{
    match desc {
        DescOption::Predefined(_) => true,
        DescOption::Specific(s) => {
            proof {
                reveal_strlit("COLOR");
                reveal_strlit("DEPTH");
                reveal_strlit("STENCIL");
            }
            *s == String::from_str("COLOR") || *s == String::from_str("DEPTH") || *s
                == String::from_str("STENCIL")
        },
        DescOption::Configured(_) => true,
    }
}

/// Whether every descriptor of a render pass's state resolves, as building
/// the pass needs.
pub fn check_state(st: &State) -> (r: bool)
    ensures
        r == state_resolvable(*st),
{
    let depth = match &st.depth {
        DescOption::Predefined(p) => *p == OptionPredefined::Default || *p == OptionPredefined::No,
        DescOption::Specific(_) => false,
        DescOption::Configured(_) => true,
    };
    let scissor = match &st.scissor {
        DescOption::Predefined(p) => *p == OptionPredefined::Default,
        DescOption::Specific(_) => false,
        DescOption::Configured(_) => true,
    };
    let viewport = match &st.viewport {
        DescOption::Predefined(p) => *p == OptionPredefined::Default,
        DescOption::Specific(_) => false,
        DescOption::Configured(_) => true,
    };
    let stencil = match &st.stencil {
        DescOption::Predefined(p) => *p == OptionPredefined::No,
        DescOption::Specific(_) => false,
        DescOption::Configured(_) => true,
    };
    let triangle = match &st.triangle {
        DescOption::Predefined(p) => *p == OptionPredefined::Default,
        DescOption::Specific(_) => false,
        DescOption::Configured(_) => true,
    };
    let blending = match &st.blending {
        DescOption::Predefined(p) => *p == OptionPredefined::Yes || *p == OptionPredefined::No,
        DescOption::Specific(_) => false,
        DescOption::Configured(_) => true,
    };
    write_resolvable(&st.writing) && depth && scissor && viewport && stencil && triangle && blending
        && clear_resolvable(&st.clearing)
}

impl DescHandler<ClearDesc> for Pipeline {
    open spec fn has_specific(desc: Seq<char>) -> bool {
        desc == "COLOR"@ || desc == "DEPTH"@ || desc == "STENCIL"@
    }

    open spec fn specific(desc: Seq<char>) -> ClearDesc {
        if desc == "COLOR"@ {
            ClearDesc {
                color: Some(DEFAULT_COLOR_CLEAR_VALUE),
                depth: None,
                stencil: None,
            }
        } else if desc == "DEPTH"@ {
            ClearDesc {
                color: None,
                depth: Some(DEFAULT_DEPTH_CLEAR_BITS),
                stencil: None,
            }
        } else {
            ClearDesc {
                color: None,
                depth: None,
                stencil: Some(DEFAULT_STENCIL_CLEAR_VALUE),
            }
        }
    }

    fn handle_option(desc: DescOption<ClearDesc>) -> (r: ClearDesc) {
        match desc {
            DescOption::Predefined(p) => ClearDesc::of_predefined(p),
            DescOption::Specific(s) => {
                proof {
                    reveal_strlit("COLOR");
                    reveal_strlit("DEPTH");
                    reveal_strlit("STENCIL");
                }
                if s == String::from_str("COLOR") {
                    ClearDesc {
                        color: Some(DEFAULT_COLOR_CLEAR_VALUE),
                        depth: None,
                        stencil: None,
                    }
                } else if s == String::from_str("DEPTH") {
                    ClearDesc {
                        color: None,
                        depth: Some(DEFAULT_DEPTH_CLEAR_BITS),
                        stencil: None,
                    }
                } else {
                    ClearDesc {
                        color: None,
                        depth: None,
                        stencil: Some(DEFAULT_STENCIL_CLEAR_VALUE),
                    }
                }
            },
            DescOption::Configured(v) => v,
        }
    }
}

} // verus!
