use vstd::prelude::*;

verus! {

/// Faces of a polygon that culling discards.
#[derive(Copy, Clone, Debug, PartialEq, Eq, Structural)]
pub enum PolygonFace {
    NoFace,
    Font,
    Back,
    FrontAndBack,
}

/// How polygons are rasterized.
#[derive(Copy, Clone, Debug, PartialEq, Eq, Structural)]
pub enum PolygonMode {
    Fill,
    Line,
    Point,
}

/// The vertex order of front facing triangles.
#[derive(Copy, Clone, Debug, PartialEq, Eq, Structural)]
pub enum WindingOrder {
    Cw,
    Ccw,
}

/// Depth and stencil comparisons.
#[derive(Copy, Clone, Debug, PartialEq, Eq, Structural)]
pub enum CompareFunc {
    Never,
    Less,
    Equal,
    LessOrEqual,
    Greater,
    NotEqual,
    GreaterOrEqual,
    Always,
}

/// What a stencil test does to the stencil value.
#[derive(Copy, Clone, Debug, PartialEq, Eq, Structural)]
pub enum StencilFunc {
    Keep,
    Zero,
    Replace,
    Incr,
    Decr,
    Invert,
    IncrWrap,
    DecrWrap,
}

/// Blend factors for source and destination colors.
#[derive(Copy, Clone, Debug, PartialEq, Eq, Structural)]
pub enum BlendFactor {
    Zero,
    One,
    SrcColor,
    OneMinusSrcColor,
    DstColor,
    OneMinusDstColor,
    SrcAlpha,
    OneMinusSrcAlpha,
    DstAlpha,
    OneMinusDstAlpha,
    ConstantColor,
    OneMinusConstantColor,
    ConstantAlpha,
    OneMinusConstantAlpha,
    SrcAlphaSaturate,
    Src1Color,
    OneMinusSrc1Color,
    Src1Alpha,
    OneMinusSrc1Alpha,
}

} // verus!
