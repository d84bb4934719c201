use vstd::prelude::*;

use crate::{ceil_div, pos_mul, UsedAsIndex};

verus! {

/// The kinds of data shaders read per pass or per instance.
#[derive(Copy, Clone, PartialEq, Eq, Debug, Hash, Structural)]
pub enum ResourceKind {
    Transform,
    Material,
    DirLight,
    Frustum,
    ViewRay,
    PointLight,
    SpotLight,
    Joint,
    Sky,
    StaticShadow,
    TransformExtra,
    View,
    Timing,
}

/// The largest number a resource kind has.
pub const MAX_RESOURCE_KIND: u8 = 12u8;

impl UsedAsIndex<MAX_RESOURCE_KIND> for ResourceKind {}

impl ResourceKind {
    /// The bits below the kind's number: `2^n - 1` for kind number `n`.
    pub fn mask(self) -> (r: u32)
        ensures
            r == (1u32 << (self as u32)) - 1,
    {
        let n = self as u32;
        assert(!(u32::MAX << n) == ((1u32 << n) - 1) as u32 && (1u32 << n) >= 1) by (bit_vector)
            requires
                n < 32,
        ;
        !(u32::MAX << n)
    }

    pub fn of_u8(v: u8) -> (r: Self)
        requires
            v <= ResourceKind::MAX_VALUE,
        ensures
            r as u8 == v,
    {
        match v {
            0 => ResourceKind::Transform,
            1 => ResourceKind::Material,
            2 => ResourceKind::DirLight,
            3 => ResourceKind::Frustum,
            4 => ResourceKind::ViewRay,
            5 => ResourceKind::PointLight,
            6 => ResourceKind::SpotLight,
            7 => ResourceKind::Joint,
            8 => ResourceKind::Sky,
            9 => ResourceKind::StaticShadow,
            10 => ResourceKind::TransformExtra,
            11 => ResourceKind::View,
            _ => ResourceKind::Timing,
        }
    }

    pub fn of_u32(v: u32) -> (r: Self)
        requires
            v <= ResourceKind::MAX_VALUE as u32,
        ensures
            r as u32 == v,
    {
        Self::of_u8(v as u8)
    }

    pub fn of_usize(v: usize) -> (r: Self)
        requires
            v <= ResourceKind::MAX_VALUE as usize,
        ensures
            r as usize == v,
    {
        Self::of_u8(v as u8)
    }

    pub fn to_u8(self) -> (r: u8)
        ensures
            r == self as u8,
    {
        self as u8
    }

    pub fn to_u32(self) -> (r: u32)
        ensures
            r == self as u32,
    {
        self as u32
    }

    pub fn to_usize(self) -> (r: usize)
        ensures
            r == self as usize,
    {
        self as usize
    }
}

/// Per-instance joint data; shaders read nothing from it yet.
#[derive(Copy, Clone, Debug, PartialEq, Eq, Structural)]
pub struct Joint {}

/// Which shadow cascade a static shadow pass renders, padded to 16 bytes.
#[derive(Copy, Clone, Debug, PartialEq, Eq, Structural)]
pub struct StaticShadow {
    pub cascade_id: u32,
    pub pad0: u32,
    pub pad1: u32,
    pub pad2: u32,
}

/// Sky data; shaders read nothing from it yet.
#[derive(Copy, Clone, Debug, PartialEq, Eq, Structural)]
pub struct Sky {}

/// The resource kinds whose bits are set in `bits`, lowest first.
pub open spec fn kinds_of_bits(bits: u32, n: nat) -> Seq<u8>
    decreases n,
{
    if n == 0 {
        Seq::empty()
    } else if (bits >> ((n - 1) as u32)) & 1 == 1 {
        kinds_of_bits(bits, (n - 1) as nat).push((n - 1) as u8)
    } else {
        kinds_of_bits(bits, (n - 1) as nat)
    }
}

/// The kinds of the resources a task carries, lowest first, from the bits
/// the client sets: bit `k` for the kind numbered `k`.
pub fn resource_kinds_of_bits(bits: u32) -> (r: Vec<ResourceKind>)
    requires
        bits >> 13u32 == 0,
    ensures
        r@.map_values(|k: ResourceKind| k as u8) == kinds_of_bits(bits, 13),
{
    let mut r: Vec<ResourceKind> = Vec::new();
    let mut b: u32 = 0;
    while b < 13
        invariant
            b <= 13,
            r@.map_values(|k: ResourceKind| k as u8) == kinds_of_bits(bits, b as nat),
        decreases 13 - b,
    {
        if (bits >> b) & 1 == 1 {
            let ghost before = r@;
            r.push(ResourceKind::of_u32(b));
            proof {
                assert(r@ == before.push(r@.last()));
                assert(r@.map_values(|k: ResourceKind| k as u8) =~= before.map_values(
                    |k: ResourceKind| k as u8,
                ).push(b as u8));
            }
        }
        b = b + 1;
    }
    r
}

/// Where `count` resources of `size` bytes aligned to `align` lie when they
/// follow data that ends at `start`: from the next aligned offset on.
pub fn resource_range(start: usize, align: usize, size: usize, count: usize) -> (r: (usize, usize))
    requires
        align > 0,
        ceil_div(start as int, align as int) * align + size * count <= usize::MAX,
    ensures
        r.0 == ceil_div(start as int, align as int) * align,
        r.1 == r.0 + size * count,
{
    proof {
        assert(0 <= size * count) by (nonlinear_arith);
    }
    let first = pos_mul(align, start);
    let total = size * count;
    (first, first + total)
}

} // verus!
