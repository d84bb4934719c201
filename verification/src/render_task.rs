use vstd::prelude::*;

use crate::UsedAsIndex;

verus! {

/// The kinds of render tasks; the renderer batches tasks by kind.
#[derive(Copy, Clone, PartialEq, Eq, Debug, Hash, Structural)]
pub enum TaskKind {
    Undefined,
    MeshStatic,
    MeshAnimated,
    LightDir,
    LightPoint,
    LightSpot,
    MeshStaticShadowDir,
    MeshStaticShadowPoint,
    MeshStaticShadowSpot,
    WireframeStatic,
    Skybox,
    Sky,
    Fullscreen,
    Nuklear,
}

/// The largest number a task kind has.
pub const MAX_TASK_KIND: u8 = 13u8;

impl UsedAsIndex<MAX_TASK_KIND> for TaskKind {}

/// The batch key of a task of kind `kind` under parent `parent_id`: the kind in
/// the high 32 bits, the parent in the low 32 bits.
pub open spec fn task_key(kind: TaskKind, parent_id: u32) -> int {
    (kind as u32) * 0x1_0000_0000 + parent_id
}

/// Tasks share a batch only when they share both kind and parent: the key
/// tells both apart.
pub proof fn lemma_task_key_injective(k1: TaskKind, p1: u32, k2: TaskKind, p2: u32)
    requires
        task_key(k1, p1) == task_key(k2, p2),
    ensures
        k1 == k2,
        p1 == p2,
{
    let a = k1 as u32 as int;
    let b = k2 as u32 as int;
    assert(a == b && p1 == p2) by (nonlinear_arith)
        requires
            a * 0x1_0000_0000 + p1 == b * 0x1_0000_0000 + p2,
            0 <= p1 < 0x1_0000_0000,
            0 <= p2 < 0x1_0000_0000,
            0 <= a,
            0 <= b,
    {
        if a > b {
            assert(a * 0x1_0000_0000 >= (b + 1) * 0x1_0000_0000);
        } else if a < b {
            assert(b * 0x1_0000_0000 >= (a + 1) * 0x1_0000_0000);
        }
    }
}

impl TaskKind {
    pub fn of_u8(v: u8) -> (r: Self)
        requires
            1 <= v <= TaskKind::MAX_VALUE,
        ensures
            r as u8 == v,
    {
        Self::of_u64(v as u64)
    }

    pub fn of_u32(v: u32) -> (r: Self)
        requires
            1 <= v <= TaskKind::MAX_VALUE,
        ensures
            r as u32 == v,
    {
        Self::of_u64(v as u64)
    }

    pub fn of_usize(v: usize) -> (r: Self)
        requires
            1 <= v <= TaskKind::MAX_VALUE,
        ensures
            r as usize == v,
    {
        Self::of_u64(v as u64)
    }

    /// The task kind numbered `v`; `Undefined` (0) is not a kind a task can have.
    pub fn of_u64(v: u64) -> (r: Self)
        requires
            1 <= v <= TaskKind::MAX_VALUE,
        ensures
            r as u64 == v,
    {
        match v {
            1 => TaskKind::MeshStatic,
            2 => TaskKind::MeshAnimated,
            3 => TaskKind::LightDir,
            4 => TaskKind::LightPoint,
            5 => TaskKind::LightSpot,
            6 => TaskKind::MeshStaticShadowDir,
            7 => TaskKind::MeshStaticShadowPoint,
            8 => TaskKind::MeshStaticShadowSpot,
            9 => TaskKind::WireframeStatic,
            10 => TaskKind::Skybox,
            11 => TaskKind::Sky,
            12 => TaskKind::Fullscreen,
            _ => TaskKind::Nuklear,
        }
    }

    pub fn to_u8(self) -> (r: u8)
        ensures
            r == self as u8,
    {
        self as u8
    }

    pub fn to_u32(self) -> (r: u32)
        ensures
            r == self as u32,
    {
        self as u32
    }

    pub fn to_usize(self) -> (r: usize)
        ensures
            r == self as usize,
    {
        self as usize
    }

    pub fn to_key(self, parent_id: u32) -> (r: u64)
        ensures
            r == task_key(self, parent_id),
    {
        let k = self.to_u32() as u64;
        let p = parent_id as u64;
        assert((k << 32u64) | p == k * 0x1_0000_0000 + p) by (bit_vector)
            requires
                k < 0x1_0000_0000,
                p < 0x1_0000_0000,
        ;
        (k << 32u64) | p
    }
}

} // verus!
