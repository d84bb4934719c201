use vstd::prelude::*;

pub mod buffer;
pub mod context;
pub mod format;
pub mod image;
pub mod java_api;
pub mod pipeline;
pub mod render_task;
pub mod renderer;
pub mod shader_resource;
pub mod span;
pub mod swapchain;
pub mod texture;
verus! {

/// Types that are numbered from 0 to `T` and used as indices into tables.
pub trait UsedAsIndex<const T: u8> {
    const MAX_VALUE: u8 = T;
    const MAX_SIZE: usize = T as usize;
    const MAX_LEN: usize = T as usize + 1;
}

/// The smallest number of whole `mul`-sized steps that covers `val`.
pub open spec fn ceil_div(val: int, mul: int) -> int {
    (val + mul - 1) / mul
}

/// Rounds `val` up to the next multiple of `mul`.
pub fn pos_mul(mul: usize, val: usize) -> (r: usize)
    requires
        mul > 0,
        ceil_div(val as int, mul as int) * mul <= usize::MAX,
    ensures
        r == ceil_div(val as int, mul as int) * mul,
{
    let q = val / mul;
    proof {
        assert(ceil_div(val as int, mul as int) == (if val % mul != 0 { q as int + 1 } else { q as int }))
            by (nonlinear_arith)
            requires
                mul > 0,
                q == val / mul,
        {
        }
        assert(ceil_div(val as int, mul as int) <= ceil_div(val as int, mul as int) * mul)
            by (nonlinear_arith)
            requires
                mul > 0,
                ceil_div(val as int, mul as int) >= 0,
        {
        }
    }
    let q = if val % mul != 0 { q + 1 } else { q };
    q * mul
}

} // verus!
