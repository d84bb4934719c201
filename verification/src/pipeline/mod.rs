use vstd::prelude::*;

use crate::image::{AccessMask, ImageBarrier, ImageLayout, SubresourceRange, STAGE_ALL_COMMANDS};
use attachment::Attachment;

pub mod attachment;
pub mod barrier_gen;
pub mod descriptor;
pub mod file;
pub mod load;
pub mod plan;
pub mod render_stage;
pub mod sampler;
pub mod state;

verus! {

// Fixed descriptor set indices
pub const DESCRIPTOR_SET_SAMPLER: u32 = 0;

pub const DESCRIPTOR_SET_TEXTURE: u32 = 1;

pub const DESCRIPTOR_SET_TARGET_IMAGE: u32 = 2;

/// The timeline value that stage `stage_index` of `total_stages` signals in
/// frame `current_frame`.
pub fn signal_value_for(current_frame: u64, total_stages: u32, stage_index: u32) -> (r: u64)
    requires
        current_frame * total_stages + stage_index <= u64::MAX,
    ensures
        r == current_frame * total_stages + stage_index,
{
    proof {
        assert(current_frame * total_stages <= current_frame * total_stages + stage_index);
    }
    current_frame * total_stages as u64 + stage_index as u64
}

/// Whether `b` applies to mip level `lvl` of `image`.
pub open spec fn touches(b: ImageBarrier, image: u64, lvl: u32) -> bool {
    &&& b.image == image
    &&& b.range.base_mip_level <= lvl
    &&& lvl < b.range.base_mip_level + b.range.level_count
}

/// The first barrier of `barriers` that applies to level `lvl` of `image`.
pub open spec fn first_barrier_for(barriers: Seq<ImageBarrier>, image: u64, lvl: u32) -> Option<
    ImageBarrier,
>
    decreases barriers.len(),
{
    if barriers.len() == 0 {
        None
    } else if touches(barriers[0], image, lvl) {
        Some(barriers[0])
    } else {
        first_barrier_for(barriers.drop_first(), image, lvl)
    }
}

/// The transition of level `lvl` from an undefined layout into the layout
/// that the barrier `b` expects it in.
pub open spec fn initial_barrier(b: ImageBarrier, lvl: u32) -> ImageBarrier {
    ImageBarrier {
        image: b.image,
        src_access: AccessMask::Nothing,
        dst_access: AccessMask::Nothing,
        old_layout: ImageLayout::Undefined,
        new_layout: b.old_layout,
        src_stages: STAGE_ALL_COMMANDS,
        dst_stages: STAGE_ALL_COMMANDS,
        range: SubresourceRange { base_mip_level: lvl, level_count: 1, ..b.range },
    }
}

/// The initial barriers of the first `n` mip levels of `att`.
pub open spec fn level_initial_barriers(barriers: Seq<ImageBarrier>, att: Attachment, n: int) -> Seq<
    ImageBarrier,
>
    decreases n,
{
    if n <= 0 {
        Seq::empty()
    } else {
        let rest = level_initial_barriers(barriers, att, n - 1);
        match first_barrier_for(barriers, att.image, (n - 1) as u32) {
            Some(b) => rest.push(initial_barrier(b, (n - 1) as u32)),
            None => rest,
        }
    }
}

/// Number of mip levels of an attachment: one per level view, and at least one.
pub open spec fn attachment_levels(att: Attachment) -> int {
    (if att.per_level_views.len() < 1 {
        1
    } else {
        att.per_level_views.len()
    }) as u8 as int
}

/// For every mip level of every attachment, in order, the transition into
/// the layout the first barrier of the pipeline that applies to it expects.
pub open spec fn initial_barriers(atts: Seq<Attachment>, barriers: Seq<ImageBarrier>) -> Seq<
    ImageBarrier,
>
    decreases atts.len(),
{
    if atts.len() == 0 {
        Seq::empty()
    } else {
        initial_barriers(atts.drop_last(), barriers) + level_initial_barriers(
            barriers,
            atts.last(),
            attachment_levels(atts.last()),
        )
    }
}

/// The first barrier of `barriers` that applies to level `lvl` of `image`.
fn find_first_barrier(barriers: &Vec<ImageBarrier>, image: u64, lvl: u32) -> (r: Option<
    ImageBarrier,
>)
    ensures
        r == first_barrier_for(barriers@, image, lvl),
{
    let mut i: usize = 0;
    proof {
        assert(barriers@.skip(0) == barriers@);
    }
    while i < barriers.len()
        invariant
            i <= barriers.len(),
            first_barrier_for(barriers@, image, lvl) == first_barrier_for(
                barriers@.skip(i as int),
                image,
                lvl,
            ),
        decreases barriers.len() - i,
    {
        let barrier = barriers[i];
        proof {
            assert(barriers@.skip(i as int)[0] == barrier);
            assert(barriers@.skip(i as int).drop_first() == barriers@.skip(i as int + 1));
        }
        let range = barrier.range;
        if barrier.image == image && range.base_mip_level <= lvl && lvl - range.base_mip_level
            < range.level_count {
            // found the first layout for this specific level
            return Some(barrier);
        }
        i = i + 1;
    }
    None
}

/// The barriers that bring every mip level of every attachment from an
/// undefined layout into the layout that the first of the pipeline's
/// `barriers` to apply to it expects.
pub fn gen_initial_barriers(attachments: &Vec<Attachment>, barriers: &Vec<ImageBarrier>) -> (r: Vec<
    ImageBarrier,
>)
    ensures
        r@ == initial_barriers(attachments@, barriers@),
{
    let mut initial: Vec<ImageBarrier> = Vec::new();
    let mut k: usize = 0;
    while k < attachments.len()
        invariant
            k <= attachments.len(),
            initial@ == initial_barriers(attachments@.take(k as int), barriers@),
        decreases attachments.len() - k,
    {
        let att = &attachments[k];
        let levels = att.levels() as u32;
        let ghost before = initial@;
        let mut lvl: u32 = 0;
        while lvl < levels
            invariant
                lvl <= levels,
                levels == attachment_levels(*att),
                initial@ == before + level_initial_barriers(barriers@, *att, lvl as int),
            decreases levels - lvl,
        {
            match find_first_barrier(barriers, att.image, lvl) {
                Some(b) => {
                    // every mip level is transitioned individually
                    initial.push(
                        ImageBarrier {
                            image: b.image,
                            src_access: AccessMask::Nothing,
                            dst_access: AccessMask::Nothing,
                            old_layout: ImageLayout::Undefined,
                            new_layout: b.old_layout,
                            src_stages: STAGE_ALL_COMMANDS,
                            dst_stages: STAGE_ALL_COMMANDS,
                            range: SubresourceRange { base_mip_level: lvl, level_count: 1, ..b.range },
                        },
                    );
                    proof {
                        assert(initial@ =~= before + level_initial_barriers(
                            barriers@,
                            *att,
                            lvl as int + 1,
                        ));
                    }
                },
                None => {},
            }
            lvl = lvl + 1;
        }
        proof {
            assert(attachments@.take(k as int + 1).drop_last() == attachments@.take(k as int));
            assert(attachments@.take(k as int + 1).last() == attachments@[k as int]);
        }
        k = k + 1;
    }
    proof {
        assert(attachments@.take(k as int) == attachments@);
    }
    initial
}

/// Whether `b` starts level `b.range.base_mip_level` of its image, and only
/// that level, in the layout that one of the pipeline's `barriers` for that
/// level expects.
pub open spec fn starts_level(b: ImageBarrier, barriers: Seq<ImageBarrier>) -> bool {
    &&& b.old_layout == ImageLayout::Undefined
    &&& b.range.level_count == 1
    &&& exists|j: int|
        0 <= j < barriers.len() && touches(#[trigger] barriers[j], b.image, b.range.base_mip_level)
            && barriers[j].old_layout == b.new_layout
}

proof fn lemma_first_barrier_in(barriers: Seq<ImageBarrier>, image: u64, lvl: u32)
    ensures
        first_barrier_for(barriers, image, lvl) matches Some(b) ==> exists|j: int|
            0 <= j < barriers.len() && #[trigger] barriers[j] == b && touches(b, image, lvl),
    decreases barriers.len(),
{
    if barriers.len() > 0 && !touches(barriers[0], image, lvl) {
        lemma_first_barrier_in(barriers.drop_first(), image, lvl);
        if let Some(b) = first_barrier_for(barriers, image, lvl) {
            let j = choose|j: int|
                0 <= j < barriers.drop_first().len() && #[trigger] barriers.drop_first()[j] == b
                    && touches(b, image, lvl);
            assert(barriers[j + 1] == b);
        }
    }
}

proof fn lemma_level_initial_barriers_start(barriers: Seq<ImageBarrier>, att: Attachment, n: int)
    ensures
        forall|k: int|
            0 <= k < level_initial_barriers(barriers, att, n).len() ==> starts_level(
                #[trigger] level_initial_barriers(barriers, att, n)[k],
                barriers,
            ),
    decreases n,
{
    if n > 0 {
        let rest = level_initial_barriers(barriers, att, n - 1);
        let all = level_initial_barriers(barriers, att, n);
        lemma_level_initial_barriers_start(barriers, att, n - 1);
        lemma_first_barrier_in(barriers, att.image, (n - 1) as u32);
        assert forall|k: int| 0 <= k < all.len() implies starts_level(#[trigger] all[k], barriers) by {
            if k < rest.len() {
                assert(all[k] == rest[k]);
            } else {
                let b = first_barrier_for(barriers, att.image, (n - 1) as u32).unwrap();
                let j = choose|j: int|
                    0 <= j < barriers.len() && #[trigger] barriers[j] == b && touches(
                        b,
                        att.image,
                        (n - 1) as u32,
                    );
                assert(touches(barriers[j], all[k].image, all[k].range.base_mip_level));
            }
        }
    }
}

/// Every barrier that `gen_initial_barriers` makes moves a single mip level
/// out of the undefined layout into the layout that a barrier of the
/// pipeline for that level of that image expects it in.
pub proof fn lemma_initial_barriers_start_levels(
    attachments: Seq<Attachment>,
    barriers: Seq<ImageBarrier>,
)
    ensures
        forall|k: int|
            0 <= k < initial_barriers(attachments, barriers).len() ==> starts_level(
                #[trigger] initial_barriers(attachments, barriers)[k],
                barriers,
            ),
    decreases attachments.len(),
{
    if attachments.len() > 0 {
        let a = initial_barriers(attachments.drop_last(), barriers);
        let b = level_initial_barriers(
            barriers,
            attachments.last(),
            attachment_levels(attachments.last()),
        );
        lemma_initial_barriers_start_levels(attachments.drop_last(), barriers);
        lemma_level_initial_barriers_start(
            barriers,
            attachments.last(),
            attachment_levels(attachments.last()),
        );
        assert forall|k: int| 0 <= k < (a + b).len() implies starts_level(
            #[trigger] (a + b)[k],
            barriers,
        ) by {
            if k < a.len() {
                assert((a + b)[k] == a[k]);
            } else {
                assert((a + b)[k] == b[k - a.len()]);
            }
        }
    }
}

/// The first barrier that applies to a level is the earliest one that does.
proof fn lemma_first_barrier_is(barriers: Seq<ImageBarrier>, image: u64, lvl: u32, j: int)
    requires
        0 <= j < barriers.len(),
        touches(barriers[j], image, lvl),
        forall|i: int| 0 <= i < j ==> !touches(#[trigger] barriers[i], image, lvl),
    ensures
        first_barrier_for(barriers, image, lvl) == Some(barriers[j]),
    decreases j,
{
    if j > 0 {
        assert(!touches(barriers[0], image, lvl));
        let d = barriers.drop_first();
        assert forall|i: int| 0 <= i < j - 1 implies !touches(#[trigger] d[i], image, lvl) by {
            assert(d[i] == barriers[i + 1]);
        }
        assert(d[j - 1] == barriers[j]);
        lemma_first_barrier_is(d, image, lvl, j - 1);
    }
}

/// The initial barriers of the first `n` levels of an attachment include
/// the one of every level below `n` that a barrier applies to.
proof fn lemma_level_initial_barriers_has(
    barriers: Seq<ImageBarrier>,
    att: Attachment,
    n: int,
    lvl: int,
    b: ImageBarrier,
)
    requires
        0 <= lvl < n <= u32::MAX,
        first_barrier_for(barriers, att.image, lvl as u32) == Some(b),
    ensures
        exists|k: int|
            0 <= k < level_initial_barriers(barriers, att, n).len()
                && #[trigger] level_initial_barriers(barriers, att, n)[k] == initial_barrier(
                b,
                lvl as u32,
            ),
    decreases n,
{
    let all = level_initial_barriers(barriers, att, n);
    let rest = level_initial_barriers(barriers, att, n - 1);
    if lvl == n - 1 {
        assert(all[all.len() - 1] == initial_barrier(b, lvl as u32));
    } else {
        lemma_level_initial_barriers_has(barriers, att, n - 1, lvl, b);
        let k = choose|k: int| 0 <= k < rest.len() && #[trigger] rest[k] == initial_barrier(b, lvl as u32);
        assert(all[k] == rest[k]);
    }
}

/// The initial barriers of a list of attachments include those of each one.
proof fn lemma_initial_barriers_has(
    atts: Seq<Attachment>,
    barriers: Seq<ImageBarrier>,
    a: int,
    x: ImageBarrier,
)
    requires
        0 <= a < atts.len(),
        exists|k: int|
            0 <= k < level_initial_barriers(barriers, atts[a], attachment_levels(atts[a])).len()
                && #[trigger] level_initial_barriers(barriers, atts[a], attachment_levels(atts[a]))[k]
                == x,
    ensures
        exists|k: int|
            0 <= k < initial_barriers(atts, barriers).len() && #[trigger] initial_barriers(
                atts,
                barriers,
            )[k] == x,
    decreases atts.len(),
{
    let front = initial_barriers(atts.drop_last(), barriers);
    let last = level_initial_barriers(barriers, atts.last(), attachment_levels(atts.last()));
    let all = initial_barriers(atts, barriers);
    assert(all == front + last);
    if a == atts.len() - 1 {
        let k = choose|k: int| 0 <= k < last.len() && #[trigger] last[k] == x;
        assert(all[front.len() + k] == x);
    } else {
        assert(atts.drop_last()[a] == atts[a]);
        lemma_initial_barriers_has(atts.drop_last(), barriers, a, x);
        let k = choose|k: int| 0 <= k < front.len() && #[trigger] front[k] == x;
        assert(all[k] == x);
    }
}

/// Every mip level of every attachment that some barrier of the pipeline
/// applies to gets an initial barrier: a transition of that level alone,
/// from the undefined layout into the layout the first such barrier expects,
/// over all commands.
pub proof fn lemma_initial_barriers_complete(
    attachments: Seq<Attachment>,
    barriers: Seq<ImageBarrier>,
    a: int,
    lvl: u32,
    j: int,
)
    requires
        0 <= a < attachments.len(),
        lvl < attachment_levels(attachments[a]),
        0 <= j < barriers.len(),
        touches(barriers[j], attachments[a].image, lvl),
        forall|i: int| 0 <= i < j ==> !touches(#[trigger] barriers[i], attachments[a].image, lvl),
    ensures
        exists|k: int|
            0 <= k < initial_barriers(attachments, barriers).len() && {
                let x = #[trigger] initial_barriers(attachments, barriers)[k];
                &&& x.image == attachments[a].image
                &&& x.old_layout == ImageLayout::Undefined
                &&& x.new_layout == barriers[j].old_layout
                &&& x.range.base_mip_level == lvl
                &&& x.range.level_count == 1
                &&& x.src_stages == STAGE_ALL_COMMANDS
                &&& x.dst_stages == STAGE_ALL_COMMANDS
            },
{
    let att = attachments[a];
    let b = barriers[j];
    lemma_first_barrier_is(barriers, att.image, lvl, j);
    lemma_level_initial_barriers_has(barriers, att, attachment_levels(att), lvl as int, b);
    let x = initial_barrier(b, lvl);
    lemma_initial_barriers_has(attachments, barriers, a, x);
    let k = choose|k: int|
        0 <= k < initial_barriers(attachments, barriers).len() && #[trigger] initial_barriers(
            attachments,
            barriers,
        )[k] == x;
    assert(initial_barriers(attachments, barriers)[k] == x);
}

} // verus!
