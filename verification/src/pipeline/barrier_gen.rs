use vstd::prelude::*;

use super::attachment::{range_with_levels, Attachment};
use super::file::{
    resolvable, resolved, write_resolvable, AttachmentInput, DescHandler, Pipeline, PipelineStep, Target, WriteDesc,
};
use crate::format::{aspect_spec, has_depth_spec, has_stencil_spec, Format};
use crate::image::{
    AccessMask, ImageBarrier, ImageLayout, STAGE_COLOR_ATTACHMENT_OUTPUT,
    STAGE_EARLY_FRAGMENT_TESTS, STAGE_FRAGMENT_SHADER, STAGE_LATE_FRAGMENT_TESTS, STAGE_TRANSFER,
};
use crate::texture::MipMap;

verus! {

/// A mip level of a named attachment, as a pass reads or writes it.
pub struct Image {
    name: String,
    level: u8,
}

impl View for Image {
    type V = (Seq<char>, u8);

    closed spec fn view(&self) -> (Seq<char>, u8) {
        (self.name@, self.level)
    }
}

/// What one pass of the pipeline reads and writes.
struct Pass {
    name: String,
    inputs: Vec<Image>,
    outputs: Vec<Image>,
    is_blitting: bool,
}

/// A pass as the barrier search sees it: the images it reads, the images it
/// writes, and whether it is a blit.
pub struct PassModel {
    pub inputs: Seq<(Seq<char>, u8)>,
    pub outputs: Seq<(Seq<char>, u8)>,
    pub is_blitting: bool,
}

impl View for Pass {
    type V = PassModel;

    closed spec fn view(&self) -> PassModel {
        PassModel {
            inputs: self.inputs@.map_values(|i: Image| i@),
            outputs: self.outputs@.map_values(|i: Image| i@),
            is_blitting: self.is_blitting,
        }
    }
}

/// The passes of a pipeline, in order, and the number of mip levels of each
/// target, by name.
pub struct BarrierGenModel {
    pub passes: Seq<PassModel>,
    pub levels: Seq<(Seq<char>, u8)>,
}

/// Generates the image barriers each pass of a pipeline needs, from what the
/// passes before it (going back around the frame) did with each image.
pub struct BarrierGen {
    passes: Vec<Pass>,
    levels_by_owner: Vec<(String, u8)>,
}

/// The layout change and memory dependency that a barrier makes.
#[derive(Copy, Clone, Debug, PartialEq, Eq, Structural)]
pub struct Transition {
    pub src_access: AccessMask,
    pub old_layout: ImageLayout,
    pub new_layout: ImageLayout,
}

/// What one earlier pass tells about the barrier an image needs: a
/// transition, that an earlier barrier already covers it, or nothing.
#[derive(Copy, Clone, Debug, PartialEq, Eq, Structural)]
pub enum BarrierEval {
    Issue(Transition),
    AlreadyIssued,
    NextPass,
}

/// The names and levels of targets, in order.
pub open spec fn levels_of(targets: Seq<Target>) -> Seq<(Seq<char>, u8)> {
    targets.map_values(|t: Target| (t.name@, t.level))
}

/// The names and levels of a table of levels, in order.
pub open spec fn pairs_model(levels: Seq<(String, u8)>) -> Seq<(Seq<char>, u8)> {
    levels.map_values(|e: (String, u8)| (e.0@, e.1))
}

/// The number of mip levels of the target `name`; a later target of the same
/// name replaces an earlier one.
pub open spec fn owner_levels(levels: Seq<(Seq<char>, u8)>, name: Seq<char>) -> Option<u8>
    decreases levels.len(),
{
    if levels.len() == 0 {
        None
    } else if levels.last().0 == name {
        Some(levels.last().1)
    } else {
        owner_levels(levels.drop_last(), name)
    }
}

/// First and one past the last mip level that a use of `level_usage` covers
/// in an image of `owner` levels.
pub open spec fn level_bounds(owner: u8, level_usage: u8) -> (int, int) {
    if level_usage == MipMap::ALL_LEVELS_VALUE {
        (0, owner as int)
    } else {
        (level_usage as int, level_usage + 1)
    }
}

/// The mip levels that a use of `level_usage` covers in an image of `owner` levels.
pub open spec fn level_range(owner: u8, level_usage: u8) -> Seq<u8> {
    let (start, end) = level_bounds(owner, level_usage);
    Seq::new((end - start) as nat, |i: int| (start + i) as u8)
}

/// The images of one attachment input of a render pass, one per level it reads.
pub open spec fn input_images(levels: Seq<(Seq<char>, u8)>, name: Seq<char>, level: u8) -> Seq<
    (Seq<char>, u8),
> {
    level_range(owner_levels(levels, name).unwrap(), level).map_values(|l: u8| (name, l))
}

/// The images the attachment inputs of a render pass read, in order.
pub open spec fn render_inputs(
    inputs: Seq<AttachmentInput>,
    levels: Seq<(Seq<char>, u8)>,
) -> Seq<(Seq<char>, u8)>
    decreases inputs.len(),
{
    if inputs.len() == 0 {
        Seq::empty()
    } else {
        render_inputs(inputs.drop_last(), levels) + input_images(
            levels,
            inputs.last().name@,
            inputs.last().level,
        )
    }
}

/// Whether some image in `s` is of the attachment `name`.
pub open spec fn names_any(s: Seq<(Seq<char>, u8)>, name: Seq<char>) -> bool {
    exists|i: int| 0 <= i < s.len() && #[trigger] s[i].0 == name
}

/// Whether `s` holds level `level` of the attachment `name`.
pub open spec fn has_image(s: Seq<(Seq<char>, u8)>, name: Seq<char>, level: u8) -> bool {
    exists|i: int| 0 <= i < s.len() && #[trigger] s[i] == (name, level)
}

/// What a pipeline step reads and writes. A render pass writes level 0 of its
/// outputs and reads the levels of its inputs; its depth-stencil attachment is
/// an output when the pass writes depth, and otherwise an input unless the
/// pass already samples it. A blit reads level 0 of its input and writes
/// level 0 of its output.
pub open spec fn pass_model(step: PipelineStep, levels: Seq<(Seq<char>, u8)>) -> PassModel {
    match step {
        PipelineStep::Render(p) => {
            let outputs = p.outputs@.map_values(|o: String| (o@, 0u8));
            let inputs = render_inputs(p.inputs@, levels);
            match p.depth_stencil {
                Some(d) => if resolved::<WriteDesc, Pipeline>(p.state.writing).depth {
                    PassModel { inputs, outputs: outputs.push((d@, 0u8)), is_blitting: false }
                } else if names_any(inputs, d@) {
                    PassModel { inputs, outputs, is_blitting: false }
                } else {
                    PassModel { inputs: inputs.push((d@, 0u8)), outputs, is_blitting: false }
                },
                None => PassModel { inputs, outputs, is_blitting: false },
            }
        },
        PipelineStep::Blit(p) => PassModel {
            inputs: seq![(p.input@, 0u8)],
            outputs: seq![(p.output@, 0u8)],
            is_blitting: true,
        },
    }
}

/// The steps whose images can be worked out: every input names a target, and
/// the writes of a pass with a depth-stencil attachment can be resolved.
pub open spec fn step_well_formed(step: PipelineStep, levels: Seq<(Seq<char>, u8)>) -> bool {
    match step {
        PipelineStep::Render(p) => {
            &&& forall|i: int|
                0 <= i < p.inputs.len() ==> (#[trigger] owner_levels(levels, p.inputs[i].name@)).is_some()
            &&& p.depth_stencil.is_some() ==> resolvable::<WriteDesc, Pipeline>(p.state.writing)
        },
        PipelineStep::Blit(_) => true,
    }
}

/// The layout a pass needs an image in: blits copy from and into transfer
/// layouts, render passes write attachments and read read-only images.
pub open spec fn new_layout_for(current_is_blitting: bool, is_output: bool) -> ImageLayout {
    if current_is_blitting {
        if is_output {
            ImageLayout::TransferDstOptimal
        } else {
            ImageLayout::TransferSrcOptimal
        }
    } else {
        if is_output {
            ImageLayout::AttachmentOptimal
        } else {
            ImageLayout::ReadOnlyOptimal
        }
    }
}

/// What the earlier pass `prev` tells about the barrier that level `level` of
/// `name` needs before the current pass reads it (or writes it, when
/// `is_output`). A read after a read of the same kind, or a write after a
/// write of the same kind, is already covered.
pub open spec fn eval_spec(
    prev: PassModel,
    name: Seq<char>,
    level: u8,
    current_is_blitting: bool,
    is_output: bool,
) -> BarrierEval {
    let new_layout = new_layout_for(current_is_blitting, is_output);
    if has_image(prev.inputs, name, level) {
        if !is_output && prev.is_blitting == current_is_blitting {
            BarrierEval::AlreadyIssued
        } else if prev.is_blitting {
            BarrierEval::Issue(
                Transition {
                    src_access: AccessMask::MemoryRead,
                    old_layout: ImageLayout::TransferSrcOptimal,
                    new_layout,
                },
            )
        } else {
            BarrierEval::Issue(
                Transition {
                    src_access: AccessMask::MemoryRead,
                    old_layout: ImageLayout::ReadOnlyOptimal,
                    new_layout,
                },
            )
        }
    } else if has_image(prev.outputs, name, level) {
        if is_output && prev.is_blitting == current_is_blitting {
            BarrierEval::AlreadyIssued
        } else if prev.is_blitting {
            BarrierEval::Issue(
                Transition {
                    src_access: AccessMask::MemoryWrite,
                    old_layout: ImageLayout::TransferDstOptimal,
                    new_layout,
                },
            )
        } else {
            BarrierEval::Issue(
                Transition {
                    src_access: AccessMask::MemoryWrite,
                    old_layout: ImageLayout::AttachmentOptimal,
                    new_layout,
                },
            )
        }
    } else {
        BarrierEval::NextPass
    }
}

/// The pass `j` steps before pass `curr`, going back around the frame.
pub open spec fn prev_index(curr: int, j: int, len: int) -> int {
    if j <= curr {
        curr - j
    } else {
        curr - j + len
    }
}

/// The transition that level `level` of `name` needs before pass `curr`: the
/// first pass, going back from `curr` around the frame and starting `j` steps
/// back, that reads or writes it decides. None when no pass does or when a
/// barrier is already issued.
pub open spec fn search_back(
    passes: Seq<PassModel>,
    curr: int,
    name: Seq<char>,
    level: u8,
    current_is_blitting: bool,
    is_output: bool,
    j: int,
) -> Option<Transition>
    decreases passes.len() - j,
{
    if j < 1 || j >= passes.len() {
        None
    } else {
        match eval_spec(
            passes[prev_index(curr, j, passes.len() as int)],
            name,
            level,
            current_is_blitting,
            is_output,
        ) {
            BarrierEval::Issue(t) => Some(t),
            BarrierEval::AlreadyIssued => None,
            BarrierEval::NextPass => search_back(
                passes,
                curr,
                name,
                level,
                current_is_blitting,
                is_output,
                j + 1,
            ),
        }
    }
}

/// Whether the old layout of a transition is one a blit leaves.
pub open spec fn was_blitting(t: Transition) -> bool {
    t.old_layout == ImageLayout::TransferSrcOptimal || t.old_layout
        == ImageLayout::TransferDstOptimal
}

/// Whether images of `f` are depth or stencil attachments.
pub open spec fn depth_or_stencil(f: Format) -> bool {
    has_depth_spec(f) || has_stencil_spec(f)
}

/// The barrier before a pass reads level `level` of `att`.
pub open spec fn input_barrier(t: Transition, att: Attachment, level: u8, current_is_blitting: bool) -> ImageBarrier {
    ImageBarrier {
        image: att.image,
        src_access: t.src_access,
        dst_access: AccessMask::MemoryRead,
        old_layout: t.old_layout,
        new_layout: t.new_layout,
        src_stages: if was_blitting(t) {
            STAGE_TRANSFER
        } else if depth_or_stencil(att.format) {
            STAGE_EARLY_FRAGMENT_TESTS | STAGE_LATE_FRAGMENT_TESTS
        } else {
            STAGE_COLOR_ATTACHMENT_OUTPUT
        },
        dst_stages: if current_is_blitting {
            STAGE_TRANSFER
        } else if depth_or_stencil(att.format) {
            STAGE_FRAGMENT_SHADER | STAGE_EARLY_FRAGMENT_TESTS | STAGE_LATE_FRAGMENT_TESTS
        } else {
            STAGE_FRAGMENT_SHADER
        },
        range: range_with_levels(aspect_spec(att.format), level as u32, 1),
    }
}

/// The barrier before a pass writes level `level` of `att`.
pub open spec fn output_barrier(t: Transition, att: Attachment, level: u8, current_is_blitting: bool) -> ImageBarrier {
    ImageBarrier {
        image: att.image,
        src_access: t.src_access,
        dst_access: AccessMask::MemoryWrite,
        old_layout: t.old_layout,
        new_layout: t.new_layout,
        src_stages: if was_blitting(t) {
            STAGE_TRANSFER
        } else if depth_or_stencil(att.format) {
            STAGE_FRAGMENT_SHADER | STAGE_EARLY_FRAGMENT_TESTS | STAGE_LATE_FRAGMENT_TESTS
        } else {
            STAGE_FRAGMENT_SHADER
        },
        dst_stages: if current_is_blitting {
            STAGE_TRANSFER
        } else if depth_or_stencil(att.format) {
            STAGE_EARLY_FRAGMENT_TESTS | STAGE_LATE_FRAGMENT_TESTS
        } else {
            STAGE_COLOR_ATTACHMENT_OUTPUT
        },
        range: range_with_levels(aspect_spec(att.format), level as u32, 1),
    }
}

/// The barriers that reading the levels `levels` of `att` in pass `curr` needs.
pub open spec fn level_barriers(g: BarrierGenModel, curr: int, att: Attachment, levels: Seq<u8>) -> Seq<
    ImageBarrier,
>
    decreases levels.len(),
{
    if levels.len() == 0 {
        Seq::empty()
    } else {
        let blit = g.passes[curr].is_blitting;
        let rest = level_barriers(g, curr, att, levels.drop_last());
        match search_back(g.passes, curr, att.name@, levels.last(), blit, false, 1) {
            Some(t) => rest.push(input_barrier(t, att, levels.last(), blit)),
            None => rest,
        }
    }
}

/// The barriers that reading the attachments `atts` in pass `curr` needs, in order.
pub open spec fn input_barriers(g: BarrierGenModel, curr: int, atts: Seq<Attachment>) -> Seq<
    ImageBarrier,
>
    decreases atts.len(),
{
    if atts.len() == 0 {
        Seq::empty()
    } else {
        let att = atts.last();
        input_barriers(g, curr, atts.drop_last()) + level_barriers(
            g,
            curr,
            att,
            level_range(owner_levels(g.levels, att.name@).unwrap(), att.level_usage),
        )
    }
}

/// The barriers that writing the attachments `atts` in pass `curr` needs, in
/// order. The swapchain image gets its barriers where it is rendered.
pub open spec fn output_barriers(g: BarrierGenModel, curr: int, atts: Seq<Attachment>) -> Seq<
    ImageBarrier,
>
    decreases atts.len(),
{
    if atts.len() == 0 {
        Seq::empty()
    } else {
        let att = atts.last();
        let rest = output_barriers(g, curr, atts.drop_last());
        let blit = g.passes[curr].is_blitting;
        if att.is_default_spec() {
            rest
        } else {
            match search_back(g.passes, curr, att.name@, att.level_usage, blit, true, 1) {
                Some(t) => rest.push(output_barrier(t, att, att.level_usage, blit)),
                None => rest,
            }
        }
    }
}

/// The inputs that barriers can be generated for: none is the swapchain
/// image, and each names a target.
pub open spec fn inputs_known(g: BarrierGenModel, inputs: Seq<Attachment>) -> bool {
    forall|i: int|
        0 <= i < inputs.len() ==> {
            &&& !(#[trigger] inputs[i]).is_default_spec()
            &&& owner_levels(g.levels, inputs[i].name@).is_some()
        }
}

impl View for BarrierGen {
    type V = BarrierGenModel;

    closed spec fn view(&self) -> BarrierGenModel {
        BarrierGenModel {
            passes: self.passes@.map_values(|p: Pass| p@),
            levels: pairs_model(self.levels_by_owner@),
        }
    }
}

/// Mapping a sequence that grew by one item adds the item's image at the end.
proof fn lemma_map_values_push<A, B>(a: Seq<A>, x: A, f: spec_fn(A) -> B)
    ensures
        a.push(x).map_values(f) == a.map_values(f).push(f(x)),
{
    assert(a.push(x).map_values(f) =~= a.map_values(f).push(f(x)));
}

impl Image {
    /// The image an attachment input reads.
    pub fn of_attachment(f: &AttachmentInput) -> (r: Image)
        ensures
            r@ == (f.name@, f.level),
    {
        Self::of_name(&f.name, f.level)
    }

    fn of_name(name: &String, level: u8) -> (r: Image)
        ensures
            r@ == (name@, level),
    {
        Image { name: name.clone(), level }
    }
}

/// Whether `images` holds level `level` of `name`.
fn holds_image(images: &Vec<Image>, name: &String, level: u8) -> (r: bool)
    ensures
        r == has_image(images@.map_values(|i: Image| i@), name@, level),
{
    let ghost s = images@.map_values(|i: Image| i@);
    let mut k: usize = 0;
    while k < images.len()
        invariant
            k <= images.len(),
            s == images@.map_values(|i: Image| i@),
            forall|q: int| 0 <= q < k ==> s[q] != (name@, level),
        decreases images.len() - k,
    {
        if images[k].name == *name && images[k].level == level {
            proof {
                assert(s[k as int] == (name@, level));
            }
            return true;
        }
        k = k + 1;
    }
    false
}

/// Whether some image in `images` is of the attachment `name`.
fn names_image(images: &Vec<Image>, name: &String) -> (r: bool)
    ensures
        r == names_any(images@.map_values(|i: Image| i@), name@),
{
    let ghost s = images@.map_values(|i: Image| i@);
    let mut k: usize = 0;
    while k < images.len()
        invariant
            k <= images.len(),
            s == images@.map_values(|i: Image| i@),
            forall|q: int| 0 <= q < k ==> s[q].0 != name@,
        decreases images.len() - k,
    {
        if images[k].name == *name {
            proof {
                assert(s[k as int].0 == name@);
            }
            return true;
        }
        k = k + 1;
    }
    false
}

/// The number of levels of the target `name`, the last one of that name.
fn lookup_levels(levels: &Vec<(String, u8)>, name: &String) -> (r: Option<u8>)
    ensures
        r == owner_levels(pairs_model(levels@), name@),
{
    let ghost m = pairs_model(levels@);
    let mut i = levels.len();
    proof {
        assert(m.take(i as int) == m);
    }
    while i > 0
        invariant
            i <= levels.len(),
            m == pairs_model(levels@),
            owner_levels(m, name@) == owner_levels(m.take(i as int), name@),
        decreases i,
    {
        proof {
            assert(m.take(i as int).drop_last() == m.take(i as int - 1));
            assert(m.take(i as int).last() == m[i as int - 1]);
        }
        if levels[i - 1].0 == *name {
            return Some(levels[i - 1].1);
        }
        i = i - 1;
    }
    None
}

impl BarrierGen {
    /// First and one past the last mip level of `name` that a use of
    /// `level_usage` covers.
    fn level_range_for(name: &String, level_usage: u8, levels_by_owner: &Vec<(String, u8)>) -> (r: (
        u8,
        u8,
    ))
        requires
            owner_levels(pairs_model(levels_by_owner@), name@).is_some(),
        ensures
            (r.0 as int, r.1 as int) == level_bounds(
                owner_levels(pairs_model(levels_by_owner@), name@).unwrap(),
                level_usage,
            ),
    {
        let owner_levels = match lookup_levels(levels_by_owner, name) {
            Some(r) => r,
            None => {
                proof {
                    assert(false);
                }
                0
            },
        };
        if MipMap::is_all_levels_value(level_usage) {
            (0, owner_levels)
        } else {
            (level_usage, level_usage + 1)
        }
    }

    /// What the earlier pass `prev_pass` tells about the barrier that level
    /// `level` of `name` needs before the current pass uses it.
    fn eval_barrier_for(
        prev_pass: &Pass,
        name: &String,
        level: u8,
        current_is_blitting: bool,
        is_output: bool,
    ) -> (r: BarrierEval)
        ensures
            r == eval_spec(prev_pass@, name@, level, current_is_blitting, is_output),
    {
        let new_layout = if current_is_blitting {
            // Blitting outputs require "transfer dst", inputs "transfer src"
            if is_output {
                ImageLayout::TransferDstOptimal
            } else {
                ImageLayout::TransferSrcOptimal
            }
        } else {
            // Non blitting outputs require "attachment", inputs "read only"
            if is_output {
                ImageLayout::AttachmentOptimal
            } else {
                ImageLayout::ReadOnlyOptimal
            }
        };
        if holds_image(&prev_pass.inputs, name, level) {
            // Previous pass had this attachment as an input
            if !is_output && prev_pass.is_blitting == current_is_blitting {
                // Already issued this same barrier before
                return BarrierEval::AlreadyIssued;
            }
            if prev_pass.is_blitting {
                // Prev was blitting, curr isnt. Issue a transition from transfer src
                return BarrierEval::Issue(
                    Transition {
                        src_access: AccessMask::MemoryRead,
                        old_layout: ImageLayout::TransferSrcOptimal,
                        new_layout,
                    },
                );
            }
            // Curr is blitting, prev wasn't. Issue a transition from read only
            return BarrierEval::Issue(
                Transition {
                    src_access: AccessMask::MemoryRead,
                    old_layout: ImageLayout::ReadOnlyOptimal,
                    new_layout,
                },
            );
        }
        if holds_image(&prev_pass.outputs, name, level) {
            // Previous pass had this attachment as an output
            if is_output && prev_pass.is_blitting == current_is_blitting {
                // Already issued this same barrier before
                return BarrierEval::AlreadyIssued;
            }
            if prev_pass.is_blitting {
                // Prev was blitting, curr isnt. Issue a transition from transfer dst
                return BarrierEval::Issue(
                    Transition {
                        src_access: AccessMask::MemoryWrite,
                        old_layout: ImageLayout::TransferDstOptimal,
                        new_layout,
                    },
                );
            }
            // Prev wasn't blitting. Issue a transition from output attachment
            return BarrierEval::Issue(
                Transition {
                    src_access: AccessMask::MemoryWrite,
                    old_layout: ImageLayout::AttachmentOptimal,
                    new_layout,
                },
            );
        }
        // Previous pass didn't reference this attachment, continue.
        BarrierEval::NextPass
    }

    /// Searches back from pass `currenti`, around the frame, for the first
    /// pass that decides the barrier of level `level` of `name`.
    fn find_transition(
        &self,
        currenti: usize,
        name: &String,
        level: u8,
        current_is_blitting: bool,
        is_output: bool,
    ) -> (r: Option<Transition>)
        requires
            currenti < self@.passes.len(),
        ensures
            r == search_back(
                self@.passes,
                currenti as int,
                name@,
                level,
                current_is_blitting,
                is_output,
                1,
            ),
    {
        let len = self.passes.len();
        let ghost passes = self@.passes;
        let mut i = currenti;
        let ghost mut j: int = 0;
        loop
            invariant
                0 <= j < len,
                len == self.passes.len(),
                passes == self@.passes,
                passes.len() == len,
                currenti < len,
                i < len,
                i == prev_index(currenti as int, j, len as int),
                search_back(passes, currenti as int, name@, level, current_is_blitting, is_output, 1)
                    == search_back(
                    passes,
                    currenti as int,
                    name@,
                    level,
                    current_is_blitting,
                    is_output,
                    j + 1,
                ),
            decreases len - j,
        {
            i = if i == 0 {
                len - 1
            } else {
                i - 1
            };
            proof {
                j = j + 1;
            }
            if i == currenti {
                // Looped back to current pass, nothing to check
                return None;
            }
            proof {
                assert(passes[i as int] == self.passes@[i as int]@);
            }
            let ev = Self::eval_barrier_for(
                &self.passes[i],
                name,
                level,
                current_is_blitting,
                is_output,
            );
            match ev {
                BarrierEval::Issue(t) => {
                    return Some(t);
                },
                BarrierEval::AlreadyIssued => {
                    return None;
                },
                BarrierEval::NextPass => {},
            }
        }
    }

    /// The name and level count of each target, in order.
    fn levels_table(targets: &Vec<Target>) -> (r: Vec<(String, u8)>)
        ensures
            pairs_model(r@) == levels_of(targets@),
    {
        let mut levels_by_owner: Vec<(String, u8)> = Vec::new();
        let mut k: usize = 0;
        while k < targets.len()
            invariant
                k <= targets.len(),
                pairs_model(levels_by_owner@) == levels_of(targets@.take(k as int)),
            decreases targets.len() - k,
        {
            let t = &targets[k];
            let ghost old_levels = levels_by_owner@;
            levels_by_owner.push((t.name.clone(), t.level));
            proof {
                assert(targets@.take(k as int + 1) == targets@.take(k as int).push(*t));
                lemma_map_values_push(old_levels, (t.name, t.level), |e: (String, u8)| (e.0@, e.1));
                lemma_map_values_push(targets@.take(k as int), *t, |t: Target| (t.name@, t.level));
            }
            k = k + 1;
        }
        proof {
            assert(targets@.take(k as int) == targets@);
        }
        levels_by_owner
    }

    /// Whether every step reads only targets the pipeline declares and can
    /// resolve the write descriptor of a pass with a depth-stencil
    /// attachment: what `new` needs of its steps.
    pub fn steps_well_formed(targets: &Vec<Target>, passes: &Vec<PipelineStep>) -> (r: bool)
        ensures
            r == forall|i: int|
                0 <= i < passes.len() ==> step_well_formed(#[trigger] passes@[i], levels_of(targets@)),
    {
        let levels = Self::levels_table(targets);
        let ghost lv = levels_of(targets@);
        let mut k: usize = 0;
        while k < passes.len()
            invariant
                k <= passes.len(),
                pairs_model(levels@) == lv,
                lv == levels_of(targets@),
                forall|i: int| 0 <= i < k ==> step_well_formed(#[trigger] passes@[i], lv),
            decreases passes.len() - k,
        {
            match &passes[k] {
                PipelineStep::Render(p) => {
                    let mut j: usize = 0;
                    while j < p.inputs.len()
                        invariant
                            j <= p.inputs.len(),
                            k < passes.len(),
                            passes@[k as int] == PipelineStep::Render(*p),
                            pairs_model(levels@) == lv,
                            lv == levels_of(targets@),
                            forall|i: int|
                                0 <= i < j ==> (#[trigger] owner_levels(lv, p.inputs@[i].name@)).is_some(),
                        decreases p.inputs.len() - j,
                    {
                        if lookup_levels(&levels, &p.inputs[j].name).is_none() {
                            proof {
                                assert(owner_levels(lv, p.inputs@[j as int].name@).is_none());
                                assert(!step_well_formed(passes@[k as int], lv));
                            }
                            return false;
                        }
                        j = j + 1;
                    }
                    if p.depth_stencil.is_some() && !write_resolvable(&p.state.writing) {
                        return false;
                    }
                },
                PipelineStep::Blit(_) => {},
            }
            k = k + 1;
        }
        true
    }

    /// Whether every input is a declared target other than the default
    /// attachment: what `gen_image_barriers_for` needs of its inputs.
    pub fn knows_inputs(&self, inputs: &Vec<Attachment>) -> (r: bool)
        ensures
            r == inputs_known(self@, inputs@),
    {
        let mut k: usize = 0;
        while k < inputs.len()
            invariant
                k <= inputs.len(),
                forall|i: int|
                    0 <= i < k ==> {
                        &&& !(#[trigger] inputs@[i]).is_default_spec()
                        &&& owner_levels(self@.levels, inputs@[i].name@).is_some()
                    },
            decreases inputs.len() - k,
        {
            if inputs[k].is_default() || lookup_levels(&self.levels_by_owner, &inputs[k].name).is_none() {
                return false;
            }
            k = k + 1;
        }
        true
    }

    /// Records what each pass reads and writes, and the levels of each target.
    pub fn new(targets: &Vec<Target>, passes: &Vec<PipelineStep>) -> (r: BarrierGen)
        requires
            forall|i: int|
                0 <= i < passes.len() ==> step_well_formed(#[trigger] passes@[i], levels_of(targets@)),
        ensures
            r@ == (BarrierGenModel {
                passes: passes@.map_values(|s: PipelineStep| pass_model(s, levels_of(targets@))),
                levels: levels_of(targets@),
            }),
    {
        let levels_by_owner = Self::levels_table(targets);
        let ghost lv = levels_of(targets@);
        let mut tmp: Vec<Pass> = Vec::new();
        let mut k: usize = 0;
        while k < passes.len()
            invariant
                k <= passes.len(),
                pairs_model(levels_by_owner@) == lv,
                lv == levels_of(targets@),
                forall|i: int|
                    0 <= i < passes.len() ==> step_well_formed(#[trigger] passes@[i], lv),
                tmp@.map_values(|p: Pass| p@) == passes@.take(k as int).map_values(
                    |s: PipelineStep| pass_model(s, lv),
                ),
            decreases passes.len() - k,
        {
            let pass = Self::pass_of(&passes[k], &levels_by_owner);
            let ghost old_tmp = tmp@;
            let ghost pass_view = pass@;
            tmp.push(pass);
            proof {
                assert(passes@.take(k as int + 1) == passes@.take(k as int).push(passes@[k as int]));
                lemma_map_values_push(old_tmp, tmp@.last(), |p: Pass| p@);
                assert(tmp@ == old_tmp.push(tmp@.last()));
                lemma_map_values_push(
                    passes@.take(k as int),
                    passes@[k as int],
                    |s: PipelineStep| pass_model(s, lv),
                );
            }
            k = k + 1;
        }
        proof {
            assert(passes@.take(k as int) == passes@);
        }
        BarrierGen { passes: tmp, levels_by_owner }
    }

    /// What one pipeline step reads and writes.
    fn pass_of(step: &PipelineStep, levels: &Vec<(String, u8)>) -> (r: Pass)
        requires
            step_well_formed(*step, pairs_model(levels@)),
        ensures
            r@ == pass_model(*step, pairs_model(levels@)),
    {
        let ghost lv = pairs_model(levels@);
        match step {
            PipelineStep::Render(p) => {
                let mut outputs: Vec<Image> = Vec::new();
                let mut i: usize = 0;
                while i < p.outputs.len()
                    invariant
                        i <= p.outputs.len(),
                        outputs@.map_values(|i: Image| i@) == p.outputs@.take(i as int).map_values(
                            |o: String| (o@, 0u8),
                        ),
                    decreases p.outputs.len() - i,
                {
                    let ghost old_outputs = outputs@;
                    outputs.push(Image::of_name(&p.outputs[i], 0));
                    proof {
                        assert(p.outputs@.take(i as int + 1) == p.outputs@.take(i as int).push(
                            p.outputs@[i as int],
                        ));
                        assert(outputs@ == old_outputs.push(outputs@.last()));
                        lemma_map_values_push(old_outputs, outputs@.last(), |i: Image| i@);
                        lemma_map_values_push(
                            p.outputs@.take(i as int),
                            p.outputs@[i as int],
                            |o: String| (o@, 0u8),
                        );
                    }
                    i = i + 1;
                }
                proof {
                    assert(p.outputs@.take(i as int) == p.outputs@);
                }
                let mut inputs: Vec<Image> = Vec::new();
                let mut i: usize = 0;
                while i < p.inputs.len()
                    invariant
                        i <= p.inputs.len(),
                        lv == pairs_model(levels@),
                        step_well_formed(*step, lv),
                        *step == PipelineStep::Render(*p),
                        inputs@.map_values(|i: Image| i@) == render_inputs(p.inputs@.take(i as int), lv),
                    decreases p.inputs.len() - i,
                {
                    let input = &p.inputs[i];
                    proof {
                        assert(owner_levels(lv, p.inputs@[i as int].name@).is_some());
                    }
                    let (start, end) = Self::level_range_for(&input.name, input.level, levels);
                    let ghost range = level_range(owner_levels(lv, input.name@).unwrap(), input.level);
                    let ghost before = inputs@.map_values(|i: Image| i@);
                    let mut lvl = start;
                    while lvl < end
                        invariant
                            start <= lvl <= end,
                            range.len() == end - start,
                            forall|q: int| 0 <= q < range.len() ==> #[trigger] range[q] == start + q,
                            inputs@.map_values(|i: Image| i@) == before + range.take(
                                lvl - start,
                            ).map_values(|l: u8| (input.name@, l)),
                        decreases end - lvl,
                    {
                        let ghost old_inputs = inputs@;
                        inputs.push(Image { name: input.name.clone(), level: lvl });
                        proof {
                            let n = lvl - start;
                            assert(range.take(n + 1) == range.take(n).push(lvl));
                            assert(inputs@ == old_inputs.push(inputs@.last()));
                            lemma_map_values_push(old_inputs, inputs@.last(), |i: Image| i@);
                            lemma_map_values_push(range.take(n), lvl, |l: u8| (input.name@, l));
                            assert(inputs@.map_values(|i: Image| i@) =~= before + range.take(
                                n + 1,
                            ).map_values(|l: u8| (input.name@, l)));
                        }
                        lvl = lvl + 1;
                    }
                    proof {
                        assert(range.take(end - start) == range);
                        assert(p.inputs@.take(i as int + 1).drop_last() == p.inputs@.take(i as int));
                        assert(p.inputs@.take(i as int + 1).last() == p.inputs@[i as int]);
                    }
                    i = i + 1;
                }
                proof {
                    assert(p.inputs@.take(i as int) == p.inputs@);
                }
                // Depth stencil attachment requires some special checks
                match &p.depth_stencil {
                    Some(d) => {
                        let writing = <Pipeline as DescHandler<WriteDesc>>::handle_option(
                            p.state.writing.clone(),
                        );
                        if writing.depth {
                            // Writes depth, interpret it as an output from the pass
                            let ghost o = outputs@.map_values(|i: Image| i@);
                            outputs.push(Image::of_name(d, 0));
                            proof {
                                assert(outputs@.map_values(|i: Image| i@) == o.push((d@, 0u8)));
                            }
                        } else {
                            // Assume it's only depth testing, interpret it as an input,
                            // checking if it isn't already being sampled in the same pass.
                            if !names_image(&inputs, d) {
                                let ghost o = inputs@.map_values(|i: Image| i@);
                                inputs.push(Image::of_name(d, 0));
                                proof {
                                    assert(inputs@.map_values(|i: Image| i@) == o.push((d@, 0u8)));
                                }
                            }
                        }
                    },
                    None => {},
                }
                Pass { name: p.name.clone(), is_blitting: false, inputs, outputs }
            },
            // Blit pass has only one input/output, re-represent as single item vecs
            PipelineStep::Blit(p) => {
                let inputs = vec![Image::of_name(&p.input, 0)];
                let outputs = vec![Image::of_name(&p.output, 0)];
                let r = Pass { name: p.name.clone(), is_blitting: true, inputs, outputs };
                proof {
                    assert(r@.inputs == seq![(p.input@, 0u8)]);
                    assert(r@.outputs == seq![(p.output@, 0u8)]);
                }
                r
            },
        }
    }

    fn input_barrier_for(t: Transition, input: &Attachment, level: u8, current_is_blitting: bool) -> (r:
        ImageBarrier)
        ensures
            r == input_barrier(t, *input, level, current_is_blitting),
    {
        let ds = input.format.has_depth_or_stencil();
        ImageBarrier {
            image: input.image,
            src_access: t.src_access,
            dst_access: AccessMask::MemoryRead,
            old_layout: t.old_layout,
            new_layout: t.new_layout,
            src_stages: if t.old_layout == ImageLayout::TransferSrcOptimal || t.old_layout
                == ImageLayout::TransferDstOptimal {
                STAGE_TRANSFER
            } else if ds {
                STAGE_EARLY_FRAGMENT_TESTS | STAGE_LATE_FRAGMENT_TESTS
            } else {
                STAGE_COLOR_ATTACHMENT_OUTPUT
            },
            dst_stages: if current_is_blitting {
                STAGE_TRANSFER
            } else if ds {
                STAGE_FRAGMENT_SHADER | STAGE_EARLY_FRAGMENT_TESTS | STAGE_LATE_FRAGMENT_TESTS
            } else {
                STAGE_FRAGMENT_SHADER
            },
            range: Attachment::subresource_range_wlevels(input.format.aspect(), level as u32, 1),
        }
    }

    fn output_barrier_for(t: Transition, output: &Attachment, level: u8, current_is_blitting: bool) -> (r:
        ImageBarrier)
        ensures
            r == output_barrier(t, *output, level, current_is_blitting),
    {
        let ds = output.format.has_depth_or_stencil();
        ImageBarrier {
            image: output.image,
            src_access: t.src_access,
            dst_access: AccessMask::MemoryWrite,
            old_layout: t.old_layout,
            new_layout: t.new_layout,
            src_stages: if t.old_layout == ImageLayout::TransferSrcOptimal || t.old_layout
                == ImageLayout::TransferDstOptimal {
                STAGE_TRANSFER
            } else if ds {
                STAGE_FRAGMENT_SHADER | STAGE_EARLY_FRAGMENT_TESTS | STAGE_LATE_FRAGMENT_TESTS
            } else {
                STAGE_FRAGMENT_SHADER
            },
            dst_stages: if current_is_blitting {
                STAGE_TRANSFER
            } else if ds {
                STAGE_EARLY_FRAGMENT_TESTS | STAGE_LATE_FRAGMENT_TESTS
            } else {
                STAGE_COLOR_ATTACHMENT_OUTPUT
            },
            range: Attachment::subresource_range_wlevels(output.format.aspect(), level as u32, 1),
        }
    }

    /// The barriers pass `currenti` needs before it reads `inputs` and writes
    /// `outputs`: for each level of each input, then for each output other
    /// than the swapchain image, the transition that the last pass before it
    /// (going back around the frame) to use that level calls for, unless a
    /// barrier of the same kind was already issued.
    pub fn gen_image_barriers_for(
        &self,
        currenti: usize,
        inputs: &Vec<Attachment>,
        outputs: &Vec<Attachment>,
    ) -> (r: Vec<ImageBarrier>)
        requires
            currenti < self@.passes.len(),
            inputs_known(self@, inputs@),
        ensures
            r@ == input_barriers(self@, currenti as int, inputs@) + output_barriers(
                self@,
                currenti as int,
                outputs@,
            ),
    {
        let ghost g = self@;
        let mut barriers: Vec<ImageBarrier> = Vec::new();
        let curr_is_blitting = self.passes[currenti].is_blitting;
        proof {
            assert(g.passes[currenti as int] == self.passes@[currenti as int]@);
        }
        let mut k: usize = 0;
        while k < inputs.len()
            invariant
                k <= inputs.len(),
                g == self@,
                currenti < g.passes.len(),
                curr_is_blitting == g.passes[currenti as int].is_blitting,
                inputs_known(g, inputs@),
                barriers@ == input_barriers(g, currenti as int, inputs@.take(k as int)),
            decreases inputs.len() - k,
        {
            let input = &inputs[k];
            proof {
                assert(inputs_known(g, inputs@) ==> owner_levels(g.levels, inputs@[k as int].name@).is_some());
            }
            let (start, end) = Self::level_range_for(
                &input.name,
                input.level_usage,
                &self.levels_by_owner,
            );
            let ghost range = level_range(owner_levels(g.levels, input.name@).unwrap(), input.level_usage);
            let ghost before = barriers@;
            // One barrier per mip map level if the input reads several of them
            let mut lvl = start;
            while lvl < end
                invariant
                    start <= lvl <= end,
                    range.len() == end - start,
                    forall|q: int| 0 <= q < range.len() ==> #[trigger] range[q] == start + q,
                    g == self@,
                    currenti < g.passes.len(),
                    curr_is_blitting == g.passes[currenti as int].is_blitting,
                    barriers@ == before + level_barriers(
                        g,
                        currenti as int,
                        *input,
                        range.take(lvl - start),
                    ),
                decreases end - lvl,
            {
                let found = self.find_transition(
                    currenti,
                    &input.name,
                    lvl,
                    curr_is_blitting,
                    false,
                );
                proof {
                    let n = lvl - start;
                    assert(range.take(n + 1).drop_last() == range.take(n));
                    assert(range.take(n + 1).last() == lvl);
                }
                match found {
                    Some(t) => {
                        // Image was written to before, barrier for reading
                        let b = Self::input_barrier_for(t, input, lvl, curr_is_blitting);
                        barriers.push(b);
                        proof {
                            let n = lvl - start;
                            assert(barriers@ == before + level_barriers(
                                g,
                                currenti as int,
                                *input,
                                range.take(n + 1),
                            ));
                        }
                    },
                    None => {},
                }
                lvl = lvl + 1;
            }
            proof {
                assert(range.take(end - start) == range);
                assert(inputs@.take(k as int + 1).drop_last() == inputs@.take(k as int));
                assert(inputs@.take(k as int + 1).last() == inputs@[k as int]);
            }
            k = k + 1;
        }
        proof {
            assert(inputs@.take(inputs.len() as int) == inputs@);
        }
        let ghost input_part = barriers@;
        let mut k: usize = 0;
        while k < outputs.len()
            invariant
                k <= outputs.len(),
                g == self@,
                currenti < g.passes.len(),
                curr_is_blitting == g.passes[currenti as int].is_blitting,
                barriers@ == input_part + output_barriers(g, currenti as int, outputs@.take(k as int)),
            decreases outputs.len() - k,
        {
            let output = &outputs[k];
            proof {
                assert(outputs@.take(k as int + 1).drop_last() == outputs@.take(k as int));
                assert(outputs@.take(k as int + 1).last() == outputs@[k as int]);
            }
            // The swapchain image changes every frame: its barriers are
            // issued where it is rendered.
            if !output.is_default() {
                let found = self.find_transition(
                    currenti,
                    &output.name,
                    output.level_usage,
                    curr_is_blitting,
                    true,
                );
                match found {
                    Some(t) => {
                        let b = Self::output_barrier_for(
                            t,
                            output,
                            output.level_usage,
                            curr_is_blitting,
                        );
                        barriers.push(b);
                    },
                    None => {},
                }
            }
            k = k + 1;
        }
        proof {
            assert(outputs@.take(outputs.len() as int) == outputs@);
        }
        barriers
    }
}

/// What every barrier for a pass that is blitting or not, and reads or writes,
/// looks like: it moves the image out of another layout into the one the
/// pass needs, makes the access the pass does wait, and covers one mip level.
pub open spec fn barrier_fits(b: ImageBarrier, current_is_blitting: bool, is_output: bool) -> bool {
    &&& b.new_layout == new_layout_for(current_is_blitting, is_output)
    &&& b.old_layout != b.new_layout
    &&& b.dst_access == (if is_output {
        AccessMask::MemoryWrite
    } else {
        AccessMask::MemoryRead
    })
    &&& b.range.level_count == 1
}

/// A transition the search finds moves out of another layout into the one
/// the current pass needs.
proof fn lemma_search_back_fits(
    passes: Seq<PassModel>,
    curr: int,
    name: Seq<char>,
    level: u8,
    current_is_blitting: bool,
    is_output: bool,
    j: int,
)
    ensures
        search_back(passes, curr, name, level, current_is_blitting, is_output, j) matches Some(t)
            ==> t.new_layout == new_layout_for(current_is_blitting, is_output) && t.old_layout
            != t.new_layout,
    decreases passes.len() - j,
{
    if 1 <= j < passes.len() {
        lemma_search_back_fits(passes, curr, name, level, current_is_blitting, is_output, j + 1);
    }
}

proof fn lemma_level_barriers_fit(g: BarrierGenModel, curr: int, att: Attachment, levels: Seq<u8>)
    ensures
        forall|k: int|
            0 <= k < level_barriers(g, curr, att, levels).len() ==> barrier_fits(
                #[trigger] level_barriers(g, curr, att, levels)[k],
                g.passes[curr].is_blitting,
                false,
            ),
    decreases levels.len(),
{
    if levels.len() > 0 {
        let blit = g.passes[curr].is_blitting;
        let rest = level_barriers(g, curr, att, levels.drop_last());
        lemma_level_barriers_fit(g, curr, att, levels.drop_last());
        lemma_search_back_fits(g.passes, curr, att.name@, levels.last(), blit, false, 1);
        let all = level_barriers(g, curr, att, levels);
        assert forall|k: int| 0 <= k < all.len() implies barrier_fits(#[trigger] all[k], blit, false) by {
            if k < rest.len() {
                assert(all[k] == rest[k]);
            }
        }
    }
}

proof fn lemma_input_barriers_fit(g: BarrierGenModel, curr: int, atts: Seq<Attachment>)
    ensures
        forall|k: int|
            0 <= k < input_barriers(g, curr, atts).len() ==> barrier_fits(
                #[trigger] input_barriers(g, curr, atts)[k],
                g.passes[curr].is_blitting,
                false,
            ),
    decreases atts.len(),
{
    if atts.len() > 0 {
        let att = atts.last();
        let levels = level_range(owner_levels(g.levels, att.name@).unwrap(), att.level_usage);
        lemma_input_barriers_fit(g, curr, atts.drop_last());
        lemma_level_barriers_fit(g, curr, att, levels);
        let a = input_barriers(g, curr, atts.drop_last());
        let b = level_barriers(g, curr, att, levels);
        assert forall|k: int| 0 <= k < (a + b).len() implies barrier_fits(
            #[trigger] (a + b)[k],
            g.passes[curr].is_blitting,
            false,
        ) by {
            if k < a.len() {
                assert((a + b)[k] == a[k]);
            } else {
                assert((a + b)[k] == b[k - a.len()]);
            }
        }
    }
}

proof fn lemma_output_barriers_fit(g: BarrierGenModel, curr: int, atts: Seq<Attachment>)
    ensures
        forall|k: int|
            0 <= k < output_barriers(g, curr, atts).len() ==> barrier_fits(
                #[trigger] output_barriers(g, curr, atts)[k],
                g.passes[curr].is_blitting,
                true,
            ),
    decreases atts.len(),
{
    if atts.len() > 0 {
        let att = atts.last();
        let blit = g.passes[curr].is_blitting;
        let rest = output_barriers(g, curr, atts.drop_last());
        lemma_output_barriers_fit(g, curr, atts.drop_last());
        lemma_search_back_fits(g.passes, curr, att.name@, att.level_usage, blit, true, 1);
        let all = output_barriers(g, curr, atts);
        assert forall|k: int| 0 <= k < all.len() implies barrier_fits(#[trigger] all[k], blit, true) by {
            if k < rest.len() {
                assert(all[k] == rest[k]);
            }
        }
    }
}

/// Every barrier that `gen_image_barriers_for` makes for a pass is needed and
/// fits the pass: it moves one mip level out of another layout into the
/// layout the pass needs (read-only or transfer source for what it reads,
/// attachment or transfer destination for what it writes) and waits for
/// the access the pass does.
pub proof fn lemma_barriers_fit_pass(
    g: BarrierGen,
    currenti: int,
    inputs: Seq<Attachment>,
    outputs: Seq<Attachment>,
)
    requires
        0 <= currenti < g@.passes.len(),
    ensures
        forall|k: int|
            0 <= k < input_barriers(g@, currenti, inputs).len() ==> barrier_fits(
                #[trigger] input_barriers(g@, currenti, inputs)[k],
                g@.passes[currenti].is_blitting,
                false,
            ),
        forall|k: int|
            0 <= k < output_barriers(g@, currenti, outputs).len() ==> barrier_fits(
                #[trigger] output_barriers(g@, currenti, outputs)[k],
                g@.passes[currenti].is_blitting,
                true,
            ),
{
    lemma_input_barriers_fit(g@, currenti, inputs);
    lemma_output_barriers_fit(g@, currenti, outputs);
}

proof fn lemma_level_barriers_single(g: BarrierGenModel, att: Attachment, levels: Seq<u8>)
    requires
        g.passes.len() == 1,
    ensures
        level_barriers(g, 0, att, levels) == Seq::<ImageBarrier>::empty(),
    decreases levels.len(),
{
    if levels.len() > 0 {
        lemma_level_barriers_single(g, att, levels.drop_last());
    }
}

proof fn lemma_input_barriers_single(g: BarrierGenModel, atts: Seq<Attachment>)
    requires
        g.passes.len() == 1,
    ensures
        input_barriers(g, 0, atts) == Seq::<ImageBarrier>::empty(),
    decreases atts.len(),
{
    if atts.len() > 0 {
        let att = atts.last();
        lemma_input_barriers_single(g, atts.drop_last());
        lemma_level_barriers_single(
            g,
            att,
            level_range(owner_levels(g.levels, att.name@).unwrap(), att.level_usage),
        );
        assert(Seq::<ImageBarrier>::empty() + Seq::<ImageBarrier>::empty() =~= Seq::<
            ImageBarrier,
        >::empty());
    }
}

proof fn lemma_output_barriers_single(g: BarrierGenModel, atts: Seq<Attachment>)
    requires
        g.passes.len() == 1,
    ensures
        output_barriers(g, 0, atts) == Seq::<ImageBarrier>::empty(),
    decreases atts.len(),
{
    if atts.len() > 0 {
        lemma_output_barriers_single(g, atts.drop_last());
    }
}

/// A pipeline of a single pass needs no barriers: searching back from the
/// pass loops around to the pass itself.
pub proof fn lemma_single_pass_needs_no_barriers(
    g: BarrierGen,
    inputs: Seq<Attachment>,
    outputs: Seq<Attachment>,
)
    requires
        g@.passes.len() == 1,
    ensures
        input_barriers(g@, 0, inputs) + output_barriers(g@, 0, outputs) == Seq::<
            ImageBarrier,
        >::empty(),
{
    lemma_input_barriers_single(g@, inputs);
    lemma_output_barriers_single(g@, outputs);
    assert(Seq::<ImageBarrier>::empty() + Seq::<ImageBarrier>::empty() =~= Seq::<
        ImageBarrier,
    >::empty());
}

/// Whether a pass reads or writes level `level` of `name`.
pub open spec fn uses_image(p: PassModel, name: Seq<char>, level: u8) -> bool {
    has_image(p.inputs, name, level) || has_image(p.outputs, name, level)
}

/// Passes that do not use the image are skipped by the search back.
proof fn lemma_search_back_skips(
    passes: Seq<PassModel>,
    curr: int,
    name: Seq<char>,
    level: u8,
    current_is_blitting: bool,
    is_output: bool,
    k: int,
    j: int,
)
    requires
        1 <= k <= j <= passes.len(),
        forall|i: int|
            k <= i < j ==> !uses_image(
                #[trigger] passes[prev_index(curr, i, passes.len() as int)],
                name,
                level,
            ),
    ensures
        search_back(passes, curr, name, level, current_is_blitting, is_output, k) == search_back(
            passes,
            curr,
            name,
            level,
            current_is_blitting,
            is_output,
            j,
        ),
    decreases j - k,
{
    if k < j {
        assert(!uses_image(passes[prev_index(curr, k, passes.len() as int)], name, level));
        lemma_search_back_skips(passes, curr, name, level, current_is_blitting, is_output, k + 1, j);
    }
}

/// The barrier a pass needs before using an image is decided by the nearest
/// earlier pass, going back around the frame, that uses it. A read after a
/// read by the same kind of pass (render or blit) and a write after a write
/// by the same kind need none; otherwise the image goes from the layout that
/// earlier pass left it in (transfer source or read-only after a read,
/// transfer destination or attachment after a write) into the one the
/// current pass needs (transfer source or destination for a blit, read-only
/// or attachment for a render pass), after that pass's reads or writes.
pub proof fn lemma_nearest_use_decides(
    passes: Seq<PassModel>,
    curr: int,
    name: Seq<char>,
    level: u8,
    current_is_blitting: bool,
    is_output: bool,
    j: int,
)
    requires
        0 <= curr < passes.len(),
        1 <= j < passes.len(),
        forall|i: int|
            1 <= i < j ==> !uses_image(
                #[trigger] passes[prev_index(curr, i, passes.len() as int)],
                name,
                level,
            ),
        uses_image(passes[prev_index(curr, j, passes.len() as int)], name, level),
    ensures
        ({
            let p = passes[prev_index(curr, j, passes.len() as int)];
            let r = search_back(passes, curr, name, level, current_is_blitting, is_output, 1);
            let need = if current_is_blitting {
                if is_output {
                    ImageLayout::TransferDstOptimal
                } else {
                    ImageLayout::TransferSrcOptimal
                }
            } else {
                if is_output {
                    ImageLayout::AttachmentOptimal
                } else {
                    ImageLayout::ReadOnlyOptimal
                }
            };
            &&& has_image(p.inputs, name, level) ==> r == (if !is_output && p.is_blitting
                == current_is_blitting {
                None
            } else {
                Some(
                    Transition {
                        src_access: AccessMask::MemoryRead,
                        old_layout: if p.is_blitting {
                            ImageLayout::TransferSrcOptimal
                        } else {
                            ImageLayout::ReadOnlyOptimal
                        },
                        new_layout: need,
                    },
                )
            })
            &&& !has_image(p.inputs, name, level) ==> r == (if is_output && p.is_blitting
                == current_is_blitting {
                None
            } else {
                Some(
                    Transition {
                        src_access: AccessMask::MemoryWrite,
                        old_layout: if p.is_blitting {
                            ImageLayout::TransferDstOptimal
                        } else {
                            ImageLayout::AttachmentOptimal
                        },
                        new_layout: need,
                    },
                )
            })
        }),
{
    lemma_search_back_skips(passes, curr, name, level, current_is_blitting, is_output, 1, j);
}

/// No barrier is needed for an image that no other pass uses.
pub proof fn lemma_unused_image_needs_none(
    passes: Seq<PassModel>,
    curr: int,
    name: Seq<char>,
    level: u8,
    current_is_blitting: bool,
    is_output: bool,
)
    requires
        forall|i: int|
            1 <= i < passes.len() ==> !uses_image(
                #[trigger] passes[prev_index(curr, i, passes.len() as int)],
                name,
                level,
            ),
    ensures
        search_back(passes, curr, name, level, current_is_blitting, is_output, 1) is None,
{
    if passes.len() >= 1 {
        lemma_search_back_skips(
            passes,
            curr,
            name,
            level,
            current_is_blitting,
            is_output,
            1,
            passes.len() as int,
        );
    }
}

} // verus!
