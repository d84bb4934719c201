use vstd::prelude::*;

use super::barrier_gen::{levels_of, step_well_formed, BarrierGen};
use super::attachment::Attachment;
use super::file::{
    check_state, resolvable, resolved, state_resolvable, AttachmentInput, DescOption,
    OptionPredefined, Pipeline, PipelineStep, Predefined, Sampler, Target,
};
use super::sampler::{supported_anisotropy, SamplerKey};
use crate::renderer::MAX_SAMPLERS;

verus! {

/// Whether the pipeline builds a stage for step `s`.
pub open spec fn step_enabled(s: PipelineStep) -> bool {
    match s {
        PipelineStep::Render(p) => !p.is_disabled,
        PipelineStep::Blit(p) => !p.is_disabled,
    }
}

/// The indices of the steps the pipeline builds stages for, in order; stage
/// `i` of the pipeline is step `enabled_steps(passes)[i]`.
pub open spec fn enabled_steps(passes: Seq<PipelineStep>) -> Seq<int>
    decreases passes.len(),
{
    if passes.len() == 0 {
        Seq::empty()
    } else if step_enabled(passes.last()) {
        enabled_steps(passes.drop_last()).push(passes.len() - 1)
    } else {
        enabled_steps(passes.drop_last())
    }
}

/// The key of a sampler description.
pub open spec fn key_of(s: Sampler) -> SamplerKey {
    SamplerKey {
        filter: s.filter,
        wrap_mode: s.wrap_mode,
        compare_func: s.compare_func,
        anisotropy: s.anisotropy,
    }
}

/// The sampler key an attachment input is read with.
pub open spec fn input_key(i: AttachmentInput) -> SamplerKey {
    key_of(resolved::<Sampler, Pipeline>(i.sampler))
}

/// The attachment inputs a step reads when the pipeline builds it: those of
/// an enabled render pass, none otherwise.
pub open spec fn built_inputs(s: PipelineStep) -> Seq<AttachmentInput> {
    match s {
        PipelineStep::Render(p) => if p.is_disabled {
            Seq::empty()
        } else {
            p.inputs@
        },
        PipelineStep::Blit(_) => Seq::empty(),
    }
}

/// The sampler keys of the inputs of the built render passes, pass by pass
/// and input by input.
pub open spec fn input_keys(passes: Seq<PipelineStep>) -> Seq<SamplerKey>
    decreases passes.len(),
{
    if passes.len() == 0 {
        Seq::empty()
    } else {
        input_keys(passes.drop_last()) + built_inputs(passes.last()).map_values(
            |i: AttachmentInput| input_key(i),
        )
    }
}

/// The keys of `ks`, each once, in the order they first appear; the position
/// of a sampler is the index of its key here.
pub open spec fn first_seen_keys(ks: Seq<SamplerKey>) -> Seq<SamplerKey>
    decreases ks.len(),
{
    if ks.len() == 0 {
        Seq::empty()
    } else if first_seen_keys(ks.drop_last()).contains(ks.last()) {
        first_seen_keys(ks.drop_last())
    } else {
        first_seen_keys(ks.drop_last()).push(ks.last())
    }
}

/// An input can be sampled: its sampler description resolves, to a
/// supported anisotropy level.
pub open spec fn input_samplable(i: AttachmentInput) -> bool {
    &&& resolvable::<Sampler, Pipeline>(i.sampler)
    &&& supported_anisotropy(input_key(i).anisotropy)
}

/// Whether the state descriptors of a step resolve, when the pipeline
/// builds it as a render pass.
pub open spec fn built_state_ok(s: PipelineStep) -> bool {
    match s {
        PipelineStep::Render(p) => p.is_disabled || state_resolvable(p.state),
        PipelineStep::Blit(_) => true,
    }
}

/// Whether the pipeline description can be built: every step reads only
/// declared targets and resolves its write descriptor when it has a
/// depth-stencil attachment, every built render pass resolves its state
/// descriptors, every input of a built render pass can be sampled, and the
/// distinct samplers fit the sampler descriptors.
pub open spec fn plan_ok(pip: Pipeline) -> bool {
    &&& forall|i: int|
        0 <= i < pip.passes.len() ==> step_well_formed(
            #[trigger] pip.passes@[i],
            levels_of(pip.targets@),
        )
    &&& forall|i: int| 0 <= i < pip.passes.len() ==> built_state_ok(#[trigger] pip.passes@[i])
    &&& forall|i: int, j: int|
        0 <= i < pip.passes.len() && 0 <= j < built_inputs(pip.passes@[i]).len() ==> input_samplable(
            #[trigger] built_inputs(pip.passes@[i])[j],
        )
    &&& first_seen_keys(input_keys(pip.passes@)).len() <= MAX_SAMPLERS
}

/// The slot of `owners` whose target is named `n`, from `j` on, or
/// `owners.len()` when none is.
pub open spec fn slot_named(names: Seq<Seq<char>>, owners: Seq<int>, n: Seq<char>, j: int) -> int
    decreases owners.len() - j,
{
    if j < 0 || j >= owners.len() {
        owners.len() as int
    } else if names[owners[j]] == n {
        j
    } else {
        slot_named(names, owners, n, j + 1)
    }
}

/// The targets the pipeline makes attachments of, by index into `names`:
/// one per name other than the default attachment's, in the order names
/// first appear, each made from the last target of that name.
pub open spec fn attachment_owners(names: Seq<Seq<char>>) -> Seq<int>
    decreases names.len(),
{
    if names.len() == 0 {
        Seq::empty()
    } else {
        let rest = attachment_owners(names.drop_last());
        let n = names.last();
        let j = slot_named(names, rest, n, 0);
        if n == Attachment::DEFAULT_NAME@ {
            rest
        } else if j < rest.len() {
            rest.update(j, names.len() - 1)
        } else {
            rest.push(names.len() - 1)
        }
    }
}

/// `slot_named` finds no slot when no slot's target is named `n`.
proof fn lemma_slot_named_none(names: Seq<Seq<char>>, owners: Seq<int>, n: Seq<char>, j: int)
    requires
        0 <= j <= owners.len(),
        forall|i: int| 0 <= i < owners.len() ==> names[#[trigger] owners[i]] != n,
    ensures
        slot_named(names, owners, n, j) == owners.len(),
    decreases owners.len() - j,
{
    if j < owners.len() {
        lemma_slot_named_none(names, owners, n, j + 1);
    }
}

/// When the targets have distinct names and none is the default
/// attachment's, the pipeline makes one attachment of each target, in order.
pub proof fn lemma_one_attachment_per_target(names: Seq<Seq<char>>)
    requires
        forall|i: int, j: int| 0 <= i < j < names.len() ==> #[trigger] names[i] != #[trigger] names[j],
        forall|i: int| 0 <= i < names.len() ==> #[trigger] names[i] != Attachment::DEFAULT_NAME@,
    ensures
        attachment_owners(names) == Seq::new(names.len(), |i: int| i),
    decreases names.len(),
{
    if names.len() > 0 {
        let d = names.drop_last();
        assert forall|i: int, j: int| 0 <= i < j < d.len() implies #[trigger] d[i] != #[trigger] d[j] by {
            assert(d[i] == names[i] && d[j] == names[j]);
        }
        assert forall|i: int| 0 <= i < d.len() implies #[trigger] d[i] != Attachment::DEFAULT_NAME@ by {
            assert(d[i] == names[i]);
        }
        lemma_one_attachment_per_target(d);
        let rest = attachment_owners(d);
        assert(names.last() == names[names.len() - 1]);
        assert forall|i: int| 0 <= i < rest.len() implies names[#[trigger] rest[i]] != names.last() by {
            assert(rest[i] == i);
        }
        lemma_slot_named_none(names, rest, names.last(), 0);
        assert(rest.push(names.len() - 1) =~= Seq::new(names.len(), |i: int| i));
    }
}

/// The names of the targets.
pub open spec fn target_names(targets: Seq<Target>) -> Seq<Seq<char>> {
    targets.map_values(|t: Target| t.name@)
}

/// What building a pipeline description takes: the steps that become stages,
/// in order, the sampler keys in the order of their positions, and the
/// targets made into attachments, besides the default attachment.
pub struct PipelinePlan {
    pub stages: Vec<usize>,
    pub sampler_keys: Vec<SamplerKey>,
    pub attachment_targets: Vec<usize>,
}

/// The indices of the enabled steps.
fn enabled_step_indices(passes: &Vec<PipelineStep>) -> (r: Vec<usize>)
    ensures
        r@.map_values(|i: usize| i as int) == enabled_steps(passes@),
{
    let mut r: Vec<usize> = Vec::new();
    let mut k: usize = 0;
    while k < passes.len()
        invariant
            k <= passes.len(),
            r@.map_values(|i: usize| i as int) == enabled_steps(passes@.take(k as int)),
        decreases passes.len() - k,
    {
        let ghost before = r@;
        proof {
            assert(passes@.take(k as int + 1).drop_last() == passes@.take(k as int));
            assert(passes@.take(k as int + 1).last() == passes@[k as int]);
        }
        if !passes[k].is_disabled() {
            r.push(k);
            proof {
                assert(r@.map_values(|i: usize| i as int) =~= before.map_values(|i: usize| i as int).push(
                    k as int,
                ));
            }
        }
        k = k + 1;
    }
    proof {
        assert(passes@.take(k as int) == passes@);
    }
    r
}

/// The sampler key of an input, when it can be sampled.
fn input_key_of(input: &AttachmentInput) -> (r: Option<SamplerKey>)
    ensures
        r is Some <==> input_samplable(*input),
        r matches Some(k) ==> k == input_key(*input),
{
    let sampler = match &input.sampler {
        DescOption::Predefined(p) => match p {
            OptionPredefined::Default => Sampler::of_predefined(OptionPredefined::Default),
            _ => {
                return None;
            },
        },
        DescOption::Specific(_) => {
            return None;
        },
        DescOption::Configured(v) => *v,
    };
    let a = sampler.anisotropy;
    if a == 1 || a == 4 || a == 8 || a == 16 {
        Some(
            SamplerKey {
                filter: sampler.filter,
                wrap_mode: sampler.wrap_mode,
                compare_func: sampler.compare_func,
                anisotropy: sampler.anisotropy,
            },
        )
    } else {
        None
    }
}

/// Adds `key` to `keys` unless it is there.
fn add_key(keys: &mut Vec<SamplerKey>, key: SamplerKey)
    ensures
        final(keys)@ == (if old(keys)@.contains(key) {
            old(keys)@
        } else {
            old(keys)@.push(key)
        }),
{
    let mut i: usize = 0;
    while i < keys.len()
        invariant
            i <= keys.len(),
            keys@ == old(keys)@,
            forall|j: int| 0 <= j < i ==> keys@[j] != key,
        decreases keys.len() - i,
    {
        if keys[i] == key {
            proof {
                assert(keys@[i as int] == key);
            }
            return ;
        }
        i = i + 1;
    }
    keys.push(key);
}

/// The targets to make attachments of: one per name other than the default
/// attachment's, in the order names first appear, the last target of each.
fn attachment_owner_indices(targets: &Vec<Target>) -> (r: Vec<usize>)
    ensures
        r@.map_values(|i: usize| i as int) == attachment_owners(target_names(targets@)),
{
    let ghost names = target_names(targets@);
    let mut r: Vec<usize> = Vec::new();
    let mut k: usize = 0;
    while k < targets.len()
        invariant
            k <= targets.len(),
            names == target_names(targets@),
            r@.map_values(|i: usize| i as int) == attachment_owners(names.take(k as int)),
            forall|i: int| 0 <= i < r.len() ==> #[trigger] r@[i] < k,
        decreases targets.len() - k,
    {
        let ghost nk = names.take(k as int + 1);
        let ghost rest = r@.map_values(|i: usize| i as int);
        proof {
            assert(nk.drop_last() == names.take(k as int));
            assert(nk.last() == targets@[k as int].name@);
        }
        let name = &targets[k].name;
        if *name == Attachment::DEFAULT_NAME.to_owned() {
            proof {
                assert(nk.last() == Attachment::DEFAULT_NAME@);
            }
        } else {
            let mut j: usize = 0;
            let mut found = false;
            while !found && j < r.len()
                invariant
                    j <= r.len(),
                    k < targets.len(),
                    names == target_names(targets@),
                    nk == names.take(k as int + 1),
                    rest == r@.map_values(|i: usize| i as int),
                    forall|i: int| 0 <= i < r.len() ==> #[trigger] r@[i] < k,
                    *name == targets@[k as int].name,
                    slot_named(nk, rest, nk.last(), 0) == slot_named(nk, rest, nk.last(), j as int),
                    found ==> j < r.len() && nk[rest[j as int]] == nk.last(),
                decreases r.len() - j + (if found { 0int } else { 1int }),
            {
                proof {
                    assert(rest[j as int] == r@[j as int] as int);
                    assert(nk[rest[j as int]] == targets@[r@[j as int] as int].name@);
                    assert(nk.last() == targets@[k as int].name@);
                }
                if targets[r[j]].name == *name {
                    found = true;
                } else {
                    j = j + 1;
                }
            }
            if found {
                proof {
                    assert(slot_named(nk, rest, nk.last(), j as int) == j);
                }
                r.set(j, k);
                proof {
                    assert(r@.map_values(|i: usize| i as int) =~= rest.update(j as int, k as int));
                }
            } else {
                r.push(k);
                proof {
                    assert(r@.map_values(|i: usize| i as int) =~= rest.push(k as int));
                }
            }
        }
        k = k + 1;
    }
    proof {
        assert(names.take(k as int) == names);
    }
    r
}

/// The plan of a pipeline description: `None` exactly when it cannot be
/// built; else the steps that become stages, in order, and the sampler keys
/// in the order the inputs of the built render passes first read them.
pub fn plan_pipeline(pip: &Pipeline) -> (r: Option<PipelinePlan>)
    ensures
        r is Some <==> plan_ok(*pip),
        r matches Some(p) ==> {
            &&& p.stages@.map_values(|i: usize| i as int) == enabled_steps(pip.passes@)
            &&& p.sampler_keys@ == first_seen_keys(input_keys(pip.passes@))
            &&& p.attachment_targets@.map_values(|i: usize| i as int) == attachment_owners(
                target_names(pip.targets@),
            )
        },
{
    if !BarrierGen::steps_well_formed(&pip.targets, &pip.passes) {
        return None;
    }
    let mut q: usize = 0;
    while q < pip.passes.len()
        invariant
            q <= pip.passes.len(),
            forall|i: int| 0 <= i < q ==> built_state_ok(#[trigger] pip.passes@[i]),
        decreases pip.passes.len() - q,
    {
        match &pip.passes[q] {
            PipelineStep::Render(p) => {
                if !p.is_disabled && !check_state(&p.state) {
                    proof {
                        assert(!built_state_ok(pip.passes@[q as int]));
                    }
                    return None;
                }
            },
            PipelineStep::Blit(_) => {},
        }
        q = q + 1;
    }
    let passes = &pip.passes;
    let mut keys: Vec<SamplerKey> = Vec::new();
    let mut k: usize = 0;
    while k < passes.len()
        invariant
            k <= passes.len(),
            passes@ == pip.passes@,
            keys@ == first_seen_keys(input_keys(passes@.take(k as int))),
            forall|i: int, j: int|
                0 <= i < k && 0 <= j < built_inputs(passes@[i]).len() ==> input_samplable(
                    #[trigger] built_inputs(passes@[i])[j],
                ),
        decreases passes.len() - k,
    {
        let ghost before = input_keys(passes@.take(k as int));
        proof {
            assert(passes@.take(k as int + 1).drop_last() == passes@.take(k as int));
            assert(passes@.take(k as int + 1).last() == passes@[k as int]);
        }
        match &passes[k] {
            PipelineStep::Render(p) => {
                if !p.is_disabled {
                    let mut j: usize = 0;
                    proof {
                        assert(before + p.inputs@.take(0).map_values(|i: AttachmentInput| input_key(i))
                            =~= before);
                    }
                    while j < p.inputs.len()
                        invariant
                            j <= p.inputs.len(),
                            k < passes.len(),
                            passes@ == pip.passes@,
                            passes@[k as int] == PipelineStep::Render(*p),
                            !p.is_disabled,
                            before == input_keys(passes@.take(k as int)),
                            keys@ == first_seen_keys(
                                before + p.inputs@.take(j as int).map_values(
                                    |i: AttachmentInput| input_key(i),
                                ),
                            ),
                            forall|jj: int| 0 <= jj < j ==> input_samplable(#[trigger] p.inputs@[jj]),
                            forall|i: int, jj: int|
                                0 <= i < k && 0 <= jj < built_inputs(passes@[i]).len()
                                    ==> input_samplable(#[trigger] built_inputs(passes@[i])[jj]),
                        decreases p.inputs.len() - j,
                    {
                        match input_key_of(&p.inputs[j]) {
                            None => {
                                proof {
                                    assert(built_inputs(passes@[k as int]) == p.inputs@);
                                    assert(!input_samplable(built_inputs(passes@[k as int])[j as int]));
                                    assert(0 <= j < built_inputs(pip.passes@[k as int]).len());
                                    assert(!plan_ok(*pip));
                                }
                                return None;
                            },
                            Some(key) => {
                                let ghost s0 = before + p.inputs@.take(j as int).map_values(
                                    |i: AttachmentInput| input_key(i),
                                );
                                proof {
                                    let s1 = before + p.inputs@.take(j as int + 1).map_values(
                                        |i: AttachmentInput| input_key(i),
                                    );
                                    assert(s1 =~= s0.push(key));
                                    assert(s1.drop_last() == s0);
                                }
                                add_key(&mut keys, key);
                            },
                        }
                        j = j + 1;
                    }
                    proof {
                        assert(p.inputs@.take(j as int) == p.inputs@);
                        assert(built_inputs(passes@[k as int]) == p.inputs@);
                    }
                } else {
                    proof {
                        assert(built_inputs(passes@[k as int]) == Seq::<AttachmentInput>::empty());
                        assert(before + Seq::<AttachmentInput>::empty().map_values(
                            |i: AttachmentInput| input_key(i),
                        ) =~= before);
                    }
                }
            },
            PipelineStep::Blit(_) => {
                proof {
                    assert(built_inputs(passes@[k as int]) == Seq::<AttachmentInput>::empty());
                    assert(before + Seq::<AttachmentInput>::empty().map_values(
                        |i: AttachmentInput| input_key(i),
                    ) =~= before);
                }
            },
        }
        k = k + 1;
    }
    proof {
        assert(passes@.take(k as int) == passes@);
    }
    if keys.len() as u64 > MAX_SAMPLERS as u64 {
        return None;
    }
    Some(
        PipelinePlan {
            stages: enabled_step_indices(passes),
            sampler_keys: keys,
            attachment_targets: attachment_owner_indices(&pip.targets),
        },
    )
}

} // verus!
