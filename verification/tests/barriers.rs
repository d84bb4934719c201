use rend_vk::format::Format;
use rend_vk::image::{
    AccessMask, Extent2D, ImageAspect, ImageBarrier, ImageLayout, SubresourceRange,
    STAGE_ALL_COMMANDS, STAGE_COLOR_ATTACHMENT_OUTPUT, STAGE_EARLY_FRAGMENT_TESTS,
    STAGE_FRAGMENT_SHADER, STAGE_LATE_FRAGMENT_TESTS, STAGE_TRANSFER,
};
use rend_vk::pipeline::attachment::Attachment;
use rend_vk::pipeline::barrier_gen::BarrierGen;
use rend_vk::pipeline::file::{
    check_state, clear_resolvable, write_resolvable, AttachmentInput, BlitPass, BlitRect, CompareFunc, DescOption, Filtering,
    OptionPredefined, Pipeline, PipelineStep, RenderPass, Sampler, State, Target, U32OrF32,
    WrapMode,
};
use rend_vk::pipeline::plan::plan_pipeline;
use rend_vk::pipeline::sampler::SamplerKey;
use rend_vk::pipeline::gen_initial_barriers;
use rend_vk::render_task::TaskKind;

fn target(name: &str, format: Format, level: u8) -> Target {
    Target {
        name: name.to_string(),
        format,
        width: U32OrF32::U32(64),
        height: U32OrF32::U32(64),
        level,
    }
}

fn state() -> State {
    State {
        writing: DescOption::Predefined(OptionPredefined::Default),
        depth: DescOption::Predefined(OptionPredefined::Default),
        scissor: DescOption::Predefined(OptionPredefined::Default),
        viewport: DescOption::Predefined(OptionPredefined::Default),
        stencil: DescOption::Predefined(OptionPredefined::No),
        triangle: DescOption::Predefined(OptionPredefined::Default),
        blending: DescOption::Predefined(OptionPredefined::No),
        clearing: DescOption::Predefined(OptionPredefined::Default),
    }
}

fn render(name: &str, outputs: &[&str], inputs: &[(&str, u8)], depth: Option<&str>, writing: DescOption<rend_vk::pipeline::file::WriteDesc>) -> PipelineStep {
    let mut st = state();
    st.writing = writing;
    PipelineStep::Render(RenderPass {
        name: name.to_string(),
        program: "program".to_string(),
        depth_stencil: depth.map(|d| d.to_string()),
        batch: TaskKind::MeshStatic,
        outputs: outputs.iter().map(|o| o.to_string()).collect(),
        inputs: inputs
            .iter()
            .map(|(n, l)| AttachmentInput {
                name: n.to_string(),
                sampler: DescOption::Predefined(OptionPredefined::Default),
                level: *l,
            })
            .collect(),
        per_pass_updaters: Vec::new(),
        per_instance_updaters: Vec::new(),
        state: st,
        is_disabled: false,
    })
}

fn blit(name: &str, input: &str, output: &str) -> PipelineStep {
    let rect = BlitRect {
        x: U32OrF32::U32(0),
        y: U32OrF32::U32(0),
        width: U32OrF32::U32(64),
        height: U32OrF32::U32(64),
    };
    PipelineStep::Blit(BlitPass {
        name: name.to_string(),
        input: input.to_string(),
        input_rect: rect,
        output: output.to_string(),
        output_rect: rect,
        filter: Filtering::Linear,
        attributes: Vec::new(),
        is_disabled: false,
    })
}

fn attachment(name: &str, format: Format, image: u64, level_usage: u8, levels: usize) -> Attachment {
    Attachment {
        name: name.to_string(),
        memory: 0,
        format,
        vk_format: 37,
        image,
        view: image + 1000,
        per_level_views: (0..levels as u64).map(|l| image + 2000 + l).collect(),
        level_usage,
        extent: Extent2D { width: 64, height: 64 },
        descriptor_index: 0,
    }
}

fn default_writing() -> DescOption<rend_vk::pipeline::file::WriteDesc> {
    DescOption::Predefined(OptionPredefined::Default)
}

fn color_range(level: u32) -> SubresourceRange {
    SubresourceRange {
        aspect: ImageAspect { color: true, depth: false, stencil: false },
        base_mip_level: level,
        level_count: 1,
        base_array_layer: 0,
        layer_count: 1,
    }
}

#[test]
fn single_pass_needs_no_barriers() {
    let targets = vec![target("color", Format::R8G8B8A8_UNORM, 1)];
    let passes = vec![render("only", &["color"], &[("color", 0)], None, default_writing())];
    let gen = BarrierGen::new(&targets, &passes);
    let inputs = vec![attachment("color", Format::R8G8B8A8_UNORM, 10, 0, 1)];
    let outputs = vec![attachment("color", Format::R8G8B8A8_UNORM, 10, 0, 1)];
    assert!(gen.gen_image_barriers_for(0, &inputs, &outputs).is_empty());
}

#[test]
fn read_after_write_moves_to_read_only() {
    let targets = vec![target("color", Format::R8G8B8A8_UNORM, 1)];
    let passes = vec![
        render("geometry", &["color"], &[], None, default_writing()),
        render("post", &["default"], &[("color", 0)], None, default_writing()),
    ];
    let gen = BarrierGen::new(&targets, &passes);
    let color = attachment("color", Format::R8G8B8A8_UNORM, 10, 0, 1);
    let default = Attachment::default_attachment_of(44, 99, 98, Extent2D { width: 64, height: 64 });
    let barriers = gen.gen_image_barriers_for(1, &vec![color.clone()], &vec![default]);
    assert_eq!(
        barriers,
        vec![ImageBarrier {
            image: 10,
            src_access: AccessMask::MemoryWrite,
            dst_access: AccessMask::MemoryRead,
            old_layout: ImageLayout::AttachmentOptimal,
            new_layout: ImageLayout::ReadOnlyOptimal,
            src_stages: STAGE_COLOR_ATTACHMENT_OUTPUT,
            dst_stages: STAGE_FRAGMENT_SHADER,
            range: color_range(0),
        }]
    );
    // The first pass writes what the last one read, going around the frame.
    let barriers = gen.gen_image_barriers_for(0, &Vec::new(), &vec![color]);
    assert_eq!(
        barriers,
        vec![ImageBarrier {
            image: 10,
            src_access: AccessMask::MemoryRead,
            dst_access: AccessMask::MemoryWrite,
            old_layout: ImageLayout::ReadOnlyOptimal,
            new_layout: ImageLayout::AttachmentOptimal,
            src_stages: STAGE_FRAGMENT_SHADER,
            dst_stages: STAGE_COLOR_ATTACHMENT_OUTPUT,
            range: color_range(0),
        }]
    );
}

#[test]
fn read_after_read_is_already_issued() {
    let targets = vec![target("color", Format::R8G8B8A8_UNORM, 1)];
    let passes = vec![
        render("geometry", &["color"], &[], None, default_writing()),
        render("first", &["other"], &[("color", 0)], None, default_writing()),
        render("second", &["default"], &[("color", 0)], None, default_writing()),
    ];
    let gen = BarrierGen::new(&targets, &passes);
    let color = attachment("color", Format::R8G8B8A8_UNORM, 10, 0, 1);
    assert!(gen.gen_image_barriers_for(2, &vec![color], &Vec::new()).is_empty());
}

#[test]
fn blit_after_render_reads_transfer_source() {
    let targets = vec![
        target("color", Format::R8G8B8A8_UNORM, 1),
        target("copy", Format::R8G8B8A8_UNORM, 1),
    ];
    let passes = vec![
        render("geometry", &["color"], &[], None, default_writing()),
        blit("copy", "color", "copy"),
    ];
    let gen = BarrierGen::new(&targets, &passes);
    let color = attachment("color", Format::R8G8B8A8_UNORM, 10, 0, 1);
    let copy = attachment("copy", Format::R8G8B8A8_UNORM, 20, 0, 1);
    let barriers = gen.gen_image_barriers_for(1, &vec![color], &vec![copy]);
    assert_eq!(
        barriers,
        vec![ImageBarrier {
            image: 10,
            src_access: AccessMask::MemoryWrite,
            dst_access: AccessMask::MemoryRead,
            old_layout: ImageLayout::AttachmentOptimal,
            new_layout: ImageLayout::TransferSrcOptimal,
            src_stages: STAGE_COLOR_ATTACHMENT_OUTPUT,
            dst_stages: STAGE_TRANSFER,
            range: color_range(0),
        }]
    );
}

#[test]
fn render_after_blit_leaves_transfer_layouts() {
    let targets = vec![
        target("color", Format::R8G8B8A8_UNORM, 1),
        target("copy", Format::R8G8B8A8_UNORM, 1),
    ];
    let passes = vec![
        blit("copy", "color", "copy"),
        render("post", &["color"], &[("copy", 0)], None, default_writing()),
    ];
    let gen = BarrierGen::new(&targets, &passes);
    let color = attachment("color", Format::R8G8B8A8_UNORM, 10, 0, 1);
    let copy = attachment("copy", Format::R8G8B8A8_UNORM, 20, 0, 1);
    let barriers = gen.gen_image_barriers_for(1, &vec![copy], &vec![color]);
    assert_eq!(barriers.len(), 2);
    assert_eq!(barriers[0].old_layout, ImageLayout::TransferDstOptimal);
    assert_eq!(barriers[0].new_layout, ImageLayout::ReadOnlyOptimal);
    assert_eq!(barriers[0].src_stages, STAGE_TRANSFER);
    assert_eq!(barriers[0].image, 20);
    assert_eq!(barriers[1].old_layout, ImageLayout::TransferSrcOptimal);
    assert_eq!(barriers[1].new_layout, ImageLayout::AttachmentOptimal);
    assert_eq!(barriers[1].src_access, AccessMask::MemoryRead);
    assert_eq!(barriers[1].dst_access, AccessMask::MemoryWrite);
    assert_eq!(barriers[1].image, 10);
}

#[test]
fn every_level_of_an_input_gets_a_barrier() {
    let targets = vec![target("bloom", Format::R8G8B8A8_UNORM, 3)];
    let passes = vec![
        render("down", &["bloom"], &[], None, default_writing()),
        render("up", &["default"], &[("bloom", 255)], None, default_writing()),
    ];
    let gen = BarrierGen::new(&targets, &passes);
    let bloom = attachment("bloom", Format::R8G8B8A8_UNORM, 30, 255, 3);
    let barriers = gen.gen_image_barriers_for(1, &vec![bloom], &Vec::new());
    // Only level 0 was written by the previous pass; the others are not
    // used elsewhere in the frame.
    assert_eq!(barriers.len(), 1);
    assert_eq!(barriers[0].range, color_range(0));
}

#[test]
fn depth_test_without_writes_reads_depth() {
    let targets = vec![
        target("color", Format::R8G8B8A8_UNORM, 1),
        target("depth", Format::D32_SFLOAT, 1),
    ];
    let no_writes = DescOption::Predefined(OptionPredefined::No);
    let passes = vec![
        render("prepass", &[], &[], Some("depth"), default_writing()),
        render("shade", &["color"], &[], Some("depth"), no_writes),
    ];
    let gen = BarrierGen::new(&targets, &passes);
    let depth = attachment("depth", Format::D32_SFLOAT, 40, 0, 1);
    let barriers = gen.gen_image_barriers_for(1, &vec![depth], &Vec::new());
    assert_eq!(
        barriers,
        vec![ImageBarrier {
            image: 40,
            src_access: AccessMask::MemoryWrite,
            dst_access: AccessMask::MemoryRead,
            old_layout: ImageLayout::AttachmentOptimal,
            new_layout: ImageLayout::ReadOnlyOptimal,
            src_stages: STAGE_EARLY_FRAGMENT_TESTS | STAGE_LATE_FRAGMENT_TESTS,
            dst_stages: STAGE_FRAGMENT_SHADER | STAGE_EARLY_FRAGMENT_TESTS | STAGE_LATE_FRAGMENT_TESTS,
            range: SubresourceRange {
                aspect: ImageAspect { color: false, depth: true, stencil: false },
                base_mip_level: 0,
                level_count: 1,
                base_array_layer: 0,
                layer_count: 1,
            },
        }]
    );
}

#[test]
fn initial_barriers_start_from_the_first_layout() {
    let color = attachment("color", Format::R8G8B8A8_UNORM, 10, 0, 2);
    let first = ImageBarrier {
        image: 10,
        src_access: AccessMask::MemoryRead,
        dst_access: AccessMask::MemoryWrite,
        old_layout: ImageLayout::ReadOnlyOptimal,
        new_layout: ImageLayout::AttachmentOptimal,
        src_stages: STAGE_FRAGMENT_SHADER,
        dst_stages: STAGE_COLOR_ATTACHMENT_OUTPUT,
        range: color_range(1),
    };
    let second = ImageBarrier { old_layout: ImageLayout::TransferSrcOptimal, range: color_range(1), ..first };
    let initial = gen_initial_barriers(&vec![color], &vec![first, second]);
    assert_eq!(
        initial,
        vec![ImageBarrier {
            image: 10,
            src_access: AccessMask::Nothing,
            dst_access: AccessMask::Nothing,
            old_layout: ImageLayout::Undefined,
            new_layout: ImageLayout::ReadOnlyOptimal,
            src_stages: STAGE_ALL_COMMANDS,
            dst_stages: STAGE_ALL_COMMANDS,
            range: color_range(1),
        }]
    );
}

#[test]
fn initial_barriers_skip_other_images() {
    let color = attachment("color", Format::R8G8B8A8_UNORM, 10, 0, 1);
    let other = ImageBarrier {
        image: 11,
        src_access: AccessMask::MemoryRead,
        dst_access: AccessMask::MemoryWrite,
        old_layout: ImageLayout::ReadOnlyOptimal,
        new_layout: ImageLayout::AttachmentOptimal,
        src_stages: STAGE_FRAGMENT_SHADER,
        dst_stages: STAGE_COLOR_ATTACHMENT_OUTPUT,
        range: color_range(0),
    };
    assert!(gen_initial_barriers(&vec![color], &vec![other]).is_empty());
}

fn with_sampler(step: PipelineStep, input: usize, sampler: DescOption<Sampler>) -> PipelineStep {
    match step {
        PipelineStep::Render(mut p) => {
            p.inputs[input].sampler = sampler;
            PipelineStep::Render(p)
        }
        other => other,
    }
}

fn disabled(step: PipelineStep) -> PipelineStep {
    match step {
        PipelineStep::Render(mut p) => {
            p.is_disabled = true;
            PipelineStep::Render(p)
        }
        PipelineStep::Blit(mut b) => {
            b.is_disabled = true;
            PipelineStep::Blit(b)
        }
    }
}

fn nearest(anisotropy: u8) -> DescOption<Sampler> {
    DescOption::Configured(Sampler {
        filter: Filtering::Nearest,
        wrap_mode: WrapMode::Repeat,
        compare_func: CompareFunc::NoCompare,
        anisotropy,
    })
}

fn linear_key() -> SamplerKey {
    SamplerKey { filter: Filtering::Linear, wrap_mode: WrapMode::ClampToEdge, compare_func: CompareFunc::NoCompare, anisotropy: 1 }
}

#[test]
fn plans_list_enabled_stages_and_first_seen_samplers() {
    let targets = vec![target("a", Format::R8G8B8A8_UNORM, 1), target("b", Format::R8G8B8A8_UNORM, 1)];
    let first = with_sampler(render("first", &["b"], &[("a", 0), ("a", 0)], None, default_writing()), 1, nearest(4));
    let off = disabled(with_sampler(render("off", &["a"], &[("b", 0)], None, default_writing()), 0, nearest(8)));
    let second = render("second", &["a"], &[("b", 0)], None, default_writing());
    let pip = Pipeline {
        targets,
        programs: Vec::new(),
        passes: vec![first, off, blit("copy", "a", "b"), second],
    };
    let plan = plan_pipeline(&pip).expect("pipeline can be built");
    assert_eq!(plan.stages, vec![0, 2, 3]);
    let nearest_key = SamplerKey { filter: Filtering::Nearest, wrap_mode: WrapMode::Repeat, compare_func: CompareFunc::NoCompare, anisotropy: 4 };
    assert_eq!(plan.sampler_keys, vec![linear_key(), nearest_key]);
}

#[test]
fn plans_refuse_what_cannot_be_built() {
    let targets = vec![target("a", Format::R8G8B8A8_UNORM, 1)];
    let unknown = Pipeline {
        targets: vec![target("a", Format::R8G8B8A8_UNORM, 1)],
        programs: Vec::new(),
        passes: vec![render("p", &["a"], &[("missing", 0)], None, default_writing())],
    };
    assert!(plan_pipeline(&unknown).is_none());
    assert!(!BarrierGen::steps_well_formed(&unknown.targets, &unknown.passes));
    let bad_anisotropy = Pipeline {
        targets,
        programs: Vec::new(),
        passes: vec![with_sampler(render("p", &["a"], &[("a", 0)], None, default_writing()), 0, nearest(3))],
    };
    assert!(plan_pipeline(&bad_anisotropy).is_none());
    assert!(BarrierGen::steps_well_formed(&bad_anisotropy.targets, &bad_anisotropy.passes));
    let specific = Pipeline {
        targets: vec![target("a", Format::R8G8B8A8_UNORM, 1)],
        programs: Vec::new(),
        passes: vec![with_sampler(render("p", &["a"], &[("a", 0)], None, default_writing()), 0, DescOption::Specific("X".to_string()))],
    };
    assert!(plan_pipeline(&specific).is_none());
    // A disabled pass is not built, so its samplers are not checked.
    let off = Pipeline {
        targets: vec![target("a", Format::R8G8B8A8_UNORM, 1)],
        programs: Vec::new(),
        passes: vec![disabled(with_sampler(render("p", &["a"], &[("a", 0)], None, default_writing()), 0, nearest(3)))],
    };
    let plan = plan_pipeline(&off).expect("disabled passes are skipped");
    assert!(plan.stages.is_empty());
    assert!(plan.sampler_keys.is_empty());
}

#[test]
fn plans_hold_at_most_the_sampler_descriptors() {
    let targets = vec![target("a", Format::R8G8B8A8_UNORM, 1)];
    let many = |n: usize| {
        let mut step = render("p", &["a"], &vec![("a", 0u8); n], None, default_writing());
        for i in 0..n {
            step = with_sampler(step, i, DescOption::Configured(Sampler {
                filter: Filtering::Linear,
                wrap_mode: WrapMode::Repeat,
                compare_func: if i % 2 == 0 { CompareFunc::NoCompare } else { CompareFunc::Always },
                anisotropy: [1, 4, 8, 16][(i / 2) % 4],
            }));
            if i >= 8 {
                step = with_sampler(step, i, DescOption::Configured(Sampler {
                    filter: Filtering::Nearest,
                    wrap_mode: [WrapMode::Repeat, WrapMode::MirroredRepeat, WrapMode::ClampToEdge][i % 3],
                    compare_func: [CompareFunc::NoCompare, CompareFunc::Always, CompareFunc::Never, CompareFunc::Less][(i / 3) % 4],
                    anisotropy: [1, 4, 8, 16][(i / 12) % 4],
                }));
            }
        }
        step
    };
    let ok = Pipeline { targets: vec![target("a", Format::R8G8B8A8_UNORM, 1)], programs: Vec::new(), passes: vec![many(10)] };
    assert_eq!(plan_pipeline(&ok).unwrap().sampler_keys.len(), 10);
    let too_many = Pipeline { targets, programs: Vec::new(), passes: vec![many(60)] };
    let distinct = {
        let PipelineStep::Render(p) = &too_many.passes[0] else { unreachable!() };
        let mut keys: Vec<(Filtering, WrapMode, CompareFunc, u8)> = Vec::new();
        for i in &p.inputs {
            if let DescOption::Configured(s) = &i.sampler {
                let k = (s.filter, s.wrap_mode, s.compare_func, s.anisotropy);
                if !keys.contains(&k) {
                    keys.push(k);
                }
            }
        }
        keys.len()
    };
    assert!(distinct > 32);
    assert!(plan_pipeline(&too_many).is_none());
}

#[test]
fn write_descriptors_resolve_by_known_names() {
    assert!(write_resolvable(&DescOption::Specific("DEPTH".to_string())));
    assert!(!write_resolvable(&DescOption::Specific("ALPHA".to_string())));
    assert!(write_resolvable(&DescOption::Predefined(OptionPredefined::No)));
}

#[test]
fn inputs_must_be_known_targets() {
    let targets = vec![target("color", Format::R8G8B8A8_UNORM, 1)];
    let passes = vec![render("only", &["color"], &[("color", 0)], None, default_writing())];
    let gen = BarrierGen::new(&targets, &passes);
    assert!(gen.knows_inputs(&vec![attachment("color", Format::R8G8B8A8_UNORM, 10, 0, 1)]));
    assert!(!gen.knows_inputs(&vec![attachment("other", Format::R8G8B8A8_UNORM, 10, 0, 1)]));
    assert!(!gen.knows_inputs(&vec![attachment(Attachment::DEFAULT_NAME, Format::R8G8B8A8_UNORM, 10, 0, 1)]));
}

#[test]
fn plans_make_one_attachment_per_target_name() {
    let pip = Pipeline {
        targets: vec![
            target("a", Format::R8G8B8A8_UNORM, 1),
            target("b", Format::R8G8B8A8_UNORM, 1),
            target("a", Format::R8G8B8A8_UNORM, 2),
            target(Attachment::DEFAULT_NAME, Format::R8G8B8A8_UNORM, 1),
        ],
        programs: Vec::new(),
        passes: vec![render("p", &["a"], &[("b", 0)], None, default_writing())],
    };
    let plan = plan_pipeline(&pip).expect("pipeline can be built");
    // "a" is made from its last target, "b" from its only one; the default is passed in.
    assert_eq!(plan.attachment_targets, vec![2, 1]);
    let distinct = Pipeline {
        targets: vec![target("x", Format::R8G8B8A8_UNORM, 1), target("y", Format::R8G8B8A8_UNORM, 1)],
        programs: Vec::new(),
        passes: Vec::new(),
    };
    assert_eq!(plan_pipeline(&distinct).unwrap().attachment_targets, vec![0, 1]);
}

#[test]
fn plans_need_resolvable_state() {
    let mut st = state();
    assert!(check_state(&st));
    st.stencil = DescOption::Predefined(OptionPredefined::Default);
    assert!(!check_state(&st));
    st = state();
    st.blending = DescOption::Predefined(OptionPredefined::Yes);
    assert!(check_state(&st));
    st.clearing = DescOption::Specific("COLOR".to_string());
    assert!(check_state(&st));
    assert!(!clear_resolvable(&DescOption::Specific("ALPHA".to_string())));
    let mut step = render("p", &["a"], &[], None, default_writing());
    if let PipelineStep::Render(p) = &mut step {
        p.state.depth = DescOption::Specific("X".to_string());
    }
    let pip = Pipeline { targets: vec![target("a", Format::R8G8B8A8_UNORM, 1)], programs: Vec::new(), passes: vec![step] };
    assert!(plan_pipeline(&pip).is_none());
    let off = Pipeline { targets: vec![target("a", Format::R8G8B8A8_UNORM, 1)], programs: Vec::new(), passes: vec![disabled(pip.passes.into_iter().next().unwrap())] };
    assert!(plan_pipeline(&off).is_some());
}
