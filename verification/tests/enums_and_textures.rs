use rend_vk::buffer::{BufferKind, DeviceSlice};
use rend_vk::format::Format;
use rend_vk::image::{
    AccessMask, Extent2D, ImageAspect, ImageLayout, LoadOp, Offset2D, Rect2D, StoreOp,
    REMAINING_MIP_LEVELS, STAGE_COLOR_ATTACHMENT_OUTPUT, STAGE_FRAGMENT_SHADER, STAGE_TOP_OF_PIPE,
    STAGE_TRANSFER,
};
use rend_vk::pipeline::attachment::Attachment;
use rend_vk::pipeline::file::{
    CompareFunc, DescHandler, DescOption, Filtering, OptionPredefined, Pipeline, UpdaterKind,
    WrapMode, WriteDesc,
};
use rend_vk::pipeline::render_stage::{
    default_attachment_index, descriptor_bindings, outputs_for_barriers, push_constants,
    render_area, rendering_attachment_info,
};
use rend_vk::pipeline::sampler::{Sampler, SamplerKey};
use rend_vk::pipeline::signal_value_for;
use rend_vk::render_task::TaskKind;
use rend_vk::shader_resource::ResourceKind;
use rend_vk::texture::{mip_dimensions_of, usage_flags_for, MipMap, Texture};

#[test]
fn format_queries() {
    assert!(Format::BC1_RGBA_UNORM_BLOCK.is_compressed());
    assert!(!Format::R8G8B8A8_UNORM.is_compressed());
    assert!(Format::D32_SFLOAT.has_depth());
    assert!(!Format::D32_SFLOAT.has_stencil());
    assert!(Format::D24_UNORM_S8_UINT.has_stencil());
    assert!(Format::D24_UNORM_S8_UINT.has_depth_or_stencil());
    assert!(Format::B8G8R8A8_SRGB.is_srgb());
    assert!(!Format::R8G8B8A8_UNORM.is_srgb());
    assert_eq!(Format::R8G8B8A8_UNORM.aspect(), ImageAspect { color: true, depth: false, stencil: false });
    assert_eq!(Format::D24_UNORM_S8_UINT.aspect(), ImageAspect { color: false, depth: true, stencil: true });
    assert_eq!(Format::BC1_RGBA_UNORM_BLOCK.size_for(4, 4), 8);
    assert_eq!(Format::BC2_UNORM_BLOCK.size_for(4, 4), 16);
    assert_eq!(Format::BC1_RGBA_UNORM_BLOCK.size_for(64, 64), 2048);
    assert_eq!(Format::BC3_UNORM_BLOCK.size_for(64, 64), 4096);
    assert_eq!(Format::BC3_UNORM_BLOCK.size_for_extent(Extent2D { width: 8, height: 4 }), 32);
    assert_eq!(Format::of_u8(Format::R8G8B8A8_UNORM.to_u8()), Format::R8G8B8A8_UNORM);
    assert_eq!(Format::of_u32(0), Format::UNDEFINED);
    assert_eq!(Format::UNDEFINED.to_usize(), 0);
}

#[test]
fn task_kinds_and_keys() {
    assert_eq!(TaskKind::of_u8(1), TaskKind::MeshStatic);
    assert_eq!(TaskKind::of_u32(12), TaskKind::Fullscreen);
    assert_eq!(TaskKind::MeshStatic.to_u32(), 1);
    assert_eq!(TaskKind::MeshStatic.to_key(5), (1u64 << 32) | 5);
    assert_eq!(TaskKind::Fullscreen.to_key(0), 12u64 << 32);
}

#[test]
fn resource_kinds() {
    assert_eq!(ResourceKind::Transform.mask(), 0);
    assert_eq!(ResourceKind::DirLight.mask(), 0b11);
    assert_eq!(ResourceKind::of_u32(12), ResourceKind::Timing);
    assert_eq!(ResourceKind::Timing.to_u8(), 12);
    assert_eq!(UpdaterKind::Material.to_resource_kind(), ResourceKind::Material);
}

#[test]
fn sampler_keys_pack_a_byte_per_field() {
    let key = SamplerKey {
        filter: Filtering::Nearest,
        wrap_mode: WrapMode::ClampToEdge,
        compare_func: CompareFunc::Less,
        anisotropy: 16,
    };
    assert_eq!(key.to_u32(), 0x1003_0201);
    assert_eq!(Sampler::validate_anisotropy(8), 8);
    let info = Sampler::info_of_key(SamplerKey { compare_func: CompareFunc::NoCompare, anisotropy: 1, ..key });
    assert!(!info.compare_enable);
    assert_eq!(info.compare_func, CompareFunc::Always);
    assert!(!info.anisotropy_enable);
    let info = Sampler::info_of_key(key);
    assert!(info.compare_enable);
    assert_eq!(info.compare_func, CompareFunc::Less);
    assert!(info.anisotropy_enable);
}

#[test]
fn write_descriptors_resolve() {
    let depth = <Pipeline as DescHandler<WriteDesc>>::handle_option(DescOption::Specific("DEPTH".to_string()));
    assert_eq!(depth, WriteDesc { color_mask: 0, depth: true, stencil: false });
    let none = <Pipeline as DescHandler<WriteDesc>>::handle_option(DescOption::Predefined(OptionPredefined::No));
    assert!(!none.depth_or_stencil());
    let all = <Pipeline as DescHandler<WriteDesc>>::handle_option(DescOption::Predefined(OptionPredefined::Yes));
    assert!(all.depth_or_stencil());
    let given = WriteDesc { color_mask: 1, depth: false, stencil: true };
    assert_eq!(<Pipeline as DescHandler<WriteDesc>>::handle_option(DescOption::Configured(given)), given);
}

#[test]
fn mip_dimensions_halve_down_to_one() {
    assert_eq!(mip_dimensions_of(0, 1024), 1024);
    assert_eq!(mip_dimensions_of(1, 1024), 512);
    assert_eq!(mip_dimensions_of(3, 100), 12);
    assert_eq!(mip_dimensions_of(10, 1024), 1);
    assert_eq!(mip_dimensions_of(11, 1024), 1);
    assert_eq!(mip_dimensions_of(40, u32::MAX), 1);
    assert_eq!(mip_dimensions_of(31, u32::MAX), 1);
    assert_eq!(mip_dimensions_of(0, 16_777_217), 16_777_217);
}

#[test]
fn all_levels() {
    assert!(MipMap::is_all_levels_value(255));
    assert!(!MipMap::is_all_levels_value(0));
    assert!(MipMap::is_all_levels_name("ALL"));
    assert!(!MipMap::is_all_levels_name("all"));
}

#[test]
fn usage_flags() {
    assert_eq!(usage_flags_for(Format::R8G8B8A8_UNORM, false), 0x2 | 0x4);
    assert_eq!(usage_flags_for(Format::R8G8B8A8_UNORM, true), 0x4 | 0x2 | 0x1 | 0x10);
    assert_eq!(usage_flags_for(Format::D32_SFLOAT, true), 0x4 | 0x2 | 0x1 | 0x20);
}

fn texture(staging: Option<DeviceSlice>) -> Texture {
    Texture {
        id: 3,
        format: Format::BC1_RGBA_UNORM_BLOCK,
        mip_maps: vec![
            MipMap { index: 0, width: 8, height: 8, size: 32, offset: 0 },
            MipMap { index: 1, width: 4, height: 4, size: 8, offset: 32 },
        ],
        name: "tex".to_string(),
        memory: 1,
        image: 2,
        view: 3,
        staging,
    }
}

#[test]
fn texture_queries_and_upload() {
    let staging = DeviceSlice { buffer: 9, size: 40, offset: 100, addr: 0, device_addr: 0, kind: BufferKind::General };
    let t = texture(Some(staging));
    assert!(!t.is_uploaded());
    assert_eq!(t.mip_map_count(), 2);
    assert_eq!(t.extent(), Extent2D { width: 8, height: 8 });
    assert_eq!(t.size(), 40);
    let regions = t.buffer_copy_regions(100);
    assert_eq!(regions.len(), 2);
    assert_eq!(regions[1].buffer_offset, 132);
    assert_eq!(regions[1].mip_level, 1);
    assert_eq!(regions[1].extent, Extent2D { width: 4, height: 4 });
    let upload = t.upload();
    assert_eq!(upload.staging_buffer, 9);
    assert_eq!(upload.regions, regions);
    assert_eq!(upload.initial.old_layout, ImageLayout::Undefined);
    assert_eq!(upload.initial.new_layout, ImageLayout::TransferDstOptimal);
    assert_eq!(upload.initial.src_stages, STAGE_TOP_OF_PIPE);
    assert_eq!(upload.initial.dst_access, AccessMask::TransferWrite);
    assert_eq!(upload.end.new_layout, ImageLayout::ShaderReadOnlyOptimal);
    assert_eq!(upload.end.src_stages, STAGE_TRANSFER);
    assert_eq!(upload.end.dst_stages, STAGE_FRAGMENT_SHADER);
    assert_eq!(upload.end.range.level_count, 2);
    assert!(texture(None).is_uploaded());
}

#[test]
fn attachment_helpers() {
    let default = Attachment::default_attachment_of(44, 5, 6, Extent2D { width: 800, height: 600 });
    assert!(default.is_default());
    assert_eq!(default.levels(), 1);
    assert_eq!(default.usage_view(), 6);
    assert!(default.views_to_destroy().is_empty());
    assert_eq!(
        default.render_area_no_offset(),
        Rect2D { offset: Offset2D { x: 0, y: 0 }, extent: Extent2D { width: 800, height: 600 } }
    );
    let write = Attachment::default_attachment_write_barrier(5);
    assert_eq!(write.new_layout, ImageLayout::AttachmentOptimal);
    assert_eq!(write.src_stages, STAGE_COLOR_ATTACHMENT_OUTPUT);
    assert_eq!(write.range.level_count, REMAINING_MIP_LEVELS);
    let present = Attachment::default_attachment_present_barrier(5);
    assert_eq!(present.new_layout, ImageLayout::PresentSrc);
    assert_eq!(present.dst_access, AccessMask::Nothing);
    let info = Attachment::default_attachment_rendering_attachment_info(&default);
    assert_eq!(info.image_view, 6);
    assert_eq!(info.load_op, LoadOp::Clear);
    let ranges = Attachment::per_level_ranges(Format::D32_SFLOAT, 3);
    assert_eq!(ranges.len(), 3);
    assert_eq!(ranges[2].base_mip_level, 2);
    assert_eq!(ranges[2].aspect, ImageAspect { color: false, depth: true, stencil: false });

    let mut color = default.clone();
    color.name = "color".to_string();
    color.view = 10;
    color.per_level_views = vec![10, 11, 12];
    color.level_usage = 255;
    assert!(!color.is_default());
    assert_eq!(color.levels(), 3);
    assert_eq!(color.usage_view(), 10);
    assert_eq!(color.per_level_view(2), 12);
    assert_eq!(color.views_to_destroy(), vec![10, 11, 12]);
    color.level_usage = 1;
    assert_eq!(color.usage_view(), 11);
}

#[test]
fn render_stage_plans() {
    let mut depth = Attachment::default_attachment_of(0, 1, 2, Extent2D { width: 32, height: 16 });
    depth.name = "depth".to_string();
    depth.format = Format::D32_SFLOAT;
    let writes_nothing = WriteDesc { color_mask: 0, depth: false, stencil: false };
    let info = rendering_attachment_info(&depth, writes_nothing, true, false);
    assert_eq!(info.load_op, LoadOp::Load);
    assert_eq!(info.store_op, StoreOp::Nothing);
    let mut color = depth.clone();
    color.format = Format::R8G8B8A8_UNORM;
    let info = rendering_attachment_info(&color, writes_nothing, true, false);
    assert_eq!(info.load_op, LoadOp::Clear);
    assert_eq!(info.store_op, StoreOp::Store);

    let outputs = vec!["color".to_string(), "default".to_string()];
    assert_eq!(default_attachment_index(&outputs), Some(1));
    assert_eq!(default_attachment_index(&vec!["color".to_string()]), None);

    let area = render_area(&Vec::new(), &depth);
    assert_eq!(area.extent, Extent2D { width: 32, height: 16 });

    let (indices, offsets) = descriptor_bindings(true);
    assert_eq!(indices, vec![0, 1, 2]);
    assert_eq!(offsets, vec![0, 0, 0]);
    let (indices, _) = descriptor_bindings(false);
    assert_eq!(indices, vec![0, 1]);

    let writes_depth = WriteDesc { color_mask: 0, depth: true, stencil: false };
    let both = outputs_for_barriers(vec![color.clone()], Some(depth.clone()), writes_depth);
    assert_eq!(both.len(), 2);
    assert_eq!(both[1].name, "depth");
    let only = outputs_for_barriers(vec![color.clone()], Some(depth.clone()), writes_nothing);
    assert_eq!(only.len(), 1);
    assert_eq!(outputs_for_barriers(vec![], None, writes_depth).len(), 0);

    let pushed = push_constants(&vec![1], Some((2, 3, 4)), &vec![5, 6]);
    assert_eq!(pushed, vec![1, 2, 3, 4, 5, 6]);
    assert_eq!(push_constants(&vec![], None, &vec![7]), vec![7]);
}

#[test]
fn signal_values_count_stages_per_frame() {
    assert_eq!(signal_value_for(0, 3, 0), 0);
    assert_eq!(signal_value_for(2, 3, 1), 7);
}

#[test]
fn mip_offsets_must_fit() {
    let mips = vec![MipMap { index: 0, width: 4, height: 4, size: 16, offset: 0 }, MipMap { index: 1, width: 2, height: 2, size: 4, offset: 16 }];
    assert!(rend_vk::texture::offsets_fit_check(&mips, 1000));
    assert!(!rend_vk::texture::offsets_fit_check(&mips, u64::MAX - 8));
}
