use rend_vk::buffer::{BufferKind, DeviceSlice};
use rend_vk::context::memory_type_index_for;
use rend_vk::image::Extent2D;
use rend_vk::java_api::{
    mesh_to_java, mip_map_count_of, mip_map_of_java, mip_maps_to_java, texture_to_java, JavaMipMap,
};
use rend_vk::format::Format;
use rend_vk::pipeline::descriptor::{DescriptorGroup, LayoutBinding};
use rend_vk::pipeline::file::{CompareFunc, Filtering, Program, WrapMode};
use rend_vk::pipeline::load::shaders_to_compile;
use rend_vk::pipeline::sampler::{Sampler, SamplerKey};
use rend_vk::render_task::TaskKind;
use rend_vk::renderer::{
    select_physical_device, DeviceCandidate, MeshBuffer, MeshIds, SamplerRegistry, TaskBatches,
    UploadTracker,
};
use rend_vk::swapchain::{
    desired_image_count, present_mode, surface_extent, surface_format, PRESENT_MODE_FIFO,
    PRESENT_MODE_FIFO_RELAXED, PRESENT_MODE_IMMEDIATE, PRESENT_MODE_MAILBOX,
};
use rend_vk::texture::{MipMap, Texture};

#[test]
fn descriptor_groups_track_their_slots() {
    let mut group = DescriptorGroup::new("images".to_string(), 1, 2, 3, 4, true);
    assert_eq!(group.count_active(), 0);
    assert_eq!(group.next_free(), 0);
    let w = group.place();
    assert_eq!(w.index, 0);
    assert_eq!(w.binding, 0);
    assert_eq!(w.array_element, 0);
    assert_eq!(w.set, 2);
    let w = group.place_at(2);
    assert_eq!(w.array_element, 2);
    assert_eq!(group.count_active(), 2);
    assert_eq!(group.next_free(), 1);
    group.remove_at(0);
    assert_eq!(group.count_active(), 1);
    assert_eq!(group.next_free(), 0);

    let mut single = DescriptorGroup::new("samplers".to_string(), 1, 2, 3, 2, false);
    let w = single.place_at(1);
    assert_eq!(w.binding, 1);
    assert_eq!(w.array_element, 0);
    assert_eq!(DescriptorGroup::layout_bindings(4, true), vec![LayoutBinding { binding: 0, count: 4 }]);
    assert_eq!(
        DescriptorGroup::layout_bindings(2, false),
        vec![LayoutBinding { binding: 0, count: 1 }, LayoutBinding { binding: 1, count: 1 }]
    );
    assert_eq!(DescriptorGroup::binding_flags_count(5, true), 1);
    assert_eq!(DescriptorGroup::binding_flags_count(5, false), 5);
}

#[test]
fn mesh_ids_are_reused_lowest_first() {
    let mut ids = MeshIds::new();
    ids.mark(0);
    assert_eq!(ids.reserve(), 1);
    assert_eq!(ids.reserve(), 2);
    ids.release(1);
    assert_eq!(ids.reserve(), 1);
    assert_eq!(ids.reserve(), 3);
}

#[test]
fn tasks_are_batched_by_kind_and_parent() {
    let mut batches: TaskBatches<u32> = TaskBatches::new();
    batches.add_task_to_queue(10, TaskKind::MeshStatic, 0);
    batches.add_task_to_queue(11, TaskKind::MeshStatic, 1);
    batches.add_task_to_queue(12, TaskKind::MeshStatic, 0);
    assert_eq!(batches.get(TaskKind::MeshStatic.to_key(0)), Some(&vec![10, 12]));
    assert_eq!(batches.get(TaskKind::MeshStatic.to_key(1)), Some(&vec![11]));
    assert_eq!(batches.get(TaskKind::Fullscreen.to_key(0)), None);
    batches.clear_batches();
    assert_eq!(batches.get(TaskKind::MeshStatic.to_key(0)), Some(&vec![]));
}

#[test]
fn uploads_finish_once_their_frame_is_done() {
    let mut uploads = UploadTracker::new();
    uploads.queue_texture_for_uploading(4);
    uploads.queue_texture_for_uploading(5);
    assert_eq!(uploads.start_queued(7), vec![4, 5]);
    assert!(uploads.queue.is_empty());
    uploads.queue_texture_for_uploading(6);
    assert_eq!(uploads.start_queued(8), vec![6]);
    assert_eq!(uploads.finish_done(7), Vec::<u32>::new());
    assert_eq!(uploads.finish_done(8), vec![4, 5]);
    assert_eq!(uploads.ongoing, vec![(6, 8)]);
    assert_eq!(uploads.finish_done(9), vec![6]);
    assert!(uploads.ongoing.is_empty());
}

#[test]
fn samplers_are_found_by_key() {
    let key = SamplerKey {
        filter: Filtering::Linear,
        wrap_mode: WrapMode::Repeat,
        compare_func: CompareFunc::NoCompare,
        anisotropy: 4,
    };
    let mut registry = SamplerRegistry::new();
    assert_eq!(registry.try_get_sampler(key), None);
    assert_eq!(registry.next_position(), 0);
    registry.insert(key, Sampler { name: "s".to_string(), sampler: 9, descriptor_offset: 0, position: 0 });
    assert_eq!(registry.try_get_sampler(key), Some(0));
    assert_eq!(registry.next_position(), 1);
    assert_eq!(registry.try_get_sampler(SamplerKey { anisotropy: 8, ..key }), None);
}

#[test]
fn discrete_devices_are_preferred() {
    let integrated = DeviceCandidate { is_discrete: false, queue_family: Some(0) };
    let discrete = DeviceCandidate { is_discrete: true, queue_family: Some(2) };
    let headless = DeviceCandidate { is_discrete: true, queue_family: None };
    assert_eq!(select_physical_device(&vec![integrated, headless, discrete]), Some(2));
    assert_eq!(select_physical_device(&vec![headless, integrated]), Some(1));
    assert_eq!(select_physical_device(&vec![headless]), None);
    assert_eq!(select_physical_device(&vec![]), None);
}

#[test]
fn swapchain_choices() {
    let current = Extent2D { width: 640, height: 480 };
    assert_eq!(surface_extent(current, 1280, 720), current);
    let undefined = Extent2D { width: u32::MAX, height: u32::MAX };
    assert_eq!(surface_extent(undefined, 1280, 720), Extent2D { width: 1280, height: 720 });
    let modes = vec![PRESENT_MODE_MAILBOX, PRESENT_MODE_FIFO_RELAXED];
    assert_eq!(present_mode(&modes, true), PRESENT_MODE_FIFO_RELAXED);
    assert_eq!(present_mode(&vec![PRESENT_MODE_MAILBOX], true), PRESENT_MODE_FIFO);
    assert_eq!(present_mode(&modes, false), PRESENT_MODE_IMMEDIATE);
    assert_eq!(desired_image_count(2, 0), 3);
    assert_eq!(desired_image_count(2, 3), 3);
    assert_eq!(desired_image_count(2, 2), 2);
    let srgb = Format::B8G8R8A8_SRGB.to_u32();
    let unorm = Format::R8G8B8A8_UNORM.to_u32();
    assert_eq!(surface_format(&vec![unorm, srgb]), 1);
    assert_eq!(surface_format(&vec![unorm, unorm]), 0);
}

#[test]
fn memory_types_are_searched_in_order() {
    let types = vec![0b001, 0b011, 0b110];
    assert_eq!(memory_type_index_for(&types, 0b111, 0b010), Some(1));
    assert_eq!(memory_type_index_for(&types, 0b101, 0b010), Some(2));
    assert_eq!(memory_type_index_for(&types, 0b001, 0b010), None);
}

#[test]
fn shaders_are_compiled_once() {
    let programs = vec![
        Program {
            name: "a".to_string(),
            vertex: "fs.vert".to_string(),
            fragment: "one.frag".to_string(),
            geometry: String::new(),
        },
        Program {
            name: "b".to_string(),
            vertex: "fs.vert".to_string(),
            fragment: "two.frag".to_string(),
            geometry: "x.geom".to_string(),
        },
    ];
    let shaders = shaders_to_compile(&programs);
    assert_eq!(
        shaders,
        vec![
            "one.frag".to_string(),
            "fs.vert".to_string(),
            "two.frag".to_string(),
            "x.geom".to_string()
        ]
    );
}

#[test]
fn client_views() {
    let slice = |addr: u64, size: u64| DeviceSlice {
        buffer: 1,
        size,
        offset: 0,
        addr,
        device_addr: addr,
        kind: BufferKind::General,
    };
    let mesh = MeshBuffer {
        vertices: slice(100, 36),
        normals: slice(200, 36),
        tex_coords: slice(300, 24),
        indices: DeviceSlice::empty(),
        count: 3,
    };
    let java = mesh_to_java(&mesh);
    assert_eq!(java.vertices, 100);
    assert_eq!(java.tex_coords_len, 24);
    assert_eq!(java.indices, 0);
    assert_eq!(java.count, 3);
    let texture = Texture {
        id: 1,
        format: Format::R8G8B8A8_UNORM,
        mip_maps: vec![MipMap { index: 0, width: 4, height: 2, size: 32, offset: 0 }],
        name: "t".to_string(),
        memory: 0,
        image: 0,
        view: 0,
        staging: Some(slice(500, 32)),
    };
    let jt = texture_to_java(&texture);
    assert_eq!((jt.width, jt.height, jt.mip_map_count, jt.staging, jt.staging_len), (4, 2, 1, 500, 32));
    let levels = mip_maps_to_java(&texture);
    assert_eq!(levels, vec![JavaMipMap { index: 0, width: 4, height: 2, size: 32, offset: 0 }]);
    let back = mip_map_of_java(&levels[0]);
    assert_eq!((back.width, back.height, back.size), (4, 2, 32));
    assert_eq!(mip_map_count_of(40, 20), Some(2));
    assert_eq!(mip_map_count_of(41, 20), None);
}

#[test]
fn full_groups_and_id_sets_have_no_free_slot() {
    let mut group = DescriptorGroup::new("samplers".to_string(), 1, 2, 3, 2, false);
    assert!(group.has_free_slot());
    group.place();
    group.place();
    assert!(!group.has_free_slot());
    assert_eq!(group.count_active(), 2);
    group.remove_at(1);
    assert!(group.has_free_slot());
    assert_eq!(group.next_free(), 1);

    let mut ids = MeshIds::new();
    for _ in 0..MeshIds::CAPACITY {
        assert!(ids.has_free_id());
        ids.reserve();
    }
    assert!(!ids.has_free_id());
    ids.release(7);
    assert!(ids.has_free_id());
    assert_eq!(ids.reserve(), 7);
}
