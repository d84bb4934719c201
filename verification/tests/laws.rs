use rend_vk::pipeline::file::{CompareFunc, Filtering, WrapMode};
use rend_vk::pipeline::sampler::SamplerKey;
use rend_vk::render_task::TaskKind;
use rend_vk::renderer::UploadTracker;
use rend_vk::texture::mip_dimensions_of;

#[test]
fn task_keys_tell_kind_and_parent_apart() {
    let a = TaskKind::MeshStatic.to_key(1);
    let b = TaskKind::MeshAnimated.to_key(0);
    let c = TaskKind::MeshStatic.to_key(0);
    assert_ne!(a, b);
    assert_ne!(a, c);
    assert_ne!(b, c);
    assert_eq!(TaskKind::Nuklear.to_key(u32::MAX), (13u64 << 32) | 0xFFFF_FFFF);
}

#[test]
fn sampler_numbers_tell_keys_apart() {
    let key = SamplerKey {
        filter: Filtering::Linear,
        wrap_mode: WrapMode::Repeat,
        compare_func: CompareFunc::NoCompare,
        anisotropy: 1,
    };
    let others = [
        SamplerKey { filter: Filtering::Nearest, ..key },
        SamplerKey { wrap_mode: WrapMode::MirroredRepeat, ..key },
        SamplerKey { compare_func: CompareFunc::Never, ..key },
        SamplerKey { anisotropy: 4, ..key },
    ];
    for other in others {
        assert_ne!(key.to_u32(), other.to_u32());
    }
}

#[test]
fn mip_levels_shrink_to_one() {
    for value in [1u32, 3, 100, 1024, 4097, u32::MAX] {
        let mut prev = mip_dimensions_of(0, value);
        assert_eq!(prev, value);
        for i in 1..40usize {
            let cur = mip_dimensions_of(i, value);
            assert!(1 <= cur && cur <= prev);
            prev = cur;
        }
        assert_eq!(prev, 1);
    }
}

#[test]
fn uploads_end_up_finished_or_pending() {
    let mut uploads = UploadTracker::new();
    for id in 0..4 {
        uploads.queue_texture_for_uploading(id);
        uploads.start_queued(id as u64);
    }
    let done = uploads.finish_done(2);
    assert_eq!(done, vec![0, 1]);
    assert_eq!(done.len() + uploads.ongoing.len(), 4);
    assert_eq!(uploads.finish_done(100), vec![2, 3]);
    assert!(uploads.ongoing.is_empty());
}
