use rend_vk::buffer::{BufferKind, DeviceAllocator, DeviceBuffer, DeviceSlice};
use rend_vk::pos_mul;
use rend_vk::renderer::{alloc_or_empty, free_if_not_empty, get_allocator_stats, AllocatorStats};

fn buffer(size: u64, alignment: u64, device_addr: u64) -> DeviceBuffer {
    DeviceBuffer {
        size,
        alignment,
        device_addr,
        buffer: 7,
        memory: 8,
        addr: 0x1000,
        type_index: 0,
        kind: BufferKind::General,
    }
}

#[test]
fn pos_mul_rounds_up() {
    assert_eq!(pos_mul(16, 0), 0);
    assert_eq!(pos_mul(16, 1), 16);
    assert_eq!(pos_mul(16, 16), 16);
    assert_eq!(pos_mul(16, 17), 32);
    assert_eq!(pos_mul(3, 7), 9);
}

#[test]
fn next_size_rounds_to_alignment() {
    assert_eq!(DeviceBuffer::next_size(1, 256), 256);
    assert_eq!(DeviceBuffer::next_size(256, 256), 256);
    assert_eq!(DeviceBuffer::next_size(257, 256), 512);
    assert_eq!(DeviceBuffer::next_size(0, 64), 0);
}

#[test]
fn alignment_for_descriptor_buffers_takes_the_wider() {
    assert_eq!(DeviceBuffer::alignment_for(BufferKind::Descriptor, 64, 256), 256);
    assert_eq!(DeviceBuffer::alignment_for(BufferKind::Descriptor, 512, 256), 512);
    assert_eq!(DeviceBuffer::alignment_for(BufferKind::General, 64, 256), 64);
}

#[test]
fn allocations_are_carved_from_the_front() {
    let mut alloc = DeviceAllocator::new(buffer(1024, 256, 0x10_0000));
    let a = alloc.allocate(100).unwrap();
    assert_eq!(a.offset, 0);
    assert_eq!(a.size, 256);
    assert_eq!(a.addr, 0x1000);
    assert_eq!(a.device_addr, 0x10_0000);
    let b = alloc.allocate(300).unwrap();
    assert_eq!(b.offset, 256);
    assert_eq!(b.size, 512);
    assert_eq!(alloc.available(), 256);
    assert_eq!(alloc.used(), 768);
    // No room for another 512 bytes: a new chunk is needed.
    assert!(alloc.allocate(400).is_none());
    assert_eq!(alloc.chunks(), 1);
}

#[test]
fn allocate_then_free_restores_the_bytes() {
    let mut alloc = DeviceAllocator::new(buffer(1024, 256, 0x10_0000));
    let a = alloc.allocate(10).unwrap();
    assert_eq!(alloc.available(), 768);
    alloc.free(a);
    assert_eq!(alloc.available(), 1024);
    let again = alloc.allocate(1024).unwrap();
    assert_eq!(again.offset, 0);
    assert_eq!(again.size, 1024);
}

#[test]
fn a_new_chunk_takes_what_the_first_cannot() {
    let mut alloc = DeviceAllocator::new(buffer(256, 256, 0x10_0000));
    let _first = alloc.allocate(256).unwrap();
    assert!(alloc.allocate(1).is_none());
    let second = alloc.allocate_in_new_chunk(buffer(512, 256, 0x20_0000), 1).unwrap();
    assert_eq!(second.device_addr, 0x20_0000);
    assert_eq!(alloc.chunks(), 2);
    assert_eq!(alloc.size(), 256);
    assert_eq!(alloc.alignment(), 256);
    let buffers = alloc.take_buffers();
    assert_eq!(buffers.len(), 2);
    assert_eq!(alloc.chunks(), 0);
}

#[test]
fn allocator_stats_report_the_first_chunk() {
    let mut alloc = DeviceAllocator::new(buffer(1024, 256, 0x10_0000));
    let _ = alloc.allocate(1).unwrap();
    let stats: AllocatorStats = get_allocator_stats(&alloc);
    assert_eq!(stats.size, 1024);
    assert_eq!(stats.available, 768);
    assert_eq!(stats.used, 256);
    assert_eq!(stats.alignment, 256);
    assert_eq!(stats.chunks, 1);
}

#[test]
fn empty_sizes_get_empty_slices() {
    let mut alloc = DeviceAllocator::new(buffer(1024, 256, 0x10_0000));
    let empty = alloc_or_empty(&mut alloc, 0).unwrap();
    assert_eq!(empty.size, 0);
    assert!(empty.is_empty());
    assert_eq!(alloc.available(), 1024);
    let some = alloc_or_empty(&mut alloc, 12).unwrap();
    assert_eq!(some.size, 256);
    free_if_not_empty(&mut alloc, empty);
    assert_eq!(alloc.available(), 768);
    free_if_not_empty(&mut alloc, some);
    assert_eq!(alloc.available(), 1024);
    assert!(DeviceSlice::empty().is_empty());
}

#[test]
fn only_slices_inside_a_chunk_can_be_freed() {
    let mut alloc = DeviceAllocator::new(buffer(1024, 256, 0x10_0000));
    let a = alloc.allocate(10).unwrap();
    assert!(alloc.can_free(&a));
    let outside = DeviceSlice { device_addr: 0x20_0000, ..a };
    assert!(!alloc.can_free(&outside));
    // A slice inside the chunk that it never lent can still be given back.
    let never_lent = DeviceSlice { offset: 512, addr: 0x1000 + 512, device_addr: 0x10_0000 + 512, size: 256, ..a };
    assert!(alloc.can_free(&never_lent));
}

#[test]
fn freeing_in_the_middle_keeps_spans_in_order() {
    let mut alloc = DeviceAllocator::new(buffer(1024, 256, 0x10_0000));
    let _a = alloc.allocate(256).unwrap();
    let b = alloc.allocate(256).unwrap();
    let _c = alloc.allocate(256).unwrap();
    alloc.free(b);
    assert_eq!(alloc.available(), 512);
    // The two free spans are apart: no 512 bytes in one piece.
    assert!(alloc.allocate(512).is_none());
    let again = alloc.allocate(256).unwrap();
    assert_eq!(again.offset, 256);
    alloc.free(again);
    let last = alloc.allocate(256).unwrap();
    assert_eq!(last.offset, 256);
}

#[test]
fn a_slice_past_every_free_span_goes_before_the_last() {
    let mut alloc = DeviceAllocator::new(buffer(1024, 256, 0x10_0000));
    let a = alloc.allocate(512).unwrap();
    let b = alloc.allocate(512).unwrap();
    alloc.free(a);
    alloc.free(b);
    assert_eq!(alloc.available(), 1024);
    // The spans are [512, 1024) then [0, 512): neither holds 1024 bytes.
    assert!(alloc.allocate(1024).is_none());
    assert_eq!(alloc.allocate(512).unwrap().offset, 512);
}

#[test]
fn allocator_checks_before_calls() {
    let mut alloc = DeviceAllocator::new(buffer(1024, 256, 0x10_0000));
    assert!(buffer(1024, 256, 0).fits());
    assert!(!buffer(1024, 0, 0).fits());
    assert!(!buffer(16, 256, u64::MAX - 8).fits());
    assert!(alloc.can_allocate(100));
    assert!(!alloc.can_allocate(u64::MAX));
    assert!(alloc.can_take(buffer(1024, 256, 0x20_0000), 100));
    assert!(!alloc.can_take(buffer(1024, 256, 0x10_0200), 100));
    assert!(alloc.stats_fit());
    let _a = alloc.allocate(256).unwrap();
    assert!(alloc.allocate_in_new_chunk(buffer(4096, 256, 0x20_0000), 1024).is_some());
    // Two chunks free more bytes than the first chunk's size: used would underflow.
    assert_eq!(alloc.available(), 768 + 3072);
    assert!(!alloc.stats_fit());
}
