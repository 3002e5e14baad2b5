use kernel::allocator::{init_heap, AllocError, BumpAllocator, HEAP_SIZE};

#[test]
fn first_allocation_survives_failed_large_request() {
    let base: usize = 0x1000_0000;
    let mut heap = init_heap(base);
    assert_eq!(heap.capacity(), 102400);
    assert_eq!(HEAP_SIZE, 102400);
    let first = heap.allocate(16, 8);
    assert_eq!(first, Ok(base));
    // 16 + 100000 still fits in 102400 bytes, so the arena grants it;
    // a request past the end is refused.
    let mut probe = init_heap(base);
    assert_eq!(probe.allocate(16, 8), Ok(base));
    assert_eq!(probe.allocate(100000, 8), Ok(base + 16));
    assert_eq!(heap.allocate(102390, 8), Err(AllocError::OutOfMemory));
    assert_eq!(heap.offset(), 16);
    assert_eq!(first, Ok(base));
    assert_eq!(heap.allocate(8, 8), Ok(base + 16));
}

#[test]
fn failed_request_leaves_offset_and_smaller_ones_succeed() {
    let mut heap = BumpAllocator::new(0, 64);
    assert_eq!(heap.allocate(10, 1), Ok(0));
    assert_eq!(heap.allocate(60, 4), Err(AllocError::OutOfMemory));
    assert_eq!(heap.offset(), 10);
    assert_eq!(heap.allocate(20, 4), Ok(12));
    assert_eq!(heap.offset(), 32);
}

#[test]
fn addresses_are_aligned_disjoint_and_increasing() {
    let base: usize = 0x4000;
    let mut heap = BumpAllocator::new(base, 4096);
    let reqs: [(usize, usize); 6] = [(3, 1), (8, 8), (1, 2), (100, 64), (7, 4), (0, 16)];
    let mut prev_end: usize = base;
    for (size, align) in reqs.iter().copied() {
        let addr = heap.allocate(size, align).unwrap();
        assert_eq!(addr % align, 0);
        assert!(addr >= prev_end);
        prev_end = addr + size;
    }
    assert_eq!(heap.offset(), prev_end - base);
}

#[test]
fn alignment_padding_is_counted() {
    let mut heap = BumpAllocator::new(0, 100);
    assert_eq!(heap.allocate(3, 1), Ok(0));
    assert_eq!(heap.allocate(4, 8), Ok(8));
    assert_eq!(heap.offset(), 12);
}

#[test]
fn exact_fit_succeeds_and_one_more_byte_fails() {
    let mut heap = BumpAllocator::new(0, 32);
    assert_eq!(heap.allocate(32, 1), Ok(0));
    assert_eq!(heap.allocate(1, 1), Err(AllocError::OutOfMemory));
    assert_eq!(heap.allocate(0, 1), Ok(32));
}

#[test]
fn padding_past_capacity_fails() {
    let mut heap = BumpAllocator::new(0, 20);
    assert_eq!(heap.allocate(17, 1), Ok(0));
    assert_eq!(heap.allocate(0, 32), Err(AllocError::OutOfMemory));
    assert_eq!(heap.offset(), 17);
}

#[test]
fn deallocate_is_a_no_op() {
    let mut heap = BumpAllocator::new(0, 64);
    let a = heap.allocate(16, 8).unwrap();
    heap.deallocate(a);
    assert_eq!(heap.offset(), 16);
    assert_eq!(heap.allocate(16, 8), Ok(16));
}
