use kernel_core::frame_allocator::{clear_frame, FrameAllocator, FRAME_COUNT, FRAME_SIZE};

#[test]
fn new_allocator_has_every_frame_free() {
    let allocator = FrameAllocator::new();
    assert!(allocator.get_frame_bit(0));
    assert!(allocator.get_frame_bit(4096));
    assert!(allocator.get_frame_bit(0x0010_0000));
    assert!(allocator.get_frame_bit(0xFFFF_F000));
}

#[test]
fn allocation_goes_up_from_the_lowest_frame() {
    let mut allocator = FrameAllocator::new();
    assert_eq!(allocator.allocate_frame(), Some(0));
    assert_eq!(allocator.allocate_frame(), Some(4096));
    assert_eq!(allocator.allocate_frame(), Some(8192));
    assert!(!allocator.get_frame_bit(0));
    assert!(!allocator.get_frame_bit(4096));
    assert!(!allocator.get_frame_bit(8192));
    assert!(allocator.get_frame_bit(12288));
}

#[test]
fn allocation_crosses_from_one_bitmap_byte_to_the_next() {
    let mut allocator = FrameAllocator::new();
    for number in 0..20u32 {
        assert_eq!(allocator.allocate_frame(), Some(number * FRAME_SIZE));
    }
}

#[test]
fn allocated_addresses_are_frame_aligned() {
    let mut allocator = FrameAllocator::new();
    allocator.mark_occupied(0);
    allocator.mark_occupied(3 * 4096);
    for _ in 0..100 {
        let address = allocator.allocate_frame().unwrap();
        assert_eq!(address % 4096, 0);
    }
}

#[test]
fn outstanding_frames_are_distinct() {
    let mut allocator = FrameAllocator::new();
    let mut held: Vec<u32> = Vec::new();
    for round in 0..200u32 {
        let address = allocator.allocate_frame().unwrap();
        assert!(!held.contains(&address));
        held.push(address);
        if round % 3 == 2 {
            let freed = held.remove((round as usize / 3) % held.len());
            allocator.free_frame(freed);
        }
    }
}

#[test]
fn freed_frame_is_handed_out_again() {
    let mut allocator = FrameAllocator::new();
    let first = allocator.allocate_frame().unwrap();
    let second = allocator.allocate_frame().unwrap();
    let third = allocator.allocate_frame().unwrap();
    assert_eq!((first, second, third), (0, 4096, 8192));
    allocator.free_frame(second);
    assert!(allocator.get_frame_bit(second));
    assert_eq!(allocator.allocate_frame(), Some(4096));
    assert_eq!(allocator.allocate_frame(), Some(12288));
}

#[test]
fn mark_occupied_takes_a_frame_out() {
    let mut allocator = FrameAllocator::new();
    allocator.mark_occupied(0);
    allocator.mark_occupied(4096);
    assert!(!allocator.get_frame_bit(0));
    assert!(!allocator.get_frame_bit(4096));
    assert_eq!(allocator.allocate_frame(), Some(8192));
}

#[test]
fn set_frame_bit_records_free_and_taken() {
    let mut allocator = FrameAllocator::new();
    allocator.set_frame_bit(0x5000, false);
    assert!(!allocator.get_frame_bit(0x5000));
    assert!(allocator.get_frame_bit(0x4000));
    assert!(allocator.get_frame_bit(0x6000));
    allocator.set_frame_bit(0x5000, true);
    assert!(allocator.get_frame_bit(0x5000));
}

#[test]
fn allocation_stays_above_the_kernel_image() {
    let mut allocator = FrameAllocator::new();
    let kernel_end: u32 = 0x0010_0000 + 5;
    let mut address: u32 = 0;
    while address < kernel_end {
        allocator.mark_occupied(address);
        address += 4096;
    }
    for _ in 0..50 {
        let frame = allocator.allocate_frame().unwrap();
        assert!(frame >= kernel_end);
    }
}

#[test]
fn mark_occupied_below_takes_the_frame_that_holds_the_end() {
    let mut allocator = FrameAllocator::new();
    allocator.mark_occupied_below(0x0010_0000 + 5);
    assert!(!allocator.get_frame_bit(0));
    assert!(!allocator.get_frame_bit(0x000F_F000));
    assert!(!allocator.get_frame_bit(0x0010_0000));
    assert!(allocator.get_frame_bit(0x0010_1000));
    assert_eq!(allocator.allocate_frame(), Some(0x0010_1000));
}

#[test]
fn mark_occupied_below_an_aligned_end_leaves_that_frame() {
    let mut allocator = FrameAllocator::new();
    allocator.mark_occupied_below(0x3000);
    assert_eq!(allocator.allocate_frame(), Some(0x3000));
    let mut untouched = FrameAllocator::new();
    untouched.mark_occupied_below(0);
    assert_eq!(untouched.allocate_frame(), Some(0));
}

#[test]
fn full_bitmap_is_exhausted() {
    let mut allocator = FrameAllocator::new();
    allocator.mark_occupied_below(u32::MAX);
    assert_eq!(allocator.allocate_frame(), None);
    assert_eq!(allocator.allocate_frame(), None);
}

#[test]
fn last_frame_is_handed_out_before_exhaustion() {
    let mut allocator = FrameAllocator::new();
    allocator.mark_occupied_below(0xFFFF_F000);
    assert_eq!(allocator.allocate_frame(), Some(0xFFFF_F000));
    assert_eq!(allocator.allocate_frame(), None);
    allocator.free_frame(0x7000);
    assert_eq!(allocator.allocate_frame(), Some(0x7000));
    assert_eq!(allocator.allocate_frame(), None);
}

#[test]
fn frame_count_covers_the_address_range() {
    assert_eq!(FRAME_COUNT as u64 * FRAME_SIZE as u64, 1u64 << 32);
}

#[test]
fn cleared_frame_holds_only_zeros() {
    let mut memory: Vec<u8> = (0..4096).map(|i| (i % 255) as u8 + 1).collect();
    clear_frame(&mut memory);
    assert_eq!(memory, vec![0u8; 4096]);
}

#[test]
fn can_allocate_counts_the_free_frames() {
    let mut allocator = FrameAllocator::new();
    assert!(allocator.can_allocate(0));
    assert!(allocator.can_allocate(1));
    assert!(allocator.can_allocate(1000));
    allocator.mark_occupied_below(0xFFFF_D000);
    assert!(allocator.can_allocate(3));
    assert!(!allocator.can_allocate(4));
    allocator.allocate_frame();
    assert!(allocator.can_allocate(2));
    assert!(!allocator.can_allocate(3));
    allocator.allocate_frame();
    allocator.allocate_frame();
    assert!(allocator.can_allocate(0));
    assert!(!allocator.can_allocate(1));
    allocator.free_frame(0x9000);
    assert!(allocator.can_allocate(1));
    assert!(!allocator.can_allocate(2));
}
