use kernel_core::frame_allocator::FrameAllocator;
use kernel_core::page_mapper::{
    create_initial_page_directory, create_page_table, directory_slot, map_page, table_slot,
    AddressSpace, KERNEL_TABLES, PD_ADDRESS, RECURSIVE_SLOT, TABLE_SPAN, TABLE_WINDOW,
};

fn booted() -> (FrameAllocator, AddressSpace) {
    let mut allocator = FrameAllocator::new();
    allocator.mark_occupied_below(0x0010_0000);
    let space = create_initial_page_directory(&mut allocator);
    (allocator, space)
}

#[test]
fn index_fields_of_a_virtual_address() {
    assert_eq!(directory_slot(0), 0);
    assert_eq!(table_slot(0), 0);
    assert_eq!(directory_slot(0x0040_0000), 1);
    assert_eq!(table_slot(0x0040_0000), 0);
    assert_eq!(directory_slot(0x0040_1FFF), 1);
    assert_eq!(table_slot(0x0040_1FFF), 1);
    assert_eq!(directory_slot(0xFFFF_FFFF), 1023);
    assert_eq!(table_slot(0xFFFF_FFFF), 1023);
    assert_eq!(directory_slot(0xFFC0_5000), 1023);
    assert_eq!(table_slot(0xFFC0_5000), 5);
}

#[test]
fn new_page_table_points_at_itself_in_its_last_slot() {
    let mut allocator = FrameAllocator::new();
    allocator.mark_occupied(0);
    let frame = create_page_table(&mut allocator);
    assert_eq!(frame.address, 0x1000);
    assert!(!allocator.get_frame_bit(0x1000));
    assert_eq!(frame.table.entries[RECURSIVE_SLOT].as_u32(), 0x1001);
    for i in 0..RECURSIVE_SLOT {
        assert_eq!(frame.table.entries[i].as_u32(), 0);
    }
    let next = create_page_table(&mut allocator);
    assert_eq!(next.address, 0x2000);
}

#[test]
fn initial_address_space_takes_the_lowest_free_frames() {
    let (allocator, space) = booted();
    assert_eq!(space.address(), 0x0010_0000);
    assert!(space.table(0x0010_1000).is_some());
    assert!(space.table(0x0010_2000).is_none());
    assert!(space.table(0x0010_0000).is_none());
    assert!(!allocator.get_frame_bit(0x0010_0000));
    assert!(!allocator.get_frame_bit(0x0010_1000));
    assert!(allocator.get_frame_bit(0x0010_2000));
    assert!(space.occupies(&allocator));
}

#[test]
fn initial_directory_is_open_to_user_code() {
    let (_, space) = booted();
    let directory = space.directory();
    for i in 0..1024 {
        assert!(directory.entries[i].is_user_accessible());
        assert!(directory.entries[i].is_user_writable());
        assert_eq!(directory.entries[i].is_present(), i < KERNEL_TABLES || i == RECURSIVE_SLOT);
    }
    assert_eq!(directory.entries[0].as_u32(), 0x0010_1007);
    assert_eq!(directory.entries[1].as_u32(), 0x0000_0006);
    assert_eq!(directory.entries[RECURSIVE_SLOT].as_u32(), 0x0010_0007);
}

#[test]
fn kernel_table_maps_memory_onto_itself() {
    let (_, space) = booted();
    let table = space.table(0x0010_1000).unwrap();
    for i in 0..1024u32 {
        let entry = &table.entries[i as usize];
        assert_eq!(entry.as_u32(), i * 4096 + 0x007);
    }
    assert_eq!(space.translate(0), Some(0));
    assert_eq!(space.translate(0x1234), Some(0x1234));
    assert_eq!(space.translate(0x000B_8000), Some(0x000B_8000));
    assert_eq!(space.translate(KERNEL_TABLES as u32 * TABLE_SPAN - 1), Some(0x003F_FFFF));
    assert_eq!(space.translate(KERNEL_TABLES as u32 * TABLE_SPAN), None);
    assert_eq!(space.translate(0x8000_0000), None);
}

#[test]
fn window_shows_the_directory_and_the_tables() {
    let (_, space) = booted();
    assert_eq!(space.translate(PD_ADDRESS), Some(space.address()));
    assert_eq!(space.translate(PD_ADDRESS + 0x10), Some(space.address() + 0x10));
    assert_eq!(space.translate(TABLE_WINDOW), Some(0x0010_1000));
    assert_eq!(space.translate(TABLE_WINDOW + 4), Some(0x0010_1004));
    assert_eq!(space.translate(TABLE_WINDOW + 4096), None);
}

#[test]
fn mapped_page_translates_to_its_frame() {
    let (mut allocator, mut space) = booted();
    map_page(&mut space, &mut allocator, 0x0080_0000, 0x0000_5000);
    assert_eq!(space.translate(0x0000_5000), Some(0x0080_0000));
    assert_eq!(space.translate(0x0000_5ABC), Some(0x0080_0ABC));
    assert_eq!(space.translate(0x0000_4000), Some(0x0000_4000));
    assert_eq!(space.translate(0x0000_6000), Some(0x0000_6000));
    assert!(allocator.get_frame_bit(0x0010_2000));
}

#[test]
fn mapping_makes_a_page_table_where_there_is_none() {
    let (mut allocator, mut space) = booted();
    assert_eq!(space.translate(0x1000_0000), None);
    assert!(!space.directory().entries[64].is_present());
    map_page(&mut space, &mut allocator, 0x0080_0000, 0x1000_0000);
    assert_eq!(space.translate(0x1000_0000), Some(0x0080_0000));
    assert_eq!(space.translate(0x1000_0FFF), Some(0x0080_0FFF));
    assert_eq!(space.translate(0x1000_1000), None);
    assert_eq!(space.directory().entries[64].as_u32(), 0x0010_2007);
    assert!(!allocator.get_frame_bit(0x0010_2000));
    assert!(allocator.get_frame_bit(0x0010_3000));
    let table = space.table(0x0010_2000).unwrap();
    assert_eq!(table.entries[0].as_u32(), 0x0080_0001);
    assert_eq!(table.entries[1].as_u32(), 0);
    assert_eq!(table.entries[RECURSIVE_SLOT].as_u32(), 0x0010_2001);
    assert_eq!(space.translate(0x1000_0000 + 1023 * 4096), Some(0x0010_2000));
    assert_eq!(space.translate(TABLE_WINDOW + 64 * 4096), Some(0x0010_2000));
    assert!(space.occupies(&allocator));
    map_page(&mut space, &mut allocator, 0x0090_0000, 0x1000_1000);
    assert_eq!(space.translate(0x1000_1000), Some(0x0090_0000));
    assert_eq!(space.translate(0x1000_0000), Some(0x0080_0000));
    assert!(allocator.get_frame_bit(0x0010_3000));
}

#[test]
fn mapping_holds_for_many_pages_and_frames() {
    let (mut allocator, mut space) = booted();
    let pairs: [(u32, u32); 8] = [
        (0x0000_0000, 0x0040_0000),
        (0xFFFF_F000, 0x0040_1000),
        (0x0012_3000, 0x7FFF_F000),
        (0x0050_0000, 0x8000_0000),
        (0x0050_0000, 0xC000_0000),
        (0x00AB_C000, 0xFFBF_F000),
        (0x0001_0000, 0x003F_F000),
        (0x0002_0000, 0x0000_0000),
    ];
    for (physical, virtual_address) in pairs.iter() {
        map_page(&mut space, &mut allocator, *physical, *virtual_address);
        assert_eq!(space.translate(*virtual_address), Some(*physical));
    }
    for (physical, virtual_address) in pairs.iter() {
        assert_eq!(space.translate(*virtual_address), Some(*physical));
        assert_eq!(space.translate(*virtual_address + 0x7FF), Some(*physical + 0x7FF));
    }
    assert!(space.occupies(&allocator));
}

#[test]
fn mapping_again_replaces_the_frame() {
    let (mut allocator, mut space) = booted();
    map_page(&mut space, &mut allocator, 0x0080_0000, 0x2000_0000);
    map_page(&mut space, &mut allocator, 0x0090_0000, 0x2000_0000);
    assert_eq!(space.translate(0x2000_0000), Some(0x0090_0000));
}

#[test]
fn mapping_through_the_window_writes_the_directory() {
    let (mut allocator, mut space) = booted();
    let kernel_table = 0x0010_1000;
    map_page(&mut space, &mut allocator, kernel_table, TABLE_WINDOW + 5 * 4096);
    assert_eq!(space.translate(TABLE_WINDOW + 5 * 4096), Some(kernel_table));
    assert_eq!(space.directory().entries[5].as_u32(), 0x0010_1007);
    assert_eq!(space.translate(5 * TABLE_SPAN + 0x3000), Some(0x3000));
    assert!(allocator.get_frame_bit(0x0010_2000));
    let own = space.address();
    map_page(&mut space, &mut allocator, own, PD_ADDRESS);
    assert_eq!(space.translate(PD_ADDRESS), Some(space.address()));
}

#[test]
fn address_space_whose_frame_is_free_does_not_occupy() {
    let (mut allocator, space) = booted();
    allocator.free_frame(0x0010_1000);
    assert!(!space.occupies(&allocator));
    allocator.mark_occupied(0x0010_1000);
    assert!(space.occupies(&allocator));
    allocator.free_frame(space.address());
    assert!(!space.occupies(&allocator));
}

#[test]
fn two_address_spaces_share_no_frame() {
    let mut allocator = FrameAllocator::new();
    let first = create_initial_page_directory(&mut allocator);
    let second = create_initial_page_directory(&mut allocator);
    assert_eq!(first.address(), 0);
    assert!(first.table(0x1000).is_some());
    assert_eq!(second.address(), 0x2000);
    assert!(second.table(0x3000).is_some());
    assert!(second.table(0x1000).is_none());
    assert_eq!(first.translate(0x5123), Some(0x5123));
    assert_eq!(second.translate(0x5123), Some(0x5123));
    assert_eq!(second.translate(PD_ADDRESS), Some(0x2000));
}
