use kernel_core::paging::{
    PageDirectory, PageDirectoryEntry, PageTable, PageTableEntry, ENTRY_COUNT,
};

#[test]
fn new_directory_entry_is_empty() {
    let entry = PageDirectoryEntry::new();
    assert_eq!(entry.as_u32(), 0);
    assert!(!entry.is_present());
    assert!(!entry.is_user_writable());
    assert!(!entry.is_user_accessible());
    assert!(!entry.is_write_through());
    assert!(!entry.is_cache_disabled());
    assert!(!entry.has_been_accessed());
    assert!(!entry.is_4mb_page_size());
    assert_eq!(entry.get_page_table_address(), 0);
}

#[test]
fn directory_entry_flags_lie_at_their_bits() {
    let mut entry = PageDirectoryEntry::new();
    entry.set_present(true);
    assert_eq!(entry.as_u32(), 0x01);
    entry.set_user_writable(true);
    assert_eq!(entry.as_u32(), 0x03);
    entry.set_user_accessible(true);
    assert_eq!(entry.as_u32(), 0x07);
    entry.set_write_through(true);
    assert_eq!(entry.as_u32(), 0x0F);
    entry.set_cache_disabled(true);
    assert_eq!(entry.as_u32(), 0x1F);
    entry.set_4mb_page_size(true);
    assert_eq!(entry.as_u32(), 0x9F);
    assert!(entry.is_present());
    assert!(entry.is_user_writable());
    assert!(entry.is_user_accessible());
    assert!(entry.is_write_through());
    assert!(entry.is_cache_disabled());
    assert!(entry.is_4mb_page_size());
    assert!(!entry.has_been_accessed());
    entry.set_present(false);
    assert_eq!(entry.as_u32(), 0x9E);
    entry.clear_accessed();
    assert_eq!(entry.as_u32(), 0x9E);
}

#[test]
fn directory_entry_address_keeps_the_flags() {
    let mut entry = PageDirectoryEntry::new();
    entry.set_present(true);
    entry.set_user_accessible(true);
    entry.set_page_table_address(0x0012_3000);
    assert_eq!(entry.as_u32(), 0x0012_3005);
    assert_eq!(entry.get_page_table_address(), 0x0012_3000);
    assert!(entry.is_present());
    assert!(entry.is_user_accessible());
    entry.set_page_table_address(0xFFFF_F000);
    assert_eq!(entry.as_u32(), 0xFFFF_F005);
    entry.set_user_accessible(false);
    assert_eq!(entry.get_page_table_address(), 0xFFFF_F000);
    entry.set_page_table_address(0);
    assert_eq!(entry.as_u32(), 0x0000_0001);
}

#[test]
fn new_table_entry_is_empty() {
    let entry = PageTableEntry::new();
    assert_eq!(entry.as_u32(), 0);
    assert!(!entry.is_present());
    assert!(!entry.is_read_write());
    assert!(!entry.is_user_accessible());
    assert!(!entry.is_write_through());
    assert!(!entry.is_cache_disabled());
    assert!(!entry.has_been_accessed());
    assert!(!entry.is_dirty());
    assert!(!entry.is_global());
    assert_eq!(entry.get_frame_address(), 0);
}

#[test]
fn table_entry_flags_lie_at_their_bits() {
    let mut entry = PageTableEntry::new();
    entry.set_present(true);
    assert_eq!(entry.as_u32(), 0x001);
    entry.set_read_write(true);
    assert_eq!(entry.as_u32(), 0x003);
    entry.set_user_accessible(true);
    assert_eq!(entry.as_u32(), 0x007);
    entry.set_write_through(true);
    assert_eq!(entry.as_u32(), 0x00F);
    entry.set_cache_disabled(true);
    assert_eq!(entry.as_u32(), 0x01F);
    entry.set_global(true);
    assert_eq!(entry.as_u32(), 0x11F);
    assert!(entry.is_global());
    assert!(!entry.is_dirty());
    entry.clear_dirty();
    entry.clear_accessed();
    assert_eq!(entry.as_u32(), 0x11F);
    entry.set_global(false);
    entry.set_read_write(false);
    assert_eq!(entry.as_u32(), 0x01D);
}

#[test]
fn table_entry_address_keeps_the_flags() {
    let mut entry = PageTableEntry::new();
    entry.set_frame_address(0x00AB_C000);
    assert_eq!(entry.as_u32(), 0x00AB_C000);
    assert!(!entry.is_present());
    entry.set_present(true);
    entry.set_read_write(true);
    assert_eq!(entry.as_u32(), 0x00AB_C003);
    assert_eq!(entry.get_frame_address(), 0x00AB_C000);
    entry.set_frame_address(0x1000);
    assert_eq!(entry.as_u32(), 0x0000_1003);
}

#[test]
fn new_tables_have_1024_empty_entries() {
    let directory = PageDirectory::new();
    let table = PageTable::new();
    assert_eq!(ENTRY_COUNT, 1024);
    assert_eq!(directory.entries.len(), 1024);
    assert_eq!(table.entries.len(), 1024);
    for i in 0..1024 {
        assert_eq!(directory.entries[i].as_u32(), 0);
        assert_eq!(table.entries[i].as_u32(), 0);
    }
}

#[test]
fn tables_are_written_as_the_hardware_reads_them() {
    let mut directory = PageDirectory::new();
    directory.entries[0].set_present(true);
    directory.entries[0].set_page_table_address(0x0010_1000);
    directory.entries[1023].set_user_accessible(true);
    let mut frame = vec![0xFFFF_FFFFu32; 1024];
    directory.write_to(&mut frame);
    assert_eq!(frame[0], 0x0010_1001);
    assert_eq!(frame[1], 0);
    assert_eq!(frame[1023], 0x0000_0004);
    assert!(frame[1..1023].iter().all(|word| *word == 0));
    let mut table = PageTable::new();
    table.entries[7].set_frame_address(0x0000_7000);
    table.entries[7].set_read_write(true);
    table.write_to(&mut frame);
    assert_eq!(frame[7], 0x0000_7002);
    assert_eq!(frame[0], 0);
    assert_eq!(frame[1023], 0);
}
