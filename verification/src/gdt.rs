//! The global descriptor table: the segments of the kernel and of user code,
//! and the descriptor of the task state segment.

use vstd::prelude::*;

verus! {

/// The greatest limit that a descriptor can hold: 20 bits.
pub const MAX_LIMIT: u32 = 0xFFFFF;

/// The number of descriptors in the table.
pub const DESCRIPTOR_COUNT: u16 = 6;

/// The size in bytes of a descriptor in memory.
pub const DESCRIPTOR_SIZE: u16 = 8;

/// The selector of the kernel's code segment.
pub const KERNEL_CODE_SELECTOR: u16 = 8;

/// The selector of the kernel's data segment.
pub const KERNEL_DATA_SELECTOR: u16 = 16;

/// The selector of the code segment of user code, at privilege level 3.
pub const USER_CODE_SELECTOR: u16 = 27;

/// The selector of the data segment of user code, at privilege level 3.
pub const USER_DATA_SELECTOR: u16 = 35;

/// The selector of the task state segment, at privilege level 3.
pub const TSS_SELECTOR: u16 = 43;

/// The selector of the descriptor at `index`, asked for at `privilege`.
pub open spec fn selector_of(index: u16, privilege: u16) -> int {
    index * 8 + privilege
}

/// The selector of the descriptor at `index` of the table, asked for at
/// privilege level `privilege`.
pub fn selector(index: u16, privilege: u16) -> (selector: u16)
    requires
        index < 8192,
        privilege < 4,
    ensures
        selector == selector_of(index, privilege),
{
    assert((index << 3u16) | privilege == index * 8 + privilege) by (bit_vector)
        requires
            index < 8192,
            privilege < 4,
    ;
    (index << 3) | privilege
}

/// One segment descriptor, as the processor reads it.
#[derive(Debug, Copy, Clone, PartialEq, Eq, Structural)]
pub struct Descriptor {
    pub limit_lo: u16,
    pub base_lo: u16,
    pub base_mi: u8,
    pub access: u8,
    pub flags_and_limit_hi: u8,
    pub base_hi: u8,
}

impl Descriptor {
    /// The descriptor of a segment that starts at `base` and has the limit
    /// `limit`: base and limit cut into the pieces that the processor wants,
    /// and the low four bits of `flags` above the high four bits of the limit.
    pub open spec fn encoded(base: u32, limit: u32, access: u8, flags: u8) -> Descriptor {
        Descriptor {
            limit_lo: (limit % 0x1_0000) as u16,
            base_lo: (base % 0x1_0000) as u16,
            base_mi: ((base / 0x1_0000) % 0x100) as u8,
            access,
            flags_and_limit_hi: ((flags % 16) * 16 + limit / 0x1_0000) as u8,
            base_hi: (base / 0x100_0000) as u8,
        }
    }

    /// The descriptor of a segment that starts at `base` and has the limit
    /// `limit`.
    pub fn new(base: u32, limit: u32, access: u8, flags: u8) -> (descriptor: Descriptor)
        requires
            limit <= MAX_LIMIT,
        ensures
            descriptor == Descriptor::encoded(base, limit, access, flags),
    {
        assert(limit as u16 == limit % 0x1_0000 && base as u16 == base % 0x1_0000 && (base
            >> 16u32) as u8 == (base / 0x1_0000) % 0x100 && (base >> 24u32) as u8 == base
            / 0x100_0000 && (flags << 4u8) | ((limit >> 16u32) as u8) == (flags % 16) * 16 + limit
            / 0x1_0000) by (bit_vector)
            requires
                limit <= 0xFFFFF,
        ;
        Descriptor {
            limit_lo: limit as u16,
            base_lo: base as u16,
            base_mi: (base >> 16) as u8,
            access,
            flags_and_limit_hi: (flags << 4) | (limit >> 16) as u8,
            base_hi: (base >> 24) as u8,
        }
    }
}

/// Where a descriptor table lies and how long it is, as the processor is told.
#[derive(Debug, Copy, Clone, PartialEq, Eq, Structural)]
pub struct DescriptorTablePointer {
    /// The size of the table in bytes, less one.
    pub size: u16,
    /// The address of the table.
    pub address: u32,
}

/// The global descriptor table.
#[derive(Debug, Copy, Clone)]
pub struct GlobalDescriptorTable {
    pub null_descriptor: Descriptor,
    pub code_segment: Descriptor,
    pub data_segment: Descriptor,
    pub user_code_segment: Descriptor,
    pub user_data_segment: Descriptor,
    pub tss_segment: Descriptor,
}

impl GlobalDescriptorTable {
    /// The table for a task state segment of `tss_size` bytes at `tss_base`.
    /// The four code and data segments span all of memory, those of the kernel
    /// at privilege level 0 and those of user code at level 3.
    pub fn new(tss_base: u32, tss_size: u32) -> (table: GlobalDescriptorTable)
        requires
            tss_size <= MAX_LIMIT,
        ensures
            table.null_descriptor == Descriptor::encoded(0, 0, 0, 0),
            table.code_segment == Descriptor::encoded(0, 0xFFFFF, 0x9A, 0xC),
            table.data_segment == Descriptor::encoded(0, 0xFFFFF, 0x92, 0xC),
            table.user_code_segment == Descriptor::encoded(0, 0xFFFFF, 0xFA, 0xC),
            table.user_data_segment == Descriptor::encoded(0, 0xFFFFF, 0xF2, 0xC),
            table.tss_segment == Descriptor::encoded(tss_base, tss_size, 0x89, 0x40),
    {
        GlobalDescriptorTable {
            null_descriptor: Descriptor::new(0, 0, 0, 0),
            code_segment: Descriptor::new(0, 0xFFFFF, 0x9A, 0xC),
            data_segment: Descriptor::new(0, 0xFFFFF, 0x92, 0xC),
            user_code_segment: Descriptor::new(0, 0xFFFFF, 0xFA, 0xC),
            user_data_segment: Descriptor::new(0, 0xFFFFF, 0xF2, 0xC),
            tss_segment: Descriptor::new(tss_base, tss_size, 0x89, 0x40),
        }
    }

    /// What the processor is told to make it use the table, once the table
    /// lies at `address`.
    pub fn pointer(address: u32) -> (pointer: DescriptorTablePointer)
        ensures
            pointer.size == DESCRIPTOR_COUNT * DESCRIPTOR_SIZE - 1,
            pointer.address == address,
    {
        DescriptorTablePointer { size: DESCRIPTOR_COUNT * DESCRIPTOR_SIZE - 1, address }
    }

    /// The selector that is loaded into the task register: the last
    /// descriptor of the table, at privilege level 3.
    pub fn tss_selector() -> (selector: u16)
        ensures
            selector == selector_of(5, 3),
            selector == TSS_SELECTOR,
    {
        selector(5, 3)
    }
}

} // verus!
