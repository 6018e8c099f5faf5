//! The two levels of the translation structure: page directories and page
//! tables, with the hardware's layout of their entries.
//!
//! An entry is one 32-bit word. Bit 0 says whether the entry is present, bits
//! 1 to 8 are flags, and bits 12 to 31 hold the address of a frame, whose low
//! twelve bits are zero by construction.

use vstd::prelude::*;
use crate::util::BitOperations;
use crate::util::word::bit_of_u32;

verus! {

/// The number of entries in a page directory and in a page table.
pub const ENTRY_COUNT: usize = 1024;

/// The bits of an entry that hold a frame address.
pub const ADDRESS_BITS: u32 = 0xFFFF_F000;

/// The bits of a directory entry that no accessor reads or writes.
pub const DIRECTORY_SPARE_BITS: u32 = 0x0000_0F40;

/// The bits of a table entry that no accessor reads or writes.
pub const TABLE_SPARE_BITS: u32 = 0x0000_0E80;

/// The frame address that an entry word carries.
pub open spec fn word_address(word: u32) -> u32 {
    word & ADDRESS_BITS
}

/// Which bits the three masks select, and what the address mask does to an
/// aligned address.
proof fn lemma_entry_masks(word: u32)
    by (bit_vector)
    ensures
        forall|i: u8| i < 32 ==> #[trigger] bit_of_u32(0xFFFF_F000u32, i) == (i >= 12),
        forall|i: u8|
            i < 32 ==> #[trigger] bit_of_u32(0x0000_0F40u32, i) == (i == 6 || 8 <= i <= 11),
        forall|i: u8|
            i < 32 ==> #[trigger] bit_of_u32(0x0000_0E80u32, i) == (i == 7 || 9 <= i <= 11),
        forall|i: u8| i < 32 ==> !#[trigger] bit_of_u32(0u32, i),
        (word & 0xFFFF_F000u32) % 4096 == 0,
        word % 4096 == 0 <==> (word & 0xFFFF_F000u32) == word,
        word % 4096 == 0 ==> (forall|i: u8| i < 12 ==> !#[trigger] bit_of_u32(word, i)),
{
}

/// The bits of `a & b` are those set in both.
proof fn lemma_bits_of_and(a: u32, b: u32)
    by (bit_vector)
    ensures
        forall|i: u8|
            i < 32 ==> #[trigger] bit_of_u32(a & b, i) == (bit_of_u32(a, i) && bit_of_u32(b, i)),
{
}

/// Two words that agree on every bit of `mask` are equal under `mask`.
proof fn lemma_equal_under_mask(a: u32, b: u32, mask: u32)
    requires
        forall|i: u8| i < 32 && bit_of_u32(mask, i) ==> a.bit_at(i) == b.bit_at(i),
    ensures
        a & mask == b & mask,
{
    lemma_bits_of_and(a, mask);
    lemma_bits_of_and(b, mask);
    assert forall|i: u8| i < u32::bit_count() implies (a & mask).bit_at(i) == (b & mask).bit_at(
        i,
    ) by {
        assert(bit_of_u32(a & mask, i) == (bit_of_u32(a, i) && bit_of_u32(mask, i)));
        assert(bit_of_u32(b & mask, i) == (bit_of_u32(b, i) && bit_of_u32(mask, i)));
        if bit_of_u32(mask, i) {
            assert(a.bit_at(i) == b.bit_at(i));
        }
    }
    u32::lemma_bits_determine_value(a & mask, b & mask);
}

/// Nothing is left of the empty word under any mask.
proof fn lemma_no_bits_under_mask(mask: u32)
    by (bit_vector)
    ensures
        0u32 & mask == 0,
{
}

/// A word in which all bits but `index` are those of `before` keeps every
/// field that does not hold bit `index`.
proof fn lemma_flag_written(before: u32, after: u32, index: u8)
    requires
        index <= 8,
        forall|i: u8| i < 32 && i != index ==> after.bit_at(i) == before.bit_at(i),
    ensures
        after & ADDRESS_BITS == before & ADDRESS_BITS,
        index != 6 && index != 8 ==> after & DIRECTORY_SPARE_BITS == before & DIRECTORY_SPARE_BITS,
        index != 7 ==> after & TABLE_SPARE_BITS == before & TABLE_SPARE_BITS,
{
    lemma_entry_masks(0);
    lemma_equal_under_mask(after, before, ADDRESS_BITS);
    if index != 6 && index != 8 {
        lemma_equal_under_mask(after, before, DIRECTORY_SPARE_BITS);
    }
    if index != 7 {
        lemma_equal_under_mask(after, before, TABLE_SPARE_BITS);
    }
}

/// A word whose bits 12 to 31 are those of the aligned `address`, and whose
/// bits 0 to 11 are those of `before`, carries `address` and keeps the rest.
proof fn lemma_address_written(before: u32, after: u32, address: u32)
    requires
        address % 4096 == 0,
        forall|i: u8|
            i < 32 ==> after.bit_at(i) == if i >= 12 {
                address.bit_at(i)
            } else {
                before.bit_at(i)
            },
    ensures
        after & ADDRESS_BITS == address,
        after & DIRECTORY_SPARE_BITS == before & DIRECTORY_SPARE_BITS,
        after & TABLE_SPARE_BITS == before & TABLE_SPARE_BITS,
{
    lemma_entry_masks(address);
    lemma_equal_under_mask(after, address, ADDRESS_BITS);
    lemma_equal_under_mask(after, before, DIRECTORY_SPARE_BITS);
    lemma_equal_under_mask(after, before, TABLE_SPARE_BITS);
}

/// A page directory: the upper level, one entry for each 4 MiB of virtual addresses.
#[derive(Debug)]
pub struct PageDirectory {
    pub entries: [PageDirectoryEntry; 1024],
}

impl View for PageDirectory {
    type V = Seq<PageDirectoryEntryView>;

    /// What the entries say, in order.
    open spec fn view(&self) -> Seq<PageDirectoryEntryView> {
        Seq::new(ENTRY_COUNT as nat, |i: int| self.entries[i]@)
    }
}

impl PageDirectory {
    /// A page directory in which no entry is present.
    pub fn new() -> (table: Self)
        ensures
            table@ == Seq::new(ENTRY_COUNT as nat, |i: int| PageDirectoryEntryView::empty()),
    {
        let table = Self { entries: [PageDirectoryEntry::new();1024] };
        assert(table@ =~= Seq::new(ENTRY_COUNT as nat, |i: int| PageDirectoryEntryView::empty()));
        table
    }

    /// The entries as the hardware reads them, in order.
    pub open spec fn words(&self) -> Seq<u32> {
        Seq::new(ENTRY_COUNT as nat, |i: int| self.entries[i].word())
    }

    /// Writes the entries to `frame`, the memory of the frame that holds the
    /// page directory, as the hardware reads them.
    pub fn write_to(&self, frame: &mut [u32])
        requires
            old(frame)@.len() == ENTRY_COUNT,
        ensures
            final(frame)@ == self.words(),
    {
        let mut i: usize = 0;
        while i < ENTRY_COUNT
            invariant
                i <= ENTRY_COUNT,
                frame@.len() == ENTRY_COUNT,
                forall|j: int| 0 <= j < i ==> frame@[j] == self.entries[j].word(),
            decreases ENTRY_COUNT - i,
        {
            frame[i] = self.entries[i].as_u32();
            i += 1;
        }
        assert(frame@ =~= self.words());
    }
}

/// What an entry of a page directory says, field by field.
pub struct PageDirectoryEntryView {
    /// Whether the entry points to a page table.
    pub present: bool,
    /// Whether user code may write through the entry. The kernel may always.
    pub user_writable: bool,
    /// Whether user code may use the entry at all.
    pub user_accessible: bool,
    /// Whether writes through the entry go straight to memory.
    pub write_through: bool,
    /// Whether memory reached through the entry is kept out of the cache.
    pub cache_disabled: bool,
    /// Whether the processor has used the entry since the flag was last cleared.
    pub accessed: bool,
    /// Whether the entry maps one page of 4 MiB in place of a page table.
    pub page_size_4mb: bool,
    /// The address of the page table that the entry points to.
    pub page_table_address: u32,
    /// The bits without a meaning here, where they stand in the word.
    pub spare: u32,
}

/// One entry of a page directory.
#[derive(Debug, Copy, Clone)]
pub struct PageDirectoryEntry {
    value: u32,
}

impl PageDirectoryEntryView {
    /// What an entry says that is not present, has no flag set and no address.
    pub open spec fn empty() -> Self {
        PageDirectoryEntryView {
            present: false,
            user_writable: false,
            user_accessible: false,
            write_through: false,
            cache_disabled: false,
            accessed: false,
            page_size_4mb: false,
            page_table_address: 0,
            spare: 0,
        }
    }
}

impl View for PageDirectoryEntry {
    type V = PageDirectoryEntryView;

    open spec fn view(&self) -> PageDirectoryEntryView {
        PageDirectoryEntryView {
            present: self.word().bit_at(0),
            user_writable: self.word().bit_at(1),
            user_accessible: self.word().bit_at(2),
            write_through: self.word().bit_at(3),
            cache_disabled: self.word().bit_at(4),
            accessed: self.word().bit_at(5),
            page_size_4mb: self.word().bit_at(7),
            page_table_address: word_address(self.word()),
            spare: self.word() & DIRECTORY_SPARE_BITS,
        }
    }
}

impl PageDirectoryEntry {
    /// The entry as the hardware reads it.
    pub closed spec fn word(&self) -> u32 {
        self.value
    }

    /// An entry is settled by its fields.
    pub proof fn lemma_view_determines_word(a: Self, b: Self)
        requires
            a@ == b@,
        ensures
            a.word() == b.word(),
    {
        lemma_entry_masks(0);
        lemma_bits_of_and(a.word(), ADDRESS_BITS);
        lemma_bits_of_and(b.word(), ADDRESS_BITS);
        lemma_bits_of_and(a.word(), DIRECTORY_SPARE_BITS);
        lemma_bits_of_and(b.word(), DIRECTORY_SPARE_BITS);
        assert forall|i: u8| i < u32::bit_count() implies a.word().bit_at(i) == b.word().bit_at(
            i,
        ) by {
            if i >= 12 {
                assert(bit_of_u32(a.word() & ADDRESS_BITS, i) == bit_of_u32(a.word(), i));
                assert(bit_of_u32(b.word() & ADDRESS_BITS, i) == bit_of_u32(b.word(), i));
            } else if (i == 6 || 8 <= i) {
                assert(bit_of_u32(a.word() & DIRECTORY_SPARE_BITS, i) == bit_of_u32(a.word(), i));
                assert(bit_of_u32(b.word() & DIRECTORY_SPARE_BITS, i) == bit_of_u32(b.word(), i));
            }
        }
        u32::lemma_bits_determine_value(a.word(), b.word());
    }

    /// The address in a present entry is that of a frame.
    pub proof fn lemma_address_is_aligned(self)
        ensures
            self@.page_table_address % 4096 == 0,
    {
        lemma_entry_masks(self.word());
    }

    /// An entry that is not present, with no flag set and no address.
    pub fn new() -> (entry: Self)
        ensures
            entry.word() == 0,
            entry@ == PageDirectoryEntryView::empty(),
    {
        proof {
            lemma_entry_masks(0);
            lemma_no_bits_under_mask(ADDRESS_BITS);
            lemma_no_bits_under_mask(DIRECTORY_SPARE_BITS);
        }
        Self { value: 0 }
    }

    /// The entry as the hardware reads it.
    pub fn as_u32(&self) -> (word: u32)
        ensures
            word == self.word(),
    {
        self.value
    }

    /// Whether the entry points to a page table.
    pub fn is_present(&self) -> (set: bool)
        ensures
            set == self@.present,
    {
        self.value.get_bit(0)
    }

    /// Says whether the entry points to a page table.
    pub fn set_present(&mut self, value: bool)
        ensures
            final(self)@ == (PageDirectoryEntryView { present: value, ..old(self)@ }),
    {
        self.value.set_bit(0, value);
        proof {
            lemma_flag_written(old(self).value, self.value, 0);
        }
    }

    /// Whether user code may write through the entry. The kernel may always.
    pub fn is_user_writable(&self) -> (set: bool)
        ensures
            set == self@.user_writable,
    {
        self.value.get_bit(1)
    }

    /// Says whether user code may write through the entry.
    pub fn set_user_writable(&mut self, value: bool)
        ensures
            final(self)@ == (PageDirectoryEntryView { user_writable: value, ..old(self)@ }),
    {
        self.value.set_bit(1, value);
        proof {
            lemma_flag_written(old(self).value, self.value, 1);
        }
    }

    /// Whether user code may use the entry at all.
    pub fn is_user_accessible(&self) -> (set: bool)
        ensures
            set == self@.user_accessible,
    {
        self.value.get_bit(2)
    }

    /// Says whether user code may use the entry at all.
    pub fn set_user_accessible(&mut self, value: bool)
        ensures
            final(self)@ == (PageDirectoryEntryView { user_accessible: value, ..old(self)@ }),
    {
        self.value.set_bit(2, value);
        proof {
            lemma_flag_written(old(self).value, self.value, 2);
        }
    }

    /// Whether writes through the entry go straight to memory.
    pub fn is_write_through(&self) -> (set: bool)
        ensures
            set == self@.write_through,
    {
        self.value.get_bit(3)
    }

    /// Says whether writes through the entry go straight to memory.
    pub fn set_write_through(&mut self, value: bool)
        ensures
            final(self)@ == (PageDirectoryEntryView { write_through: value, ..old(self)@ }),
    {
        self.value.set_bit(3, value);
        proof {
            lemma_flag_written(old(self).value, self.value, 3);
        }
    }

    /// Whether memory reached through the entry is kept out of the cache.
    pub fn is_cache_disabled(&self) -> (set: bool)
        ensures
            set == self@.cache_disabled,
    {
        self.value.get_bit(4)
    }

    /// Says whether memory reached through the entry is kept out of the cache.
    pub fn set_cache_disabled(&mut self, value: bool)
        ensures
            final(self)@ == (PageDirectoryEntryView { cache_disabled: value, ..old(self)@ }),
    {
        self.value.set_bit(4, value);
        proof {
            lemma_flag_written(old(self).value, self.value, 4);
        }
    }

    /// Whether the processor has used the entry since the flag was last cleared.
    pub fn has_been_accessed(&self) -> (set: bool)
        ensures
            set == self@.accessed,
    {
        self.value.get_bit(5)
    }

    /// Forgets that the processor has used the entry.
    pub fn clear_accessed(&mut self)
        ensures
            final(self)@ == (PageDirectoryEntryView { accessed: false, ..old(self)@ }),
    {
        self.value.set_bit(5, false);
        proof {
            lemma_flag_written(old(self).value, self.value, 5);
        }
    }

    /// Whether the entry maps one page of 4 MiB in place of a page table.
    pub fn is_4mb_page_size(&self) -> (set: bool)
        ensures
            set == self@.page_size_4mb,
    {
        self.value.get_bit(7)
    }

    /// Says whether the entry maps one page of 4 MiB in place of a page table.
    pub fn set_4mb_page_size(&mut self, value: bool)
        ensures
            final(self)@ == (PageDirectoryEntryView { page_size_4mb: value, ..old(self)@ }),
    {
        self.value.set_bit(7, value);
        proof {
            lemma_flag_written(old(self).value, self.value, 7);
        }
    }

    /// The address of the page table that the entry points to.
    pub fn get_page_table_address(&self) -> (address: u32)
        ensures
            address == self@.page_table_address,
            address % 4096 == 0,
    {
        let address = self.value.get_bits_unshifted(12..=31);
        proof {
            lemma_entry_masks(self.value);
            lemma_bits_of_and(self.value, ADDRESS_BITS);
            assert forall|i: u8| i < u32::bit_count() implies address.bit_at(i) == (self.value
                & ADDRESS_BITS).bit_at(i) by {
                assert(address.bit_at(i) == (12 <= i <= 31 && self.value.bit_at(i)));
                assert(bit_of_u32(self.value & ADDRESS_BITS, i) == (bit_of_u32(self.value, i)
                    && bit_of_u32(ADDRESS_BITS, i)));
            }
            u32::lemma_bits_determine_value(address, self.value & ADDRESS_BITS);
        }
        address
    }

    /// Points the entry at the page table in the frame at `address`.
    pub fn set_page_table_address(&mut self, address: u32)
        requires
            address % 4096 == 0,
        ensures
            final(self)@ == (PageDirectoryEntryView { page_table_address: address, ..old(self)@ }),
    {
        let field = address.get_bits(12..=31);
        self.value.set_bits(12..=31, field);
        proof {
            assert forall|i: u8| i < 32 implies self.value.bit_at(i) == if i >= 12 {
                address.bit_at(i)
            } else {
                old(self).value.bit_at(i)
            } by {
                assert(self.value.bit_at(i) == if 12 <= i <= 31 {
                    field.bit_at((i - 12) as u8)
                } else {
                    old(self).value.bit_at(i)
                });
                if i >= 12 {
                    let j = (i - 12) as u8;
                    assert(field.bit_at(j) == (j + 12 <= 31 && address.bit_at((j + 12) as u8)));
                }
            }
            lemma_address_written(old(self).value, self.value, address);
        }
    }
}

/// A page table: the lower level, one entry for each page of 4 KiB.
#[derive(Debug)]
pub struct PageTable {
    pub entries: [PageTableEntry; 1024],
}

impl View for PageTable {
    type V = Seq<PageTableEntryView>;

    /// What the entries say, in order.
    open spec fn view(&self) -> Seq<PageTableEntryView> {
        Seq::new(ENTRY_COUNT as nat, |i: int| self.entries[i]@)
    }
}

impl PageTable {
    /// A page table in which no entry is present.
    pub fn new() -> (table: Self)
        ensures
            table@ == Seq::new(ENTRY_COUNT as nat, |i: int| PageTableEntryView::empty()),
    {
        let table = Self { entries: [PageTableEntry::new();1024] };
        assert(table@ =~= Seq::new(ENTRY_COUNT as nat, |i: int| PageTableEntryView::empty()));
        table
    }

    /// The entries as the hardware reads them, in order.
    pub open spec fn words(&self) -> Seq<u32> {
        Seq::new(ENTRY_COUNT as nat, |i: int| self.entries[i].word())
    }

    /// Writes the entries to `frame`, the memory of the frame that holds the
    /// page table, as the hardware reads them.
    pub fn write_to(&self, frame: &mut [u32])
        requires
            old(frame)@.len() == ENTRY_COUNT,
        ensures
            final(frame)@ == self.words(),
    {
        let mut i: usize = 0;
        while i < ENTRY_COUNT
            invariant
                i <= ENTRY_COUNT,
                frame@.len() == ENTRY_COUNT,
                forall|j: int| 0 <= j < i ==> frame@[j] == self.entries[j].word(),
            decreases ENTRY_COUNT - i,
        {
            frame[i] = self.entries[i].as_u32();
            i += 1;
        }
        assert(frame@ =~= self.words());
    }
}

/// What an entry of a page table says, field by field.
pub struct PageTableEntryView {
    /// Whether the entry points to a frame.
    pub present: bool,
    /// Whether the page may be written as well as read.
    pub read_write: bool,
    /// Whether user code may use the page.
    pub user_accessible: bool,
    /// Whether writes to the page go straight to memory.
    pub write_through: bool,
    /// Whether the page is kept out of the cache.
    pub cache_disabled: bool,
    /// Whether the processor has read the page since the flag was last cleared.
    pub accessed: bool,
    /// Whether the processor has written the page since the flag was last cleared.
    pub dirty: bool,
    /// Whether the translation outlives a change of address space.
    pub global: bool,
    /// The address of the frame that the entry points to.
    pub frame_address: u32,
    /// The bits without a meaning here, where they stand in the word.
    pub spare: u32,
}

/// One entry of a page table.
#[derive(Debug, Copy, Clone)]
pub struct PageTableEntry {
    value: u32,
}

impl PageTableEntryView {
    /// What an entry says that is not present, has no flag set and no address.
    pub open spec fn empty() -> Self {
        PageTableEntryView {
            present: false,
            read_write: false,
            user_accessible: false,
            write_through: false,
            cache_disabled: false,
            accessed: false,
            dirty: false,
            global: false,
            frame_address: 0,
            spare: 0,
        }
    }
}

impl View for PageTableEntry {
    type V = PageTableEntryView;

    open spec fn view(&self) -> PageTableEntryView {
        PageTableEntryView {
            present: self.word().bit_at(0),
            read_write: self.word().bit_at(1),
            user_accessible: self.word().bit_at(2),
            write_through: self.word().bit_at(3),
            cache_disabled: self.word().bit_at(4),
            accessed: self.word().bit_at(5),
            dirty: self.word().bit_at(6),
            global: self.word().bit_at(8),
            frame_address: word_address(self.word()),
            spare: self.word() & TABLE_SPARE_BITS,
        }
    }
}

impl PageTableEntry {
    /// The entry as the hardware reads it.
    pub closed spec fn word(&self) -> u32 {
        self.value
    }

    /// An entry is settled by its fields.
    pub proof fn lemma_view_determines_word(a: Self, b: Self)
        requires
            a@ == b@,
        ensures
            a.word() == b.word(),
    {
        lemma_entry_masks(0);
        lemma_bits_of_and(a.word(), ADDRESS_BITS);
        lemma_bits_of_and(b.word(), ADDRESS_BITS);
        lemma_bits_of_and(a.word(), TABLE_SPARE_BITS);
        lemma_bits_of_and(b.word(), TABLE_SPARE_BITS);
        assert forall|i: u8| i < u32::bit_count() implies a.word().bit_at(i) == b.word().bit_at(
            i,
        ) by {
            if i >= 12 {
                assert(bit_of_u32(a.word() & ADDRESS_BITS, i) == bit_of_u32(a.word(), i));
                assert(bit_of_u32(b.word() & ADDRESS_BITS, i) == bit_of_u32(b.word(), i));
            } else if (i == 7 || 9 <= i) {
                assert(bit_of_u32(a.word() & TABLE_SPARE_BITS, i) == bit_of_u32(a.word(), i));
                assert(bit_of_u32(b.word() & TABLE_SPARE_BITS, i) == bit_of_u32(b.word(), i));
            }
        }
        u32::lemma_bits_determine_value(a.word(), b.word());
    }

    /// The address in a present entry is that of a frame.
    pub proof fn lemma_address_is_aligned(self)
        ensures
            self@.frame_address % 4096 == 0,
    {
        lemma_entry_masks(self.word());
    }

    /// An entry that is not present, with no flag set and no address.
    pub fn new() -> (entry: Self)
        ensures
            entry.word() == 0,
            entry@ == PageTableEntryView::empty(),
    {
        proof {
            lemma_entry_masks(0);
            lemma_no_bits_under_mask(ADDRESS_BITS);
            lemma_no_bits_under_mask(TABLE_SPARE_BITS);
        }
        Self { value: 0 }
    }

    /// The entry as the hardware reads it.
    pub fn as_u32(&self) -> (word: u32)
        ensures
            word == self.word(),
    {
        self.value
    }

    /// Whether the entry points to a frame.
    pub fn is_present(&self) -> (set: bool)
        ensures
            set == self@.present,
    {
        self.value.get_bit(0)
    }

    /// Says whether the entry points to a frame.
    pub fn set_present(&mut self, value: bool)
        ensures
            final(self)@ == (PageTableEntryView { present: value, ..old(self)@ }),
    {
        self.value.set_bit(0, value);
        proof {
            lemma_flag_written(old(self).value, self.value, 0);
        }
    }

    /// Whether the page may be written as well as read.
    pub fn is_read_write(&self) -> (set: bool)
        ensures
            set == self@.read_write,
    {
        self.value.get_bit(1)
    }

    /// Says whether the page may be written as well as read.
    pub fn set_read_write(&mut self, value: bool)
        ensures
            final(self)@ == (PageTableEntryView { read_write: value, ..old(self)@ }),
    {
        self.value.set_bit(1, value);
        proof {
            lemma_flag_written(old(self).value, self.value, 1);
        }
    }

    /// Whether user code may use the page.
    pub fn is_user_accessible(&self) -> (set: bool)
        ensures
            set == self@.user_accessible,
    {
        self.value.get_bit(2)
    }

    /// Says whether user code may use the page.
    pub fn set_user_accessible(&mut self, value: bool)
        ensures
            final(self)@ == (PageTableEntryView { user_accessible: value, ..old(self)@ }),
    {
        self.value.set_bit(2, value);
        proof {
            lemma_flag_written(old(self).value, self.value, 2);
        }
    }

    /// Whether writes to the page go straight to memory.
    pub fn is_write_through(&self) -> (set: bool)
        ensures
            set == self@.write_through,
    {
        self.value.get_bit(3)
    }

    /// Says whether writes to the page go straight to memory.
    pub fn set_write_through(&mut self, value: bool)
        ensures
            final(self)@ == (PageTableEntryView { write_through: value, ..old(self)@ }),
    {
        self.value.set_bit(3, value);
        proof {
            lemma_flag_written(old(self).value, self.value, 3);
        }
    }

    /// Whether the page is kept out of the cache.
    pub fn is_cache_disabled(&self) -> (set: bool)
        ensures
            set == self@.cache_disabled,
    {
        self.value.get_bit(4)
    }

    /// Says whether the page is kept out of the cache.
    pub fn set_cache_disabled(&mut self, value: bool)
        ensures
            final(self)@ == (PageTableEntryView { cache_disabled: value, ..old(self)@ }),
    {
        self.value.set_bit(4, value);
        proof {
            lemma_flag_written(old(self).value, self.value, 4);
        }
    }

    /// Whether the processor has read the page since the flag was last cleared.
    pub fn has_been_accessed(&self) -> (set: bool)
        ensures
            set == self@.accessed,
    {
        self.value.get_bit(5)
    }

    /// Forgets that the processor has read the page.
    pub fn clear_accessed(&mut self)
        ensures
            final(self)@ == (PageTableEntryView { accessed: false, ..old(self)@ }),
    {
        self.value.set_bit(5, false);
        proof {
            lemma_flag_written(old(self).value, self.value, 5);
        }
    }

    /// Whether the processor has written the page since the flag was last cleared.
    pub fn is_dirty(&self) -> (set: bool)
        ensures
            set == self@.dirty,
    {
        self.value.get_bit(6)
    }

    /// Forgets that the processor has written the page.
    pub fn clear_dirty(&mut self)
        ensures
            final(self)@ == (PageTableEntryView { dirty: false, ..old(self)@ }),
    {
        self.value.set_bit(6, false);
        proof {
            lemma_flag_written(old(self).value, self.value, 6);
        }
    }

    /// Whether the translation outlives a change of address space.
    pub fn is_global(&self) -> (set: bool)
        ensures
            set == self@.global,
    {
        self.value.get_bit(8)
    }

    /// Says whether the translation outlives a change of address space.
    pub fn set_global(&mut self, value: bool)
        ensures
            final(self)@ == (PageTableEntryView { global: value, ..old(self)@ }),
    {
        self.value.set_bit(8, value);
        proof {
            lemma_flag_written(old(self).value, self.value, 8);
        }
    }

    /// The address of the frame that the entry points to.
    pub fn get_frame_address(&self) -> (address: u32)
        ensures
            address == self@.frame_address,
            address % 4096 == 0,
    {
        let address = self.value.get_bits_unshifted(12..=31);
        proof {
            lemma_entry_masks(self.value);
            lemma_bits_of_and(self.value, ADDRESS_BITS);
            assert forall|i: u8| i < u32::bit_count() implies address.bit_at(i) == (self.value
                & ADDRESS_BITS).bit_at(i) by {
                assert(address.bit_at(i) == (12 <= i <= 31 && self.value.bit_at(i)));
                assert(bit_of_u32(self.value & ADDRESS_BITS, i) == (bit_of_u32(self.value, i)
                    && bit_of_u32(ADDRESS_BITS, i)));
            }
            u32::lemma_bits_determine_value(address, self.value & ADDRESS_BITS);
        }
        address
    }

    /// Points the entry at the frame in the frame at `address`.
    pub fn set_frame_address(&mut self, address: u32)
        requires
            address % 4096 == 0,
        ensures
            final(self)@ == (PageTableEntryView { frame_address: address, ..old(self)@ }),
    {
        let field = address.get_bits(12..=31);
        self.value.set_bits(12..=31, field);
        proof {
            assert forall|i: u8| i < 32 implies self.value.bit_at(i) == if i >= 12 {
                address.bit_at(i)
            } else {
                old(self).value.bit_at(i)
            } by {
                assert(self.value.bit_at(i) == if 12 <= i <= 31 {
                    field.bit_at((i - 12) as u8)
                } else {
                    old(self).value.bit_at(i)
                });
                if i >= 12 {
                    let j = (i - 12) as u8;
                    assert(field.bit_at(j) == (j + 12 <= 31 && address.bit_at((j + 12) as u8)));
                }
            }
            lemma_address_written(old(self).value, self.value, address);
        }
    }
}

} // verus!
