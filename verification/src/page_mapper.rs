//! Address spaces: a page directory, the page tables it points to, and the
//! frames that hold them.
//!
//! The last slot of every directory points back at the directory itself. With
//! that slot in place the processor shows the directory, read as a page table,
//! at the top of the virtual addresses, and below it each page table that the
//! directory points to. An address space keeps its directory and tables by the
//! address of their frames, and resolves an address the same way, so that a
//! mapping made through that window lands where the processor would put it.

use vstd::prelude::*;
use crate::frame_allocator::{
    allocation, allocations, free_after, frame_of, is_frame_address, is_lowest_free,
    lemma_allocations_differ, lowest_free, FrameAllocator, FRAME_COUNT,
};
use crate::paging::{
    PageDirectory, PageDirectoryEntryView, PageTable, PageTableEntryView, ENTRY_COUNT,
};
use crate::util::BitOperations;
use crate::util::word::bit_of_u32;

verus! {

/// The directory slot that points back at the directory.
pub const RECURSIVE_SLOT: usize = 1023;

/// The virtual address at which an address space shows its own directory.
pub const PD_ADDRESS: u32 = 0xFFFF_F000;

/// The virtual address at which an address space shows its page tables, one
/// page for each directory slot.
pub const TABLE_WINDOW: u32 = 0xFFC0_0000;

/// The number of bytes that one page table maps.
pub const TABLE_SPAN: u32 = 0x0040_0000;

/// The number of page tables that map the kernel's memory onto itself.
pub const KERNEL_TABLES: usize = 1;

/// The directory slot that translates `virtual_address`: bits 22 to 31.
pub open spec fn directory_index(virtual_address: u32) -> int {
    virtual_address as int / 0x0040_0000
}

/// The page table slot that translates `virtual_address`: bits 12 to 21.
pub open spec fn table_index(virtual_address: u32) -> int {
    (virtual_address as int / 4096) % 1024
}

/// What a new page table says: nothing but its own frame, in its last slot.
pub open spec fn fresh_table(address: u32) -> Seq<PageTableEntryView> {
    Seq::new(
        ENTRY_COUNT as nat,
        |i: int|
            if i == RECURSIVE_SLOT {
                PageTableEntryView {
                    present: true,
                    frame_address: address,
                    ..PageTableEntryView::empty()
                }
            } else {
                PageTableEntryView::empty()
            },
    )
}

/// What a directory slot of a new address space says: open to user code,
/// and pointing to `address` if it is present.
pub open spec fn open_slot(present: bool, address: u32) -> PageDirectoryEntryView {
    PageDirectoryEntryView {
        present,
        user_writable: true,
        user_accessible: true,
        page_table_address: address,
        ..PageDirectoryEntryView::empty()
    }
}

/// What `entry` says once it is present, writable and open to user code.
pub open spec fn opened(entry: PageTableEntryView) -> PageTableEntryView {
    PageTableEntryView { present: true, read_write: true, user_accessible: true, ..entry }
}

/// What the page table says that maps the `number`-th 4 MiB of memory onto
/// itself, for the kernel and for user code.
pub open spec fn kernel_table(number: int) -> Seq<PageTableEntryView> {
    Seq::new(
        ENTRY_COUNT as nat,
        |i: int|
            opened(
                PageTableEntryView {
                    frame_address: ((number * 1024 + i) * 4096) as u32,
                    ..PageTableEntryView::empty()
                },
            ),
    )
}

/// A page table and the frame that holds it.
pub struct TableFrame {
    pub address: u32,
    pub table: PageTable,
}

/// An address space as the processor reads it.
pub struct AddressSpaceView {
    /// The address of the frame that holds the directory.
    pub address: u32,
    /// What the directory says.
    pub directory: Seq<PageDirectoryEntryView>,
    /// What each page table says, by the address of its frame.
    pub tables: Map<u32, Seq<PageTableEntryView>>,
}

impl AddressSpaceView {
    /// Whether the frame at `address` holds the directory or a page table.
    pub open spec fn holds_frame(self, address: u32) -> bool {
        address == self.address || self.tables.dom().contains(address)
    }

    /// The directory and the page tables lie in frames of their own.
    pub open spec fn wf(self) -> bool {
        &&& is_frame_address(self.address)
        &&& self.directory.len() == ENTRY_COUNT
        &&& !self.tables.dom().contains(self.address)
        &&& forall|address: u32| #[trigger]
            self.tables.dom().contains(address) ==> is_frame_address(address)
                && self.tables[address].len() == ENTRY_COUNT
    }

    /// No frame of the address space is free in `free`.
    pub open spec fn occupies(self, free: Set<nat>) -> bool {
        forall|address: u32| #[trigger]
            self.holds_frame(address) ==> !free.contains(frame_of(address))
    }

    /// Whether directory slot `slot` is empty or points to a frame of this
    /// address space.
    pub open spec fn resolves(self, slot: int) -> bool {
        self.directory[slot].present ==> self.holds_frame(self.directory[slot].page_table_address)
    }

    /// Whether the last directory slot points back at the directory.
    pub open spec fn is_recursive(self) -> bool {
        &&& self.directory[RECURSIVE_SLOT as int].present
        &&& self.directory[RECURSIVE_SLOT as int].page_table_address == self.address
    }

    /// Slot `index` of the frame at `frame` read as a page table: whether it
    /// is present, and the address it carries. The directory's own frame reads
    /// as a page table too.
    pub open spec fn lower_entry(self, frame: u32, index: int) -> Option<(bool, u32)> {
        if frame == self.address {
            Some((self.directory[index].present, self.directory[index].page_table_address))
        } else if self.tables.dom().contains(frame) {
            Some((self.tables[frame][index].present, self.tables[frame][index].frame_address))
        } else {
            None
        }
    }

    /// The physical address that `virtual_address` translates to: from the
    /// directory slot to a page table, from the table slot to a frame, and
    /// from there by the offset in the page. `None` where a slot on the way is
    /// not present, or points outside the address space.
    pub open spec fn translate(self, virtual_address: u32) -> Option<u32> {
        let upper = self.directory[directory_index(virtual_address)];
        if !upper.present {
            None
        } else {
            match self.lower_entry(upper.page_table_address, table_index(virtual_address)) {
                Some((true, frame)) => Some((frame + virtual_address % 4096) as u32),
                _ => None,
            }
        }
    }

    /// Whether a mapping of `virtual_address` to `physical_address` would
    /// overwrite the directory slot that it is reached through. This takes a
    /// virtual address whose directory slot points back at the directory and
    /// whose table slot is that same slot, as the last page of the virtual
    /// addresses is in a new address space.
    pub open spec fn displaces_own_slot(self, physical_address: u32, virtual_address: u32) -> bool {
        let slot = directory_index(virtual_address);
        &&& self.directory[slot].present
        &&& self.directory[slot].page_table_address == self.address
        &&& table_index(virtual_address) == slot
        &&& physical_address != self.address
    }

    /// The address space with directory slot `slot` pointing to a new page
    /// table in the frame at `fresh`.
    pub open spec fn with_table(self, slot: int, fresh: u32) -> AddressSpaceView {
        AddressSpaceView {
            directory: self.directory.update(
                slot,
                PageDirectoryEntryView {
                    present: true,
                    page_table_address: fresh,
                    ..self.directory[slot]
                },
            ),
            tables: self.tables.insert(fresh, fresh_table(fresh)),
            ..self
        }
    }

    /// The address space with slot `index` of the frame at `frame` present and
    /// carrying `physical_address`.
    pub open spec fn with_entry(self, frame: u32, index: int, physical_address: u32) -> AddressSpaceView {
        if frame == self.address {
            AddressSpaceView {
                directory: self.directory.update(
                    index,
                    PageDirectoryEntryView {
                        present: true,
                        page_table_address: physical_address,
                        ..self.directory[index]
                    },
                ),
                ..self
            }
        } else {
            AddressSpaceView {
                tables: self.tables.insert(
                    frame,
                    self.tables[frame].update(
                        index,
                        PageTableEntryView {
                            present: true,
                            frame_address: physical_address,
                            ..self.tables[frame][index]
                        },
                    ),
                ),
                ..self
            }
        }
    }

    /// The address space after `virtual_address` was mapped to
    /// `physical_address`, where `fresh` is the frame for the page table if the
    /// directory slot had none.
    pub open spec fn with_mapping(
        self,
        fresh: u32,
        physical_address: u32,
        virtual_address: u32,
    ) -> AddressSpaceView {
        let slot = directory_index(virtual_address);
        let installed = if self.directory[slot].present {
            self
        } else {
            self.with_table(slot, fresh)
        };
        installed.with_entry(
            installed.directory[slot].page_table_address,
            table_index(virtual_address),
            physical_address,
        )
    }
}

/// How the index fields of a virtual address lie in its bits.
proof fn lemma_index_fields(virtual_address: u32)
    by (bit_vector)
    ensures
        forall|i: u8|
            i < 32 ==> #[trigger] bit_of_u32(virtual_address >> 22, i) == (i + 22 < 32
                && bit_of_u32(virtual_address, (i + 22) as u8)),
        forall|i: u8|
            i < 32 ==> #[trigger] bit_of_u32((virtual_address >> 12) & 0x3FF, i) == (i < 10
                && bit_of_u32(virtual_address, (i + 12) as u8)),
        virtual_address >> 22 == virtual_address / 0x0040_0000,
        (virtual_address >> 12) & 0x3FF == (virtual_address / 4096) % 1024,
{
}

/// The directory slot that translates `virtual_address`.
pub fn directory_slot(virtual_address: u32) -> (slot: usize)
    ensures
        slot == directory_index(virtual_address),
        slot < ENTRY_COUNT,
{
    let bits = virtual_address.get_bits(22..=31);
    proof {
        lemma_index_fields(virtual_address);
        assert forall|i: u8| i < u32::bit_count() implies bits.bit_at(i) == (virtual_address
            >> 22).bit_at(i) by {
            assert(bit_of_u32(virtual_address >> 22, i) == (i + 22 < 32 && bit_of_u32(
                virtual_address,
                (i + 22) as u8,
            )));
        }
        u32::lemma_bits_determine_value(bits, virtual_address >> 22);
    }
    bits as usize
}

/// The page table slot that translates `virtual_address`.
pub fn table_slot(virtual_address: u32) -> (slot: usize)
    ensures
        slot == table_index(virtual_address),
        slot < ENTRY_COUNT,
{
    let bits = virtual_address.get_bits(12..=21);
    proof {
        lemma_index_fields(virtual_address);
        assert forall|i: u8| i < u32::bit_count() implies bits.bit_at(i) == ((virtual_address
            >> 12) & 0x3FF).bit_at(i) by {
            assert(bit_of_u32((virtual_address >> 12) & 0x3FF, i) == (i < 10 && bit_of_u32(
                virtual_address,
                (i + 12) as u8,
            )));
        }
        u32::lemma_bits_determine_value(bits, (virtual_address >> 12) & 0x3FF);
    }
    bits as usize
}

/// Whether one of `frames` lies at `address`.
spec fn holds(frames: Seq<TableFrame>, address: u32) -> bool {
    exists|i: int| 0 <= i < frames.len() && #[trigger] frames[i].address == address
}

/// Where among `frames` the one at `address` stands.
spec fn position(frames: Seq<TableFrame>, address: u32) -> int {
    choose|i: int| 0 <= i < frames.len() && #[trigger] frames[i].address == address
}

/// No two of `frames` lie at the same address.
spec fn distinct(frames: Seq<TableFrame>) -> bool {
    forall|i: int, j: int|
        0 <= i < j < frames.len() ==> #[trigger] frames[i].address != #[trigger] frames[j].address
}

/// What the page tables in `frames` say, by address.
spec fn table_map(frames: Seq<TableFrame>) -> Map<u32, Seq<PageTableEntryView>> {
    Map::new(|address: u32| holds(frames, address), |address: u32| frames[position(frames, address)].table@)
}

/// Among distinct frames, each is found at its own position.
proof fn lemma_position(frames: Seq<TableFrame>, i: int)
    requires
        distinct(frames),
        0 <= i < frames.len(),
    ensures
        holds(frames, frames[i].address),
        position(frames, frames[i].address) == i,
        table_map(frames)[frames[i].address] == frames[i].table@,
{
    let found = position(frames, frames[i].address);
    assert(0 <= found < frames.len() && frames[found].address == frames[i].address);
    if found < i {
        assert(frames[found].address != frames[i].address);
    } else if i < found {
        assert(frames[i].address != frames[found].address);
    }
}

/// A frame at a new address adds its own table and leaves the others.
proof fn lemma_table_map_push(frames: Seq<TableFrame>, frame: TableFrame)
    requires
        distinct(frames),
        !holds(frames, frame.address),
    ensures
        distinct(frames.push(frame)),
        table_map(frames.push(frame)) == table_map(frames).insert(frame.address, frame.table@),
{
    let longer = frames.push(frame);
    assert forall|i: int, j: int| 0 <= i < j < longer.len() implies #[trigger] longer[i].address
        != #[trigger] longer[j].address by {
        if j == frames.len() {
            assert(frames[i].address != frame.address);
        } else {
            assert(frames[i].address != frames[j].address);
        }
    }
    assert forall|address: u32| holds(longer, address) <==> (holds(frames, address) || address
        == frame.address) by {
        if holds(frames, address) {
            let i = position(frames, address);
            assert(longer[i].address == address);
        }
        if address == frame.address {
            assert(longer[frames.len() as int].address == address);
        }
        if holds(longer, address) {
            let i = position(longer, address);
            if i < frames.len() {
                assert(frames[i].address == address);
            }
        }
    }
    assert forall|address: u32| holds(longer, address) implies #[trigger] table_map(longer)[address]
        == table_map(frames).insert(frame.address, frame.table@)[address] by {
        let i = position(longer, address);
        lemma_position(longer, i);
        if i < frames.len() {
            assert(frames[i].address == address);
            lemma_position(frames, i);
        }
    }
    assert(table_map(longer) =~= table_map(frames).insert(frame.address, frame.table@));
}

/// A frame that changes its table and keeps its address changes its own
/// table and leaves the others.
proof fn lemma_table_map_update(frames: Seq<TableFrame>, i: int, frame: TableFrame)
    requires
        distinct(frames),
        0 <= i < frames.len(),
        frame.address == frames[i].address,
    ensures
        distinct(frames.update(i, frame)),
        table_map(frames.update(i, frame)) == table_map(frames).insert(frame.address, frame.table@),
{
    let changed = frames.update(i, frame);
    assert forall|j: int, k: int| 0 <= j < k < changed.len() implies #[trigger] changed[j].address
        != #[trigger] changed[k].address by {
        assert(frames[j].address != frames[k].address);
    }
    assert forall|address: u32| holds(changed, address) <==> holds(frames, address) by {
        if holds(frames, address) {
            let j = position(frames, address);
            assert(changed[j].address == address);
        }
        if holds(changed, address) {
            let j = position(changed, address);
            assert(frames[j].address == address);
        }
    }
    lemma_position(frames, i);
    assert forall|address: u32| holds(changed, address) implies #[trigger] table_map(changed)[address]
        == table_map(frames).insert(frame.address, frame.table@)[address] by {
        let j = position(changed, address);
        lemma_position(changed, j);
        assert(frames[j].address == address);
        lemma_position(frames, j);
    }
    assert(table_map(changed) =~= table_map(frames).insert(frame.address, frame.table@));
}

/// A page directory with the page tables it points to, which together say
/// which physical address each virtual address stands for while a task runs.
pub struct AddressSpace {
    address: u32,
    directory: PageDirectory,
    tables: Vec<TableFrame>,
}

impl View for AddressSpace {
    type V = AddressSpaceView;

    closed spec fn view(&self) -> AddressSpaceView {
        AddressSpaceView {
            address: self.address,
            directory: self.directory@,
            tables: table_map(self.tables@),
        }
    }
}

impl AddressSpace {
    /// The directory and the page tables lie in frames of their own.
    pub closed spec fn wf(&self) -> bool {
        &&& distinct(self.tables@)
        &&& self@.wf()
    }

    /// A well-formed address space reads as one.
    pub proof fn lemma_view_is_well_formed(&self)
        requires
            self.wf(),
        ensures
            self@.wf(),
    {
    }

    /// The address of the frame that holds the directory: what the
    /// processor's translation base is set to while a task of this address
    /// space runs.
    pub fn address(&self) -> (address: u32)
        ensures
            address == self@.address,
            self.wf() ==> is_frame_address(address),
    {
        self.address
    }

    /// The page directory.
    pub fn directory(&self) -> (directory: &PageDirectory)
        ensures
            directory@ == self@.directory,
    {
        &self.directory
    }

    /// The page table in the frame at `address`, if this address space has one
    /// there.
    pub fn table(&self, address: u32) -> (table: Option<&PageTable>)
        requires
            self.wf(),
        ensures
            match table {
                Some(table) => self@.tables.dom().contains(address) && table@
                    == self@.tables[address],
                None => !self@.tables.dom().contains(address),
            },
    {
        match self.find_table(address) {
            Some(i) => {
                proof {
                    lemma_position(self.tables@, i as int);
                }
                Some(&self.tables[i].table)
            },
            None => None,
        }
    }

    /// Where the page table in the frame at `address` is kept.
    fn find_table(&self, address: u32) -> (found: Option<usize>)
        ensures
            match found {
                Some(i) => i < self.tables.len() && self.tables[i as int].address == address,
                None => !holds(self.tables@, address),
            },
    {
        let mut i: usize = 0;
        while i < self.tables.len()
            invariant
                i <= self.tables.len(),
                forall|j: int| 0 <= j < i ==> self.tables[j].address != address,
            decreases self.tables.len() - i,
        {
            if self.tables[i].address == address {
                return Some(i);
            }
            i += 1;
        }
        None
    }

    /// Whether no frame of this address space is free in `allocator`.
    pub fn occupies(&self, allocator: &FrameAllocator) -> (occupied: bool)
        requires
            self.wf(),
        ensures
            occupied == self@.occupies(allocator@),
    {
        if allocator.get_frame_bit(self.address) {
            assert(self@.holds_frame(self.address));
            return false;
        }
        let mut i: usize = 0;
        while i < self.tables.len()
            invariant
                i <= self.tables.len(),
                self.wf(),
                !allocator@.contains(frame_of(self.address)),
                forall|j: int|
                    0 <= j < i ==> !allocator@.contains(
                        frame_of(#[trigger] self.tables[j].address),
                    ),
            decreases self.tables.len() - i,
        {
            proof {
                lemma_position(self.tables@, i as int);
                assert(self@.tables.dom().contains(self.tables[i as int].address));
            }
            if allocator.get_frame_bit(self.tables[i].address) {
                assert(self@.holds_frame(self.tables[i as int].address));
                return false;
            }
            i += 1;
        }
        proof {
            assert forall|address: u32| #[trigger] self@.holds_frame(address) implies !allocator@.contains(
                frame_of(address),
            ) by {
                if address != self.address {
                    let j = position(self.tables@, address);
                    assert(self.tables[j].address == address);
                }
            }
        }
        true
    }

    /// The physical address that `virtual_address` translates to, or `None`
    /// where the address is not mapped.
    pub fn translate(&self, virtual_address: u32) -> (physical_address: Option<u32>)
        requires
            self.wf(),
        ensures
            physical_address == self@.translate(virtual_address),
    {
        let slot = directory_slot(virtual_address);
        let index = table_slot(virtual_address);
        if !self.directory.entries[slot].is_present() {
            return None;
        }
        let frame = self.directory.entries[slot].get_page_table_address();
        let present: bool;
        let target: u32;
        if frame == self.address {
            present = self.directory.entries[index].is_present();
            target = self.directory.entries[index].get_page_table_address();
        } else {
            match self.find_table(frame) {
                Some(i) => {
                    proof {
                        lemma_position(self.tables@, i as int);
                    }
                    present = self.tables[i].table.entries[index].is_present();
                    target = self.tables[i].table.entries[index].get_frame_address();
                },
                None => {
                    return None;
                },
            }
        }
        if present {
            let offset = virtual_address % 4096;
            assert(target <= 0xFFFF_F000) by {
                assert(target % 4096 == 0);
            }
            Some(target + offset)
        } else {
            None
        }
    }
}

/// What the directory of a new address space says: every slot open to user
/// code, the first `KERNEL_TABLES` slots pointing to the kernel's page tables
/// in the frames at `tables`, and the last slot pointing back at `address`.
pub open spec fn initial_directory(address: u32, tables: Seq<u32>) -> Seq<PageDirectoryEntryView> {
    Seq::new(
        ENTRY_COUNT as nat,
        |i: int|
            if i == RECURSIVE_SLOT {
                open_slot(true, address)
            } else if i < KERNEL_TABLES {
                open_slot(true, tables[i])
            } else {
                open_slot(false, 0)
            },
    )
}

/// What a new address space says, with its directory in the frame at `address`
/// and the kernel's page tables in the frames at `tables`.
pub open spec fn initial_space(address: u32, tables: Seq<u32>) -> AddressSpaceView {
    AddressSpaceView {
        address,
        directory: initial_directory(address, tables),
        tables: Map::new(
            |frame: u32| exists|i: int| 0 <= i < KERNEL_TABLES && #[trigger] tables[i] == frame,
            |frame: u32|
                kernel_table(choose|i: int| 0 <= i < KERNEL_TABLES && #[trigger] tables[i] == frame),
        ),
    }
}

/// Makes a page table in a frame of its own. The table's last slot points to
/// that frame, so that the table shows itself as the last page of the memory
/// it maps, and no other slot is present.
pub fn create_page_table(allocator: &mut FrameAllocator) -> (frame: TableFrame)
    requires
        lowest_free(old(allocator)@) is Some,
    ensures
        is_frame_address(frame.address),
        lowest_free(old(allocator)@) == Some(frame_of(frame.address)),
        frame.table@ == fresh_table(frame.address),
        final(allocator)@ == old(allocator)@.remove(frame_of(frame.address)),
{
    let address = match allocator.allocate_frame() {
        Some(address) => address,
        None => 0,
    };
    let mut table = PageTable::new();
    let ghost empty = table;
    table.entries[RECURSIVE_SLOT].set_present(true);
    table.entries[RECURSIVE_SLOT].set_frame_address(address);
    proof {
        assert forall|i: int| 0 <= i < ENTRY_COUNT implies table@[i] == fresh_table(address)[i] by {
            assert(empty@[i] == PageTableEntryView::empty());
        }
        assert(table@ =~= fresh_table(address));
    }
    TableFrame { address, table }
}

/// Makes the address space that a task starts with. The directory and
/// `KERNEL_TABLES` page tables each take the lowest frame that is free. Every
/// directory slot is open to user code, the last slot points back at the
/// directory, and the first slots point to page tables that map the start of
/// memory onto itself, so that the kernel runs on when the directory is
/// installed.
pub fn create_initial_page_directory(allocator: &mut FrameAllocator) -> (space: AddressSpace)
    requires
        forall|k: nat| k <= KERNEL_TABLES ==> allocation(old(allocator)@, k) is Some,
    ensures
        space.wf(),
        space@ == initial_space(
            allocations(old(allocator)@, 0, 1)[0],
            allocations(old(allocator)@, 1, KERNEL_TABLES as nat),
        ),
        final(allocator)@ == free_after(old(allocator)@, (1 + KERNEL_TABLES) as nat),
        space@.occupies(final(allocator)@),
{
    let ghost free = allocator@;
    let ghost frames = allocations(free, 1, KERNEL_TABLES as nat);
    proof {
        assert forall|k: nat| k <= KERNEL_TABLES implies free.contains(
            #[trigger] allocation(free, k).unwrap(),
        ) && allocation(free, k).unwrap() < FRAME_COUNT by {
            lemma_allocations_differ(free, k, k + 1);
            allocator.lemma_free_frames_exist(allocation(free, k).unwrap());
        }
    }
    let address = match allocator.allocate_frame() {
        Some(address) => address,
        None => 0,
    };
    assert(address == allocations(free, 0, 1)[0]);
    let mut directory = PageDirectory::new();
    let mut slot: usize = 0;
    while slot < ENTRY_COUNT
        invariant
            slot <= ENTRY_COUNT,
            forall|i: int|
                0 <= i < ENTRY_COUNT ==> #[trigger] directory@[i] == if i < slot {
                    open_slot(false, 0)
                } else {
                    PageDirectoryEntryView::empty()
                },
        decreases ENTRY_COUNT - slot,
    {
        let ghost before = directory;
        directory.entries[slot].set_user_accessible(true);
        directory.entries[slot].set_user_writable(true);
        proof {
            assert forall|i: int| 0 <= i < ENTRY_COUNT implies #[trigger] directory@[i] == if i
                < slot + 1 {
                open_slot(false, 0)
            } else {
                PageDirectoryEntryView::empty()
            } by {
                assert(before@[i] == before.entries[i]@);
            }
        }
        slot += 1;
    }
    let ghost open = directory;
    directory.entries[RECURSIVE_SLOT].set_present(true);
    directory.entries[RECURSIVE_SLOT].set_page_table_address(address);
    proof {
        assert forall|i: int| 0 <= i < ENTRY_COUNT implies #[trigger] directory@[i] == if i
            == RECURSIVE_SLOT {
            open_slot(true, address)
        } else {
            open_slot(false, 0)
        } by {
            assert(open@[i] == open.entries[i]@);
        }
    }
    let mut tables: Vec<TableFrame> = Vec::new();
    let mut number: usize = 0;
    while number < KERNEL_TABLES
        invariant
            number <= KERNEL_TABLES,
            is_frame_address(address),
            address == allocations(free, 0, 1)[0],
            frames == allocations(free, 1, KERNEL_TABLES as nat),
            allocator@ == free_after(free, (1 + number) as nat),
            forall|k: nat| k <= KERNEL_TABLES ==> allocation(free, k) is Some,
            forall|k: nat|
                k <= KERNEL_TABLES ==> #[trigger] allocation(free, k).unwrap()
                    < FRAME_COUNT,
            tables.len() == number,
            forall|i: int|
                0 <= i < number ==> (#[trigger] tables[i]).address == frames[i] && tables[i].table@
                    == kernel_table(i),
            forall|i: int|
                0 <= i < ENTRY_COUNT ==> #[trigger] directory@[i] == if i == RECURSIVE_SLOT {
                    open_slot(true, address)
                } else if i < number {
                    open_slot(true, frames[i])
                } else {
                    open_slot(false, 0)
                },
        decreases KERNEL_TABLES - number,
    {
        assert(allocation(free, (1 + number) as nat) is Some);
        let mut kernel_page_table = create_page_table(allocator);
        let ghost table_address = kernel_page_table.address;
        let mut index: usize = 0;
        while index < ENTRY_COUNT
            invariant
                index <= ENTRY_COUNT,
                kernel_page_table.address == table_address,
                forall|i: int|
                    0 <= i < ENTRY_COUNT ==> #[trigger] kernel_page_table.table@[i] == if i
                        < index {
                        opened(fresh_table(kernel_page_table.address)[i])
                    } else {
                        fresh_table(kernel_page_table.address)[i]
                    },
            decreases ENTRY_COUNT - index,
        {
            let ghost before = kernel_page_table.table;
            kernel_page_table.table.entries[index].set_present(true);
            kernel_page_table.table.entries[index].set_user_accessible(true);
            kernel_page_table.table.entries[index].set_read_write(true);
            proof {
                assert forall|i: int| 0 <= i < ENTRY_COUNT implies #[trigger] kernel_page_table.table@[i]
                    == if i < index + 1 {
                    opened(fresh_table(kernel_page_table.address)[i])
                } else {
                    fresh_table(kernel_page_table.address)[i]
                } by {
                    assert(before@[i] == before.entries[i]@);
                }
            }
            index += 1;
        }
        let base: u32 = number as u32 * TABLE_SPAN;
        index = 0;
        while index < ENTRY_COUNT
            invariant
                index <= ENTRY_COUNT,
                number < KERNEL_TABLES,
                base == number * TABLE_SPAN,
                kernel_page_table.address == table_address,
                forall|i: int|
                    0 <= i < ENTRY_COUNT ==> #[trigger] kernel_page_table.table@[i] == if i
                        < index {
                        kernel_table(number as int)[i]
                    } else {
                        opened(fresh_table(kernel_page_table.address)[i])
                    },
            decreases ENTRY_COUNT - index,
        {
            let ghost before = kernel_page_table.table;
            let frame = base + index as u32 * 4096;
            kernel_page_table.table.entries[index].set_frame_address(frame);
            proof {
                assert forall|i: int| 0 <= i < ENTRY_COUNT implies #[trigger] kernel_page_table.table@[i]
                    == if i < index + 1 {
                    kernel_table(number as int)[i]
                } else {
                    opened(fresh_table(kernel_page_table.address)[i])
                } by {
                    assert(before@[i] == before.entries[i]@);
                }
            }
            index += 1;
        }
        let ghost before = directory;
        directory.entries[number].set_present(true);
        directory.entries[number].set_page_table_address(kernel_page_table.address);
        proof {
            assert(kernel_page_table.table@ =~= kernel_table(number as int));
            assert(kernel_page_table.address == frames[number as int]);
            assert forall|i: int| 0 <= i < ENTRY_COUNT implies #[trigger] directory@[i] == if i
                == RECURSIVE_SLOT {
                open_slot(true, address)
            } else if i < number + 1 {
                open_slot(true, frames[i])
            } else {
                open_slot(false, 0)
            } by {
                assert(before@[i] == before.entries[i]@);
            }
        }
        tables.push(kernel_page_table);
        number += 1;
    }
    let space = AddressSpace { address, directory, tables };
    proof {
        assert(space.directory@ =~= initial_directory(address, frames));
        assert forall|i: int, j: int| 0 <= i < j < KERNEL_TABLES implies frames[i] != frames[j] by {
            lemma_allocations_differ(free, (1 + i) as nat, (1 + j) as nat);
        }
        assert forall|i: int| 0 <= i < KERNEL_TABLES implies frames[i] != address
            && !allocator@.contains(frame_of(#[trigger] frames[i])) by {
            lemma_allocations_differ(free, 0, (1 + i) as nat);
            lemma_allocations_differ(free, (1 + i) as nat, (1 + KERNEL_TABLES) as nat);
        }
        lemma_allocations_differ(free, 0, (1 + KERNEL_TABLES) as nat);
        assert(distinct(space.tables@));
        assert forall|frame: u32| holds(space.tables@, frame) <==> (exists|i: int|
            0 <= i < KERNEL_TABLES && #[trigger] frames[i] == frame) by {
            if holds(space.tables@, frame) {
                let i = position(space.tables@, frame);
                assert(frames[i] == frame);
            }
            if exists|i: int| 0 <= i < KERNEL_TABLES && #[trigger] frames[i] == frame {
                let i = choose|i: int| 0 <= i < KERNEL_TABLES && #[trigger] frames[i] == frame;
                assert(space.tables@[i].address == frame);
            }
        }
        let wanted = initial_space(address, frames);
        assert forall|frame: u32| holds(space.tables@, frame) implies #[trigger] table_map(
            space.tables@,
        )[frame] == wanted.tables[frame] by {
            let i = position(space.tables@, frame);
            lemma_position(space.tables@, i);
            let j = choose|j: int| 0 <= j < KERNEL_TABLES && #[trigger] frames[j] == frame;
            assert(frames[i] == frame);
        }
        assert(table_map(space.tables@) =~= wanted.tables);
        assert(space@ == wanted);
        assert forall|frame: u32| #[trigger] space@.holds_frame(frame) implies !allocator@.contains(
            frame_of(frame),
        ) by {
            if frame != address {
                let i = position(space.tables@, frame);
                assert(frames[i] == frame);
            }
        }
    }
    space
}

/// Maps the page at `virtual_address` to the frame at `physical_address`.
///
/// Where the directory slot for the page is empty, a new page table takes the
/// lowest free frame and the slot is pointed at it. The mapping is then written
/// into the frame that the slot points to, as it would be through the window
/// at `TABLE_WINDOW`: into the page table there, or into the directory itself
/// where the slot points back at the directory.
pub fn map_page(
    space: &mut AddressSpace,
    allocator: &mut FrameAllocator,
    physical_address: u32,
    virtual_address: u32,
)
    requires
        old(space).wf(),
        is_frame_address(physical_address),
        is_frame_address(virtual_address),
        old(space)@.resolves(directory_index(virtual_address)),
        !old(space)@.directory[directory_index(virtual_address)].present ==> lowest_free(
            old(allocator)@,
        ) is Some && old(space)@.occupies(old(allocator)@),
    ensures
        final(space).wf(),
        old(space)@.directory[directory_index(virtual_address)].present ==> {
            &&& final(space)@ == old(space)@.with_mapping(0, physical_address, virtual_address)
            &&& final(allocator)@ == old(allocator)@
        },
        !old(space)@.directory[directory_index(virtual_address)].present ==> {
            &&& final(space)@ == old(space)@.with_mapping(
                allocations(old(allocator)@, 0, 1)[0],
                physical_address,
                virtual_address,
            )
            &&& final(allocator)@ == old(allocator)@.remove(
                lowest_free(old(allocator)@).unwrap(),
            )
        },
        !old(space)@.displaces_own_slot(physical_address, virtual_address) ==> final(space)@
            .translate(virtual_address) == Some(physical_address),
        old(space)@.occupies(old(allocator)@) ==> final(space)@.occupies(final(allocator)@),
{
    let slot = directory_slot(virtual_address);
    let index = table_slot(virtual_address);
    let ghost before = space@;
    let ghost fresh = if before.directory[slot as int].present {
        0u32
    } else {
        allocations(allocator@, 0, 1)[0]
    };
    proof {
        assert(before.directory[slot as int] == space.directory.entries[slot as int]@);
    }
    if !space.directory.entries[slot].is_present() {
        let frame = create_page_table(allocator);
        let ghost vacant = space.directory;
        space.directory.entries[slot].set_present(true);
        space.directory.entries[slot].set_page_table_address(frame.address);
        proof {
            let taken = lowest_free(old(allocator)@).unwrap();
            assert(is_lowest_free(old(allocator)@, taken));
            assert(frame_of(frame.address) == taken);
            assert(!before.holds_frame(frame.address));
            if holds(space.tables@, frame.address) {
                assert(before.tables.dom().contains(frame.address));
            }
            lemma_table_map_push(space.tables@, frame);
            assert(space.directory@ =~= before.with_table(slot as int, fresh).directory) by {
                assert forall|i: int| 0 <= i < ENTRY_COUNT implies space.directory@[i]
                    == before.with_table(slot as int, fresh).directory[i] by {
                    assert(vacant@[i] == vacant.entries[i]@);
                }
            }
        }
        space.tables.push(frame);
        proof {
            assert(space@ == before.with_table(slot as int, fresh));
            assert forall|address: u32| #[trigger]
                space@.holds_frame(address) implies !allocator@.contains(
                frame_of(address),
            ) by {
                if address != frame.address {
                    assert(before.holds_frame(address));
                }
            }
        }
    }
    let ghost installed = space@;
    let target = space.directory.entries[slot].get_page_table_address();
    proof {
        assert(installed.directory[slot as int] == space.directory.entries[slot as int]@);
        assert(installed.holds_frame(target));
        assert(space.wf());
    }
    if target == space.address {
        let ghost unmapped = space.directory;
        space.directory.entries[index].set_present(true);
        space.directory.entries[index].set_page_table_address(physical_address);
        proof {
            assert(space.directory@ =~= installed.with_entry(
                target,
                index as int,
                physical_address,
            ).directory) by {
                assert forall|i: int| 0 <= i < ENTRY_COUNT implies space.directory@[i]
                    == installed.with_entry(target, index as int, physical_address).directory[i] by {
                    assert(unmapped@[i] == unmapped.entries[i]@);
                }
            }
        }
    } else {
        match space.find_table(target) {
            Some(i) => {
                let ghost unmapped = space.tables@;
                proof {
                    lemma_position(unmapped, i as int);
                }
                space.tables[i].table.entries[index].set_present(true);
                space.tables[i].table.entries[index].set_frame_address(physical_address);
                proof {
                    let changed = space.tables@[i as int];
                    assert(space.tables@ =~= unmapped.update(i as int, changed));
                    lemma_table_map_update(unmapped, i as int, changed);
                    assert(changed.table@ =~= installed.tables[target].update(
                        index as int,
                        PageTableEntryView {
                            present: true,
                            frame_address: physical_address,
                            ..installed.tables[target][index as int]
                        },
                    )) by {
                        assert forall|k: int| 0 <= k < ENTRY_COUNT implies changed.table@[k]
                            == installed.tables[target].update(
                            index as int,
                            PageTableEntryView {
                                present: true,
                                frame_address: physical_address,
                                ..installed.tables[target][index as int]
                            },
                        )[k] by {
                            assert(unmapped[i as int].table@[k] == unmapped[i as int].table.entries[k]@);
                        }
                    }
                }
            },
            None => {},
        }
    }
    proof {
        assert(space@ == installed.with_entry(target, index as int, physical_address));
        assert(space@ == before.with_mapping(fresh, physical_address, virtual_address));
        if !before.displaces_own_slot(physical_address, virtual_address) {
            lemma_mapped_page_translates(before, fresh, physical_address, virtual_address);
        }
        assert(forall|address: u32| #[trigger]
            space@.holds_frame(address) <==> installed.holds_frame(address));
    }
}

/// After a page was mapped, its address translates to the frame it was mapped
/// to: for every page and every frame, whether or not the directory slot had a
/// page table before, but for a mapping that overwrites the directory slot it
/// is reached through.
pub proof fn lemma_mapped_page_translates(
    space: AddressSpaceView,
    fresh: u32,
    physical_address: u32,
    virtual_address: u32,
)
    requires
        space.wf(),
        is_frame_address(physical_address),
        is_frame_address(virtual_address),
        space.resolves(directory_index(virtual_address)),
        !space.directory[directory_index(virtual_address)].present ==> !space.holds_frame(fresh),
        !space.displaces_own_slot(physical_address, virtual_address),
    ensures
        space.with_mapping(fresh, physical_address, virtual_address).translate(virtual_address)
            == Some(physical_address),
{
    let slot = directory_index(virtual_address);
    let index = table_index(virtual_address);
    let installed = if space.directory[slot].present {
        space
    } else {
        space.with_table(slot, fresh)
    };
    let target = installed.directory[slot].page_table_address;
    let mapped = installed.with_entry(target, index, physical_address);
    assert(mapped == space.with_mapping(fresh, physical_address, virtual_address));
    assert(installed.holds_frame(target));
    if target != installed.address {
        assert(installed.tables[target].len() == ENTRY_COUNT);
    }
}

/// A mapping leaves every directory slot empty or pointing into the address
/// space, as long as it does not write a frame from outside the address space
/// into the directory itself.
pub proof fn lemma_mapping_keeps_slots_resolved(
    space: AddressSpaceView,
    fresh: u32,
    physical_address: u32,
    virtual_address: u32,
)
    requires
        space.wf(),
        forall|slot: int| 0 <= slot < ENTRY_COUNT ==> space.resolves(slot),
        !space.directory[directory_index(virtual_address)].present ==> is_frame_address(fresh)
            && !space.holds_frame(fresh),
        space.directory[directory_index(virtual_address)].present && space.directory[directory_index(
            virtual_address,
        )].page_table_address == space.address ==> space.holds_frame(physical_address),
    ensures
        space.with_mapping(fresh, physical_address, virtual_address).wf(),
        forall|slot: int|
            0 <= slot < ENTRY_COUNT ==> space.with_mapping(
                fresh,
                physical_address,
                virtual_address,
            ).resolves(slot),
{
    let slot = directory_index(virtual_address);
    let index = table_index(virtual_address);
    let installed = if space.directory[slot].present {
        space
    } else {
        space.with_table(slot, fresh)
    };
    assert(space.resolves(slot));
    assert(installed.wf());
    assert forall|other: int| 0 <= other < ENTRY_COUNT implies installed.resolves(other) by {
        assert(space.resolves(other));
    }
    let target = installed.directory[slot].page_table_address;
    let mapped = installed.with_entry(target, index, physical_address);
    assert(mapped == space.with_mapping(fresh, physical_address, virtual_address));
    assert(installed.resolves(slot));
    assert(mapped.wf());
    assert forall|other: int| 0 <= other < ENTRY_COUNT implies mapped.resolves(other) by {
        assert(installed.resolves(other));
    }
}

/// A mapping into a page table changes the one page it maps. Every address in
/// another slot of that table, and every address whose directory slot points
/// to another table, translates as before. The window is the exception: where
/// the mapping makes a new page table, the page of the window that belongs to
/// its directory slot begins to show it.
pub proof fn lemma_mapping_leaves_other_pages(
    space: AddressSpaceView,
    fresh: u32,
    physical_address: u32,
    virtual_address: u32,
    other: u32,
)
    requires
        space.wf(),
        space.resolves(directory_index(virtual_address)),
        !space.directory[directory_index(virtual_address)].present ==> !space.holds_frame(fresh),
        space.directory[directory_index(virtual_address)].present ==> space.directory[directory_index(
            virtual_address,
        )].page_table_address != space.address,
        if directory_index(other) == directory_index(virtual_address) {
            table_index(other) != table_index(virtual_address) && space.directory[directory_index(
                virtual_address,
            )].present
        } else {
            space.directory[directory_index(other)].present ==> {
                &&& space.directory[directory_index(other)].page_table_address
                    != space.with_mapping(fresh, physical_address, virtual_address).directory[directory_index(
                    virtual_address,
                )].page_table_address
                &&& space.directory[directory_index(other)].page_table_address == space.address
                    && table_index(other) == directory_index(virtual_address)
                    ==> space.directory[directory_index(virtual_address)].present
            }
        },
    ensures
        space.with_mapping(fresh, physical_address, virtual_address).translate(other)
            == space.translate(other),
{
    let slot = directory_index(virtual_address);
    let index = table_index(virtual_address);
    assert(0 <= slot < ENTRY_COUNT && 0 <= index < ENTRY_COUNT);
    assert(0 <= directory_index(other) < ENTRY_COUNT && 0 <= table_index(other) < ENTRY_COUNT);
    let installed = if space.directory[slot].present {
        space
    } else {
        space.with_table(slot, fresh)
    };
    let target = installed.directory[slot].page_table_address;
    assert(installed.holds_frame(target));
    assert(target != space.address);
    let mapped = installed.with_entry(target, index, physical_address);
    assert(mapped == space.with_mapping(fresh, physical_address, virtual_address));
    assert(mapped.directory == installed.directory);
    assert(installed.tables[target].len() == ENTRY_COUNT);
}

/// A mapping leaves the last directory slot pointing back at the directory,
/// unless it writes another frame than the directory's into that very slot.
pub proof fn lemma_mapping_keeps_recursive_slot(
    space: AddressSpaceView,
    fresh: u32,
    physical_address: u32,
    virtual_address: u32,
)
    requires
        space.wf(),
        space.is_recursive(),
        !space.directory[directory_index(virtual_address)].present ==> fresh != space.address,
        !(space.directory[directory_index(virtual_address)].present && space.directory[directory_index(
            virtual_address,
        )].page_table_address == space.address && table_index(virtual_address) == RECURSIVE_SLOT
            && physical_address != space.address),
    ensures
        space.with_mapping(fresh, physical_address, virtual_address).is_recursive(),
{
    let slot = directory_index(virtual_address);
    let index = table_index(virtual_address);
    assert(0 <= slot < ENTRY_COUNT && 0 <= index < ENTRY_COUNT);
    let installed = if space.directory[slot].present {
        space
    } else {
        space.with_table(slot, fresh)
    };
    assert(installed.is_recursive());
}

/// With the last directory slot pointing back at the directory, the page of
/// the window that belongs to a directory slot shows the frame that the slot
/// points to, and the last page of the window shows the directory.
pub proof fn lemma_window_shows_tables(space: AddressSpaceView, slot: int)
    requires
        space.wf(),
        space.is_recursive(),
        0 <= slot < ENTRY_COUNT,
        space.directory[slot].present,
    ensures
        space.translate((TABLE_WINDOW + slot * 4096) as u32) == Some(
            space.directory[slot].page_table_address,
        ),
        space.translate(PD_ADDRESS) == Some(space.address),
{
    let shown = (TABLE_WINDOW + slot * 4096) as u32;
    assert(directory_index(shown) == RECURSIVE_SLOT);
    assert(table_index(shown) == slot);
    assert(directory_index(PD_ADDRESS) == RECURSIVE_SLOT);
    assert(table_index(PD_ADDRESS) == RECURSIVE_SLOT);
}

/// In a new address space the kernel's memory is mapped onto itself: every
/// address in the first `KERNEL_TABLES` times 4 MiB translates to itself.
pub proof fn lemma_kernel_memory_maps_to_itself(
    address: u32,
    tables: Seq<u32>,
    virtual_address: u32,
)
    requires
        tables.len() == KERNEL_TABLES,
        forall|i: int| 0 <= i < KERNEL_TABLES ==> tables[i] != address,
        forall|i: int, j: int| 0 <= i < j < KERNEL_TABLES ==> tables[i] != tables[j],
        virtual_address < KERNEL_TABLES * TABLE_SPAN,
    ensures
        initial_space(address, tables).translate(virtual_address) == Some(virtual_address),
{
    let space = initial_space(address, tables);
    let slot = directory_index(virtual_address);
    let index = table_index(virtual_address);
    assert(0 <= slot < KERNEL_TABLES);
    assert(space.directory[slot] == open_slot(true, tables[slot]));
    assert(space.tables.dom().contains(tables[slot]));
    let found = choose|i: int| 0 <= i < KERNEL_TABLES && #[trigger] tables[i] == tables[slot];
    assert(found == slot);
    assert(space.tables[tables[slot]] == kernel_table(slot));
    assert((slot * 1024 + index) * 4096 + virtual_address % 4096 == virtual_address);
}

} // verus!
