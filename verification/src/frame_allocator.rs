//! The physical frame allocator: one bit for each 4 KiB frame of the 4 GiB
//! physical address range, set while the frame is free.

use vstd::prelude::*;
use crate::util::BitOperations;
use crate::util::byte::bit_of_u8;

verus! {

/// The size in bytes of a frame.
pub const FRAME_SIZE: u32 = 4096;

/// The number of frames that the allocator keeps account of.
pub const FRAME_COUNT: usize = 1048576;

/// The number of bytes in the bitmap: eight frames to a byte.
pub const BITMAP_BYTES: usize = 131072;

/// Whether `address` is the address of a frame.
pub open spec fn is_frame_address(address: u32) -> bool {
    address % FRAME_SIZE == 0
}

/// The number of the frame that holds `address`.
pub open spec fn frame_of(address: u32) -> nat {
    (address / FRAME_SIZE) as nat
}

/// The address at which frame number `frame` starts.
pub open spec fn address_of(frame: nat) -> int {
    frame * FRAME_SIZE
}

/// Whether `frame` is free and no frame below it is.
pub open spec fn is_lowest_free(free: Set<nat>, frame: nat) -> bool {
    &&& free.contains(frame)
    &&& forall|other: nat| other < frame ==> !free.contains(other)
}

/// The free frame with the lowest number, if any frame is free.
pub open spec fn lowest_free(free: Set<nat>) -> Option<nat> {
    if exists|frame: nat| is_lowest_free(free, frame) {
        Some(choose|frame: nat| is_lowest_free(free, frame))
    } else {
        None
    }
}

/// The lowest free frame is the only one that is free with none free below.
pub proof fn lemma_lowest_free_is_unique(free: Set<nat>, frame: nat)
    requires
        is_lowest_free(free, frame),
    ensures
        lowest_free(free) == Some(frame),
{
    let chosen = choose|frame: nat| is_lowest_free(free, frame);
    assert(is_lowest_free(free, chosen));
    if chosen < frame {
        assert(!free.contains(chosen));
    } else if frame < chosen {
        assert(!free.contains(frame));
    }
}

/// Where nothing is free there is no lowest free frame.
pub proof fn lemma_nothing_free(free: Set<nat>)
    requires
        forall|frame: nat| !free.contains(frame),
    ensures
        lowest_free(free) is None,
{
}

/// The frames that `count` allocations in a row leave free.
pub open spec fn free_after(free: Set<nat>, count: nat) -> Set<nat>
    decreases count,
{
    if count == 0 {
        free
    } else {
        let rest = free_after(free, (count - 1) as nat);
        match lowest_free(rest) {
            Some(frame) => rest.remove(frame),
            None => rest,
        }
    }
}

/// The frame that an allocation hands out after `earlier` allocations.
pub open spec fn allocation(free: Set<nat>, earlier: nat) -> Option<nat> {
    lowest_free(free_after(free, earlier))
}

/// The addresses of the frames that the first `count` allocations hand out
/// after `earlier` others.
pub open spec fn allocations(free: Set<nat>, earlier: nat, count: nat) -> Seq<u32> {
    Seq::new(count, |i: int| address_of(allocation(free, earlier + i as nat).unwrap()) as u32)
}

/// Each allocation leaves fewer frames free.
pub proof fn lemma_free_after_shrinks(free: Set<nat>, earlier: nat, later: nat)
    requires
        earlier <= later,
    ensures
        free_after(free, later).subset_of(free_after(free, earlier)),
    decreases later - earlier,
{
    if earlier < later {
        lemma_free_after_shrinks(free, earlier, (later - 1) as nat);
    }
}

/// A frame that was handed out is not free afterwards, and is not handed out
/// again.
pub proof fn lemma_allocations_differ(free: Set<nat>, earlier: nat, later: nat)
    requires
        earlier < later,
        allocation(free, earlier) is Some,
    ensures
        free.contains(allocation(free, earlier).unwrap()),
        !free_after(free, later).contains(allocation(free, earlier).unwrap()),
        allocation(free, later) is Some ==> allocation(free, later) != allocation(free, earlier),
{
    let first = allocation(free, earlier).unwrap();
    assert(is_lowest_free(free_after(free, earlier), first));
    lemma_free_after_shrinks(free, 0, earlier);
    assert(free_after(free, earlier + 1) == free_after(free, earlier).remove(first));
    lemma_free_after_shrinks(free, earlier + 1, later);
    if allocation(free, later) is Some {
        let second = allocation(free, later).unwrap();
        assert(is_lowest_free(free_after(free, later), second));
    }
}

/// The bits of an empty and of a full bitmap byte.
proof fn lemma_uniform_bytes()
    by (bit_vector)
    ensures
        forall|i: u8| i < 8 ==> !#[trigger] bit_of_u8(0u8, i),
        forall|i: u8| i < 8 ==> #[trigger] bit_of_u8(0xFFu8, i),
{
}

/// Clears `memory`, the memory of a frame that was handed out, so that
/// nothing of what the frame held before is left in it.
pub fn clear_frame(memory: &mut [u8])
    requires
        old(memory)@.len() == FRAME_SIZE,
    ensures
        final(memory)@ == Seq::new(FRAME_SIZE as nat, |i: int| 0u8),
{
    let mut i: usize = 0;
    while i < FRAME_SIZE as usize
        invariant
            i <= FRAME_SIZE,
            memory@.len() == FRAME_SIZE,
            forall|j: int| 0 <= j < i ==> memory@[j] == 0,
        decreases FRAME_SIZE - i,
    {
        memory[i] = 0;
        i += 1;
    }
    assert(memory@ =~= Seq::new(FRAME_SIZE as nat, |i: int| 0u8));
}

/// Keeps account of which frames are free.
pub struct FrameAllocator {
    bitmap: [u8; 131072],
}

impl View for FrameAllocator {
    type V = Set<nat>;

    /// The numbers of the frames that are free.
    open spec fn view(&self) -> Set<nat> {
        Set::new(|frame: nat| self.is_free(frame))
    }
}

impl FrameAllocator {
    /// Whether frame number `frame` is free.
    pub closed spec fn is_free(&self, frame: nat) -> bool {
        &&& frame < FRAME_COUNT
        &&& self.bitmap[frame as int / 8].bit_at((frame % 8) as u8)
    }

    /// Only frames that exist are free.
    pub proof fn lemma_free_frames_exist(&self, frame: nat)
        requires
            self@.contains(frame),
        ensures
            frame < FRAME_COUNT,
    {
    }

    /// An allocator in which every frame is free.
    pub fn new() -> (allocator: Self)
        ensures
            forall|frame: nat| allocator@.contains(frame) <==> frame < FRAME_COUNT,
    {
        proof {
            lemma_uniform_bytes();
        }
        Self { bitmap: [0xFF;131072] }
    }

    /// Takes the free frame with the lowest address and hands out its address,
    /// or `None` when no frame is free. The caller clears the frame's memory
    /// with `clear_frame` before use.
    pub fn allocate_frame(&mut self) -> (address: Option<u32>)
        ensures
            match address {
                Some(address) => {
                    &&& is_frame_address(address)
                    &&& lowest_free(old(self)@) == Some(frame_of(address))
                    &&& final(self)@ == old(self)@.remove(frame_of(address))
                },
                None => lowest_free(old(self)@) is None && final(self)@ == old(self)@,
            },
    {
        let mut index: usize = 0;
        while index < BITMAP_BYTES
            invariant
                index <= BITMAP_BYTES,
                *self == *old(self),
                forall|frame: nat| frame < index * 8 ==> !self.is_free(frame),
            decreases BITMAP_BYTES - index,
        {
            if self.bitmap[index] != 0 {
                let mut bit: u8 = 0;
                while bit < 8
                    invariant
                        bit <= 8,
                        index < BITMAP_BYTES,
                        *self == *old(self),
                        forall|frame: nat| frame < index * 8 + bit ==> !self.is_free(frame),
                    decreases 8 - bit,
                {
                    if self.bitmap[index].get_bit(bit) {
                        self.bitmap[index].set_bit(bit, false);
                        let number = index * 8 + bit as usize;
                        let address = (number * 4096) as u32;
                        proof {
                            let frame = number as nat;
                            assert(old(self).is_free(frame));
                            assert(is_lowest_free(old(self)@, frame));
                            lemma_lowest_free_is_unique(old(self)@, frame);
                            assert forall|other: nat| self.is_free(other) == (old(self).is_free(
                                other,
                            ) && other != frame) by {
                                if other < FRAME_COUNT && other as int / 8 == index {
                                    assert(self.bitmap[index as int].bit_at((other % 8) as u8)
                                        == if (other % 8) as u8 == bit {
                                        false
                                    } else {
                                        old(self).bitmap[index as int].bit_at((other % 8) as u8)
                                    });
                                }
                            }
                            assert(self@ =~= old(self)@.remove(frame));
                        }
                        return Some(address);
                    }
                    bit += 1;
                }
            } else {
                proof {
                    lemma_uniform_bytes();
                }
            }
            index += 1;
        }
        proof {
            lemma_nothing_free(self@);
        }
        None
    }

    /// Gives the frame at `frame_address` back.
    pub fn free_frame(&mut self, frame_address: u32)
        requires
            is_frame_address(frame_address),
            !old(self)@.contains(frame_of(frame_address)),
        ensures
            final(self)@ == old(self)@.insert(frame_of(frame_address)),
    {
        self.set_frame_bit(frame_address, true);
    }

    /// Takes the frame at `frame_address` out of the free frames, for memory
    /// that is in use before the first allocation.
    pub fn mark_occupied(&mut self, frame_address: u32)
        requires
            is_frame_address(frame_address),
            old(self)@.contains(frame_of(frame_address)),
        ensures
            final(self)@ == old(self)@.remove(frame_of(frame_address)),
    {
        self.set_frame_bit(frame_address, false);
    }

    /// Takes every frame that starts below `end` out of the free frames: the
    /// frames of a kernel image loaded at address 0 whose first free byte is at
    /// `end`.
    pub fn mark_occupied_below(&mut self, end: u32)
        requires
            forall|frame: nat| address_of(frame) < end ==> old(self)@.contains(frame),
        ensures
            forall|frame: nat|
                final(self)@.contains(frame) <==> old(self)@.contains(frame) && address_of(frame)
                    >= end,
    {
        let partial: u32 = if end % FRAME_SIZE != 0 {
            1
        } else {
            0
        };
        let count = end / FRAME_SIZE + partial;
        assert(forall|frame: nat| address_of(frame) < end <==> frame < count);
        let mut number: u32 = 0;
        while number < count
            invariant
                number <= count <= FRAME_COUNT,
                forall|frame: nat|
                    self@.contains(frame) <==> old(self)@.contains(frame) && frame >= number,
                forall|frame: nat| frame < count ==> old(self)@.contains(frame),
            decreases count - number,
        {
            assert(frame_of((number * FRAME_SIZE) as u32) == number);
            self.mark_occupied(number * FRAME_SIZE);
            number += 1;
        }
    }

    /// Whether `count` allocations in a row would each find a free frame.
    pub fn can_allocate(&self, count: usize) -> (enough: bool)
        ensures
            enough == (forall|k: nat| k < count ==> allocation(self@, k) is Some),
    {
        let mut found: usize = 0;
        let mut number: u32 = 0;
        while (number as usize) < FRAME_COUNT && found < count
            invariant
                number <= FRAME_COUNT,
                found <= count,
                found <= number,
                forall|frame: nat|
                    free_after(self@, found as nat).contains(frame) <==> self@.contains(frame)
                        && frame >= number,
                forall|k: nat| k < found ==> allocation(self@, k) is Some,
            decreases FRAME_COUNT - number,
        {
            let ghost left = free_after(self@, found as nat);
            assert(forall|frame: nat|
                left.contains(frame) <==> self@.contains(frame) && frame >= number);
            assert(frame_of((number * FRAME_SIZE) as u32) == number);
            if self.get_frame_bit(number * FRAME_SIZE) {
                proof {
                    assert(is_lowest_free(left, number as nat));
                    lemma_lowest_free_is_unique(left, number as nat);
                    assert(free_after(self@, (found + 1) as nat) == left.remove(number as nat));
                }
                found += 1;
            }
            number += 1;
        }
        if found < count {
            proof {
                let left = free_after(self@, found as nat);
                assert forall|frame: nat| !left.contains(frame) by {
                    if self@.contains(frame) {
                        self.lemma_free_frames_exist(frame);
                    }
                }
                lemma_nothing_free(left);
                assert(allocation(self@, found as nat) is None);
            }
            false
        } else {
            true
        }
    }

    /// Whether the frame at `frame_address` is free.
    pub fn get_frame_bit(&self, frame_address: u32) -> (free: bool)
        requires
            is_frame_address(frame_address),
        ensures
            free == self@.contains(frame_of(frame_address)),
    {
        let frame_number = frame_address / 4096;
        self.bitmap[frame_number as usize / 8].get_bit((frame_number % 8) as u8)
    }

    /// Records the frame at `frame_address` as free or as taken.
    pub fn set_frame_bit(&mut self, frame_address: u32, value: bool)
        requires
            is_frame_address(frame_address),
        ensures
            final(self)@ == if value {
                old(self)@.insert(frame_of(frame_address))
            } else {
                old(self)@.remove(frame_of(frame_address))
            },
    {
        let frame_number = frame_address / 4096;
        let index = frame_number as usize / 8;
        let bit = (frame_number % 8) as u8;
        self.bitmap[index].set_bit(bit, value);
        proof {
            let frame = frame_of(frame_address);
            assert forall|other: nat| self.is_free(other) == if other == frame {
                value
            } else {
                old(self).is_free(other)
            } by {
                if other < FRAME_COUNT && other as int / 8 == index {
                    assert(self.bitmap[index as int].bit_at((other % 8) as u8) == if (other
                        % 8) as u8 == bit {
                        value
                    } else {
                        old(self).bitmap[index as int].bit_at((other % 8) as u8)
                    });
                }
            }
            if value {
                assert(self@ =~= old(self)@.insert(frame));
            } else {
                assert(self@ =~= old(self)@.remove(frame));
            }
        }
    }
}

/// Once every frame that starts below `end` is taken, the frame that the
/// next allocation hands out starts at `end` or above.
pub proof fn lemma_allocation_stays_above_occupied(free: Set<nat>, end: int)
    requires
        forall|frame: nat| address_of(frame) < end ==> !free.contains(frame),
    ensures
        lowest_free(free) matches Some(frame) ==> address_of(frame) >= end,
{
    if let Some(frame) = lowest_free(free) {
        assert(is_lowest_free(free, frame));
    }
}

/// One call made to the allocator.
pub enum Request {
    /// A call of `allocate_frame`.
    Allocate,
    /// A call of `free_frame` on the frame of this number.
    Free(nat),
}

/// The frames as the allocator's callers see them: those that are free, and
/// those that a caller was handed and has not given back.
pub struct Ledger {
    pub free: Set<nat>,
    pub held: Set<nat>,
}

impl Ledger {
    /// No frame is free while a caller holds it.
    pub open spec fn consistent(self) -> bool {
        self.free.disjoint(self.held)
    }

    /// Whether the allocator accepts `request`: a frame that is free is not
    /// freed again.
    pub open spec fn admits(self, request: Request) -> bool {
        match request {
            Request::Allocate => true,
            Request::Free(frame) => !self.free.contains(frame),
        }
    }

    /// The frame that `request` hands to its caller, if it hands out any.
    pub open spec fn grants(self, request: Request) -> Option<nat> {
        match request {
            Request::Allocate => lowest_free(self.free),
            Request::Free(_) => None,
        }
    }

    /// The frames after `request`, by the contracts of `allocate_frame` and
    /// `free_frame`.
    pub open spec fn serve(self, request: Request) -> Ledger {
        match request {
            Request::Allocate => match lowest_free(self.free) {
                Some(frame) => Ledger {
                    free: self.free.remove(frame),
                    held: self.held.insert(frame),
                },
                None => self,
            },
            Request::Free(frame) => Ledger {
                free: self.free.insert(frame),
                held: self.held.remove(frame),
            },
        }
    }

    /// The frames after all of `requests`, served in order.
    pub open spec fn serve_all(self, requests: Seq<Request>) -> Ledger
        decreases requests.len(),
    {
        if requests.len() == 0 {
            self
        } else {
            self.serve_all(requests.drop_last()).serve(requests.last())
        }
    }

    /// Whether each of `requests` is accepted when its turn comes.
    pub open spec fn admits_all(self, requests: Seq<Request>) -> bool {
        forall|i: int|
            0 <= i < requests.len() ==> #[trigger] self.serve_all(requests.take(i)).admits(
                requests[i],
            )
    }

    /// Serving requests that are accepted keeps free and held frames apart.
    pub proof fn lemma_serving_keeps_consistent(self, requests: Seq<Request>)
        requires
            self.consistent(),
            self.admits_all(requests),
        ensures
            self.serve_all(requests).consistent(),
        decreases requests.len(),
    {
        if requests.len() > 0 {
            let earlier = requests.drop_last();
            assert forall|i: int| 0 <= i < earlier.len() implies #[trigger] self.serve_all(
                earlier.take(i),
            ).admits(earlier[i]) by {
                assert(earlier.take(i) =~= requests.take(i));
                assert(self.serve_all(requests.take(i)).admits(requests[i]));
            }
            self.lemma_serving_keeps_consistent(earlier);
            let before = self.serve_all(earlier);
            assert(earlier =~= requests.take(requests.len() - 1));
            assert(before.admits(requests.last()));
            match requests.last() {
                Request::Allocate => {
                    if let Some(frame) = lowest_free(before.free) {
                        assert(is_lowest_free(before.free, frame));
                    }
                },
                Request::Free(frame) => {},
            }
        }
    }

    /// Over any run of allocations and frees in which no free frame is freed,
    /// an allocation never hands out a frame that a caller still holds: no frame
    /// is handed out twice without being freed in between.
    pub proof fn lemma_no_frame_handed_out_twice(self, requests: Seq<Request>, i: int)
        requires
            self.consistent(),
            self.admits_all(requests),
            0 <= i < requests.len(),
        ensures
            self.serve_all(requests.take(i)).grants(requests[i]) matches Some(frame)
                ==> !self.serve_all(requests.take(i)).held.contains(frame),
    {
        let earlier = requests.take(i);
        assert forall|k: int| 0 <= k < earlier.len() implies #[trigger] self.serve_all(
            earlier.take(k),
        ).admits(earlier[k]) by {
            assert(earlier.take(k) =~= requests.take(k));
            assert(self.serve_all(requests.take(k)).admits(requests[k]));
        }
        self.lemma_serving_keeps_consistent(earlier);
        let before = self.serve_all(earlier);
        if let Some(frame) = before.grants(requests[i]) {
            assert(is_lowest_free(before.free, frame));
        }
    }
}

} // verus!
