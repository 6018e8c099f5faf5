//! Bit-level access to machine words, and the binary size units.

use vstd::prelude::*;
use std::ops::RangeInclusive;

pub mod byte;
pub mod half;
pub mod long;
pub mod size;
pub mod units;
pub mod word;

verus! {

/// `RangeInclusive::start` hands back the lower bound the range was made with,
/// as long as the range has not been iterated to exhaustion.
pub assume_specification<Idx>[ RangeInclusive::<Idx>::start ](
    range: &RangeInclusive<Idx>,
) -> (bound: &Idx)
    ensures
        !range@.exhausted ==> *bound == range@.start,
;

/// `RangeInclusive::end` hands back the upper bound the range was made with,
/// as long as the range has not been iterated to exhaustion.
pub assume_specification<Idx>[ RangeInclusive::<Idx>::end ](range: &RangeInclusive<Idx>) -> (bound:
    &Idx)
    ensures
        !range@.exhausted ==> *bound == range@.end,
;

/// A range names a field of a `width`-bit word when it is fresh, not empty,
/// and ends inside the word.
pub open spec fn names_field(range: RangeInclusive<u8>, width: nat) -> bool {
    &&& !range@.exhausted
    &&& range@.start <= range@.end
    &&& range@.end < width
}

/// The high byte of a 16-bit address: the 256-byte page it lies in.
pub fn page_of(address: u16) -> (page: u8)
    ensures
        page == address / 256,
{
    assert((address >> 8u16) == address / 256 && (address >> 8u16) < 256) by (bit_vector);
    (address >> 8) as u8
}

/// Reading and writing single bits and bit fields of an unsigned integer.
///
/// A value is taken as the sequence of its bits, bit 0 being the least
/// significant, and every operation is stated bit by bit.
pub trait BitOperations: Sized {
    /// The number of bits in a value.
    spec fn bit_count() -> nat;

    /// Whether bit `index` is set.
    spec fn bit_at(&self, index: u8) -> bool;

    /// Two values that agree on every bit are the same value.
    proof fn lemma_bits_determine_value(a: Self, b: Self)
        requires
            forall|i: u8| i < Self::bit_count() ==> a.bit_at(i) == b.bit_at(i),
        ensures
            a == b,
    ;

    /// Whether bit `index` is set.
    fn get_bit(&self, index: u8) -> (set: bool)
        requires
            index < Self::bit_count(),
        ensures
            set == self.bit_at(index),
    ;

    /// Sets bit `index` to `value` and leaves every other bit alone.
    fn set_bit(&mut self, index: u8, value: bool)
        requires
            index < Self::bit_count(),
        ensures
            forall|i: u8|
                #![trigger final(self).bit_at(i)]
                i < Self::bit_count() ==> final(self).bit_at(i) == if i == index {
                    value
                } else {
                    old(self).bit_at(i)
                },
    ;

    /// The field `range`, moved down so that its lowest bit is bit 0.
    fn get_bits(&self, range: RangeInclusive<u8>) -> (bits: Self)
        requires
            names_field(range, Self::bit_count()),
        ensures
            forall|i: u8|
                #![trigger bits.bit_at(i)]
                i < Self::bit_count() ==> bits.bit_at(i) == (i + range@.start <= range@.end
                    && self.bit_at((i + range@.start) as u8)),
    ;

    /// The field `range` where it stands, with every bit outside it cleared.
    fn get_bits_unshifted(&self, range: RangeInclusive<u8>) -> (bits: Self)
        requires
            names_field(range, Self::bit_count()),
        ensures
            forall|i: u8|
                #![trigger bits.bit_at(i)]
                i < Self::bit_count() ==> bits.bit_at(i) == (range@.start <= i <= range@.end
                    && self.bit_at(i)),
    ;

    /// Overwrites the field `range` with the low bits of `value`.
    fn set_bits(&mut self, range: RangeInclusive<u8>, value: Self)
        requires
            names_field(range, Self::bit_count()),
        ensures
            forall|i: u8|
                #![trigger final(self).bit_at(i)]
                i < Self::bit_count() ==> final(self).bit_at(i) == if range@.start <= i
                    <= range@.end {
                    value.bit_at((i - range@.start) as u8)
                } else {
                    old(self).bit_at(i)
                },
    ;

    /// Sets every bit of the field `range` to `value`.
    fn set_bits_all(&mut self, range: RangeInclusive<u8>, value: bool)
        requires
            names_field(range, Self::bit_count()),
        ensures
            forall|i: u8|
                #![trigger final(self).bit_at(i)]
                i < Self::bit_count() ==> final(self).bit_at(i) == if range@.start <= i
                    <= range@.end {
                    value
                } else {
                    old(self).bit_at(i)
                },
    ;
}

/// The binary multiples of a byte count.
#[allow(non_snake_case)]
pub trait Units: Sized {
    /// The number that the value stands for.
    spec fn amount(&self) -> int;

    /// Whether the type has a value that stands for `amount`.
    spec fn holds(amount: int) -> bool;

    /// The value times 1024.
    fn KiB(&self) -> (bytes: Self)
        requires
            Self::holds(self.amount() * 1024),
        ensures
            bytes.amount() == self.amount() * 1024,
    ;

    /// The value times 1024 * 1024.
    fn MiB(&self) -> (bytes: Self)
        requires
            Self::holds(self.amount() * 1024 * 1024),
        ensures
            bytes.amount() == self.amount() * 1024 * 1024,
    ;

    /// The value times 1024 * 1024 * 1024.
    fn GiB(&self) -> (bytes: Self)
        requires
            Self::holds(self.amount() * 1024 * 1024 * 1024),
        ensures
            bytes.amount() == self.amount() * 1024 * 1024 * 1024,
    ;
}

} // verus!
