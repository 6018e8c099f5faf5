//! Bit operations on `usize` values.

use vstd::prelude::*;
use std::ops::RangeInclusive;
use crate::util::BitOperations;

verus! {

/// Whether bit `index` of `word` is set, counting from the least significant bit.
pub open spec fn bit_of_usize(word: usize, index: u8) -> bool {
    (word >> (index as usize)) & 1 == 1
}

/// What the shifts and masks used below do to the single bits of a word, and
/// that a word is determined by its bits.
proof fn lemma_bitwise(a: usize, b: usize, shift: u8, index: u8, raised: usize)
    by (bit_vector)
    requires
        shift < usize::BITS,
        index < usize::BITS,
        raised <= 1,
    ensures
        ((a & (1usize << index)) != 0) == bit_of_usize(a, index),
        forall|i: u8|
            i < usize::BITS ==> #[trigger] bit_of_usize((a & !(1usize << index)) | (raised << index), i) == (if i
                == index {
                raised == 1
            } else {
                bit_of_usize(a, i)
            }),
        forall|i: u8| i < usize::BITS ==> #[trigger] bit_of_usize(a & b, i) == (bit_of_usize(a, i) && bit_of_usize(b, i)),
        forall|i: u8|
            i < usize::BITS ==> #[trigger] bit_of_usize(a >> shift, i) == (i + shift < usize::BITS && bit_of_usize(
                a,
                (i + shift) as u8,
            )),
        forall|i: u8| i < usize::BITS ==> !#[trigger] bit_of_usize(0usize, i),
        forall|i: u8| usize::BITS <= i < 64 ==> #[trigger] bit_of_usize(a, i) == bit_of_usize(b, i),
        (bit_of_usize(a, 0) == bit_of_usize(b, 0) && bit_of_usize(a, 1) == bit_of_usize(b, 1)
            && bit_of_usize(a, 2) == bit_of_usize(b, 2) && bit_of_usize(a, 3) == bit_of_usize(b, 3)
            && bit_of_usize(a, 4) == bit_of_usize(b, 4) && bit_of_usize(a, 5) == bit_of_usize(b, 5)
            && bit_of_usize(a, 6) == bit_of_usize(b, 6) && bit_of_usize(a, 7) == bit_of_usize(b, 7)
            && bit_of_usize(a, 8) == bit_of_usize(b, 8) && bit_of_usize(a, 9) == bit_of_usize(b, 9)
            && bit_of_usize(a, 10) == bit_of_usize(b, 10) && bit_of_usize(a, 11) == bit_of_usize(b, 11)
            && bit_of_usize(a, 12) == bit_of_usize(b, 12) && bit_of_usize(a, 13) == bit_of_usize(b, 13)
            && bit_of_usize(a, 14) == bit_of_usize(b, 14) && bit_of_usize(a, 15) == bit_of_usize(b, 15)
            && bit_of_usize(a, 16) == bit_of_usize(b, 16) && bit_of_usize(a, 17) == bit_of_usize(b, 17)
            && bit_of_usize(a, 18) == bit_of_usize(b, 18) && bit_of_usize(a, 19) == bit_of_usize(b, 19)
            && bit_of_usize(a, 20) == bit_of_usize(b, 20) && bit_of_usize(a, 21) == bit_of_usize(b, 21)
            && bit_of_usize(a, 22) == bit_of_usize(b, 22) && bit_of_usize(a, 23) == bit_of_usize(b, 23)
            && bit_of_usize(a, 24) == bit_of_usize(b, 24) && bit_of_usize(a, 25) == bit_of_usize(b, 25)
            && bit_of_usize(a, 26) == bit_of_usize(b, 26) && bit_of_usize(a, 27) == bit_of_usize(b, 27)
            && bit_of_usize(a, 28) == bit_of_usize(b, 28) && bit_of_usize(a, 29) == bit_of_usize(b, 29)
            && bit_of_usize(a, 30) == bit_of_usize(b, 30) && bit_of_usize(a, 31) == bit_of_usize(b, 31)
            && bit_of_usize(a, 32) == bit_of_usize(b, 32) && bit_of_usize(a, 33) == bit_of_usize(b, 33)
            && bit_of_usize(a, 34) == bit_of_usize(b, 34) && bit_of_usize(a, 35) == bit_of_usize(b, 35)
            && bit_of_usize(a, 36) == bit_of_usize(b, 36) && bit_of_usize(a, 37) == bit_of_usize(b, 37)
            && bit_of_usize(a, 38) == bit_of_usize(b, 38) && bit_of_usize(a, 39) == bit_of_usize(b, 39)
            && bit_of_usize(a, 40) == bit_of_usize(b, 40) && bit_of_usize(a, 41) == bit_of_usize(b, 41)
            && bit_of_usize(a, 42) == bit_of_usize(b, 42) && bit_of_usize(a, 43) == bit_of_usize(b, 43)
            && bit_of_usize(a, 44) == bit_of_usize(b, 44) && bit_of_usize(a, 45) == bit_of_usize(b, 45)
            && bit_of_usize(a, 46) == bit_of_usize(b, 46) && bit_of_usize(a, 47) == bit_of_usize(b, 47)
            && bit_of_usize(a, 48) == bit_of_usize(b, 48) && bit_of_usize(a, 49) == bit_of_usize(b, 49)
            && bit_of_usize(a, 50) == bit_of_usize(b, 50) && bit_of_usize(a, 51) == bit_of_usize(b, 51)
            && bit_of_usize(a, 52) == bit_of_usize(b, 52) && bit_of_usize(a, 53) == bit_of_usize(b, 53)
            && bit_of_usize(a, 54) == bit_of_usize(b, 54) && bit_of_usize(a, 55) == bit_of_usize(b, 55)
            && bit_of_usize(a, 56) == bit_of_usize(b, 56) && bit_of_usize(a, 57) == bit_of_usize(b, 57)
            && bit_of_usize(a, 58) == bit_of_usize(b, 58) && bit_of_usize(a, 59) == bit_of_usize(b, 59)
            && bit_of_usize(a, 60) == bit_of_usize(b, 60) && bit_of_usize(a, 61) == bit_of_usize(b, 61)
            && bit_of_usize(a, 62) == bit_of_usize(b, 62) && bit_of_usize(a, 63) == bit_of_usize(b, 63)) ==> a == b,
{
}

impl BitOperations for usize {
    open spec fn bit_count() -> nat {
        usize::BITS as nat
    }

    open spec fn bit_at(&self, index: u8) -> bool {
        bit_of_usize(*self, index)
    }

    proof fn lemma_bits_determine_value(a: Self, b: Self) {
        lemma_bitwise(a, b, 0, 0, 0);
        assert forall|i: u8| i < 64 implies #[trigger] bit_of_usize(a, i) == bit_of_usize(b, i) by {
            if i < usize::BITS {
                assert(a.bit_at(i) == b.bit_at(i));
            }
        }
    }

    fn get_bit(&self, index: u8) -> (set: bool) {
        proof {
            lemma_bitwise(*self, 0, 0, index, 0);
        }
        (*self & (1 << index)) != 0
    }

    fn set_bit(&mut self, index: u8, value: bool) {
        let raised: usize = if value {
            1
        } else {
            0
        };
        proof {
            lemma_bitwise(*self, 0, 0, index, raised);
        }
        let cleared = *self & !(1 << index);
        *self = cleared | (raised << index);
    }

    fn get_bits(&self, range: RangeInclusive<u8>) -> (bits: Self) {
        let start = *range.start();
        let mut mask: usize = 0;
        mask.set_bits_all(range, true);
        let bits = (*self & mask) >> start;
        proof {
            lemma_bitwise(*self, mask, start, 0, 0);
            lemma_bitwise(*self & mask, 0, start, 0, 0);
            assert forall|i: u8| i < usize::BITS implies bits.bit_at(i) == (i + range@.start <= range@.end
                && self.bit_at((i + range@.start) as u8)) by {
                if i + start < usize::BITS {
                    let j = (i + start) as u8;
                    assert(bit_of_usize(*self & mask, j) == (bit_of_usize(*self, j) && bit_of_usize(mask, j)));
                    assert(mask.bit_at(j) == (start <= j <= range@.end));
                }
            }
        }
        bits
    }

    fn get_bits_unshifted(&self, range: RangeInclusive<u8>) -> (bits: Self) {
        let mut mask: usize = 0;
        mask.set_bits_all(range, true);
        let bits = *self & mask;
        proof {
            lemma_bitwise(*self, mask, 0, 0, 0);
            assert forall|i: u8| i < usize::BITS implies bits.bit_at(i) == (range@.start <= i <= range@.end
                && self.bit_at(i)) by {
                assert(bit_of_usize(*self & mask, i) == (bit_of_usize(*self, i) && bit_of_usize(mask, i)));
                assert(mask.bit_at(i) == (range@.start <= i <= range@.end));
            }
        }
        bits
    }

    fn set_bits(&mut self, range: RangeInclusive<u8>, value: usize) {
        let start = *range.start();
        let end = *range.end();
        let mut index = start;
        while index <= end
            invariant
                start <= index <= end + 1,
                end < usize::BITS,
                forall|i: u8|
                    i < usize::BITS ==> self.bit_at(i) == if start <= i < index {
                        value.bit_at((i - start) as u8)
                    } else {
                        old(self).bit_at(i)
                    },
            decreases end + 1 - index,
        {
            let bit = value.get_bit(index - start);
            self.set_bit(index, bit);
            index += 1;
        }
    }

    fn set_bits_all(&mut self, range: RangeInclusive<u8>, value: bool) {
        let start = *range.start();
        let end = *range.end();
        let mut index = start;
        while index <= end
            invariant
                start <= index <= end + 1,
                end < usize::BITS,
                forall|i: u8|
                    i < usize::BITS ==> self.bit_at(i) == if start <= i < index {
                        value
                    } else {
                        old(self).bit_at(i)
                    },
            decreases end + 1 - index,
        {
            self.set_bit(index, value);
            index += 1;
        }
    }
}

} // verus!
