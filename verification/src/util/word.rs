//! Bit operations on `u32` values.

use vstd::prelude::*;
use std::ops::RangeInclusive;
use crate::util::BitOperations;

verus! {

/// Whether bit `index` of `word` is set, counting from the least significant bit.
pub open spec fn bit_of_u32(word: u32, index: u8) -> bool {
    (word >> (index as u32)) & 1 == 1
}

/// What the shifts and masks used below do to the single bits of a word, and
/// that a word is determined by its bits.
proof fn lemma_bitwise(a: u32, b: u32, shift: u8, index: u8, raised: u32)
    by (bit_vector)
    requires
        shift < 32,
        index < 32,
        raised <= 1,
    ensures
        ((a & (1u32 << index)) != 0) == bit_of_u32(a, index),
        forall|i: u8|
            i < 32 ==> #[trigger] bit_of_u32((a & !(1u32 << index)) | (raised << index), i) == (if i
                == index {
                raised == 1
            } else {
                bit_of_u32(a, i)
            }),
        forall|i: u8| i < 32 ==> #[trigger] bit_of_u32(a & b, i) == (bit_of_u32(a, i) && bit_of_u32(b, i)),
        forall|i: u8|
            i < 32 ==> #[trigger] bit_of_u32(a >> shift, i) == (i + shift < 32 && bit_of_u32(
                a,
                (i + shift) as u8,
            )),
        forall|i: u8| i < 32 ==> !#[trigger] bit_of_u32(0u32, i),
        (bit_of_u32(a, 0) == bit_of_u32(b, 0) && bit_of_u32(a, 1) == bit_of_u32(b, 1)
            && bit_of_u32(a, 2) == bit_of_u32(b, 2) && bit_of_u32(a, 3) == bit_of_u32(b, 3)
            && bit_of_u32(a, 4) == bit_of_u32(b, 4) && bit_of_u32(a, 5) == bit_of_u32(b, 5)
            && bit_of_u32(a, 6) == bit_of_u32(b, 6) && bit_of_u32(a, 7) == bit_of_u32(b, 7)
            && bit_of_u32(a, 8) == bit_of_u32(b, 8) && bit_of_u32(a, 9) == bit_of_u32(b, 9)
            && bit_of_u32(a, 10) == bit_of_u32(b, 10) && bit_of_u32(a, 11) == bit_of_u32(b, 11)
            && bit_of_u32(a, 12) == bit_of_u32(b, 12) && bit_of_u32(a, 13) == bit_of_u32(b, 13)
            && bit_of_u32(a, 14) == bit_of_u32(b, 14) && bit_of_u32(a, 15) == bit_of_u32(b, 15)
            && bit_of_u32(a, 16) == bit_of_u32(b, 16) && bit_of_u32(a, 17) == bit_of_u32(b, 17)
            && bit_of_u32(a, 18) == bit_of_u32(b, 18) && bit_of_u32(a, 19) == bit_of_u32(b, 19)
            && bit_of_u32(a, 20) == bit_of_u32(b, 20) && bit_of_u32(a, 21) == bit_of_u32(b, 21)
            && bit_of_u32(a, 22) == bit_of_u32(b, 22) && bit_of_u32(a, 23) == bit_of_u32(b, 23)
            && bit_of_u32(a, 24) == bit_of_u32(b, 24) && bit_of_u32(a, 25) == bit_of_u32(b, 25)
            && bit_of_u32(a, 26) == bit_of_u32(b, 26) && bit_of_u32(a, 27) == bit_of_u32(b, 27)
            && bit_of_u32(a, 28) == bit_of_u32(b, 28) && bit_of_u32(a, 29) == bit_of_u32(b, 29)
            && bit_of_u32(a, 30) == bit_of_u32(b, 30) && bit_of_u32(a, 31) == bit_of_u32(b, 31)) ==> a == b,
{
}

impl BitOperations for u32 {
    open spec fn bit_count() -> nat {
        32
    }

    open spec fn bit_at(&self, index: u8) -> bool {
        bit_of_u32(*self, index)
    }

    proof fn lemma_bits_determine_value(a: Self, b: Self) {
        assert forall|i: u8| i < 32 implies #[trigger] bit_of_u32(a, i) == bit_of_u32(b, i) by {
            assert(a.bit_at(i) == b.bit_at(i));
        }
        lemma_bitwise(a, b, 0, 0, 0);
    }

    fn get_bit(&self, index: u8) -> (set: bool) {
        proof {
            lemma_bitwise(*self, 0, 0, index, 0);
        }
        (*self & (1 << index)) != 0
    }

    fn set_bit(&mut self, index: u8, value: bool) {
        let raised: u32 = if value {
            1
        } else {
            0
        };
        proof {
            lemma_bitwise(*self, 0, 0, index, raised);
        }
        let cleared = *self & !(1 << index);
        *self = cleared | (raised << index);
    }

    fn get_bits(&self, range: RangeInclusive<u8>) -> (bits: Self) {
        let start = *range.start();
        let mut mask: u32 = 0;
        mask.set_bits_all(range, true);
        let bits = (*self & mask) >> start;
        proof {
            lemma_bitwise(*self, mask, start, 0, 0);
            lemma_bitwise(*self & mask, 0, start, 0, 0);
            assert forall|i: u8| i < 32 implies bits.bit_at(i) == (i + range@.start <= range@.end
                && self.bit_at((i + range@.start) as u8)) by {
                if i + start < 32 {
                    let j = (i + start) as u8;
                    assert(bit_of_u32(*self & mask, j) == (bit_of_u32(*self, j) && bit_of_u32(mask, j)));
                    assert(mask.bit_at(j) == (start <= j <= range@.end));
                }
            }
        }
        bits
    }

    fn get_bits_unshifted(&self, range: RangeInclusive<u8>) -> (bits: Self) {
        let mut mask: u32 = 0;
        mask.set_bits_all(range, true);
        let bits = *self & mask;
        proof {
            lemma_bitwise(*self, mask, 0, 0, 0);
            assert forall|i: u8| i < 32 implies bits.bit_at(i) == (range@.start <= i <= range@.end
                && self.bit_at(i)) by {
                assert(bit_of_u32(*self & mask, i) == (bit_of_u32(*self, i) && bit_of_u32(mask, i)));
                assert(mask.bit_at(i) == (range@.start <= i <= range@.end));
            }
        }
        bits
    }

    fn set_bits(&mut self, range: RangeInclusive<u8>, value: u32) {
        let start = *range.start();
        let end = *range.end();
        let mut index = start;
        while index <= end
            invariant
                start <= index <= end + 1,
                end < 32,
                forall|i: u8|
                    i < 32 ==> self.bit_at(i) == if start <= i < index {
                        value.bit_at((i - start) as u8)
                    } else {
                        old(self).bit_at(i)
                    },
            decreases end + 1 - index,
        {
            let bit = value.get_bit(index - start);
            self.set_bit(index, bit);
            index += 1;
        }
    }

    fn set_bits_all(&mut self, range: RangeInclusive<u8>, value: bool) {
        let start = *range.start();
        let end = *range.end();
        let mut index = start;
        while index <= end
            invariant
                start <= index <= end + 1,
                end < 32,
                forall|i: u8|
                    i < 32 ==> self.bit_at(i) == if start <= i < index {
                        value
                    } else {
                        old(self).bit_at(i)
                    },
            decreases end + 1 - index,
        {
            self.set_bit(index, value);
            index += 1;
        }
    }
}

} // verus!
