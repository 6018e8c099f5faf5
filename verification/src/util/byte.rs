//! Bit operations on `u8` values.

use vstd::prelude::*;
use std::ops::RangeInclusive;
use crate::util::BitOperations;

verus! {

/// Whether bit `index` of `word` is set, counting from the least significant bit.
pub open spec fn bit_of_u8(word: u8, index: u8) -> bool {
    (word >> (index as u8)) & 1 == 1
}

/// What the shifts and masks used below do to the single bits of a word, and
/// that a word is determined by its bits.
proof fn lemma_bitwise(a: u8, b: u8, shift: u8, index: u8, raised: u8)
    by (bit_vector)
    requires
        shift < 8,
        index < 8,
        raised <= 1,
    ensures
        ((a & (1u8 << index)) != 0) == bit_of_u8(a, index),
        forall|i: u8|
            i < 8 ==> #[trigger] bit_of_u8((a & !(1u8 << index)) | (raised << index), i) == (if i
                == index {
                raised == 1
            } else {
                bit_of_u8(a, i)
            }),
        forall|i: u8| i < 8 ==> #[trigger] bit_of_u8(a & b, i) == (bit_of_u8(a, i) && bit_of_u8(b, i)),
        forall|i: u8|
            i < 8 ==> #[trigger] bit_of_u8(a >> shift, i) == (i + shift < 8 && bit_of_u8(
                a,
                (i + shift) as u8,
            )),
        forall|i: u8| i < 8 ==> !#[trigger] bit_of_u8(0u8, i),
        (bit_of_u8(a, 0) == bit_of_u8(b, 0) && bit_of_u8(a, 1) == bit_of_u8(b, 1)
            && bit_of_u8(a, 2) == bit_of_u8(b, 2) && bit_of_u8(a, 3) == bit_of_u8(b, 3)
            && bit_of_u8(a, 4) == bit_of_u8(b, 4) && bit_of_u8(a, 5) == bit_of_u8(b, 5)
            && bit_of_u8(a, 6) == bit_of_u8(b, 6) && bit_of_u8(a, 7) == bit_of_u8(b, 7)) ==> a == b,
{
}

impl BitOperations for u8 {
    open spec fn bit_count() -> nat {
        8
    }

    open spec fn bit_at(&self, index: u8) -> bool {
        bit_of_u8(*self, index)
    }

    proof fn lemma_bits_determine_value(a: Self, b: Self) {
        assert forall|i: u8| i < 8 implies #[trigger] bit_of_u8(a, i) == bit_of_u8(b, i) by {
            assert(a.bit_at(i) == b.bit_at(i));
        }
        lemma_bitwise(a, b, 0, 0, 0);
    }

    fn get_bit(&self, index: u8) -> (set: bool) {
        proof {
            lemma_bitwise(*self, 0, 0, index, 0);
        }
        (*self & (1 << index)) != 0
    }

    fn set_bit(&mut self, index: u8, value: bool) {
        let raised: u8 = if value {
            1
        } else {
            0
        };
        proof {
            lemma_bitwise(*self, 0, 0, index, raised);
        }
        let cleared = *self & !(1 << index);
        *self = cleared | (raised << index);
    }

    fn get_bits(&self, range: RangeInclusive<u8>) -> (bits: Self) {
        let start = *range.start();
        let mut mask: u8 = 0;
        mask.set_bits_all(range, true);
        let bits = (*self & mask) >> start;
        proof {
            lemma_bitwise(*self, mask, start, 0, 0);
            lemma_bitwise(*self & mask, 0, start, 0, 0);
            assert forall|i: u8| i < 8 implies bits.bit_at(i) == (i + range@.start <= range@.end
                && self.bit_at((i + range@.start) as u8)) by {
                if i + start < 8 {
                    let j = (i + start) as u8;
                    assert(bit_of_u8(*self & mask, j) == (bit_of_u8(*self, j) && bit_of_u8(mask, j)));
                    assert(mask.bit_at(j) == (start <= j <= range@.end));
                }
            }
        }
        bits
    }

    fn get_bits_unshifted(&self, range: RangeInclusive<u8>) -> (bits: Self) {
        let mut mask: u8 = 0;
        mask.set_bits_all(range, true);
        let bits = *self & mask;
        proof {
            lemma_bitwise(*self, mask, 0, 0, 0);
            assert forall|i: u8| i < 8 implies bits.bit_at(i) == (range@.start <= i <= range@.end
                && self.bit_at(i)) by {
                assert(bit_of_u8(*self & mask, i) == (bit_of_u8(*self, i) && bit_of_u8(mask, i)));
                assert(mask.bit_at(i) == (range@.start <= i <= range@.end));
            }
        }
        bits
    }

    fn set_bits(&mut self, range: RangeInclusive<u8>, value: u8) {
        let start = *range.start();
        let end = *range.end();
        let mut index = start;
        while index <= end
            invariant
                start <= index <= end + 1,
                end < 8,
                forall|i: u8|
                    i < 8 ==> self.bit_at(i) == if start <= i < index {
                        value.bit_at((i - start) as u8)
                    } else {
                        old(self).bit_at(i)
                    },
            decreases end + 1 - index,
        {
            let bit = value.get_bit(index - start);
            self.set_bit(index, bit);
            index += 1;
        }
    }

    fn set_bits_all(&mut self, range: RangeInclusive<u8>, value: bool) {
        let start = *range.start();
        let end = *range.end();
        let mut index = start;
        while index <= end
            invariant
                start <= index <= end + 1,
                end < 8,
                forall|i: u8|
                    i < 8 ==> self.bit_at(i) == if start <= i < index {
                        value
                    } else {
                        old(self).bit_at(i)
                    },
            decreases end + 1 - index,
        {
            self.set_bit(index, value);
            index += 1;
        }
    }
}

} // verus!
