//! Bit operations on `u16` values.

use vstd::prelude::*;
use std::ops::RangeInclusive;
use crate::util::BitOperations;

verus! {

/// Whether bit `index` of `word` is set, counting from the least significant bit.
pub open spec fn bit_of_u16(word: u16, index: u8) -> bool {
    (word >> (index as u16)) & 1 == 1
}

/// What the shifts and masks used below do to the single bits of a word, and
/// that a word is determined by its bits.
proof fn lemma_bitwise(a: u16, b: u16, shift: u8, index: u8, raised: u16)
    by (bit_vector)
    requires
        shift < 16,
        index < 16,
        raised <= 1,
    ensures
        ((a & (1u16 << index)) != 0) == bit_of_u16(a, index),
        forall|i: u8|
            i < 16 ==> #[trigger] bit_of_u16((a & !(1u16 << index)) | (raised << index), i) == (if i
                == index {
                raised == 1
            } else {
                bit_of_u16(a, i)
            }),
        forall|i: u8| i < 16 ==> #[trigger] bit_of_u16(a & b, i) == (bit_of_u16(a, i) && bit_of_u16(b, i)),
        forall|i: u8|
            i < 16 ==> #[trigger] bit_of_u16(a >> shift, i) == (i + shift < 16 && bit_of_u16(
                a,
                (i + shift) as u8,
            )),
        forall|i: u8| i < 16 ==> !#[trigger] bit_of_u16(0u16, i),
        (bit_of_u16(a, 0) == bit_of_u16(b, 0) && bit_of_u16(a, 1) == bit_of_u16(b, 1)
            && bit_of_u16(a, 2) == bit_of_u16(b, 2) && bit_of_u16(a, 3) == bit_of_u16(b, 3)
            && bit_of_u16(a, 4) == bit_of_u16(b, 4) && bit_of_u16(a, 5) == bit_of_u16(b, 5)
            && bit_of_u16(a, 6) == bit_of_u16(b, 6) && bit_of_u16(a, 7) == bit_of_u16(b, 7)
            && bit_of_u16(a, 8) == bit_of_u16(b, 8) && bit_of_u16(a, 9) == bit_of_u16(b, 9)
            && bit_of_u16(a, 10) == bit_of_u16(b, 10) && bit_of_u16(a, 11) == bit_of_u16(b, 11)
            && bit_of_u16(a, 12) == bit_of_u16(b, 12) && bit_of_u16(a, 13) == bit_of_u16(b, 13)
            && bit_of_u16(a, 14) == bit_of_u16(b, 14) && bit_of_u16(a, 15) == bit_of_u16(b, 15)) ==> a == b,
{
}

impl BitOperations for u16 {
    open spec fn bit_count() -> nat {
        16
    }

    open spec fn bit_at(&self, index: u8) -> bool {
        bit_of_u16(*self, index)
    }

    proof fn lemma_bits_determine_value(a: Self, b: Self) {
        assert forall|i: u8| i < 16 implies #[trigger] bit_of_u16(a, i) == bit_of_u16(b, i) by {
            assert(a.bit_at(i) == b.bit_at(i));
        }
        lemma_bitwise(a, b, 0, 0, 0);
    }

    fn get_bit(&self, index: u8) -> (set: bool) {
        proof {
            lemma_bitwise(*self, 0, 0, index, 0);
        }
        (*self & (1 << index)) != 0
    }

    fn set_bit(&mut self, index: u8, value: bool) {
        let raised: u16 = if value {
            1
        } else {
            0
        };
        proof {
            lemma_bitwise(*self, 0, 0, index, raised);
        }
        let cleared = *self & !(1 << index);
        *self = cleared | (raised << index);
    }

    fn get_bits(&self, range: RangeInclusive<u8>) -> (bits: Self) {
        let start = *range.start();
        let mut mask: u16 = 0;
        mask.set_bits_all(range, true);
        let bits = (*self & mask) >> start;
        proof {
            lemma_bitwise(*self, mask, start, 0, 0);
            lemma_bitwise(*self & mask, 0, start, 0, 0);
            assert forall|i: u8| i < 16 implies bits.bit_at(i) == (i + range@.start <= range@.end
                && self.bit_at((i + range@.start) as u8)) by {
                if i + start < 16 {
                    let j = (i + start) as u8;
                    assert(bit_of_u16(*self & mask, j) == (bit_of_u16(*self, j) && bit_of_u16(mask, j)));
                    assert(mask.bit_at(j) == (start <= j <= range@.end));
                }
            }
        }
        bits
    }

    fn get_bits_unshifted(&self, range: RangeInclusive<u8>) -> (bits: Self) {
        let mut mask: u16 = 0;
        mask.set_bits_all(range, true);
        let bits = *self & mask;
        proof {
            lemma_bitwise(*self, mask, 0, 0, 0);
            assert forall|i: u8| i < 16 implies bits.bit_at(i) == (range@.start <= i <= range@.end
                && self.bit_at(i)) by {
                assert(bit_of_u16(*self & mask, i) == (bit_of_u16(*self, i) && bit_of_u16(mask, i)));
                assert(mask.bit_at(i) == (range@.start <= i <= range@.end));
            }
        }
        bits
    }

    fn set_bits(&mut self, range: RangeInclusive<u8>, value: u16) {
        let start = *range.start();
        let end = *range.end();
        let mut index = start;
        while index <= end
            invariant
                start <= index <= end + 1,
                end < 16,
                forall|i: u8|
                    i < 16 ==> self.bit_at(i) == if start <= i < index {
                        value.bit_at((i - start) as u8)
                    } else {
                        old(self).bit_at(i)
                    },
            decreases end + 1 - index,
        {
            let bit = value.get_bit(index - start);
            self.set_bit(index, bit);
            index += 1;
        }
    }

    fn set_bits_all(&mut self, range: RangeInclusive<u8>, value: bool) {
        let start = *range.start();
        let end = *range.end();
        let mut index = start;
        while index <= end
            invariant
                start <= index <= end + 1,
                end < 16,
                forall|i: u8|
                    i < 16 ==> self.bit_at(i) == if start <= i < index {
                        value
                    } else {
                        old(self).bit_at(i)
                    },
            decreases end + 1 - index,
        {
            self.set_bit(index, value);
            index += 1;
        }
    }
}

} // verus!
