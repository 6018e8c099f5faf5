use kernel_core::util::{page_of, BitOperations, Units};

#[test]
fn page_of_is_the_high_byte() {
    assert_eq!(page_of(0x1234), 0x12);
    assert_eq!(page_of(0x00FF), 0);
    assert_eq!(page_of(0xFFFF), 0xFF);
}

#[test]
fn get_bit_reads_single_bits() {
    assert!(0b0000_0100u8.get_bit(2));
    assert!(!0b0000_0100u8.get_bit(3));
    assert!(0x8000u16.get_bit(15));
    assert!(0x8000_0000u32.get_bit(31));
    assert!(!0x7FFF_FFFFu32.get_bit(31));
    assert!(0x8000_0000_0000_0000u64.get_bit(63));
    assert!(1usize.get_bit(0));
}

#[test]
fn set_bit_changes_one_bit() {
    let mut byte = 0u8;
    byte.set_bit(7, true);
    assert_eq!(byte, 0x80);
    byte.set_bit(0, true);
    assert_eq!(byte, 0x81);
    byte.set_bit(7, false);
    assert_eq!(byte, 0x01);
    byte.set_bit(0, true);
    assert_eq!(byte, 0x01);
    let mut word = 0xFFFF_FFFFu32;
    word.set_bit(12, false);
    assert_eq!(word, 0xFFFF_EFFF);
    let mut long = 0u64;
    long.set_bit(40, true);
    assert_eq!(long, 1u64 << 40);
    let mut half = 0xFFFFu16;
    half.set_bit(15, false);
    assert_eq!(half, 0x7FFF);
    let mut size = 0usize;
    size.set_bit(5, true);
    assert_eq!(size, 32);
}

#[test]
fn get_bits_moves_the_field_down() {
    assert_eq!(0xABCD_E123u32.get_bits(12..=31), 0x000A_BCDE);
    assert_eq!(0xABCD_E123u32.get_bits(0..=11), 0x123);
    assert_eq!(0xFFC0_1000u32.get_bits(22..=31), 1023);
    assert_eq!(0xFFC0_1000u32.get_bits(12..=21), 1);
    assert_eq!(0b1011_0000u8.get_bits(4..=7), 0b1011);
    assert_eq!(0xFFFF_FFFFu32.get_bits(0..=31), 0xFFFF_FFFF);
    assert_eq!(0x1234_5678_9ABC_DEF0u64.get_bits(32..=63), 0x1234_5678);
    assert_eq!(0xBEEFu16.get_bits(8..=15), 0xBE);
    assert_eq!(0xF0usize.get_bits(4..=4), 1);
}

#[test]
fn get_bits_unshifted_keeps_the_field_in_place() {
    assert_eq!(0xABCD_E123u32.get_bits_unshifted(12..=31), 0xABCD_E000);
    assert_eq!(0xABCD_E123u32.get_bits_unshifted(0..=11), 0x123);
    assert_eq!(0b1011_0110u8.get_bits_unshifted(4..=5), 0b0011_0000);
    assert_eq!(0xBEEFu16.get_bits_unshifted(8..=15), 0xBE00);
    assert_eq!(0x1234_5678_9ABC_DEF0u64.get_bits_unshifted(32..=63), 0x1234_5678_0000_0000);
}

#[test]
fn set_bits_overwrites_the_field() {
    let mut word = 0x0000_0FFFu32;
    word.set_bits(12..=31, 0x000A_BCDE);
    assert_eq!(word, 0xABCD_EFFF);
    let mut word = 0xFFFF_FFFFu32;
    word.set_bits(4..=7, 0);
    assert_eq!(word, 0xFFFF_FF0F);
    let mut byte = 0u8;
    byte.set_bits(2..=3, 0xFF);
    assert_eq!(byte, 0b0000_1100);
    let mut half = 0x00FFu16;
    half.set_bits(8..=15, 0x12);
    assert_eq!(half, 0x12FF);
    let mut long = 0u64;
    long.set_bits(60..=63, 0xA);
    assert_eq!(long, 0xA000_0000_0000_0000);
}

#[test]
fn set_bits_all_fills_the_field() {
    let mut word = 0u32;
    word.set_bits_all(12..=31, true);
    assert_eq!(word, 0xFFFF_F000);
    word.set_bits_all(16..=23, false);
    assert_eq!(word, 0xFF00_F000);
    let mut byte = 0xFFu8;
    byte.set_bits_all(0..=0, false);
    assert_eq!(byte, 0xFE);
    let mut size = 0usize;
    size.set_bits_all(0..=3, true);
    assert_eq!(size, 15);
}

#[test]
fn units_are_powers_of_1024() {
    assert_eq!(4u32.KiB(), 4096);
    assert_eq!(4u32.MiB(), 4 * 1024 * 1024);
    assert_eq!(1u32.GiB(), 1 << 30);
    assert_eq!(1usize.GiB(), 1 << 30);
    assert_eq!(3u64.GiB(), 3u64 << 30);
    assert_eq!(63u16.KiB(), 64512);
    assert_eq!((-2i32).MiB(), -2 * 1024 * 1024);
    assert_eq!(31i16.KiB(), 31744);
    assert_eq!((-1i64).GiB(), -(1i64 << 30));
    assert_eq!(2isize.KiB(), 2048);
    assert_eq!(0u16.GiB(), 0);
}
