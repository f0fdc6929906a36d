use termsnow::glyphs::{
    clear_pixel_in_braille, clear_pixel_in_half_block, clear_pixel_in_two_by_three,
    get_bits_from_braille, get_bits_from_half_block, get_bits_from_two_by_three,
    get_braille_from_bits, get_braille_mask, get_half_block_from_bits, get_half_block_mask,
    get_pixel_from_braille, get_pixel_from_half_block, get_pixel_from_two_by_three,
    get_two_by_three_from_bits, get_two_by_three_mask, set_pixel_in_braille,
    set_pixel_in_half_block, set_pixel_in_two_by_three, FULL_BLOCK, LOWER_HALF_BLOCK,
    UPPER_HALF_BLOCK,
};
use termsnow::unicode::display_char;

#[test]
fn half_block_chars_and_bits() {
    assert_eq!(get_half_block_from_bits(0), ' ');
    assert_eq!(get_half_block_from_bits(1), '\u{2580}');
    assert_eq!(get_half_block_from_bits(2), '\u{2584}');
    assert_eq!(get_half_block_from_bits(3), '\u{2588}');
    assert_eq!(get_half_block_from_bits(0b111), '\u{2588}');
    assert_eq!(get_bits_from_half_block(UPPER_HALF_BLOCK), 1);
    assert_eq!(get_bits_from_half_block(LOWER_HALF_BLOCK), 2);
    assert_eq!(get_bits_from_half_block(FULL_BLOCK), 3);
    assert_eq!(get_bits_from_half_block('x'), 0);
    for bits in 0..8u32 {
        assert_eq!(get_bits_from_half_block(get_half_block_from_bits(bits)), bits & 3);
    }
}

#[test]
fn sextant_chars_and_bits() {
    assert_eq!(get_two_by_three_from_bits(0), ' ');
    assert_eq!(get_two_by_three_from_bits(1), '\u{1FB00}');
    assert_eq!(get_two_by_three_from_bits(20), '\u{1FB13}');
    assert_eq!(get_two_by_three_from_bits(21), '\u{258C}');
    assert_eq!(get_two_by_three_from_bits(22), '\u{1FB14}');
    assert_eq!(get_two_by_three_from_bits(42), '\u{2590}');
    assert_eq!(get_two_by_three_from_bits(63), '\u{2588}');
    for bits in (0..21u32).chain([63u32]) {
        assert_eq!(get_bits_from_two_by_three(get_two_by_three_from_bits(bits)), bits);
    }
    // the half blocks and the sextants after them do not read back
    assert_eq!(get_bits_from_two_by_three(get_two_by_three_from_bits(21)), 0);
    assert_eq!(get_bits_from_two_by_three(get_two_by_three_from_bits(22)), 21);
    assert_eq!(get_bits_from_two_by_three('\u{1FB3B}'), 0x3C);
    assert_eq!(get_bits_from_two_by_three('a'), 0);
}

#[test]
fn braille_chars_and_bits() {
    assert_eq!(get_braille_from_bits(0), '\u{2800}');
    assert_eq!(get_braille_from_bits(0xFF), '\u{28FF}');
    assert_eq!(get_braille_from_bits(0x1FF), '\u{28FF}');
    assert_eq!(get_bits_from_braille('\u{2842}'), 0x42);
    assert_eq!(get_bits_from_braille('a'), 0);
    for bits in 0..256u32 {
        assert_eq!(get_bits_from_braille(get_braille_from_bits(bits)), bits);
    }
}

#[test]
fn masks() {
    assert_eq!(get_half_block_mask(0), 1);
    assert_eq!(get_half_block_mask(1), 2);
    assert_eq!(get_half_block_mask(2), 0);
    assert_eq!(get_two_by_three_mask(1, 2), 32);
    assert_eq!(get_two_by_three_mask(2, 0), 0);
    assert_eq!(get_two_by_three_mask(0, 3), 0);
    assert_eq!(get_braille_mask(0, 0), 0x01);
    assert_eq!(get_braille_mask(1, 0), 0x08);
    assert_eq!(get_braille_mask(0, 3), 0x40);
    assert_eq!(get_braille_mask(1, 3), 0x80);
    assert_eq!(get_braille_mask(2, 0), 0);
    assert_eq!(get_braille_mask(0, 4), 0);
}

#[test]
fn set_get_clear_pixels() {
    for y in 0..2u32 {
        let bits = set_pixel_in_half_block(0, y);
        assert!(get_pixel_from_half_block(bits, y));
        assert!(!get_pixel_from_half_block(bits, 1 - y));
        assert!(!get_pixel_from_half_block(clear_pixel_in_half_block(bits, y), y));
    }
    for y in 0..3u32 {
        for x in 0..2u32 {
            let bits = set_pixel_in_two_by_three(0b101010, x, y);
            assert!(get_pixel_from_two_by_three(bits, x, y));
            let cleared = clear_pixel_in_two_by_three(bits, x, y);
            assert!(!get_pixel_from_two_by_three(cleared, x, y));
        }
    }
    for y in 0..4u32 {
        for x in 0..2u32 {
            let bits = set_pixel_in_braille(0, x, y);
            assert!(get_pixel_from_braille(bits, x, y));
            assert_eq!(bits.count_ones(), 1);
            assert!(!get_pixel_from_braille(clear_pixel_in_braille(0xFF, x, y), x, y));
            assert_eq!(clear_pixel_in_braille(0xFF, x, y).count_ones(), 7);
        }
    }
    assert_eq!(set_pixel_in_braille(5, 2, 0), 5);
    assert_eq!(clear_pixel_in_braille(5, 0, 9), 5);
    assert!(!get_pixel_from_braille(0xFF, 3, 0));
}

#[test]
fn display_char_controls() {
    assert_eq!(display_char('\x00'), '\u{2400}');
    assert_eq!(display_char('\x01'), '\u{2401}');
    assert_eq!(display_char('\x1F'), '\u{241F}');
    assert_eq!(display_char('\x7F'), '\u{2421}');
    assert_eq!(display_char('a'), 'a');
    assert_eq!(display_char('\u{80}'), '\u{80}');
}
