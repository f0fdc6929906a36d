//! The block characters that show the pixels of one character cell: half
//! blocks (1 by 2 pixels), sextants (2 by 3) and braille patterns (2 by
//! 4), and the bit sets that say which of a cell's pixels are set.
//!
//! Half block bits: bit `y` for row `y`. Sextant bits: bit `2 * y + x`.
//! Braille bits follow the Unicode braille dot numbering (`BRAILLE_MASK`).
use vstd::prelude::*;

use crate::text::char_from_u32;

verus! {

pub const FULL_BLOCK: char = '\u{2588}';
pub const UPPER_HALF_BLOCK: char = '\u{2580}';
pub const LOWER_HALF_BLOCK: char = '\u{2584}';

/// The sextant characters for bits `0..64` (index 0 is a space, 21 and 42
/// are the left and right half blocks, 63 the full block).
pub const TWO_BY_THREE: [char; 64] = [
    ' ', '🬀', '🬁', '🬂', '🬃', '🬄', '🬅', '🬆', '🬇', '🬈', '🬉', '🬊', '🬋', '🬌', '🬍',
    '🬎', '🬏', '🬐', '🬑', '🬒', '🬓', '▌', '🬔', '🬕', '🬖', '🬗', '🬘', '🬙', '🬚', '🬛',
    '🬜', '🬝', '🬞', '🬟', '🬠', '🬡', '🬢', '🬣', '🬤', '🬥', '🬦', '🬧', '▐', '🬨', '🬩',
    '🬪', '🬫', '🬬', '🬭', '🬮', '🬯', '🬰', '🬱', '🬲', '🬳', '🬴', '🬵', '🬶', '🬷', '🬸',
    '🬹', '🬺', '🬻', '█',
];

/// The braille dot of pixel `(x, y)` is `BRAILLE_MASK[2 * y + x]`.
pub const BRAILLE_MASK: [u32; 8] = [0x01, 0x08, 0x02, 0x10, 0x04, 0x20, 0x40, 0x80];

/// The sextant character for a set of six pixel bits: the block sextants
/// of U+1FB00..=U+1FB3B in order, with space, the left and right half
/// blocks and the full block at 0, 21, 42 and 63.
pub open spec fn sextant_char(bits: int) -> char {
    if bits == 0 {
        ' '
    } else if bits < 21 {
        (0x1FB00 + bits - 1) as char
    } else if bits == 21 {
        '\u{258C}'
    } else if bits < 42 {
        (0x1FB00 + bits - 2) as char
    } else if bits == 42 {
        '\u{2590}'
    } else if bits < 63 {
        (0x1FB00 + bits - 3) as char
    } else {
        '\u{2588}'
    }
}

/// The braille pattern with the dots of the low eight bits.
pub open spec fn braille_char(bits: u32) -> char {
    (0x2800 + (bits & 0xFF) as int) as char
}

/// The pixel bits of a half block character (other characters: none).
pub open spec fn half_block_bits(c: char) -> u32 {
    if c == UPPER_HALF_BLOCK {
        1
    } else if c == LOWER_HALF_BLOCK {
        2
    } else if c == FULL_BLOCK {
        3
    } else {
        0
    }
}

/// The half block character for the low two bits.
pub open spec fn half_block_char(bits: u32) -> char {
    let b = bits & 3u32;
    if b == 1 {
        UPPER_HALF_BLOCK
    } else if b == 2 {
        LOWER_HALF_BLOCK
    } else if b == 3 {
        FULL_BLOCK
    } else {
        ' '
    }
}

/// The pixel bits read from a sextant character: the full block is all
/// six pixels, and U+1FB00 + n is `n + 1` (the half blocks, and the
/// space, are none).
pub open spec fn sextant_bits(c: char) -> u32 {
    if c == FULL_BLOCK {
        63
    } else if 0x1FB00 <= (c as u32) && (c as u32) <= 0x1FB3B {
        ((c as u32) + 1 - 0x1FB00) as u32
    } else {
        0
    }
}

/// The pixel bits of a braille pattern (other characters: none).
pub open spec fn braille_bits(c: char) -> u32 {
    if 0x2800 <= (c as u32) && (c as u32) <= 0x28FF {
        ((c as u32) - 0x2800) as u32
    } else {
        0
    }
}

/// The braille dot of pixel `(x, y)`, none outside the 2 by 4 cell.
pub open spec fn braille_mask(x: u32, y: u32) -> u32 {
    if x > 1 || y > 3 {
        0
    } else {
        BRAILLE_MASK@[(y * 2 + x) as int]
    }
}

/// Whether pixel `(x, y)` of a braille cell is set (none outside the
/// 2 by 4 cell).
pub open spec fn braille_pixel(bits: u32, x: u32, y: u32) -> bool {
    x <= 1 && y <= 3 && (braille_mask(x, y) & bits) != 0
}

#[inline]
pub fn get_bits_from_half_block(c: char) -> (r: u32)
    ensures
        r == half_block_bits(c),
{
    if c == UPPER_HALF_BLOCK {
        1
    } else if c == LOWER_HALF_BLOCK {
        2
    } else if c == FULL_BLOCK {
        3
    } else {
        0
    }
}

#[inline]
pub fn get_bits_from_two_by_three(c: char) -> (r: u32)
    ensures
        r == sextant_bits(c),
{
    if c == FULL_BLOCK {
        63
    } else if c >= '\u{1FB00}' && c <= '\u{1FB3B}' {
        let code: u32 = c as u32;
        code + 1 - 0x1FB00
    } else {
        0
    }
}

#[inline]
pub fn get_bits_from_braille(c: char) -> (r: u32)
    ensures
        r == braille_bits(c),
{
    if c >= '\u{2800}' && c <= '\u{28FF}' {
        let code: u32 = c as u32;
        code - 0x2800
    } else {
        0
    }
}

#[inline]
pub fn get_half_block_from_bits(bits: u32) -> (c: char)
    ensures
        c == half_block_char(bits),
{
    let b = bits & 3;
    if b == 1 {
        UPPER_HALF_BLOCK
    } else if b == 2 {
        LOWER_HALF_BLOCK
    } else if b == 3 {
        FULL_BLOCK
    } else {
        ' '
    }
}

#[inline]
pub fn get_two_by_three_from_bits(bits: u32) -> (c: char)
    requires
        bits < 64,
    ensures
        c == sextant_char(bits as int),
{
    let c = TWO_BY_THREE[bits as usize];
    assert(forall|k: int| 0 <= k < 64 ==> #[trigger] TWO_BY_THREE@[k] == sextant_char(k));
    c
}

#[inline]
pub fn get_braille_from_bits(bits: u32) -> (c: char)
    ensures
        c == braille_char(bits),
{
    let low = bits & 0xFF;
    assert(low < 256) by (bit_vector)
        requires
            low == bits & 0xFF,
    ;
    match char_from_u32(0x2800 + low) {
        Some(c) => c,
        None => {
            assert(false);
            ' '
        },
    }
}

#[inline]
pub fn get_half_block_mask(y: u32) -> (m: u32)
    ensures
        m == if y > 1 {
            0u32
        } else {
            1u32 << y
        },
{
    if y > 1 {
        return 0;
    }
    1 << y
}

#[inline]
pub fn get_two_by_three_mask(x: u32, y: u32) -> (m: u32)
    ensures
        m == if x > 1 || y > 2 {
            0u32
        } else {
            1u32 << (y * 2 + x)
        },
{
    if x > 1 || y > 2 {
        return 0;
    }
    1 << (y * 2 + x)
}

#[inline]
pub fn get_braille_mask(x: u32, y: u32) -> (m: u32)
    ensures
        m == braille_mask(x, y),
{
    if x > 1 || y > 3 {
        return 0;
    }
    BRAILLE_MASK[(y * 2 + x) as usize]
}

#[inline]
pub fn get_pixel_from_half_block(bits: u32, y: u32) -> (b: bool)
    requires
        y < 32,
    ensures
        b == ((bits & (1u32 << y)) != 0),
{
    (bits & (1 << y)) != 0
}

#[inline]
pub fn get_pixel_from_two_by_three(bits: u32, x: u32, y: u32) -> (b: bool)
    requires
        y * 2 + x < 32,
    ensures
        b == ((bits & (1u32 << (y * 2 + x) as u32)) != 0),
{
    bits & (1 << (y * 2 + x)) != 0
}

#[inline]
pub fn get_pixel_from_braille(bits: u32, x: u32, y: u32) -> (b: bool)
    ensures
        b == braille_pixel(bits, x, y),
{
    if x > 1 || y > 3 {
        return false;
    }
    (BRAILLE_MASK[(y * 2 + x) as usize] & bits) != 0
}

#[inline]
pub fn set_pixel_in_half_block(bits: u32, y: u32) -> (r: u32)
    requires
        y < 32,
    ensures
        r == bits | (1u32 << y),
{
    bits | (1 << y)
}

#[inline]
pub fn set_pixel_in_two_by_three(bits: u32, x: u32, y: u32) -> (r: u32)
    requires
        y * 2 + x < 32,
    ensures
        r == bits | (1u32 << (y * 2 + x) as u32),
{
    bits | (1 << (y * 2 + x))
}

#[inline]
pub fn set_pixel_in_braille(bits: u32, x: u32, y: u32) -> (r: u32)
    ensures
        r == bits | braille_mask(x, y),
{
    if x > 1 || y > 3 {
        assert(bits | 0u32 == bits) by (bit_vector);
        return bits;
    }
    bits | BRAILLE_MASK[(y * 2 + x) as usize]
}

#[inline]
pub fn clear_pixel_in_half_block(bits: u32, y: u32) -> (r: u32)
    requires
        y < 32,
    ensures
        r == bits & !(1u32 << y),
{
    bits & !(1 << y)
}

#[inline]
pub fn clear_pixel_in_two_by_three(bits: u32, x: u32, y: u32) -> (r: u32)
    requires
        y * 2 + x < 32,
    ensures
        r == bits & !(1u32 << (y * 2 + x) as u32),
{
    bits & !(1 << (y * 2 + x))
}

#[inline]
pub fn clear_pixel_in_braille(bits: u32, x: u32, y: u32) -> (r: u32)
    ensures
        r == bits & !braille_mask(x, y),
{
    if x > 1 || y > 3 {
        assert(bits & !0u32 == bits) by (bit_vector);
        return bits;
    }
    bits & !BRAILLE_MASK[(y * 2 + x) as usize]
}

/// A half block character's bits give back the character: for space and
/// the three half and full blocks.
pub proof fn half_block_char_roundtrip(c: char)
    requires
        c == ' ' || c == UPPER_HALF_BLOCK || c == LOWER_HALF_BLOCK || c == FULL_BLOCK,
    ensures
        half_block_char(half_block_bits(c)) == c,
{
    assert(1u32 & 3u32 == 1u32 && 2u32 & 3u32 == 2u32 && 3u32 & 3u32 == 3u32 && 0u32 & 3u32
        == 0u32) by (bit_vector);
}

/// The character for the low two bits reads back as those bits.
pub proof fn half_block_bits_roundtrip(bits: u32)
    ensures
        half_block_bits(half_block_char(bits)) == bits & 3u32,
{
    let b = bits & 3u32;
    assert(b < 4) by (bit_vector)
        requires
            b == bits & 3u32,
    ;
}

/// The braille character for the low eight bits reads back as those bits.
pub proof fn braille_bits_roundtrip(bits: u32)
    ensures
        braille_bits(braille_char(bits)) == bits & 0xFFu32,
{
    let b = bits & 0xFFu32;
    assert(b < 256) by (bit_vector)
        requires
            b == bits & 0xFFu32,
    ;
}

/// A braille pattern's bits give back the pattern.
pub proof fn braille_char_roundtrip(c: char)
    requires
        0x2800 <= (c as u32) <= 0x28FF,
    ensures
        braille_char(braille_bits(c)) == c,
{
    let b = ((c as u32) - 0x2800) as u32;
    assert(b & 0xFFu32 == b) by (bit_vector)
        requires
            b < 256,
    ;
}

/// The sextant character of a set of bits reads back as those bits where
/// the character is one of the first twenty sextants, space or the full
/// block. (The half blocks at 21 and 42 read back as no bits, and the
/// sextants after them as one or two bits less.)
pub proof fn sextant_bits_roundtrip(bits: int)
    requires
        0 <= bits < 21 || bits == 63,
    ensures
        sextant_bits(sextant_char(bits)) == bits,
{
}

/// A sextant character reads back as bits that give back the character,
/// for the first twenty sextants, space and the full block.
pub proof fn sextant_char_roundtrip(c: char)
    requires
        c == ' ' || c == FULL_BLOCK || (0x1FB00 <= (c as u32) && (c as u32) <= 0x1FB13),
    ensures
        sextant_char(sextant_bits(c) as int) == c,
{
}

proof fn lemma_single_bits(bits: u32, m: u32, m2: u32)
    requires
        m == 1 || m == 2 || m == 4 || m == 8 || m == 16 || m == 32 || m == 64 || m == 128,
        m2 == 1 || m2 == 2 || m2 == 4 || m2 == 8 || m2 == 16 || m2 == 32 || m2 == 64 || m2 == 128,
    ensures
        ((m2 & (bits | m)) != 0) == (m2 == m || (m2 & bits) != 0),
        ((m2 & (bits & !m)) != 0) == (m2 != m && (m2 & bits) != 0),
{
    assert(((m2 & (bits | m)) != 0) == (m2 == m || (m2 & bits) != 0)) by (bit_vector)
        requires
            m == 1 || m == 2 || m == 4 || m == 8 || m == 16 || m == 32 || m == 64 || m == 128,
            m2 == 1 || m2 == 2 || m2 == 4 || m2 == 8 || m2 == 16 || m2 == 32 || m2 == 64 || m2
                == 128,
    ;
    assert(((m2 & (bits & !m)) != 0) == (m2 != m && (m2 & bits) != 0)) by (bit_vector)
        requires
            m == 1 || m == 2 || m == 4 || m == 8 || m == 16 || m == 32 || m == 64 || m == 128,
            m2 == 1 || m2 == 2 || m2 == 4 || m2 == 8 || m2 == 16 || m2 == 32 || m2 == 64 || m2
                == 128,
    ;
}

/// Setting a pixel of a braille cell shows that pixel and leaves the
/// others as they were; clearing it hides that pixel and leaves the
/// others as they were. Outside the cell neither changes anything.
pub proof fn braille_set_clear_pixel(bits: u32, x: u32, y: u32, x2: u32, y2: u32)
    ensures
        braille_pixel(bits | braille_mask(x, y), x2, y2) == ((x2 == x && y2 == y && x <= 1 && y
            <= 3) || braille_pixel(bits, x2, y2)),
        braille_pixel(bits & !braille_mask(x, y), x2, y2) == (!(x2 == x && y2 == y)
            && braille_pixel(bits, x2, y2)),
{
    assert(BRAILLE_MASK@ =~= seq![1u32, 8u32, 2u32, 16u32, 4u32, 32u32, 64u32, 128u32]);
    if x <= 1 && y <= 3 {
        if x2 <= 1 && y2 <= 3 {
            lemma_single_bits(bits, braille_mask(x, y), braille_mask(x2, y2));
        }
    } else {
        assert(bits | 0u32 == bits && bits & !0u32 == bits) by (bit_vector);
    }
}

/// Setting pixel `y` of a half block cell shows it and leaves the other
/// as it was; clearing it hides it and leaves the other as it was.
pub proof fn half_block_set_clear_pixel(bits: u32, y: u32, y2: u32)
    requires
        y < 32,
        y2 < 32,
    ensures
        ((bits | (1u32 << y)) & (1u32 << y2) != 0) == (y2 == y || (bits & (1u32 << y2)) != 0),
        ((bits & !(1u32 << y)) & (1u32 << y2) != 0) == (y2 != y && (bits & (1u32 << y2)) != 0),
{
    assert(((bits | (1u32 << y)) & (1u32 << y2) != 0) == (y2 == y || (bits & (1u32 << y2)) != 0))
        by (bit_vector)
        requires
            y < 32,
            y2 < 32,
    ;
    assert(((bits & !(1u32 << y)) & (1u32 << y2) != 0) == (y2 != y && (bits & (1u32 << y2))
        != 0)) by (bit_vector)
        requires
            y < 32,
            y2 < 32,
    ;
}

/// Setting pixel `(x, y)` of a sextant cell shows it and leaves the others
/// as they were; clearing it hides it and leaves the others as they were.
pub proof fn two_by_three_set_clear_pixel(bits: u32, x: u32, y: u32, x2: u32, y2: u32)
    requires
        x <= 1,
        x2 <= 1,
        y * 2 + x < 32,
        y2 * 2 + x2 < 32,
    ensures
        ((bits | (1u32 << (y * 2 + x) as u32)) & (1u32 << (y2 * 2 + x2) as u32) != 0) == ((x2
            == x && y2 == y) || (bits & (1u32 << (y2 * 2 + x2) as u32)) != 0),
        ((bits & !(1u32 << (y * 2 + x) as u32)) & (1u32 << (y2 * 2 + x2) as u32) != 0) == (!(x2
            == x && y2 == y) && (bits & (1u32 << (y2 * 2 + x2) as u32)) != 0),
{
    let i = (y * 2 + x) as u32;
    let j = (y2 * 2 + x2) as u32;
    half_block_set_clear_pixel(bits, i, j);
}

} // verus!
