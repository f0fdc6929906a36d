//! ANSI escape sequences for styles, colors and clearing, and writing
//! colors as sequences into a byte buffer.
use vstd::prelude::*;

use crate::color::{bg_number, fg_number, sgr, Color, Rgb};
use crate::text::{dec_bytes, push_decimal};

verus! {

/// `ESC [ 0 m`: all attributes off.
pub const CLEAR_STYLE: [u8; 4] = [27, 91, 48, 109];

/// `ESC [ 1 m`
pub const BOLD: [u8; 4] = [27, 91, 49, 109];

/// `ESC [ 2 m`
pub const FAINT: [u8; 4] = [27, 91, 50, 109];

/// `ESC [ 3 m`
pub const ITALIC: [u8; 4] = [27, 91, 51, 109];

/// `ESC [ 4 m`
pub const UNDERLINE: [u8; 4] = [27, 91, 52, 109];

/// `ESC [ 21 m`
pub const DOUBLY_UNDERLINE: [u8; 5] = [27, 91, 50, 49, 109];

/// `ESC [ 22 m`
pub const NORMAL_INTENSITY: [u8; 5] = [27, 91, 50, 50, 109];

/// `ESC [ 23 m`
pub const NOT_ITALIC: [u8; 5] = [27, 91, 50, 51, 109];

/// `ESC [ 24 m`
pub const NOT_UNDERLINE: [u8; 5] = [27, 91, 50, 52, 109];

/// `ESC [ 39 m`: the default foreground.
pub const FG_DEFAULT: [u8; 5] = [27, 91, 51, 57, 109];

/// `ESC [ 49 m`: the default background.
pub const BG_DEFAULT: [u8; 5] = [27, 91, 52, 57, 109];

/// `ESC [ 2 J`
pub const CLEAR_SCREEN: [u8; 4] = [27, 91, 50, 74];

/// `ESC [ 0 K`
pub const CLEAR_LINE_TO_END: [u8; 4] = [27, 91, 48, 75];

/// `ESC [ 1 K`
pub const CLEAR_LINE_TO_START: [u8; 4] = [27, 91, 49, 75];

/// `ESC [ 2 K`
pub const CLEAR_LINE: [u8; 4] = [27, 91, 50, 75];

/// `ESC [ <lead> ; 2 ; <r> ; <g> ; <b> m` for `lead` 38 (foreground) or
/// 48 (background).
pub open spec fn rgb_sgr(lead: u8, c: Rgb) -> Seq<u8> {
    seq![27u8, 91u8, lead, 56u8, 59u8, 50u8, 59u8] + dec_bytes(c.r as nat) + seq![59u8]
        + dec_bytes(c.g as nat) + seq![59u8] + dec_bytes(c.b as nat) + seq![109u8]
}

/// The sequence that selects a 24 bit foreground color.
pub open spec fn fg_rgb_bytes(c: Rgb) -> Seq<u8> {
    rgb_sgr(51, c)
}

/// The sequence that selects a 24 bit background color.
pub open spec fn bg_rgb_bytes(c: Rgb) -> Seq<u8> {
    rgb_sgr(52, c)
}

/// The sequence that selects a color as foreground.
pub open spec fn fg_bytes(color: Color) -> Seq<u8> {
    match color {
        Color::Default => FG_DEFAULT@,
        Color::Rgb { r, g, b } => fg_rgb_bytes(Rgb { r, g, b }),
        Color::Color16(c) => sgr(fg_number(c)),
    }
}

/// The sequence that selects a color as background.
pub open spec fn bg_bytes(color: Color) -> Seq<u8> {
    match color {
        Color::Default => BG_DEFAULT@,
        Color::Rgb { r, g, b } => bg_rgb_bytes(Rgb { r, g, b }),
        Color::Color16(c) => sgr(bg_number(c)),
    }
}

/// Appends `bytes`.
pub fn push_bytes(out: &mut Vec<u8>, bytes: &[u8])
    ensures
        final(out)@ == old(out)@ + bytes@,
{
    out.extend_from_slice(bytes);
    assert(out@ =~= old(out)@ + bytes@);
}

fn write_rgb_sgr(write: &mut Vec<u8>, lead: u8, c: Rgb)
    ensures
        final(write)@ == old(write)@ + rgb_sgr(lead, c),
{
    write.push(27);
    write.push(91);
    write.push(lead);
    write.push(56);
    write.push(59);
    write.push(50);
    write.push(59);
    push_decimal(write, c.r as u64);
    write.push(59);
    push_decimal(write, c.g as u64);
    write.push(59);
    push_decimal(write, c.b as u64);
    write.push(109);
    assert(write@ =~= old(write)@ + rgb_sgr(lead, c));
}

/// Appends the sequence that selects `color` as foreground.
pub fn write_fg(write: &mut Vec<u8>, color: Color)
    ensures
        final(write)@ == old(write)@ + fg_bytes(color),
{
    match color {
        Color::Default => push_bytes(write, &FG_DEFAULT),
        Color::Rgb { r, g, b } => write_fg_rgb(write, Rgb { r, g, b }),
        Color::Color16(c) => push_bytes(write, c.fg()),
    }
}

/// Appends the sequence that selects a 24 bit foreground color.
pub fn write_fg_rgb(write: &mut Vec<u8>, color: Rgb)
    ensures
        final(write)@ == old(write)@ + fg_rgb_bytes(color),
{
    write_rgb_sgr(write, 51, color)
}

/// Appends the sequence that selects `color` as background.
pub fn write_bg(write: &mut Vec<u8>, color: Color)
    ensures
        final(write)@ == old(write)@ + bg_bytes(color),
{
    match color {
        Color::Default => push_bytes(write, &BG_DEFAULT),
        Color::Rgb { r, g, b } => write_bg_rgb(write, Rgb { r, g, b }),
        Color::Color16(c) => push_bytes(write, c.bg()),
    }
}

/// Appends the sequence that selects a 24 bit background color.
pub fn write_bg_rgb(write: &mut Vec<u8>, color: Rgb)
    ensures
        final(write)@ == old(write)@ + bg_rgb_bytes(color),
{
    write_rgb_sgr(write, 52, color)
}

} // verus!
