//! Visible stand-ins for control characters.
use vstd::prelude::*;

use crate::text::char_from_u32;

verus! {

/// ASCII control characters: code points below 0x20 and DEL.
pub open spec fn is_ascii_control(c: char) -> bool {
    (c as u32) < 0x20 || (c as u32) == 0x7F
}

/// The visible stand-in for a character: control characters map to the
/// Unicode "Control Pictures" block (U+2400 + code, DEL to U+2421),
/// every other character to itself.
pub open spec fn display_char_spec(c: char) -> char {
    if (c as u32) < 0x20 {
        (0x2400 + (c as u32)) as char
    } else if (c as u32) == 0x7F {
        '\u{2421}'
    } else {
        c
    }
}

/// Maps control characters to their visible Control Pictures symbols.
pub fn display_char(ch: char) -> (r: char)
    ensures
        r == display_char_spec(ch),
{
    let code: u32 = ch as u32;
    if code < 0x20 || code == 0x7F {
        if code == 0x7F {
            '\u{2421}'
        } else {
            match char_from_u32(0x2400 + code) {
                Some(c) => {
                    c
                },
                None => {
                    assert(false);
                    ch
                },
            }
        }
    } else {
        ch
    }
}

/// What is displayed is never an ASCII control character, and characters
/// that are not control characters are displayed as themselves.
pub proof fn display_char_visible(c: char)
    ensures
        !is_ascii_control(display_char_spec(c)),
        !is_ascii_control(c) ==> display_char_spec(c) == c,
{
}

} // verus!
