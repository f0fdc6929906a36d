//! Decoding of terminal input: key presses, escape sequences (CSI and
//! SS3), xterm SGR mouse reports, cursor position reports and UTF-8
//! characters, from the bytes that the terminal has sent.
//!
//! The decoder looks at the bytes available at the moment; a byte that is
//! not there yet counts as the end of the input. The numeric parameters of
//! the last control sequence that had any are kept between calls.
use vstd::prelude::*;
use vstd::utf8::encode_scalar;

use crate::event::{
    button_from_flags, char_event, escape_event, escape_event_spec, plain_key, Event, Key,
    MouseButton, ESCAPE, MOUSE_MASK_ALT, MOUSE_MASK_CTRL, MOUSE_MASK_MOVE, MOUSE_MASK_SHIFT,
    MOUSE_MASK_UNKNOWN, MOUSE_MASK_WHEEL,
};
use crate::text::char_from_u32;

verus! {

/// The character that stands for a byte that starts a UTF-8 sequence
/// which the following bytes do not complete.
pub const REPLACEMENT: char = '\u{FFFD}';

pub open spec fn is_digit(b: u8) -> bool {
    48 <= b && b <= 57
}

/// UTF-8 continuation bytes: `0b10xx_xxxx`.
pub open spec fn is_cont_spec(b: u8) -> bool {
    0x80 <= b && b < 0xC0
}

/// Whether a continuation byte is available at `pos`.
pub open spec fn cont_at(input: Seq<u8>, pos: int) -> bool {
    0 <= pos < input.len() && is_cont_spec(input[pos])
}

/// The character that begins with `byte`, whose further bytes are looked
/// for from `pos`, and the position after it. A lead byte of a two, three
/// or four byte sequence takes the low bits of the lead byte, then the low
/// six bits of the last one or two continuation bytes (the second byte of
/// a three or four byte sequence is skipped, not decoded). A lead byte
/// that its continuation bytes do not follow stands for `REPLACEMENT` and
/// takes nothing further. Any other byte stands for the character of the
/// same code.
pub open spec fn utf8_char(input: Seq<u8>, byte: u8, pos: int) -> (char, int) {
    if byte >= 0xF0 {
        if cont_at(input, pos) && cont_at(input, pos + 1) && cont_at(input, pos + 2) {
            (
                ((byte % 8) as int * 4096 + (input[pos + 1] % 64) as int * 64 + (input[pos + 2]
                    % 64) as int) as char,
                pos + 3,
            )
        } else {
            (REPLACEMENT, pos)
        }
    } else if byte >= 0xE0 {
        if cont_at(input, pos) && cont_at(input, pos + 1) {
            (((byte % 16) as int * 64 + (input[pos + 1] % 64) as int) as char, pos + 2)
        } else {
            (REPLACEMENT, pos)
        }
    } else if byte >= 0xC0 {
        if cont_at(input, pos) {
            (((byte % 32) as int * 64 + (input[pos] % 64) as int) as char, pos + 1)
        } else {
            (REPLACEMENT, pos)
        }
    } else {
        (byte as char, pos)
    }
}

/// Whether a byte is a UTF-8 continuation byte.
pub fn is_cont(byte: u8) -> (r: bool)
    ensures
        r == is_cont_spec(byte),
{
    byte >= 0x80 && byte < 0xC0
}

fn cont_at_exec(input: &[u8], pos: usize) -> (r: bool)
    ensures
        r == cont_at(input@, pos as int),
{
    pos < input.len() && is_cont(input[pos])
}

fn char_of(code: u32) -> (c: char)
    requires
        code < 0xD800,
    ensures
        c == (code as char),
{
    match char_from_u32(code) {
        Some(c) => c,
        None => REPLACEMENT,
    }
}

/// Decodes the character that begins with `byte`; its further bytes are
/// looked for from `pos`. Returns the character and the position after it.
pub fn parse_utf8(input: &[u8], byte: u8, pos: usize) -> (r: (char, usize))
    requires
        pos <= input.len(),
    ensures
        r.0 == utf8_char(input@, byte, pos as int).0,
        r.1 as int == utf8_char(input@, byte, pos as int).1,
{
    if byte >= 0xF0 {
        if cont_at_exec(input, pos) && cont_at_exec(input, pos + 1) && cont_at_exec(input, pos + 2) {
            let code: u32 = (byte % 8) as u32 * 4096 + (input[pos + 1] % 64) as u32 * 64 + (input[pos
                + 2] % 64) as u32;
            (char_of(code), pos + 3)
        } else {
            (REPLACEMENT, pos)
        }
    } else if byte >= 0xE0 {
        if cont_at_exec(input, pos) && cont_at_exec(input, pos + 1) {
            let code: u32 = (byte % 16) as u32 * 64 + (input[pos + 1] % 64) as u32;
            (char_of(code), pos + 2)
        } else {
            (REPLACEMENT, pos)
        }
    } else if byte >= 0xC0 {
        if cont_at_exec(input, pos) {
            let code: u32 = (byte % 32) as u32 * 64 + (input[pos] % 64) as u32;
            (char_of(code), pos + 1)
        } else {
            (REPLACEMENT, pos)
        }
    } else {
        (byte as char, pos)
    }
}

/// The first position from `pos` on that does not hold a decimal digit.
pub open spec fn digits_end(input: Seq<u8>, pos: int) -> int
    decreases input.len() - pos,
{
    if 0 <= pos < input.len() && is_digit(input[pos]) {
        digits_end(input, pos + 1)
    } else {
        pos
    }
}

/// The number that the digits in `start..end` spell, modulo 2^32.
pub open spec fn digits_value(input: Seq<u8>, start: int, end: int) -> u32
    decreases end - start,
{
    if end <= start {
        0
    } else {
        digits_value(input, start, end - 1).wrapping_mul(10).wrapping_add(
            (input[end - 1] - 48) as u32,
        )
    }
}

/// The `;` separated numeric parameters of a control sequence from `pos`
/// on, and the position of the byte that ends them, or the input's length
/// where the input ends first. An empty parameter counts as 0.
pub open spec fn csi_params(input: Seq<u8>, pos: int) -> (Seq<u32>, int)
    decreases input.len() - pos,
{
    let e = digits_end(input, pos);
    let v = digits_value(input, pos, e);
    if pos < 0 || pos >= input.len() || e < pos {
        (seq![v], e)
    } else if e < input.len() && input[e] == 59 {
        if e + 1 < input.len() {
            let rest = csi_params(input, e + 1);
            (seq![v] + rest.0, rest.1)
        } else {
            (seq![v], input.len() as int)
        }
    } else {
        (seq![v], e)
    }
}

proof fn lemma_digits_end_bounds(input: Seq<u8>, pos: int)
    requires
        0 <= pos <= input.len(),
    ensures
        pos <= digits_end(input, pos) <= input.len(),
        forall|i: int| pos <= i < digits_end(input, pos) ==> is_digit(#[trigger] input[i]),
    decreases input.len() - pos,
{
    if pos < input.len() && is_digit(input[pos]) {
        lemma_digits_end_bounds(input, pos + 1);
    }
}

proof fn lemma_csi_params_bounds(input: Seq<u8>, pos: int)
    requires
        0 <= pos < input.len(),
    ensures
        pos <= csi_params(input, pos).1 <= input.len(),
        csi_params(input, pos).0.len() >= 1,
    decreases input.len() - pos,
{
    lemma_digits_end_bounds(input, pos);
    let e = digits_end(input, pos);
    if e < input.len() && input[e] == 59 && e + 1 < input.len() {
        lemma_csi_params_bounds(input, e + 1);
    }
}

/// Reads the numeric parameters of a control sequence that start at
/// `start`.
pub fn parse_csi_params(input: &[u8], start: usize) -> (r: (Vec<u32>, usize))
    requires
        start < input.len(),
    ensures
        r.0@ == csi_params(input@, start as int).0,
        r.1 as int == csi_params(input@, start as int).1,
{
    let len = input.len();
    let mut ps: Vec<u32> = Vec::new();
    let mut pos = start;
    let ghost total = csi_params(input@, start as int);
    loop
        invariant
            len == input@.len(),
            start <= pos < len,
            total == csi_params(input@, start as int),
            ps@ + csi_params(input@, pos as int).0 == total.0,
            csi_params(input@, pos as int).1 == total.1,
        decreases len - pos,
    {
        proof {
            lemma_digits_end_bounds(input@, pos as int);
        }
        let mut v: u32 = 0;
        let mut i = pos;
        while i < len && input[i] >= 48 && input[i] <= 57
            invariant
                len == input@.len(),
                pos <= i <= len,
                v == digits_value(input@, pos as int, i as int),
                digits_end(input@, pos as int) == digits_end(input@, i as int),
            decreases len - i,
        {
            let d: u8 = input[i] - 48;
            v = v.wrapping_mul(10).wrapping_add(d as u32);
            i = i + 1;
        }
        let ghost here = csi_params(input@, pos as int);
        let ghost before = ps@;
        assert(digits_end(input@, i as int) == i);
        assert(digits_end(input@, pos as int) == i as int);
        ps.push(v);
        if i < len && input[i] == 59 {
            if i + 1 < len {
                assert(ps@ + csi_params(input@, i + 1).0 =~= before + here.0);
                pos = i + 1;
            } else {
                assert(here.0 =~= seq![v]);
                assert(here.1 == len);
                assert(ps@ =~= before + here.0);
                assert(ps@ == total.0);
                return (ps, len);
            }
        } else {
            assert(here.0 =~= seq![v]);
            assert(here.1 == i);
            assert(ps@ =~= before + here.0);
            assert(ps@ == total.0);
            return (ps, i);
        }
    }
}


/// The key that a letter ends a cursor key sequence with (`ESC [ A` and
/// `ESC [ 1 ; <m> A` alike).
pub open spec fn csi_letter_key(b: u8) -> Option<Key> {
    if b == 65 {
        Some(Key::Up)
    } else if b == 66 {
        Some(Key::Down)
    } else if b == 67 {
        Some(Key::Right)
    } else if b == 68 {
        Some(Key::Left)
    } else if b == 70 {
        Some(Key::End)
    } else if b == 69 || b == 71 {
        Some(Key::Keypad5)
    } else if b == 72 {
        Some(Key::Home)
    } else if b == 80 {
        Some(Key::Pause)
    } else {
        None
    }
}

fn csi_letter_key_exec(b: u8) -> (r: Option<Key>)
    ensures
        r == csi_letter_key(b),
{
    if b == 65 {
        Some(Key::Up)
    } else if b == 66 {
        Some(Key::Down)
    } else if b == 67 {
        Some(Key::Right)
    } else if b == 68 {
        Some(Key::Left)
    } else if b == 70 {
        Some(Key::End)
    } else if b == 69 || b == 71 {
        Some(Key::Keypad5)
    } else if b == 72 {
        Some(Key::Home)
    } else if b == 80 {
        Some(Key::Pause)
    } else {
        None
    }
}

/// The key of a `ESC [ <n> ~` sequence.
pub open spec fn tilde_key(n: u32) -> Option<Key> {
    if n == 2 {
        Some(Key::Insert)
    } else if n == 3 {
        Some(Key::Delete)
    } else if n == 4 || n == 8 {
        Some(Key::End)
    } else if n == 5 {
        Some(Key::PageUp)
    } else if n == 6 {
        Some(Key::PageDown)
    } else if n == 7 {
        Some(Key::Home)
    } else if n == 15 {
        Some(Key::Function(5))
    } else if 17 <= n && n <= 21 {
        Some(Key::Function((n - 11) as u16))
    } else if 23 <= n && n <= 26 {
        Some(Key::Function((n - 12) as u16))
    } else if n == 28 || n == 29 {
        Some(Key::Function((n - 13) as u16))
    } else if 31 <= n && n <= 34 {
        Some(Key::Function((n - 14) as u16))
    } else {
        None
    }
}

fn tilde_key_exec(n: u32) -> (r: Option<Key>)
    ensures
        r == tilde_key(n),
{
    if n == 2 {
        Some(Key::Insert)
    } else if n == 3 {
        Some(Key::Delete)
    } else if n == 4 || n == 8 {
        Some(Key::End)
    } else if n == 5 {
        Some(Key::PageUp)
    } else if n == 6 {
        Some(Key::PageDown)
    } else if n == 7 {
        Some(Key::Home)
    } else if n == 15 {
        Some(Key::Function(5))
    } else if 17 <= n && n <= 21 {
        Some(Key::Function((n - 11) as u16))
    } else if 23 <= n && n <= 26 {
        Some(Key::Function((n - 12) as u16))
    } else if n == 28 || n == 29 {
        Some(Key::Function((n - 13) as u16))
    } else if 31 <= n && n <= 34 {
        Some(Key::Function((n - 14) as u16))
    } else {
        None
    }
}

/// A key press whose modifiers are encoded as `m - 1` (Shift 1, Alt 2,
/// Ctrl 4; the subtraction wraps).
pub open spec fn modified_key(key: Key, m: u32) -> Event {
    let map = m.wrapping_sub(1);
    Event::KeyPress {
        key,
        shift: (map & 1u32) != 0,
        alt: (map & 2u32) != 0,
        ctrl: (map & 4u32) != 0,
    }
}

fn modified_key_exec(key: Key, m: u32) -> (e: Event)
    ensures
        e == modified_key(key, m),
{
    let map = m.wrapping_sub(1);
    Event::KeyPress { key, shift: (map & 1) != 0, alt: (map & 2) != 0, ctrl: (map & 4) != 0 }
}

/// The event of an SGR mouse report `ESC [ < flags ; column ; row M|m`
/// (columns and rows count from 1 there and from 0 in the event).
pub open spec fn mouse_event(fb: u8, flags: u32, column: u32, row: u32) -> Event {
    if column == 0 || row == 0 || (flags & 128u32) != 0 {
        Event::Unsupported
    } else if column - 1 > i32::MAX || row - 1 > i32::MAX {
        Event::Unsupported
    } else {
        let c = (column - 1) as i32;
        let r = (row - 1) as i32;
        let shift = (flags & 4u32) != 0;
        let alt = (flags & 8u32) != 0;
        let ctrl = (flags & 16u32) != 0;
        if (flags & 64u32) != 0 {
            if (flags & 1u32) == 0 {
                Event::WheelUp { row: r, column: c, shift, ctrl, alt }
            } else {
                Event::WheelDown { row: r, column: c, shift, ctrl, alt }
            }
        } else if (flags & 32u32) != 0 {
            Event::MouseMove { row: r, column: c, shift, ctrl, alt, button: button_from_flags(flags) }
        } else if fb == 77 {
            Event::MouseDown { row: r, column: c, shift, ctrl, alt, button: button_from_flags(flags) }
        } else {
            Event::MouseUp { row: r, column: c, shift, ctrl, alt, button: button_from_flags(flags) }
        }
    }
}

/// Decodes an SGR mouse report that ends with `fb` (`M` press, `m`
/// release).
pub fn decode_mouse(fb: u8, flags: u32, column: u32, row: u32) -> (e: Event)
    ensures
        e == mouse_event(fb, flags, column, row),
{
    if column == 0 || row == 0 || (flags & MOUSE_MASK_UNKNOWN) != 0 {
        return Event::Unsupported;
    }
    let column = column - 1;
    let row = row - 1;
    if column > i32::MAX as u32 || row > i32::MAX as u32 {
        return Event::Unsupported;
    }
    let column = column as i32;
    let row = row as i32;
    let shift = (flags & MOUSE_MASK_SHIFT) != 0;
    let alt = (flags & MOUSE_MASK_ALT) != 0;
    let ctrl = (flags & MOUSE_MASK_CTRL) != 0;
    if (flags & MOUSE_MASK_WHEEL) != 0 {
        if (flags & 1) == 0 {
            return Event::WheelUp { row, column, shift, ctrl, alt };
        } else {
            return Event::WheelDown { row, column, shift, ctrl, alt };
        }
    }
    let button = MouseButton::from_flags(flags);
    if (flags & MOUSE_MASK_MOVE) != 0 {
        Event::MouseMove { row, column, shift, ctrl, alt, button }
    } else if fb == 77 {
        Event::MouseDown { row, column, shift, ctrl, alt, button }
    } else {
        Event::MouseUp { row, column, shift, ctrl, alt, button }
    }
}

/// The event of a cursor position report `ESC [ row ; column R` (rows and
/// columns count from 1 there and from 0 in the event).
pub open spec fn cursor_event(row: u32, column: u32) -> Event {
    if column == 0 || row == 0 {
        Event::Unsupported
    } else if column - 1 > i32::MAX || row - 1 > i32::MAX {
        Event::Unsupported
    } else {
        Event::CursorPosition { row: (row - 1) as i32, column: (column - 1) as i32 }
    }
}

fn decode_cursor(row: u32, column: u32) -> (e: Event)
    ensures
        e == cursor_event(row, column),
{
    if column == 0 || row == 0 {
        return Event::Unsupported;
    }
    let column = column - 1;
    let row = row - 1;
    if column > i32::MAX as u32 || row > i32::MAX as u32 {
        return Event::Unsupported;
    }
    Event::CursorPosition { row: row as i32, column: column as i32 }
}

/// The event of a control sequence with private marker `flag` (`?`, `<`,
/// or 0 for none), final byte `fb` and parameters `p`.
pub open spec fn csi_final(flag: u8, fb: u8, p: Seq<u32>) -> Event {
    if flag == 0 && p.len() == 2 && p[0] == 1 && csi_letter_key(fb) is Some {
        match csi_letter_key(fb) {
            Some(k) => modified_key(k, p[1]),
            None => Event::Unsupported,
        }
    } else if flag == 0 && fb == 126 && p.len() == 0 {
        plain_key(Key::Home, false)
    } else if flag == 0 && fb == 126 && p.len() == 2 {
        match tilde_key(p[0]) {
            Some(k) => modified_key(k, p[1]),
            None => Event::Unsupported,
        }
    } else if flag == 0 && fb == 126 && p.len() == 1 {
        match tilde_key(p[0]) {
            Some(k) => plain_key(k, false),
            None => Event::Unsupported,
        }
    } else if flag == 60 && (fb == 77 || fb == 109) && p.len() == 3 {
        mouse_event(fb, p[0], p[1], p[2])
    } else if (flag == 0 || flag == 63) && fb == 82 && p.len() == 2 {
        cursor_event(p[0], p[1])
    } else {
        Event::Unsupported
    }
}

/// Decodes a control sequence from its marker, final byte and parameters.
pub fn decode_csi_final(flag: u8, fb: u8, p: &Vec<u32>) -> (e: Event)
    ensures
        e == csi_final(flag, fb, p@),
{
    if flag == 0 && p.len() == 2 && p[0] == 1 {
        if let Some(k) = csi_letter_key_exec(fb) {
            return modified_key_exec(k, p[1]);
        }
    }
    if flag == 0 && fb == 126 && p.len() == 0 {
        return Event::key(Key::Home);
    }
    if flag == 0 && fb == 126 && p.len() == 2 {
        return match tilde_key_exec(p[0]) {
            Some(k) => modified_key_exec(k, p[1]),
            None => Event::Unsupported,
        };
    }
    if flag == 0 && fb == 126 && p.len() == 1 {
        return match tilde_key_exec(p[0]) {
            Some(k) => Event::key(k),
            None => Event::Unsupported,
        };
    }
    if flag == 60 && (fb == 77 || fb == 109) && p.len() == 3 {
        return decode_mouse(fb, p[0], p[1], p[2]);
    }
    if (flag == 0 || flag == 63) && fb == 82 && p.len() == 2 {
        return decode_cursor(p[0], p[1]);
    }
    Event::Unsupported
}

/// The keys of `ESC [ [ A` .. `ESC [ [ E` (F1 to F5 on the Linux console).
pub open spec fn console_function_key(b: u8) -> Option<u16> {
    if 65 <= b && b <= 69 {
        Some((b - 64) as u16)
    } else {
        None
    }
}

/// The least of a position and the input's length.
pub open spec fn clamp(p: int, len: int) -> int {
    if p > len {
        len
    } else {
        p
    }
}

/// Decoding of input that starts with `ESC [`: the event, the number of
/// bytes taken, and the parameters kept afterwards.
pub open spec fn csi_decode(params: Seq<u32>, input: Seq<u8>) -> (Event, int, Seq<u32>) {
    let len = input.len() as int;
    if len <= 2 {
        (plain_key(Key::Char('['), true), 2, params)
    } else if input[2] == 27 {
        (plain_key(Key::Char('['), true), 2, params)
    } else if csi_letter_key(input[2]) is Some {
        match csi_letter_key(input[2]) {
            Some(k) => (plain_key(k, false), 3, params),
            None => (Event::Unsupported, 3, params),
        }
    } else if input[2] == 91 {
        if len <= 3 {
            (plain_key(Key::Char('['), true), 2, params)
        } else {
            match console_function_key(input[3]) {
                Some(n) => (plain_key(Key::Function(n), false), 4, params),
                None => (Event::Unsupported, 3, params),
            }
        }
    } else if (input[2] == 63 || input[2] == 60) && len <= 3 {
        (Event::Unsupported, 3, params)
    } else {
        let flag: u8 = if input[2] == 63 || input[2] == 60 {
            input[2]
        } else {
            0
        };
        let p0: int = if flag != 0 {
            3
        } else {
            2
        };
        let parsed = if is_digit(input[p0]) {
            csi_params(input, p0)
        } else {
            (params, p0)
        };
        let f = parsed.1;
        let fb = if f < len {
            input[f]
        } else {
            input[len - 1]
        };
        (csi_final(flag, fb, parsed.0), clamp(f + 1, len), parsed.0)
    }
}

/// Decoding of input that starts with `ESC O` (SS3): the event and the
/// number of bytes taken. Where F1..F4 or Shift+Enter is recognised, or
/// the byte after `O` is another one, one byte more than the sequence is
/// taken when there is one.
pub open spec fn ss3_decode(input: Seq<u8>) -> (Event, int) {
    let len = input.len() as int;
    if len <= 2 {
        (Event::KeyPress { key: Key::Char('O'), ctrl: false, alt: true, shift: true }, 2)
    } else {
        let n = input[2];
        let e = if 80 <= n && n <= 83 {
            plain_key(Key::Function((n - 79) as u16), false)
        } else if n == 77 {
            Event::KeyPress { key: Key::Enter, ctrl: false, alt: false, shift: true }
        } else {
            char_event('O', true)
        };
        (e, clamp(4, len))
    }
}

/// Decoding of input that starts with ESC and a byte that opens no
/// sequence: Alt with that character, or Alt+Shift+Enter for
/// `ESC ESC O M`.
pub open spec fn alt_decode(input: Seq<u8>) -> (Event, int) {
    let len = input.len() as int;
    if input[1] == 27 && len > 2 && input[2] == 79 {
        if len > 3 && input[3] == 77 {
            (Event::KeyPress { key: Key::Enter, ctrl: false, alt: true, shift: true }, 4)
        } else {
            (Event::Unsupported, 3)
        }
    } else {
        let (c, p) = utf8_char(input, input[1], 2);
        (char_event(c, true), p)
    }
}

/// Decoding of the next input event from the available bytes `input`,
/// with the parameters kept from before: the event, the number of bytes
/// that it takes, and the parameters kept afterwards.
///
/// Carriage return is Enter; bytes 1..=26 are Ctrl with the letters `a`
/// to `z`; ESC opens a sequence; other bytes start a UTF-8 character. An
/// empty input means that the connection was closed.
pub open spec fn decode(params: Seq<u32>, input: Seq<u8>) -> (Event, int, Seq<u32>) {
    let len = input.len() as int;
    if len == 0 {
        (Event::ConnectionClosed, 0, params)
    } else if input[0] == 13 {
        (plain_key(Key::Enter, false), 1, params)
    } else if 1 <= input[0] && input[0] <= 26 {
        (
            Event::KeyPress {
                key: Key::Char((96 + input[0]) as char),
                ctrl: true,
                alt: false,
                shift: false,
            },
            1,
            params,
        )
    } else if input[0] != 27 {
        let (c, p) = utf8_char(input, input[0], 1);
        (char_event(c, false), p, params)
    } else if len == 1 {
        (escape_event_spec(), 1, params)
    } else if input[1] == 91 {
        csi_decode(params, input)
    } else if input[1] == 79 {
        (ss3_decode(input).0, ss3_decode(input).1, params)
    } else {
        (alt_decode(input).0, alt_decode(input).1, params)
    }
}

fn decode_csi(params: &mut Vec<u32>, input: &[u8]) -> (r: (Event, usize))
    requires
        input@.len() >= 2,
        input@[0] == 27,
        input@[1] == 91,
    ensures
        r.0 == csi_decode(old(params)@, input@).0,
        r.1 as int == csi_decode(old(params)@, input@).1,
        final(params)@ == csi_decode(old(params)@, input@).2,
{
    let len = input.len();
    if len <= 2 {
        return (Event::alt_key(Key::Char('[')), 2);
    }
    let b = input[2];
    if b == ESCAPE {
        return (Event::alt_key(Key::Char('[')), 2);
    }
    if let Some(k) = csi_letter_key_exec(b) {
        return (Event::key(k), 3);
    }
    if b == 91 {
        if len <= 3 {
            return (Event::alt_key(Key::Char('[')), 2);
        }
        let n = input[3];
        if n >= 65 && n <= 69 {
            return (Event::key(Key::Function((n - 64) as u16)), 4);
        }
        return (Event::Unsupported, 3);
    }
    if (b == 63 || b == 60) && len <= 3 {
        return (Event::Unsupported, 3);
    }
    let flag: u8 = if b == 63 || b == 60 {
        b
    } else {
        0
    };
    let p0: usize = if flag != 0 {
        3
    } else {
        2
    };
    let f: usize;
    if input[p0] >= 48 && input[p0] <= 57 {
        let (ps, end) = parse_csi_params(input, p0);
        proof {
            lemma_csi_params_bounds(input@, p0 as int);
        }
        *params = ps;
        f = end;
    } else {
        f = p0;
    }
    let fb = if f < len {
        input[f]
    } else {
        input[len - 1]
    };
    let e = decode_csi_final(flag, fb, params);
    let consumed = if f >= len {
        len
    } else {
        f + 1
    };
    (e, consumed)
}

fn decode_ss3(input: &[u8]) -> (r: (Event, usize))
    requires
        input@.len() >= 2,
        input@[0] == 27,
        input@[1] == 79,
    ensures
        r.0 == ss3_decode(input@).0,
        r.1 as int == ss3_decode(input@).1,
{
    let len = input.len();
    if len <= 2 {
        return (Event::KeyPress { alt: true, ctrl: false, shift: true, key: Key::Char('O') }, 2);
    }
    let n = input[2];
    let consumed = if len < 4 {
        len
    } else {
        4
    };
    if n >= 80 && n <= 83 {
        (Event::key(Key::Function((n - 79) as u16)), consumed)
    } else if n == 77 {
        (Event::KeyPress { ctrl: false, alt: false, shift: true, key: Key::Enter }, consumed)
    } else {
        (Event::from_char_alt('O'), consumed)
    }
}

fn decode_alt(input: &[u8]) -> (r: (Event, usize))
    requires
        input@.len() >= 2,
    ensures
        r.0 == alt_decode(input@).0,
        r.1 as int == alt_decode(input@).1,
{
    let len = input.len();
    let b = input[1];
    if b == ESCAPE && len > 2 && input[2] == 79 {
        if len > 3 && input[3] == 77 {
            return (Event::KeyPress { ctrl: false, alt: true, shift: true, key: Key::Enter }, 4);
        } else {
            return (Event::Unsupported, 3);
        }
    }
    let (c, p) = parse_utf8(input, b, 2);
    (Event::from_char_alt(c), p)
}

/// Decodes the next input event from the available bytes `input`, with
/// the parameters kept from before in `params`. Returns the event and the
/// number of bytes that it takes; `params` holds the parameters kept
/// afterwards.
pub fn decode_event(params: &mut Vec<u32>, input: &[u8]) -> (r: (Event, usize))
    ensures
        r.0 == decode(old(params)@, input@).0,
        r.1 as int == decode(old(params)@, input@).1,
        final(params)@ == decode(old(params)@, input@).2,
        r.1 <= input.len(),
{
    let len = input.len();
    if len == 0 {
        return (Event::ConnectionClosed, 0);
    }
    let byte = input[0];
    if byte == 13 {
        return (Event::KeyPress { ctrl: false, alt: false, shift: false, key: Key::Enter }, 1);
    }
    if byte >= 1 && byte <= 26 {
        let c: u8 = 97 - 1 + byte;
        return (Event::KeyPress { alt: false, ctrl: true, shift: false, key: Key::Char(c as char) }, 1);
    }
    if byte != ESCAPE {
        let (c, p) = parse_utf8(input, byte, 1);
        return (Event::from_char(c), p);
    }
    if len == 1 {
        return (escape_event(), 1);
    }
    let next = input[1];
    if next == 91 {
        decode_csi(params, input)
    } else if next == 79 {
        decode_ss3(input)
    } else {
        decode_alt(input)
    }
}

/// Reading makes progress: an event decoded from available input takes
/// at least one byte, and no more bytes than there are.
pub proof fn decode_makes_progress(params: Seq<u32>, input: Seq<u8>)
    requires
        input.len() > 0,
    ensures
        1 <= decode(params, input).1 <= input.len(),
{
    let len = input.len() as int;
    if input[0] == 27 && len > 2 && input[1] == 91 {
        let flag: u8 = if input[2] == 63 || input[2] == 60 {
            input[2]
        } else {
            0
        };
        let p0: int = if flag != 0 {
            3
        } else {
            2
        };
        if p0 < len && is_digit(input[p0]) {
            lemma_csi_params_bounds(input, p0);
        }
    }
}

/// Decoding gives back a character of one or two UTF-8 bytes: the bytes
/// that `push_utf8` writes for it decode to it, taking all of them.
pub proof fn utf8_char_decodes_encoding(c: char)
    requires
        (c as u32) <= 0x7FF,
    ensures
        ({
            let b = encode_scalar(c as u32);
            utf8_char(b, b[0], 1) == (c, b.len() as int)
        }),
{
    let v = c as u32;
    let b = encode_scalar(v);
    if v <= 0x7F {
        assert((v & 0x7Fu32) as u8 == v) by (bit_vector)
            requires
                v <= 0x7F,
        ;
    } else {
        let lead = (0xC0u8 | ((v >> 6u32) & 0x1Fu32) as u8);
        let cont = (0x80u8 | (v & 0x3Fu32) as u8);
        assert(0xC0 <= lead < 0xE0 && 0x80 <= cont < 0xC0 && (lead % 32) as u32 * 64 + (cont
            % 64) as u32 == v) by (bit_vector)
            requires
                0x80 <= v <= 0x7FF,
                lead == (0xC0u8 | ((v >> 6u32) & 0x1Fu32) as u8),
                cont == (0x80u8 | (v & 0x3Fu32) as u8),
        ;
        assert(b =~= seq![lead, cont]);
    }
}

/// The function key that `ESC [ <n> ~` stands for in the VT220 numbering:
/// F5 at 15, F6 to F10 at 17 to 21, F11 to F14 at 23 to 26, F15 and F16 at
/// 28 and 29, F17 to F20 at 31 to 34.
pub open spec fn vt_function_key(n: int) -> Option<u16> {
    if n == 15 {
        Some(5u16)
    } else if 17 <= n <= 21 {
        Some((n - 11) as u16)
    } else if 23 <= n <= 26 {
        Some((n - 12) as u16)
    } else if 28 <= n <= 29 {
        Some((n - 13) as u16)
    } else if 31 <= n <= 34 {
        Some((n - 14) as u16)
    } else {
        None
    }
}

/// Different key codes give different keys: no two codes of `ESC [ <n> ~`
/// that stand for a key stand for the same one, except 4 and 8 (End).
pub proof fn tilde_keys_distinct(n: u32, m: u32)
    requires
        tilde_key(n) is Some,
        tilde_key(m) is Some,
        n != m,
        !(n == 4 && m == 8),
        !(n == 8 && m == 4),
    ensures
        tilde_key(n) != tilde_key(m),
{
}

/// Function keys decode by the VT220 numbering: the bytes `ESC [ d1 d2 ~`
/// of a two digit code `n` that stands for a function key give that key,
/// without modifiers, and take all five bytes.
pub proof fn function_keys_decode(params: Seq<u32>, n: u32)
    requires
        10 <= n <= 99,
        vt_function_key(n as int) is Some,
    ensures
        decode(params, seq![27u8, 91u8, (48 + n / 10) as u8, (48 + n % 10) as u8, 126u8]) == (
            plain_key(Key::Function(vt_function_key(n as int)->0), false),
            5int,
            seq![n],
        ),
{
    let input = seq![27u8, 91u8, (48 + n / 10) as u8, (48 + n % 10) as u8, 126u8];
    let d1 = (n / 10) as u32;
    let d2 = (n % 10) as u32;
    assert(digits_end(input, 4) == 4);
    assert(digits_end(input, 3) == 4);
    assert(digits_end(input, 2) == 4);
    assert(digits_value(input, 2, 2) == 0);
    assert((0u32).wrapping_mul(10).wrapping_add(d1) == d1);
    assert(digits_value(input, 2, 3) == d1);
    assert(d1.wrapping_mul(10) == d1 * 10);
    assert((d1 * 10) as u32 == d1 * 10);
    assert(((d1 * 10) as u32).wrapping_add(d2) == n);
    assert(digits_value(input, 2, 4) == n);
    assert(csi_params(input, 2) == (seq![n], 4int));
}

} // verus!
