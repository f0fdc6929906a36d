//! The terminal as the program drives it: the bytes queued for the
//! terminal, the input bytes not yet decoded, and the settings that shape
//! the escape sequences. The reading and writing of the file descriptors
//! is left to the caller, who hands the bytes in and takes them out.
use vstd::prelude::*;
use vstd::string::StringSliceAdditionalSpecFns;
use vstd::utf8::encode_scalar;

use crate::ansi_codes::{
    bg_bytes, bg_rgb_bytes, fg_bytes, fg_rgb_bytes, push_bytes, write_bg, write_bg_rgb, write_fg,
    write_fg_rgb, BOLD, CLEAR_LINE, CLEAR_LINE_TO_END, CLEAR_LINE_TO_START, CLEAR_SCREEN,
    CLEAR_STYLE, DOUBLY_UNDERLINE, FAINT, ITALIC, NORMAL_INTENSITY, NOT_ITALIC, NOT_UNDERLINE,
    UNDERLINE,
};
use crate::color::{bg_number, fg_number, sgr, Color, Color16, Rgb};
use crate::event::Event;
use crate::input::{decode, decode_event};
use crate::style::{FontStyle, FontWeight, Style, TextDecoration};
use crate::text::{push_utf8, dec_bytes, dec_chars, push_decimal, push_decimal_chars, push_str, string_from_chars};

verus! {

/// The size of the terminal window in character cells.
#[derive(Debug, Clone, Copy, PartialEq, Eq, Structural)]
pub struct WindowSize {
    pub rows: u32,
    pub columns: u32,
}

/// `<columns>x<rows>`.
pub open spec fn window_size_text(w: WindowSize) -> Seq<char> {
    dec_chars(w.columns as nat) + "x"@ + dec_chars(w.rows as nat)
}

impl WindowSize {
    /// `<columns>x<rows>`.
    pub fn to_string(&self) -> (s: String)
        ensures
            s@ == window_size_text(*self),
    {
        let mut v: Vec<char> = Vec::new();
        push_decimal_chars(&mut v, self.columns as u64);
        push_str(&mut v, "x");
        push_decimal_chars(&mut v, self.rows as u64);
        assert(v@ =~= window_size_text(*self));
        string_from_chars(&v)
    }
}

impl Default for WindowSize {
    /// An empty window.
    fn default() -> (w: WindowSize)
        ensures
            w == (WindowSize { rows: 0, columns: 0 }),
    {
        WindowSize { rows: 0, columns: 0 }
    }
}

/// `ESC [ ? 1049 h  ESC [ ? 25 l  ESC [ ? 7 l  ESC [ 2 J`: the alternative
/// screen, the cursor hidden, no automatic wrap, the screen cleared.
pub const ENTER_SCREEN: [u8; 23] = [
    27, 91, 63, 49, 48, 52, 57, 104, 27, 91, 63, 50, 53, 108, 27, 91, 63, 55, 108, 27, 91, 50, 74,
];

/// `ESC [ 0 m  ESC [ ? 25 h  ESC [ ? 7 h  ESC [ ? 1049 l`: styles reset,
/// the cursor shown, automatic wrap on, the normal screen back.
pub const LEAVE_SCREEN: [u8; 23] = [
    27, 91, 48, 109, 27, 91, 63, 50, 53, 104, 27, 91, 63, 55, 104, 27, 91, 63, 49, 48, 52, 57, 108,
];

/// `ESC [ ? 1000 h  ESC [ ? 1003 h  ESC [ ? 1006 h`: mouse reports on.
pub const MOUSE_ON: [u8; 24] = [
    27, 91, 63, 49, 48, 48, 48, 104, 27, 91, 63, 49, 48, 48, 51, 104, 27, 91, 63, 49, 48, 48, 54,
    104,
];

/// `ESC [ ? 1001 l`: mouse reports off.
pub const MOUSE_OFF: [u8; 8] = [27, 91, 63, 49, 48, 48, 49, 108];

/// `ESC [ <n> <fin>`: a control sequence with one number.
pub open spec fn csi_num(n: nat, fin: u8) -> Seq<u8> {
    seq![27u8, 91u8] + dec_bytes(n) + seq![fin]
}

/// `ESC [ <row> ; <column> H`: moves the cursor, both counted from 1.
pub open spec fn cursor_bytes(row: nat, column: nat) -> Seq<u8> {
    seq![27u8, 91u8] + dec_bytes(row) + seq![59u8] + dec_bytes(column) + seq![72u8]
}

/// What the program knows of the terminal.
pub ghost struct TermView {
    /// The bytes queued for the terminal.
    pub output: Seq<u8>,
    /// The input bytes not yet decoded.
    pub input: Seq<u8>,
    /// The parameters that the decoder keeps between events.
    pub params: Seq<u32>,
    pub window_size: WindowSize,
    /// The number of resize signals seen so far.
    pub sigwinch_nr: u32,
    pub mouse_enabled: bool,
    /// Whether foreground and background are swapped.
    pub inverted: bool,
    pub default_fg: Color,
    pub default_bg: Color,
}

impl TermView {
    /// The same terminal with `bytes` queued after the output.
    pub open spec fn wrote(self, bytes: Seq<u8>) -> TermView {
        TermView { output: self.output + bytes, ..self }
    }

    /// The same terminal with foreground and background swapped, or swapped
    /// back.
    pub open spec fn toggled(self) -> TermView {
        TermView { inverted: !self.inverted, ..self }
    }

    /// Queuing `a` and then `b` queues `a + b`.
    pub proof fn lemma_wrote(self, a: Seq<u8>, b: Seq<u8>)
        ensures
            self.wrote(a).wrote(b) == self.wrote(a + b),
            self.wrote(Seq::empty()) == self,
    {
        assert(self.wrote(a).wrote(b).output =~= self.wrote(a + b).output);
        assert(self.wrote(Seq::empty()).output =~= self.output);
    }

    /// The color that stands for `c`: the default foreground for
    /// `Color::Default`.
    pub open spec fn fg_color(self, c: Color) -> Color {
        if c is Default {
            self.default_fg
        } else {
            c
        }
    }

    /// The color that stands for `c`: the default background for
    /// `Color::Default`.
    pub open spec fn bg_color(self, c: Color) -> Color {
        if c is Default {
            self.default_bg
        } else {
            c
        }
    }

    /// The sequence that shows `c` in the foreground (in the background
    /// where the colors are swapped).
    pub open spec fn fg_out(self, c: Color) -> Seq<u8> {
        if self.inverted {
            bg_bytes(self.fg_color(c))
        } else {
            fg_bytes(self.fg_color(c))
        }
    }

    /// The sequence that shows `c` in the background (in the foreground
    /// where the colors are swapped).
    pub open spec fn bg_out(self, c: Color) -> Seq<u8> {
        if self.inverted {
            fg_bytes(self.bg_color(c))
        } else {
            bg_bytes(self.bg_color(c))
        }
    }
}

/// The sequence that shows a 24 bit color in the foreground, or in the
/// background where the colors are swapped.
pub open spec fn fg_rgb_out(c: Rgb, inverted: bool) -> Seq<u8> {
    if inverted {
        bg_rgb_bytes(c)
    } else {
        fg_rgb_bytes(c)
    }
}

/// The sequence that shows a 24 bit color in the background, or in the
/// foreground where the colors are swapped.
pub open spec fn bg_rgb_out(c: Rgb, inverted: bool) -> Seq<u8> {
    if inverted {
        fg_rgb_bytes(c)
    } else {
        bg_rgb_bytes(c)
    }
}

/// What the readiness reports of one wait say.
#[derive(Debug, Clone, Copy, PartialEq, Eq, Structural)]
pub enum Readiness {
    /// The other side hung up.
    Closed,
    /// Input is there to read.
    Data,
    /// Nothing to act on.
    Idle,
}

/// The readiness of reports, each `(hung up, input ready)`: closed where
/// any report says so, else data where any has input.
pub open spec fn readiness_of(reports: Seq<(bool, bool)>) -> Readiness {
    if exists|i: int| 0 <= i < reports.len() && (#[trigger] reports[i]).0 {
        Readiness::Closed
    } else if exists|i: int| 0 <= i < reports.len() && (#[trigger] reports[i]).1 {
        Readiness::Data
    } else {
        Readiness::Idle
    }
}

/// Classifies the readiness reports of one wait, each `(hung up, input
/// ready)`.
pub fn classify_ready(reports: &[(bool, bool)]) -> (r: Readiness)
    ensures
        r == readiness_of(reports@),
{
    let mut has_data = false;
    let mut i: usize = 0;
    while i < reports.len()
        invariant
            i <= reports.len(),
            forall|j: int| 0 <= j < i ==> !(#[trigger] reports@[j]).0,
            has_data == exists|j: int| 0 <= j < i && (#[trigger] reports@[j]).1,
        decreases reports.len() - i,
    {
        let (hangup, ready) = reports[i];
        if hangup {
            return Readiness::Closed;
        }
        if ready {
            has_data = true;
        }
        i = i + 1;
    }
    if has_data {
        Readiness::Data
    } else {
        Readiness::Idle
    }
}

/// Removes the first `n` bytes.
fn drop_front(v: &mut Vec<u8>, n: usize)
    requires
        n <= old(v)@.len(),
    ensures
        final(v)@ == old(v)@.skip(n as int),
{
    let mut rest: Vec<u8> = Vec::new();
    let mut i: usize = n;
    while i < v.len()
        invariant
            n <= i <= v@.len(),
            rest@ == v@.subrange(n as int, i as int),
        decreases v@.len() - i,
    {
        rest.push(v[i]);
        assert(rest@ =~= v@.subrange(n as int, i + 1));
        i = i + 1;
    }
    assert(rest@ =~= v@.skip(n as int));
    *v = rest;
}

/// The terminal as the program drives it.
pub struct TermIO {
    out: Vec<u8>,
    input: Vec<u8>,
    uint_buffer: Vec<u32>,
    window_size: WindowSize,
    sigwinch_nr: u32,
    mouse_enabled: bool,
    inverted: bool,
    default_fg: Color,
    default_bg: Color,
}

impl View for TermIO {
    type V = TermView;

    closed spec fn view(&self) -> TermView {
        TermView {
            output: self.out@,
            input: self.input@,
            params: self.uint_buffer@,
            window_size: self.window_size,
            sigwinch_nr: self.sigwinch_nr,
            mouse_enabled: self.mouse_enabled,
            inverted: self.inverted,
            default_fg: self.default_fg,
            default_bg: self.default_bg,
        }
    }
}

impl TermIO {
    /// A fresh terminal session: the sequence that enters the alternative
    /// screen is queued; nothing is read yet; no colors are swapped and
    /// the default colors are the terminal's.
    pub fn new() -> (t: TermIO)
        ensures
            t@ == (TermView {
                output: ENTER_SCREEN@,
                input: Seq::empty(),
                params: Seq::empty(),
                window_size: WindowSize { rows: 0, columns: 0 },
                sigwinch_nr: 0,
                mouse_enabled: false,
                inverted: false,
                default_fg: Color::Default,
                default_bg: Color::Default,
            }),
    {
        let mut out: Vec<u8> = Vec::new();
        push_bytes(&mut out, &ENTER_SCREEN);
        let t = TermIO {
            out,
            input: Vec::new(),
            uint_buffer: Vec::new(),
            window_size: WindowSize { rows: 0, columns: 0 },
            sigwinch_nr: 0,
            mouse_enabled: false,
            inverted: false,
            default_fg: Color::Default,
            default_bg: Color::Default,
        };
        assert(t@.output =~= ENTER_SCREEN@);
        t
    }

    /// Ends the session: mouse reports are turned off where they are on,
    /// then the sequence that restores the normal screen is queued.
    pub fn shutdown(&mut self)
        ensures
            final(self)@ == (TermView {
                mouse_enabled: false,
                ..old(self)@.wrote(
                    if old(self)@.mouse_enabled {
                        MOUSE_OFF@ + LEAVE_SCREEN@
                    } else {
                        LEAVE_SCREEN@
                    },
                )
            }),
    {
        if self.mouse_enabled {
            self.disable_mouse();
        }
        self.write(&LEAVE_SCREEN);
        assert(self@.output =~= old(self)@.output + if old(self)@.mouse_enabled {
            MOUSE_OFF@ + LEAVE_SCREEN@
        } else {
            LEAVE_SCREEN@
        });
    }

    /// Queues the UTF-8 bytes of `s`.
    pub fn write_str(&mut self, s: &str)
        ensures
            final(self)@ == old(self)@.wrote(s.spec_bytes()),
    {
        push_bytes(&mut self.out, s.as_bytes());
    }

    /// Queues the UTF-8 bytes of `c`.
    pub fn write_char(&mut self, c: char)
        ensures
            final(self)@ == old(self)@.wrote(encode_scalar(c as u32)),
    {
        push_utf8(&mut self.out, c);
    }

    /// Queues `bytes`.
    pub fn write(&mut self, bytes: &[u8])
        ensures
            final(self)@ == old(self)@.wrote(bytes@),
    {
        push_bytes(&mut self.out, bytes);
    }

    /// Hands out the queued bytes, to be written to the terminal, and
    /// empties the queue.
    pub fn take_output(&mut self) -> (bytes: Vec<u8>)
        ensures
            bytes@ == old(self)@.output,
            final(self)@ == (TermView { output: Seq::empty(), ..old(self)@ }),
    {
        let mut bytes: Vec<u8> = Vec::new();
        std::mem::swap(&mut bytes, &mut self.out);
        bytes
    }

    pub fn default_fg(&self) -> (c: Color)
        ensures
            c == self@.default_fg,
    {
        self.default_fg
    }

    pub fn default_bg(&self) -> (c: Color)
        ensures
            c == self@.default_bg,
    {
        self.default_bg
    }

    pub fn set_default_fg(&mut self, color: Color)
        ensures
            final(self)@ == (TermView { default_fg: color, ..old(self)@ }),
    {
        self.default_fg = color;
    }

    pub fn set_default_bg(&mut self, color: Color)
        ensures
            final(self)@ == (TermView { default_bg: color, ..old(self)@ }),
    {
        self.default_bg = color;
    }

    /// Selects a 24 bit foreground color, whether or not colors are
    /// swapped.
    pub fn raw_fg_rgb(&mut self, color: Rgb)
        ensures
            final(self)@ == old(self)@.wrote(fg_rgb_bytes(color)),
    {
        write_fg_rgb(&mut self.out, color);
    }

    /// Selects a 24 bit background color, whether or not colors are
    /// swapped.
    pub fn raw_bg_rgb(&mut self, color: Rgb)
        ensures
            final(self)@ == old(self)@.wrote(bg_rgb_bytes(color)),
    {
        write_bg_rgb(&mut self.out, color);
    }

    pub fn raw_fg16(&mut self, color: Color16)
        ensures
            final(self)@ == old(self)@.wrote(sgr(fg_number(color))),
    {
        push_bytes(&mut self.out, color.fg());
    }

    pub fn raw_bg16(&mut self, color: Color16)
        ensures
            final(self)@ == old(self)@.wrote(sgr(bg_number(color))),
    {
        push_bytes(&mut self.out, color.bg());
    }

    pub fn raw_fg(&mut self, color: Color)
        ensures
            final(self)@ == old(self)@.wrote(fg_bytes(color)),
    {
        write_fg(&mut self.out, color);
    }

    pub fn raw_bg(&mut self, color: Color)
        ensures
            final(self)@ == old(self)@.wrote(bg_bytes(color)),
    {
        write_bg(&mut self.out, color);
    }

    /// Shows the default foreground color.
    pub fn fg_default(&mut self)
        ensures
            final(self)@ == old(self)@.wrote(old(self)@.fg_out(Color::Default)),
    {
        if self.inverted {
            write_bg(&mut self.out, self.default_fg);
        } else {
            write_fg(&mut self.out, self.default_fg);
        }
    }

    /// Shows the default background color.
    pub fn bg_default(&mut self)
        ensures
            final(self)@ == old(self)@.wrote(old(self)@.bg_out(Color::Default)),
    {
        if self.inverted {
            write_fg(&mut self.out, self.default_bg);
        } else {
            write_bg(&mut self.out, self.default_bg);
        }
    }

    pub fn fg_rgb(&mut self, color: Rgb)
        ensures
            final(self)@ == old(self)@.wrote(fg_rgb_out(color, old(self)@.inverted)),
    {
        if self.inverted {
            write_bg_rgb(&mut self.out, color);
        } else {
            write_fg_rgb(&mut self.out, color);
        }
    }

    pub fn bg_rgb(&mut self, color: Rgb)
        ensures
            final(self)@ == old(self)@.wrote(bg_rgb_out(color, old(self)@.inverted)),
    {
        if self.inverted {
            write_fg_rgb(&mut self.out, color);
        } else {
            write_bg_rgb(&mut self.out, color);
        }
    }

    pub fn fg16(&mut self, color: Color16)
        ensures
            final(self)@ == old(self)@.wrote(old(self)@.fg_out(Color::Color16(color))),
    {
        if self.inverted {
            self.raw_bg16(color);
        } else {
            self.raw_fg16(color);
        }
    }

    pub fn bg16(&mut self, color: Color16)
        ensures
            final(self)@ == old(self)@.wrote(old(self)@.bg_out(Color::Color16(color))),
    {
        if self.inverted {
            self.raw_fg16(color);
        } else {
            self.raw_bg16(color);
        }
    }

    /// Shows `color` in the foreground; the default foreground for
    /// `Color::Default`.
    pub fn fg(&mut self, color: Color)
        ensures
            final(self)@ == old(self)@.wrote(old(self)@.fg_out(color)),
    {
        match color {
            Color::Default => self.fg_default(),
            Color::Rgb { r, g, b } => self.fg_rgb(Rgb { r, g, b }),
            Color::Color16(c) => self.fg16(c),
        }
    }

    /// Shows `color` in the background; the default background for
    /// `Color::Default`.
    pub fn bg(&mut self, color: Color)
        ensures
            final(self)@ == old(self)@.wrote(old(self)@.bg_out(color)),
    {
        match color {
            Color::Default => self.bg_default(),
            Color::Rgb { r, g, b } => self.bg_rgb(Rgb { r, g, b }),
            Color::Color16(c) => self.bg16(c),
        }
    }

    pub fn clear_style(&mut self)
        ensures
            final(self)@ == old(self)@.wrote(CLEAR_STYLE@),
    {
        self.write(&CLEAR_STYLE);
    }

    pub fn bold(&mut self)
        ensures
            final(self)@ == old(self)@.wrote(BOLD@),
    {
        self.write(&BOLD);
    }

    pub fn faint(&mut self)
        ensures
            final(self)@ == old(self)@.wrote(FAINT@),
    {
        self.write(&FAINT);
    }

    pub fn italic(&mut self)
        ensures
            final(self)@ == old(self)@.wrote(ITALIC@),
    {
        self.write(&ITALIC);
    }

    pub fn not_italic(&mut self)
        ensures
            final(self)@ == old(self)@.wrote(NOT_ITALIC@),
    {
        self.write(&NOT_ITALIC);
    }

    pub fn underline(&mut self)
        ensures
            final(self)@ == old(self)@.wrote(UNDERLINE@),
    {
        self.write(&UNDERLINE);
    }

    pub fn doubly_underline(&mut self)
        ensures
            final(self)@ == old(self)@.wrote(DOUBLY_UNDERLINE@),
    {
        self.write(&DOUBLY_UNDERLINE);
    }

    pub fn normal_intensity(&mut self)
        ensures
            final(self)@ == old(self)@.wrote(NORMAL_INTENSITY@),
    {
        self.write(&NORMAL_INTENSITY);
    }

    pub fn not_underline(&mut self)
        ensures
            final(self)@ == old(self)@.wrote(NOT_UNDERLINE@),
    {
        self.write(&NOT_UNDERLINE);
    }

    pub fn font_weight(&mut self, font_weight: FontWeight)
        ensures
            final(self)@ == old(self)@.wrote(font_weight.style_bytes()),
    {
        font_weight.write(&mut self.out);
    }

    pub fn text_decoration(&mut self, text_decoration: TextDecoration)
        ensures
            final(self)@ == old(self)@.wrote(text_decoration.style_bytes()),
    {
        text_decoration.write(&mut self.out);
    }

    pub fn font_style(&mut self, font_style: FontStyle)
        ensures
            final(self)@ == old(self)@.wrote(font_style.style_bytes()),
    {
        font_style.write(&mut self.out);
    }

    /// Swaps foreground and background, or swaps them back.
    pub fn invert(&mut self)
        ensures
            final(self)@ == old(self)@.toggled(),
    {
        self.inverted = !self.inverted;
    }

    pub fn set_inverted(&mut self, inverted: bool)
        ensures
            final(self)@ == (TermView { inverted, ..old(self)@ }),
    {
        self.inverted = inverted;
    }

    pub fn inverted(&self) -> (b: bool)
        ensures
            b == self@.inverted,
    {
        self.inverted
    }

    /// Moves the cursor to `row` and `column`, both counted from 0.
    pub fn move_cursor(&mut self, row: u32, column: u32)
        requires
            row < u32::MAX,
            column < u32::MAX,
        ensures
            final(self)@ == old(self)@.wrote(cursor_bytes((row + 1) as nat, (column + 1) as nat)),
    {
        let mut v: Vec<u8> = Vec::new();
        v.push(27);
        v.push(91);
        push_decimal(&mut v, (row + 1) as u64);
        v.push(59);
        push_decimal(&mut v, (column + 1) as u64);
        v.push(72);
        assert(v@ =~= cursor_bytes((row + 1) as nat, (column + 1) as nat));
        self.write(v.as_slice());
    }

    fn write_csi_num(&mut self, n: u32, fin: u8)
        ensures
            final(self)@ == old(self)@.wrote(csi_num(n as nat, fin)),
    {
        let mut v: Vec<u8> = Vec::new();
        v.push(27);
        v.push(91);
        push_decimal(&mut v, n as u64);
        v.push(fin);
        assert(v@ =~= csi_num(n as nat, fin));
        self.write(v.as_slice());
    }

    /// `ESC [ <amount> A`
    pub fn move_cursor_up(&mut self, amount: u32)
        ensures
            final(self)@ == old(self)@.wrote(csi_num(amount as nat, 65)),
    {
        self.write_csi_num(amount, 65);
    }

    /// `ESC [ <amount> B`
    pub fn move_cursor_down(&mut self, amount: u32)
        ensures
            final(self)@ == old(self)@.wrote(csi_num(amount as nat, 66)),
    {
        self.write_csi_num(amount, 66);
    }

    /// `ESC [ <amount> C`
    pub fn move_cursor_forward(&mut self, amount: u32)
        ensures
            final(self)@ == old(self)@.wrote(csi_num(amount as nat, 67)),
    {
        self.write_csi_num(amount, 67);
    }

    /// `ESC [ <amount> D`
    pub fn move_cursor_back(&mut self, amount: u32)
        ensures
            final(self)@ == old(self)@.wrote(csi_num(amount as nat, 68)),
    {
        self.write_csi_num(amount, 68);
    }

    pub fn clear_screen(&mut self)
        ensures
            final(self)@ == old(self)@.wrote(CLEAR_SCREEN@),
    {
        self.write(&CLEAR_SCREEN);
    }

    pub fn clear_line(&mut self)
        ensures
            final(self)@ == old(self)@.wrote(CLEAR_LINE@),
    {
        self.write(&CLEAR_LINE);
    }

    pub fn clear_line_to_end(&mut self)
        ensures
            final(self)@ == old(self)@.wrote(CLEAR_LINE_TO_END@),
    {
        self.write(&CLEAR_LINE_TO_END);
    }

    pub fn clear_line_to_start(&mut self)
        ensures
            final(self)@ == old(self)@.wrote(CLEAR_LINE_TO_START@),
    {
        self.write(&CLEAR_LINE_TO_START);
    }

    /// Repeats the last character `count` times: `ESC [ <count> b`, and
    /// nothing for a count of zero.
    pub fn repeat(&mut self, count: u32)
        ensures
            final(self)@ == old(self)@.wrote(
                if count > 0 {
                    csi_num(count as nat, 98)
                } else {
                    Seq::empty()
                },
            ),
    {
        if count > 0 {
            self.write_csi_num(count, 98);
        } else {
            assert(self@.output =~= self@.output + Seq::<u8>::empty());
        }
    }

    pub fn window_size(&self) -> (w: &WindowSize)
        ensures
            *w == self@.window_size,
    {
        &self.window_size
    }

    /// Records the window size that the terminal reported. Returns the
    /// resize event where it differs from the one recorded before.
    pub fn set_window_size(&mut self, size: WindowSize) -> (e: Option<Event>)
        ensures
            final(self)@ == (TermView { window_size: size, ..old(self)@ }),
            e == if size != old(self)@.window_size {
                Some(Event::WindowSize { rows: size.rows, columns: size.columns })
            } else {
                None::<Event>
            },
    {
        let old_size = self.window_size;
        self.window_size = size;
        if size != old_size {
            Some(Event::WindowSize { rows: size.rows, columns: size.columns })
        } else {
            None
        }
    }

    /// Takes note of the count of resize signals. Returns whether it
    /// changed since the last note, that is whether the window size is to
    /// be asked for again.
    pub fn note_resize_signals(&mut self, count: u32) -> (changed: bool)
        ensures
            changed == (count != old(self)@.sigwinch_nr),
            final(self)@ == (TermView { sigwinch_nr: count, ..old(self)@ }),
    {
        if self.sigwinch_nr != count {
            self.sigwinch_nr = count;
            true
        } else {
            false
        }
    }

    /// Turns mouse reports on.
    pub fn enable_mouse(&mut self)
        ensures
            final(self)@ == (TermView { mouse_enabled: true, ..old(self)@.wrote(MOUSE_ON@) }),
    {
        self.write(&MOUSE_ON);
        self.mouse_enabled = true;
    }

    /// Turns mouse reports off.
    pub fn disable_mouse(&mut self)
        ensures
            final(self)@ == (TermView { mouse_enabled: false, ..old(self)@.wrote(MOUSE_OFF@) }),
    {
        self.write(&MOUSE_OFF);
        self.mouse_enabled = false;
    }

    pub fn is_mouse_enabled(&self) -> (b: bool)
        ensures
            b == self@.mouse_enabled,
    {
        self.mouse_enabled
    }

    /// Adds bytes read from the terminal to the input not yet decoded.
    pub fn feed_input(&mut self, bytes: &[u8])
        ensures
            final(self)@ == (TermView { input: old(self)@.input + bytes@, ..old(self)@ }),
    {
        push_bytes(&mut self.input, bytes);
    }

    /// Whether input bytes wait to be decoded.
    pub fn has_input(&self) -> (b: bool)
        ensures
            b == (self@.input.len() > 0),
    {
        self.input.len() > 0
    }

    /// Decodes the next event from the input read so far and drops the
    /// bytes that it takes. Without input, the connection is taken as
    /// closed.
    pub fn read(&mut self) -> (e: Event)
        ensures
            e == decode(old(self)@.params, old(self)@.input).0,
            final(self)@ == (TermView {
                input: old(self)@.input.skip(decode(old(self)@.params, old(self)@.input).1),
                params: decode(old(self)@.params, old(self)@.input).2,
                ..old(self)@
            }),
    {
        let (e, n) = decode_event(&mut self.uint_buffer, self.input.as_slice());
        drop_front(&mut self.input, n);
        e
    }
}

/// With colors swapped, a foreground color is written as the background
/// sequence and a background color as the foreground one.
pub proof fn inverted_swaps_sequences(c: Rgb)
    ensures
        fg_rgb_out(c, true) == bg_rgb_out(c, false),
        bg_rgb_out(c, true) == fg_rgb_out(c, false),
{
}

/// Swapping the colors twice gives back the terminal state.
pub proof fn invert_twice(v: TermView)
    ensures
        v.toggled().toggled() == v,
{
}

/// What to do after one wait for readiness.
#[derive(Debug, Clone, Copy, PartialEq, Eq, Structural)]
pub enum WaitStep {
    /// A wait with a timeout ended without reports: there is no event.
    NoEvent,
    /// The other side hung up: the connection is closed.
    Closed,
    /// Input is there: read the next event.
    ReadInput,
    /// A signal interrupted the wait: look for a resize, else wait again.
    CheckResize,
    /// Nothing to act on: wait again.
    WaitAgain,
    /// The wait failed: give up with its error.
    Fail,
}

/// The step after a wait: `failed` where the wait failed, `interrupted`
/// where a signal caused that, `reports` the readiness reports of a wait
/// that did not fail, `timed` where the wait had a timeout.
pub open spec fn wait_step_of(
    failed: bool,
    interrupted: bool,
    reports: Seq<(bool, bool)>,
    timed: bool,
) -> WaitStep {
    if failed {
        if interrupted {
            WaitStep::CheckResize
        } else {
            WaitStep::Fail
        }
    } else if reports.len() == 0 && timed {
        WaitStep::NoEvent
    } else {
        match readiness_of(reports) {
            Readiness::Closed => WaitStep::Closed,
            Readiness::Data => WaitStep::ReadInput,
            Readiness::Idle => WaitStep::WaitAgain,
        }
    }
}

/// Decides the step after a wait for readiness.
pub fn wait_step(failed: bool, interrupted: bool, reports: &[(bool, bool)], timed: bool) -> (s:
    WaitStep)
    ensures
        s == wait_step_of(failed, interrupted, reports@, timed),
{
    if failed {
        if interrupted {
            WaitStep::CheckResize
        } else {
            WaitStep::Fail
        }
    } else if reports.len() == 0 && timed {
        WaitStep::NoEvent
    } else {
        match classify_ready(reports) {
            Readiness::Closed => WaitStep::Closed,
            Readiness::Data => WaitStep::ReadInput,
            Readiness::Idle => WaitStep::WaitAgain,
        }
    }
}

} // verus!
