//! Colors: the sixteen standard terminal colors, 24 bit RGB colors, and
//! the terminal's color choice that combines them with "default".
use vstd::prelude::*;

use crate::text::{
    chars_eq_ignore_ascii_case, dec_bytes, eq_ignore_ascii_case, hex2, hex_digit, hex_value, push_hex2,
    str_chars, string_from_chars,
};

verus! {

/// `ESC [ <n> m`, the Select Graphic Rendition sequence with one number.
pub open spec fn sgr(n: nat) -> Seq<u8> {
    seq![27u8, 91u8] + dec_bytes(n) + seq![109u8]
}

pub proof fn lemma_dec_two_digits(n: nat)
    requires
        10 <= n < 100,
    ensures
        dec_bytes(n) == seq![(48 + n / 10) as u8, (48 + n % 10) as u8],
{
    assert(dec_bytes(n / 10) == seq![(48 + n / 10) as u8]);
    assert(dec_bytes(n) =~= seq![(48 + n / 10) as u8, (48 + n % 10) as u8]);
}

pub proof fn lemma_dec_three_digits(n: nat)
    requires
        100 <= n < 1000,
    ensures
        dec_bytes(n) == seq![(48 + n / 100) as u8, (48 + (n / 10) % 10) as u8, (48 + n % 10) as u8],
{
    lemma_dec_two_digits(n / 10);
    assert(dec_bytes(n) =~= seq![
        (48 + n / 100) as u8,
        (48 + (n / 10) % 10) as u8,
        (48 + n % 10) as u8,
    ]);
}

/// One of the sixteen standard terminal colors.
#[derive(Debug, Clone, Copy, PartialEq, Eq, Structural)]
pub enum Color16 {
    Black,
    Red,
    Green,
    Yellow,
    Blue,
    Magenta,
    Cyan,
    White,
    BrightBlack,
    BrightRed,
    BrightGreen,
    BrightYellow,
    BrightBlue,
    BrightMagenta,
    BrightCyan,
    BrightWhite,
}

/// The position of a color in the standard order (0 to 15).
pub open spec fn color16_index(c: Color16) -> nat {
    match c {
        Color16::Black => 0,
        Color16::Red => 1,
        Color16::Green => 2,
        Color16::Yellow => 3,
        Color16::Blue => 4,
        Color16::Magenta => 5,
        Color16::Cyan => 6,
        Color16::White => 7,
        Color16::BrightBlack => 8,
        Color16::BrightRed => 9,
        Color16::BrightGreen => 10,
        Color16::BrightYellow => 11,
        Color16::BrightBlue => 12,
        Color16::BrightMagenta => 13,
        Color16::BrightCyan => 14,
        Color16::BrightWhite => 15,
    }
}

/// The SGR number that selects the color as foreground: 30..=37 for the
/// normal colors, 90..=97 for the bright ones.
pub open spec fn fg_number(c: Color16) -> nat {
    if color16_index(c) < 8 {
        30 + color16_index(c)
    } else {
        82 + color16_index(c)
    }
}

/// The SGR number that selects the color as background: 40..=47 and
/// 100..=107.
pub open spec fn bg_number(c: Color16) -> nat {
    fg_number(c) + 10
}

/// The color that a name stands for, compared without regard to ASCII
/// case; `grey` and `gray` name bright black.
pub open spec fn color16_named(s: Seq<char>) -> Option<Color16> {
    if eq_ignore_ascii_case(s, "black"@) {
        Some(Color16::Black)
    } else if eq_ignore_ascii_case(s, "red"@) {
        Some(Color16::Red)
    } else if eq_ignore_ascii_case(s, "green"@) {
        Some(Color16::Green)
    } else if eq_ignore_ascii_case(s, "yellow"@) {
        Some(Color16::Yellow)
    } else if eq_ignore_ascii_case(s, "blue"@) {
        Some(Color16::Blue)
    } else if eq_ignore_ascii_case(s, "magenta"@) {
        Some(Color16::Magenta)
    } else if eq_ignore_ascii_case(s, "cyan"@) {
        Some(Color16::Cyan)
    } else if eq_ignore_ascii_case(s, "white"@) {
        Some(Color16::White)
    } else if eq_ignore_ascii_case(s, "brightblack"@) || eq_ignore_ascii_case(s, "grey"@)
        || eq_ignore_ascii_case(s, "gray"@) {
        Some(Color16::BrightBlack)
    } else if eq_ignore_ascii_case(s, "brightred"@) {
        Some(Color16::BrightRed)
    } else if eq_ignore_ascii_case(s, "brightgreen"@) {
        Some(Color16::BrightGreen)
    } else if eq_ignore_ascii_case(s, "brightyellow"@) {
        Some(Color16::BrightYellow)
    } else if eq_ignore_ascii_case(s, "brightblue"@) {
        Some(Color16::BrightBlue)
    } else if eq_ignore_ascii_case(s, "brightmagenta"@) {
        Some(Color16::BrightMagenta)
    } else if eq_ignore_ascii_case(s, "brightcyan"@) {
        Some(Color16::BrightCyan)
    } else if eq_ignore_ascii_case(s, "brightwhite"@) {
        Some(Color16::BrightWhite)
    } else {
        None
    }
}

pub const FG_BLACK: [u8; 5] = [27, 91, 51, 48, 109];
pub const FG_RED: [u8; 5] = [27, 91, 51, 49, 109];
pub const FG_GREEN: [u8; 5] = [27, 91, 51, 50, 109];
pub const FG_YELLOW: [u8; 5] = [27, 91, 51, 51, 109];
pub const FG_BLUE: [u8; 5] = [27, 91, 51, 52, 109];
pub const FG_MAGENTA: [u8; 5] = [27, 91, 51, 53, 109];
pub const FG_CYAN: [u8; 5] = [27, 91, 51, 54, 109];
pub const FG_WHITE: [u8; 5] = [27, 91, 51, 55, 109];
pub const FG_BRIGHT_BLACK: [u8; 5] = [27, 91, 57, 48, 109];
pub const FG_BRIGHT_RED: [u8; 5] = [27, 91, 57, 49, 109];
pub const FG_BRIGHT_GREEN: [u8; 5] = [27, 91, 57, 50, 109];
pub const FG_BRIGHT_YELLOW: [u8; 5] = [27, 91, 57, 51, 109];
pub const FG_BRIGHT_BLUE: [u8; 5] = [27, 91, 57, 52, 109];
pub const FG_BRIGHT_MAGENTA: [u8; 5] = [27, 91, 57, 53, 109];
pub const FG_BRIGHT_CYAN: [u8; 5] = [27, 91, 57, 54, 109];
pub const FG_BRIGHT_WHITE: [u8; 5] = [27, 91, 57, 55, 109];

pub const BG_BLACK: [u8; 5] = [27, 91, 52, 48, 109];
pub const BG_RED: [u8; 5] = [27, 91, 52, 49, 109];
pub const BG_GREEN: [u8; 5] = [27, 91, 52, 50, 109];
pub const BG_YELLOW: [u8; 5] = [27, 91, 52, 51, 109];
pub const BG_BLUE: [u8; 5] = [27, 91, 52, 52, 109];
pub const BG_MAGENTA: [u8; 5] = [27, 91, 52, 53, 109];
pub const BG_CYAN: [u8; 5] = [27, 91, 52, 54, 109];
pub const BG_WHITE: [u8; 5] = [27, 91, 52, 55, 109];
pub const BG_BRIGHT_BLACK: [u8; 6] = [27, 91, 49, 48, 48, 109];
pub const BG_BRIGHT_RED: [u8; 6] = [27, 91, 49, 48, 49, 109];
pub const BG_BRIGHT_GREEN: [u8; 6] = [27, 91, 49, 48, 50, 109];
pub const BG_BRIGHT_YELLOW: [u8; 6] = [27, 91, 49, 48, 51, 109];
pub const BG_BRIGHT_BLUE: [u8; 6] = [27, 91, 49, 48, 52, 109];
pub const BG_BRIGHT_MAGENTA: [u8; 6] = [27, 91, 49, 48, 53, 109];
pub const BG_BRIGHT_CYAN: [u8; 6] = [27, 91, 49, 48, 54, 109];
pub const BG_BRIGHT_WHITE: [u8; 6] = [27, 91, 49, 48, 55, 109];

impl Color16 {
    /// The color that a name stands for (see `color16_named`).
    pub fn parse(value: &str) -> (r: Option<Color16>)
        ensures
            r == color16_named(value@),
    {
        let v = str_chars(value);
        if chars_eq_ignore_ascii_case(&v, "black") {
            Some(Color16::Black)
        } else if chars_eq_ignore_ascii_case(&v, "red") {
            Some(Color16::Red)
        } else if chars_eq_ignore_ascii_case(&v, "green") {
            Some(Color16::Green)
        } else if chars_eq_ignore_ascii_case(&v, "yellow") {
            Some(Color16::Yellow)
        } else if chars_eq_ignore_ascii_case(&v, "blue") {
            Some(Color16::Blue)
        } else if chars_eq_ignore_ascii_case(&v, "magenta") {
            Some(Color16::Magenta)
        } else if chars_eq_ignore_ascii_case(&v, "cyan") {
            Some(Color16::Cyan)
        } else if chars_eq_ignore_ascii_case(&v, "white") {
            Some(Color16::White)
        } else if chars_eq_ignore_ascii_case(&v, "brightblack") || chars_eq_ignore_ascii_case(
            &v,
            "grey",
        ) || chars_eq_ignore_ascii_case(&v, "gray") {
            Some(Color16::BrightBlack)
        } else if chars_eq_ignore_ascii_case(&v, "brightred") {
            Some(Color16::BrightRed)
        } else if chars_eq_ignore_ascii_case(&v, "brightgreen") {
            Some(Color16::BrightGreen)
        } else if chars_eq_ignore_ascii_case(&v, "brightyellow") {
            Some(Color16::BrightYellow)
        } else if chars_eq_ignore_ascii_case(&v, "brightblue") {
            Some(Color16::BrightBlue)
        } else if chars_eq_ignore_ascii_case(&v, "brightmagenta") {
            Some(Color16::BrightMagenta)
        } else if chars_eq_ignore_ascii_case(&v, "brightcyan") {
            Some(Color16::BrightCyan)
        } else if chars_eq_ignore_ascii_case(&v, "brightwhite") {
            Some(Color16::BrightWhite)
        } else {
            None
        }
    }

    /// The sequence that selects the color as foreground.
    pub fn fg(&self) -> (r: &'static [u8])
        ensures
            r@ == sgr(fg_number(*self)),
    {
        proof {
            lemma_dec_two_digits(fg_number(*self));
        }
        match *self {
            Color16::Black => {
                assert(FG_BLACK@ =~= sgr(30));
                &FG_BLACK
            },
            Color16::Red => {
                assert(FG_RED@ =~= sgr(31));
                &FG_RED
            },
            Color16::Green => {
                assert(FG_GREEN@ =~= sgr(32));
                &FG_GREEN
            },
            Color16::Yellow => {
                assert(FG_YELLOW@ =~= sgr(33));
                &FG_YELLOW
            },
            Color16::Blue => {
                assert(FG_BLUE@ =~= sgr(34));
                &FG_BLUE
            },
            Color16::Magenta => {
                assert(FG_MAGENTA@ =~= sgr(35));
                &FG_MAGENTA
            },
            Color16::Cyan => {
                assert(FG_CYAN@ =~= sgr(36));
                &FG_CYAN
            },
            Color16::White => {
                assert(FG_WHITE@ =~= sgr(37));
                &FG_WHITE
            },
            Color16::BrightBlack => {
                assert(FG_BRIGHT_BLACK@ =~= sgr(90));
                &FG_BRIGHT_BLACK
            },
            Color16::BrightRed => {
                assert(FG_BRIGHT_RED@ =~= sgr(91));
                &FG_BRIGHT_RED
            },
            Color16::BrightGreen => {
                assert(FG_BRIGHT_GREEN@ =~= sgr(92));
                &FG_BRIGHT_GREEN
            },
            Color16::BrightYellow => {
                assert(FG_BRIGHT_YELLOW@ =~= sgr(93));
                &FG_BRIGHT_YELLOW
            },
            Color16::BrightBlue => {
                assert(FG_BRIGHT_BLUE@ =~= sgr(94));
                &FG_BRIGHT_BLUE
            },
            Color16::BrightMagenta => {
                assert(FG_BRIGHT_MAGENTA@ =~= sgr(95));
                &FG_BRIGHT_MAGENTA
            },
            Color16::BrightCyan => {
                assert(FG_BRIGHT_CYAN@ =~= sgr(96));
                &FG_BRIGHT_CYAN
            },
            Color16::BrightWhite => {
                assert(FG_BRIGHT_WHITE@ =~= sgr(97));
                &FG_BRIGHT_WHITE
            },
        }
    }

    /// The sequence that selects the color as background.
    pub fn bg(&self) -> (r: &'static [u8])
        ensures
            r@ == sgr(bg_number(*self)),
    {
        proof {
            if bg_number(*self) < 100 {
                lemma_dec_two_digits(bg_number(*self));
            } else {
                lemma_dec_three_digits(bg_number(*self));
            }
        }
        match *self {
            Color16::Black => {
                assert(BG_BLACK@ =~= sgr(40));
                &BG_BLACK
            },
            Color16::Red => {
                assert(BG_RED@ =~= sgr(41));
                &BG_RED
            },
            Color16::Green => {
                assert(BG_GREEN@ =~= sgr(42));
                &BG_GREEN
            },
            Color16::Yellow => {
                assert(BG_YELLOW@ =~= sgr(43));
                &BG_YELLOW
            },
            Color16::Blue => {
                assert(BG_BLUE@ =~= sgr(44));
                &BG_BLUE
            },
            Color16::Magenta => {
                assert(BG_MAGENTA@ =~= sgr(45));
                &BG_MAGENTA
            },
            Color16::Cyan => {
                assert(BG_CYAN@ =~= sgr(46));
                &BG_CYAN
            },
            Color16::White => {
                assert(BG_WHITE@ =~= sgr(47));
                &BG_WHITE
            },
            Color16::BrightBlack => {
                assert(BG_BRIGHT_BLACK@ =~= sgr(100));
                &BG_BRIGHT_BLACK
            },
            Color16::BrightRed => {
                assert(BG_BRIGHT_RED@ =~= sgr(101));
                &BG_BRIGHT_RED
            },
            Color16::BrightGreen => {
                assert(BG_BRIGHT_GREEN@ =~= sgr(102));
                &BG_BRIGHT_GREEN
            },
            Color16::BrightYellow => {
                assert(BG_BRIGHT_YELLOW@ =~= sgr(103));
                &BG_BRIGHT_YELLOW
            },
            Color16::BrightBlue => {
                assert(BG_BRIGHT_BLUE@ =~= sgr(104));
                &BG_BRIGHT_BLUE
            },
            Color16::BrightMagenta => {
                assert(BG_BRIGHT_MAGENTA@ =~= sgr(105));
                &BG_BRIGHT_MAGENTA
            },
            Color16::BrightCyan => {
                assert(BG_BRIGHT_CYAN@ =~= sgr(106));
                &BG_BRIGHT_CYAN
            },
            Color16::BrightWhite => {
                assert(BG_BRIGHT_WHITE@ =~= sgr(107));
                &BG_BRIGHT_WHITE
            },
        }
    }

    /// The terminal color of this standard color.
    pub fn to_color(&self) -> (c: Color)
        ensures
            c == Color::Color16(*self),
    {
        Color::Color16(*self)
    }

    /// The terminal color of this standard color.
    pub fn into_color(self) -> (c: Color)
        ensures
            c == Color::Color16(self),
    {
        Color::Color16(self)
    }
}

/// A 24 bit color.
#[derive(Debug, Clone, Copy, PartialEq, Eq, Structural)]
pub struct Rgb {
    pub r: u8,
    pub g: u8,
    pub b: u8,
}

/// The color of `0xRRGGBB`; bits above the low 24 are ignored.
pub open spec fn rgb_of_u32(color: u32) -> Rgb {
    Rgb {
        r: ((color / 65536) % 256) as u8,
        g: ((color / 256) % 256) as u8,
        b: (color % 256) as u8,
    }
}

/// `0xRRGGBB`.
pub open spec fn rgb_value(c: Rgb) -> u32 {
    (c.r as int * 65536 + c.g as int * 256 + c.b as int) as u32
}

/// One channel of `x` blended toward `y` by `alpha / 255`, rounded down.
pub open spec fn blend_channel(x: u8, y: u8, alpha: u8) -> u8 {
    ((x as int * (255 - alpha) + y as int * alpha) / 255) as u8
}

/// `x` blended toward `y` by `alpha / 255` in each channel.
pub open spec fn blend_spec(x: Rgb, y: Rgb, alpha: u8) -> Rgb {
    Rgb {
        r: blend_channel(x.r, y.r, alpha),
        g: blend_channel(x.g, y.g, alpha),
        b: blend_channel(x.b, y.b, alpha),
    }
}

/// `#RRGGBB` in upper case hexadecimal digits.
pub open spec fn rgb_text(c: Rgb) -> Seq<char> {
    seq!['#'] + hex2(c.r) + hex2(c.g) + hex2(c.b)
}

/// The color that `#RRGGBB` names (hexadecimal digits of either case).
pub open spec fn rgb_parsed(s: Seq<char>) -> Option<Rgb> {
    if s.len() == 7 && s[0] == '#' && hex_value(s[1]) is Some && hex_value(s[2]) is Some
        && hex_value(s[3]) is Some && hex_value(s[4]) is Some && hex_value(s[5]) is Some
        && hex_value(s[6]) is Some {
        Some(
            Rgb {
                r: (hex_value(s[1]).unwrap() * 16 + hex_value(s[2]).unwrap()) as u8,
                g: (hex_value(s[3]).unwrap() * 16 + hex_value(s[4]).unwrap()) as u8,
                b: (hex_value(s[5]).unwrap() * 16 + hex_value(s[6]).unwrap()) as u8,
            },
        )
    } else {
        None
    }
}

/// The error of a text that names no color.
#[derive(Debug, Clone, Copy, PartialEq, Eq, Structural)]
pub struct ParseRgbError;

proof fn lemma_blend_bound(x: u8, y: u8, alpha: u8)
    ensures
        0 <= x as int * (255 - alpha) + y as int * alpha <= 255 * 255,
{
    assert(0 <= x as int * (255 - alpha) + y as int * alpha <= 255 * 255) by (nonlinear_arith)
        requires
            0 <= x <= 255,
            0 <= y <= 255,
            0 <= alpha <= 255,
    ;
}

fn blend_channel_exec(x: u8, y: u8, alpha: u8) -> (r: u8)
    ensures
        r == blend_channel(x, y, alpha),
{
    proof {
        lemma_blend_bound(x, y, alpha);
    }
    let a: u32 = alpha as u32;
    let inv: u32 = 255 - a;
    let v: u32 = (x as u32 * inv + y as u32 * a) / 255;
    v as u8
}

fn hex_value_exec(c: char) -> (r: Option<u8>)
    ensures
        r == hex_value(c),
{
    if '0' <= c && c <= '9' {
        Some((c as u32 - 48) as u8)
    } else if 'a' <= c && c <= 'f' {
        Some((c as u32 - 87) as u8)
    } else if 'A' <= c && c <= 'F' {
        Some((c as u32 - 55) as u8)
    } else {
        None
    }
}

impl Rgb {
    pub fn new(r: u8, g: u8, b: u8) -> (c: Rgb)
        ensures
            c == (Rgb { r, g, b }),
    {
        Rgb { r, g, b }
    }

    /// The color of `0xRRGGBB`.
    pub fn from_u32(color: u32) -> (c: Rgb)
        ensures
            c == rgb_of_u32(color),
    {
        let r = (color >> 16) & 0xFF;
        let g = (color >> 8) & 0xFF;
        let b = color & 0xFF;
        assert(r == (color / 65536) % 256 && g == (color / 256) % 256 && b == color % 256)
            by (bit_vector)
            requires
                r == (color >> 16) & 0xFF,
                g == (color >> 8) & 0xFF,
                b == color & 0xFF,
        ;
        Rgb { r: r as u8, g: g as u8, b: b as u8 }
    }

    /// `0xRRGGBB`.
    pub fn to_u32(&self) -> (v: u32)
        ensures
            v == rgb_value(*self),
    {
        let r: u32 = self.r as u32;
        let g: u32 = self.g as u32;
        let b: u32 = self.b as u32;
        let v = (r << 16) | (g << 8) | b;
        assert(v == r * 65536 + g * 256 + b) by (bit_vector)
            requires
                v == (r << 16) | (g << 8) | b,
                r < 256,
                g < 256,
                b < 256,
        ;
        v
    }

    /// The terminal color of this RGB color.
    pub fn to_color(&self) -> (c: Color)
        ensures
            c == (Color::Rgb { r: self.r, g: self.g, b: self.b }),
    {
        Color::Rgb { r: self.r, g: self.g, b: self.b }
    }

    /// This color blended toward `other` by `alpha / 255`.
    pub fn blend(&self, other: Rgb, alpha: u8) -> (c: Rgb)
        ensures
            c == blend_spec(*self, other, alpha),
    {
        let mut rgb = *self;
        rgb.blend_assign(other, alpha);
        rgb
    }

    /// Blends this color toward `other` by `alpha / 255`.
    pub fn blend_assign(&mut self, other: Rgb, alpha: u8)
        ensures
            *final(self) == blend_spec(*old(self), other, alpha),
    {
        self.r = blend_channel_exec(self.r, other.r, alpha);
        self.g = blend_channel_exec(self.g, other.g, alpha);
        self.b = blend_channel_exec(self.b, other.b, alpha);
    }

    /// Appends `#RRGGBB`.
    pub fn fmt_into(&self, out: &mut Vec<char>)
        ensures
            final(out)@ == old(out)@ + rgb_text(*self),
    {
        out.push('#');
        push_hex2(out, self.r);
        push_hex2(out, self.g);
        push_hex2(out, self.b);
        assert(final(out)@ =~= old(out)@ + rgb_text(*self));
    }

    /// `#RRGGBB`.
    pub fn to_string(&self) -> (s: String)
        ensures
            s@ == rgb_text(*self),
    {
        let mut v: Vec<char> = Vec::new();
        self.fmt_into(&mut v);
        assert(v@ =~= rgb_text(*self));
        string_from_chars(&v)
    }

    /// The color that `#RRGGBB` names.
    pub fn parse(s: &str) -> (r: Result<Rgb, ParseRgbError>)
        ensures
            r matches Ok(c) ==> rgb_parsed(s@) == Some(c),
            r is Err <==> rgb_parsed(s@) is None,
    {
        let v = str_chars(s);
        Self::parse_chars(&v)
    }

    /// The color that `#RRGGBB` names, given as characters.
    pub fn parse_chars(v: &Vec<char>) -> (r: Result<Rgb, ParseRgbError>)
        ensures
            r matches Ok(c) ==> rgb_parsed(v@) == Some(c),
            r is Err <==> rgb_parsed(v@) is None,
    {
        if v.len() != 7 || v[0] != '#' {
            return Err(ParseRgbError);
        }
        let h1 = hex_value_exec(v[1]);
        let h2 = hex_value_exec(v[2]);
        let h3 = hex_value_exec(v[3]);
        let h4 = hex_value_exec(v[4]);
        let h5 = hex_value_exec(v[5]);
        let h6 = hex_value_exec(v[6]);
        match (h1, h2, h3, h4, h5, h6) {
            (Some(a), Some(b), Some(c), Some(d), Some(e), Some(f)) => Ok(
                Rgb { r: a * 16 + b, g: c * 16 + d, b: e * 16 + f },
            ),
            _ => Err(ParseRgbError),
        }
    }
}

impl Default for Rgb {
    /// Black.
    fn default() -> (c: Rgb)
        ensures
            c == (Rgb { r: 0, g: 0, b: 0 }),
    {
        Rgb { r: 0, g: 0, b: 0 }
    }
}

/// The color of a character cell: the terminal's default, a 24 bit color,
/// or a standard color.
#[derive(Debug, Clone, Copy, PartialEq, Eq, Structural)]
pub enum Color {
    Default,
    Rgb { r: u8, g: u8, b: u8 },
    Color16(Color16),
}

impl Color {
    /// The 24 bit color of `0xRRGGBB`.
    pub fn from_u32(color: u32) -> (c: Color)
        ensures
            c == ({
                let x = rgb_of_u32(color);
                Color::Rgb { r: x.r, g: x.g, b: x.b }
            }),
    {
        let x = Rgb::from_u32(color);
        Color::Rgb { r: x.r, g: x.g, b: x.b }
    }

    pub fn is_default(&self) -> (b: bool)
        ensures
            b == (*self is Default),
    {
        match self {
            Color::Default => true,
            _ => false,
        }
    }

    pub fn is_rgb(&self) -> (b: bool)
        ensures
            b == (*self is Rgb),
    {
        match self {
            Color::Rgb { .. } => true,
            _ => false,
        }
    }

    pub fn is_color16(&self) -> (b: bool)
        ensures
            b == (*self is Color16),
    {
        match self {
            Color::Color16(..) => true,
            _ => false,
        }
    }
}

impl Default for Color {
    /// The terminal's default color.
    fn default() -> (c: Color)
        ensures
            c == Color::Default,
    {
        Color::Default
    }
}

impl From<u32> for Rgb {
    /// The color of `0xRRGGBB`.
    fn from(value: u32) -> (c: Rgb)
        ensures
            c == rgb_of_u32(value),
    {
        Rgb::from_u32(value)
    }
}

impl vstd::std_specs::convert::FromSpecImpl<u32> for Rgb {
    open spec fn obeys_from_spec() -> bool {
        true
    }

    open spec fn from_spec(value: u32) -> Rgb {
        rgb_of_u32(value)
    }
}

impl From<Rgb> for u32 {
    /// `0xRRGGBB`.
    fn from(value: Rgb) -> (v: u32)
        ensures
            v == rgb_value(value),
    {
        value.to_u32()
    }
}

impl vstd::std_specs::convert::FromSpecImpl<Rgb> for u32 {
    open spec fn obeys_from_spec() -> bool {
        true
    }

    open spec fn from_spec(value: Rgb) -> u32 {
        rgb_value(value)
    }
}

impl From<Rgb> for Color {
    /// The terminal color of an RGB color.
    fn from(value: Rgb) -> (c: Color)
        ensures
            c == (Color::Rgb { r: value.r, g: value.g, b: value.b }),
    {
        Color::Rgb { r: value.r, g: value.g, b: value.b }
    }
}

impl vstd::std_specs::convert::FromSpecImpl<Rgb> for Color {
    open spec fn obeys_from_spec() -> bool {
        true
    }

    open spec fn from_spec(value: Rgb) -> Color {
        Color::Rgb { r: value.r, g: value.g, b: value.b }
    }
}

impl From<Color16> for Color {
    /// The terminal color of a standard color.
    fn from(value: Color16) -> (c: Color)
        ensures
            c == Color::Color16(value),
    {
        Color::Color16(value)
    }
}

impl vstd::std_specs::convert::FromSpecImpl<Color16> for Color {
    open spec fn obeys_from_spec() -> bool {
        true
    }

    open spec fn from_spec(value: Color16) -> Color {
        Color::Color16(value)
    }
}

impl std::str::FromStr for Rgb {
    type Err = ParseRgbError;

    /// The color that `#RRGGBB` names.
    fn from_str(s: &str) -> (r: Result<Rgb, ParseRgbError>)
        ensures
            r matches Ok(c) ==> rgb_parsed(s@) == Some(c),
            r is Err <==> rgb_parsed(s@) is None,
    {
        Rgb::parse(s)
    }
}

/// A color's `0xRRGGBB` value gives back the color.
pub proof fn rgb_value_roundtrip(c: Rgb)
    ensures
        rgb_of_u32(rgb_value(c)) == c,
{
    let v = c.r as int * 65536 + c.g as int * 256 + c.b as int;
    assert(v / 65536 == c.r && (v / 256) % 256 == c.g && v % 256 == c.b) by (nonlinear_arith)
        requires
            v == c.r as int * 65536 + c.g as int * 256 + c.b as int,
            0 <= c.r < 256,
            0 <= c.g < 256,
            0 <= c.b < 256,
    ;
}

/// The color of a value gives back its low 24 bits.
pub proof fn rgb_of_u32_roundtrip(v: u32)
    ensures
        rgb_value(rgb_of_u32(v)) == v % 0x1000000,
{
    let r = (v / 65536) % 256;
    let g = (v / 256) % 256;
    let b = v % 256;
    assert(r * 65536 + g * 256 + b == v % 0x1000000) by (nonlinear_arith)
        requires
            r == (v / 65536) % 256,
            g == (v / 256) % 256,
            b == v % 256,
            v >= 0,
    ;
}

/// Blending by 0 keeps the color, blending by 255 gives the other one,
/// and blending a color with itself keeps it.
pub proof fn blend_endpoints(x: Rgb, y: Rgb, alpha: u8)
    ensures
        blend_spec(x, y, 0) == x,
        blend_spec(x, y, 255) == y,
        blend_spec(x, x, alpha) == x,
{
    assert forall|a: u8, b: u8| #[trigger] blend_channel(a, b, 0) == a && blend_channel(a, b, 255)
        == b by {
        assert((a as int * 255 + b as int * 0) / 255 == a) by (nonlinear_arith);
        assert((a as int * 0 + b as int * 255) / 255 == b) by (nonlinear_arith);
    }
    assert forall|a: u8| #[trigger] blend_channel(a, a, alpha) == a by {
        assert(a as int * (255 - alpha) + a as int * alpha == a as int * 255) by (nonlinear_arith);
        assert((a as int * 255) / 255 == a) by (nonlinear_arith);
    }
}

proof fn lemma_hex_digit_value(d: nat)
    requires
        d < 16,
    ensures
        hex_value(hex_digit(d)) == Some(d as u8),
{
}

/// The text of a color names the color.
pub proof fn rgb_text_roundtrip(c: Rgb)
    ensures
        rgb_parsed(rgb_text(c)) == Some(c),
{
    let s = rgb_text(c);
    assert forall|b: u8| #[trigger] hex2(b).len() == 2 && hex_value(hex2(b)[0]) == Some(b / 16)
        && hex_value(hex2(b)[1]) == Some(b % 16) by {
        lemma_hex_digit_value((b / 16) as nat);
        lemma_hex_digit_value((b % 16) as nat);
    }
    assert(s.len() == 7);
    assert(s[1] == hex2(c.r)[0] && s[2] == hex2(c.r)[1]);
    assert(s[3] == hex2(c.g)[0] && s[4] == hex2(c.g)[1]);
    assert(s[5] == hex2(c.b)[0] && s[6] == hex2(c.b)[1]);
    assert forall|b: u8| #[trigger] ((b / 16) * 16 + b % 16) == b by {}
}

} // verus!
