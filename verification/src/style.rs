//! Text styles: font weight, decoration and slant, each written as its
//! escape sequence.
use vstd::prelude::*;

use crate::ansi_codes::{
    push_bytes, BOLD, DOUBLY_UNDERLINE, FAINT, ITALIC, NORMAL_INTENSITY, NOT_ITALIC,
    NOT_UNDERLINE, UNDERLINE,
};

verus! {

/// A style that is selected by an escape sequence.
pub trait Style {
    /// The escape sequence that selects the style.
    spec fn style_bytes(&self) -> Seq<u8>;

    /// Appends the escape sequence that selects the style.
    fn write(&self, write: &mut Vec<u8>)
        ensures
            final(write)@ == old(write)@ + self.style_bytes(),
    ;
}

#[derive(Debug, Clone, Copy, PartialEq, Eq, Structural)]
pub enum FontWeight {
    Normal,
    Bold,
    Faint,
}

impl Default for FontWeight {
    fn default() -> (w: FontWeight)
        ensures
            w == FontWeight::Normal,
    {
        FontWeight::Normal
    }
}

impl Style for FontWeight {
    open spec fn style_bytes(&self) -> Seq<u8> {
        match *self {
            FontWeight::Normal => NORMAL_INTENSITY@,
            FontWeight::Bold => BOLD@,
            FontWeight::Faint => FAINT@,
        }
    }

    fn write(&self, write: &mut Vec<u8>) {
        match self {
            FontWeight::Normal => push_bytes(write, &NORMAL_INTENSITY),
            FontWeight::Bold => push_bytes(write, &BOLD),
            FontWeight::Faint => push_bytes(write, &FAINT),
        }
    }
}

#[derive(Debug, Clone, Copy, PartialEq, Eq, Structural)]
pub enum TextDecoration {
    NoDecoration,
    Underline,
    DoublyUnderline,
}

impl Default for TextDecoration {
    fn default() -> (d: TextDecoration)
        ensures
            d == TextDecoration::NoDecoration,
    {
        TextDecoration::NoDecoration
    }
}

impl Style for TextDecoration {
    open spec fn style_bytes(&self) -> Seq<u8> {
        match *self {
            TextDecoration::NoDecoration => NOT_UNDERLINE@,
            TextDecoration::Underline => UNDERLINE@,
            TextDecoration::DoublyUnderline => DOUBLY_UNDERLINE@,
        }
    }

    fn write(&self, write: &mut Vec<u8>) {
        match self {
            TextDecoration::NoDecoration => push_bytes(write, &NOT_UNDERLINE),
            TextDecoration::Underline => push_bytes(write, &UNDERLINE),
            TextDecoration::DoublyUnderline => push_bytes(write, &DOUBLY_UNDERLINE),
        }
    }
}

#[derive(Debug, Clone, Copy, PartialEq, Eq, Structural)]
pub enum FontStyle {
    Normal,
    Italic,
}

impl Default for FontStyle {
    fn default() -> (s: FontStyle)
        ensures
            s == FontStyle::Normal,
    {
        FontStyle::Normal
    }
}

impl Style for FontStyle {
    open spec fn style_bytes(&self) -> Seq<u8> {
        match *self {
            FontStyle::Normal => NOT_ITALIC@,
            FontStyle::Italic => ITALIC@,
        }
    }

    fn write(&self, write: &mut Vec<u8>) {
        match self {
            FontStyle::Normal => push_bytes(write, &NOT_ITALIC),
            FontStyle::Italic => push_bytes(write, &ITALIC),
        }
    }
}

} // verus!
