//! Two dimensional sizes and rectangles.
use vstd::prelude::*;

use crate::text::{dec_chars, push_decimal_chars, push_str, string_from_chars};
use crate::termio::WindowSize;

verus! {

/// A width and a height.
#[derive(Debug, Clone, Copy, PartialEq, Eq, Structural)]
pub struct Size2D {
    pub width: usize,
    pub height: usize,
}

/// A rectangle whose corner may lie left of or above the origin.
#[derive(Debug, Clone, Copy, PartialEq, Eq, Structural)]
pub struct Rect {
    pub x: isize,
    pub y: isize,
    pub width: usize,
    pub height: usize,
}

/// `<width>x<height>`.
pub open spec fn size_text(s: Size2D) -> Seq<char> {
    dec_chars(s.width as nat) + "x"@ + dec_chars(s.height as nat)
}

impl Size2D {
    /// The number of cells of this size.
    pub open spec fn area(&self) -> int {
        self.width * self.height
    }

    /// The size scaled by another size in each dimension.
    pub fn mul(&self, rhs: &Size2D) -> (r: Size2D)
        requires
            self.width * rhs.width <= usize::MAX,
            self.height * rhs.height <= usize::MAX,
        ensures
            r.width == self.width * rhs.width,
            r.height == self.height * rhs.height,
    {
        Size2D { width: self.width * rhs.width, height: self.height * rhs.height }
    }

    /// The size scaled by a factor in both dimensions.
    pub fn mul_scalar(&self, rhs: usize) -> (r: Size2D)
        requires
            self.width * rhs <= usize::MAX,
            self.height * rhs <= usize::MAX,
        ensures
            r.width == self.width * rhs,
            r.height == self.height * rhs,
    {
        Size2D { width: self.width * rhs, height: self.height * rhs }
    }

    /// Scales the size by another size in each dimension.
    pub fn mul_assign(&mut self, rhs: &Size2D)
        requires
            old(self).width * rhs.width <= usize::MAX,
            old(self).height * rhs.height <= usize::MAX,
        ensures
            final(self).width == old(self).width * rhs.width,
            final(self).height == old(self).height * rhs.height,
    {
        self.width = self.width * rhs.width;
        self.height = self.height * rhs.height;
    }

    /// Scales the size by a factor in both dimensions.
    pub fn mul_assign_scalar(&mut self, rhs: usize)
        requires
            old(self).width * rhs <= usize::MAX,
            old(self).height * rhs <= usize::MAX,
        ensures
            final(self).width == old(self).width * rhs,
            final(self).height == old(self).height * rhs,
    {
        self.width = self.width * rhs;
        self.height = self.height * rhs;
    }

    /// `<width>x<height>`.
    pub fn to_string(&self) -> (s: String)
        ensures
            s@ == size_text(*self),
    {
        let mut v: Vec<char> = Vec::new();
        push_decimal_chars(&mut v, self.width as u64);
        push_str(&mut v, "x");
        push_decimal_chars(&mut v, self.height as u64);
        assert(v@ =~= size_text(*self));
        string_from_chars(&v)
    }
}

impl From<WindowSize> for Size2D {
    /// The size of a terminal window: columns wide, rows high.
    fn from(value: WindowSize) -> (s: Size2D)
        ensures
            s == (Size2D { width: value.columns as usize, height: value.rows as usize }),
    {
        Size2D { width: value.columns as usize, height: value.rows as usize }
    }
}

impl vstd::std_specs::convert::FromSpecImpl<WindowSize> for Size2D {
    open spec fn obeys_from_spec() -> bool {
        true
    }

    open spec fn from_spec(value: WindowSize) -> Size2D {
        Size2D { width: value.columns as usize, height: value.rows as usize }
    }
}

} // verus!
