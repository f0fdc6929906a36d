//! Cells of a two dimensional area stored row by row in one vector: index
//! arithmetic, and filling the whole area or a rectangle of it.
use vstd::prelude::*;

use crate::size2d::{Rect, Size2D};

verus! {

/// Where row `y` and column `x` of a `w` wide area lies.
pub open spec fn cell_index(w: int, x: int, y: int) -> int {
    w * y + x
}

/// The start of a rectangle's clipped range: `max(start, 0)`.
pub open spec fn clip_lo(start: int) -> int {
    if start < 0 {
        0
    } else {
        start
    }
}

/// The end of a rectangle's clipped range: `min(start + len, limit)`.
pub open spec fn clip_hi(start: int, len: int, limit: int) -> int {
    if start + len > limit {
        limit
    } else {
        start + len
    }
}

/// Whether cell `(x, y)` of an area lies in the rectangle, clipped to the
/// area of size `s`.
pub open spec fn in_rect(r: Rect, s: Size2D, x: int, y: int) -> bool {
    &&& clip_lo(r.x as int) <= x < clip_hi(r.x as int, r.width as int, s.width as int)
    &&& clip_lo(r.y as int) <= y < clip_hi(r.y as int, r.height as int, s.height as int)
}

/// Cell `(x, y)` of a `w` by `h` area lies inside it, and row `y` ends
/// within it.
pub proof fn lemma_cell_index(w: int, h: int, x: int, y: int)
    requires
        0 <= x < w,
        0 <= y < h,
    ensures
        0 <= w * y,
        w * y + x < w * h,
        w * y + w <= w * h,
{
    assert(w * y + w <= w * h) by (nonlinear_arith)
        requires
            0 <= x < w,
            0 <= y < h,
    ;
    assert(0 <= w * y) by (nonlinear_arith)
        requires
            0 <= x < w,
            0 <= y,
    ;
}

/// Row `y + 1` starts where row `y` ends.
pub proof fn lemma_row_start(w: int, y: int)
    requires
        0 <= w,
        0 <= y,
    ensures
        w * (y + 1) == w * y + w,
        0 <= w * y,
{
    assert(w * (y + 1) == w * y + w) by (nonlinear_arith);
    assert(0 <= w * y) by (nonlinear_arith)
        requires
            0 <= w,
            0 <= y,
    ;
}

/// The row and column of a cell index.
pub proof fn lemma_index_parts(w: int, x: int, y: int)
    requires
        0 <= x < w,
        0 <= y,
    ensures
        (w * y + x) / w == y,
        (w * y + x) % w == x,
{
    vstd::arithmetic::mul::lemma_mul_is_commutative(w, y);
    vstd::arithmetic::div_mod::lemma_fundamental_div_mod_converse(w * y + x, w, y, x);
}

/// Every index is the cell index of its row and column.
pub proof fn lemma_index_split(w: int, j: int)
    requires
        0 < w,
        0 <= j,
    ensures
        j == w * (j / w) + j % w,
        0 <= j % w < w,
        0 <= j / w,
{
    vstd::arithmetic::div_mod::lemma_fundamental_div_mod(j, w);
    vstd::arithmetic::div_mod::lemma_div_pos_is_pos(j, w);
}

/// An index inside a `w` by `h` area lies in one of its rows.
pub proof fn lemma_row_bound(w: int, h: int, j: int)
    requires
        0 < w,
        0 <= j < w * h,
    ensures
        j / w < h,
{
    lemma_index_split(w, j);
    let q = j / w;
    let r = j % w;
    if q >= h {
        assert(w * q >= w * h) by (nonlinear_arith)
            requires
                q >= h,
                w > 0,
        ;
    }
}

/// Sets every cell to `value`.
pub fn fill_all<T: Copy>(data: &mut Vec<T>, value: T)
    ensures
        final(data)@ == Seq::new(old(data)@.len(), |i: int| value),
{
    let n = data.len();
    let mut i: usize = 0;
    while i < n
        invariant
            n == data@.len(),
            n == old(data)@.len(),
            i <= n,
            forall|j: int| 0 <= j < i ==> data@[j] == value,
        decreases n - i,
    {
        data.set(i, value);
        i = i + 1;
    }
    assert(data@ =~= Seq::new(old(data)@.len(), |i: int| value));
}

/// The clipped rectangle in cell coordinates: `(x, y, width, height)`, or
/// `None` where nothing of it lies inside the area.
pub fn clip_rect(rect: &Rect, size: &Size2D) -> (r: Option<(usize, usize, usize, usize)>)
    ensures
        r matches Some((x, y, w, h)) ==> {
            &&& x as int == clip_lo(rect.x as int)
            &&& y as int == clip_lo(rect.y as int)
            &&& x + w == clip_hi(rect.x as int, rect.width as int, size.width as int)
            &&& y + h == clip_hi(rect.y as int, rect.height as int, size.height as int)
            &&& w > 0
            &&& h > 0
        },
        r is None ==> (clip_lo(rect.x as int) >= clip_hi(
            rect.x as int,
            rect.width as int,
            size.width as int,
        ) || clip_lo(rect.y as int) >= clip_hi(
            rect.y as int,
            rect.height as int,
            size.height as int,
        )),
{
    let mut height = rect.height;
    let y: usize;
    if rect.y < 0 {
        let above: usize = ((-(rect.y + 1)) as usize) + 1;
        if above >= height {
            return None;
        }
        height = height - above;
        y = 0;
    } else {
        y = rect.y as usize;
    }
    if y >= size.height {
        return None;
    }
    if height > size.height - y {
        height = size.height - y;
    }
    let mut width = rect.width;
    let x: usize;
    if rect.x < 0 {
        let left: usize = ((-(rect.x + 1)) as usize) + 1;
        if left >= width {
            return None;
        }
        width = width - left;
        x = 0;
    } else {
        x = rect.x as usize;
    }
    if x >= size.width {
        return None;
    }
    if width > size.width - x {
        width = size.width - x;
    }
    if width == 0 || height == 0 {
        return None;
    }
    Some((x, y, width, height))
}

/// Whether index `j` of a `w` wide area lies in the block of `cw` by `ch`
/// cells whose corner is `(x0, y0)`.
pub open spec fn in_block(j: int, w: int, x0: int, y0: int, cw: int, ch: int) -> bool {
    &&& x0 <= j % w < x0 + cw
    &&& y0 <= j / w < y0 + ch
}

/// Sets the cells of the rectangle, clipped to the area, to `value`.
pub fn fill_rect_cells<T: Copy>(data: &mut Vec<T>, size: &Size2D, rect: &Rect, value: T)
    requires
        old(data)@.len() == size.width * size.height,
    ensures
        final(data)@.len() == old(data)@.len(),
        forall|x: int, y: int|
            0 <= x < size.width && 0 <= y < size.height ==> #[trigger] final(data)@[cell_index(
                size.width as int,
                x,
                y,
            )] == if in_rect(*rect, *size, x, y) {
                value
            } else {
                old(data)@[cell_index(size.width as int, x, y)]
            },
{
    let ghost w = size.width as int;
    let clipped = clip_rect(rect, size);
    match clipped {
        None => {
            assert forall|x: int, y: int|
                0 <= x < size.width && 0 <= y < size.height implies !in_rect(*rect, *size, x, y) by {}
        },
        Some((x0, y0, cw, ch)) => {
            let mut y = y0;
            while y < y0 + ch
                invariant
                    size.width * size.height == data@.len(),
                    data@.len() == old(data)@.len(),
                    w == size.width,
                    x0 + cw <= size.width,
                    y0 + ch <= size.height,
                    cw > 0,
                    y0 <= y <= y0 + ch,
                    forall|j: int|
                        0 <= j < data@.len() ==> #[trigger] data@[j] == if in_block(j, w, x0 as int, y0 as int, cw as int, ch as int) && j / w < y {
                            value
                        } else {
                            old(data)@[j]
                        },
                decreases y0 + ch - y,
            {
                let mut x = x0;
                while x < x0 + cw
                    invariant
                        size.width * size.height == data@.len(),
                        data@.len() == old(data)@.len(),
                        w == size.width,
                        x0 + cw <= size.width,
                        y0 + ch <= size.height,
                        cw > 0,
                        y0 <= y < y0 + ch,
                        x0 <= x <= x0 + cw,
                        forall|j: int|
                            0 <= j < data@.len() ==> #[trigger] data@[j] == if in_block(j, w, x0 as int, y0 as int, cw as int, ch as int) && (j / w
                                < y || (j / w == y && j % w < x)) {
                                value
                            } else {
                                old(data)@[j]
                            },
                    decreases x0 + cw - x,
                {
                    proof {
                        lemma_cell_index(w, size.height as int, x as int, y as int);
                        lemma_index_parts(w, x as int, y as int);
                    }
                    let _n = data.len();
                    let k = size.width * y + x;
                    let ghost before = data@;
                    data.set(k, value);
                    assert forall|j: int| 0 <= j < data@.len() implies #[trigger] data@[j] == if in_block(j, w, x0 as int, y0 as int, cw as int, ch as int) && (j / w < y || (j / w == y && j % w < x + 1)) {
                        value
                    } else {
                        old(data)@[j]
                    } by {
                        lemma_index_split(w, j);
                        if j / w == y && j % w == x {
                            assert(j == k);
                        }
                    }
                    x = x + 1;
                }
                y = y + 1;
            }
            assert forall|x: int, y: int|
                0 <= x < size.width && 0 <= y < size.height implies #[trigger] data@[cell_index(
                size.width as int,
                x,
                y,
            )] == if in_rect(*rect, *size, x, y) {
                value
            } else {
                old(data)@[cell_index(size.width as int, x, y)]
            } by {
                lemma_cell_index(w, size.height as int, x, y);
                lemma_index_parts(w, x, y);
            }
        },
    }
}

} // verus!
