//! An image of 24 bit colors, stored row by row.
use vstd::prelude::*;

use crate::color::{blend_endpoints, blend_spec, Rgb};
use crate::grid::{
    cell_index, fill_all, fill_rect_cells, in_rect, lemma_cell_index, lemma_index_parts,
    lemma_index_split, lemma_row_bound, lemma_row_start,
};
use crate::size2d::{Rect, Size2D};
use crate::text::{hex2, push_hex2, string_from_chars};

verus! {

/// Calls `IndexMut` of `Vec` with a range. Claimed: the result is the
/// range's part of the vector, of the same length when it is given back,
/// and the vector afterwards is the vector before with that part
/// replaced by what the result holds then.
#[verifier::external_body]
pub(crate) fn vec_range_mut<T>(v: &mut Vec<T>, start: usize, end: usize) -> (r: &mut [T])
    requires
        start <= end <= old(v)@.len(),
    ensures
        r@ == old(v)@.subrange(start as int, end as int),
        final(r)@.len() == end - start,
        final(v)@ == old(v)@.subrange(0, start as int) + final(r)@ + old(v)@.subrange(
            end as int,
            old(v)@.len() as int,
        ),
{
    &mut v[start..end]
}

/// Calls `chunks_mut` of a vector's slice and collects the chunks.
/// Claimed: for a length that `size` divides, the chunks are the
/// consecutive parts of `size` items, each keeps its length, and the
/// vector afterwards holds what the chunks hold then, in order.
#[verifier::external_body]
fn vec_chunks_mut<T>(v: &mut Vec<T>, size: usize) -> (r: Vec<&mut [T]>)
    requires
        size > 0,
        old(v)@.len() as int % (size as int) == 0,
    ensures
        r@.len() * size == old(v)@.len(),
        forall|k: int|
            #![auto]
            0 <= k < r@.len() ==> r@[k]@ == old(v)@.subrange(size * k, size * k + size),
        forall|k: int| #![auto] 0 <= k < r@.len() ==> final(r@[k])@.len() == size,
        final(v)@.len() == old(v)@.len(),
        forall|i: int|
            0 <= i < old(v)@.len() ==> #[trigger] final(v)@[i] == final(r@[i / (size as int)])@[i
                % (size as int)],
{
    v.chunks_mut(size).collect()
}

/// How far a gradient has come at position `p` of `n`: `p * 255 / n`.
pub open spec fn gradient_alpha(p: int, n: int) -> u8 {
    (p * 255 / n) as u8
}

/// A sequence cut to `n` items, or extended to `n` items with `fill`.
pub open spec fn resized<T>(s: Seq<T>, n: int, fill: T) -> Seq<T> {
    if n <= s.len() {
        s.subrange(0, n)
    } else {
        s + Seq::new((n - s.len()) as nat, |i: int| fill)
    }
}

/// An image of 24 bit colors.
#[derive(Debug, Clone, PartialEq, Eq)]
pub struct RgbImage {
    data: Vec<Rgb>,
    size: Size2D,
}

/// `#RRGGBB` without `#`.
pub open spec fn pixel_text(c: Rgb) -> Seq<char> {
    hex2(c.r) + hex2(c.g) + hex2(c.b)
}

/// A row of pixels, separated by spaces.
pub open spec fn line_text(line: Seq<Rgb>) -> Seq<char>
    decreases line.len(),
{
    if line.len() == 0 {
        Seq::empty()
    } else if line.len() == 1 {
        pixel_text(line[0])
    } else {
        line_text(line.drop_last()) + " "@ + pixel_text(line.last())
    }
}

/// The rows `0..n` of an image, each as `line_text`, separated by line
/// feeds.
pub open spec fn lines_text(pixels: Seq<Rgb>, w: int, n: int) -> Seq<char>
    decreases n,
{
    if n <= 0 {
        Seq::empty()
    } else if n == 1 {
        line_text(pixels.subrange(0, w))
    } else {
        lines_text(pixels, w, n - 1) + seq!['\n'] + line_text(pixels.subrange(w * (n - 1), w * n))
    }
}

impl RgbImage {
    /// The pixels, row by row.
    pub closed spec fn pixels(&self) -> Seq<Rgb> {
        self.data@
    }

    /// The size of the image.
    pub closed spec fn dims(&self) -> Size2D {
        self.size
    }

    /// There is one pixel for each cell.
    pub open spec fn wf(&self) -> bool {
        self.pixels().len() == self.dims().width * self.dims().height
    }

    /// The pixel in column `x` of row `y`.
    pub open spec fn pixel(&self, x: int, y: int) -> Rgb {
        self.pixels()[cell_index(self.dims().width as int, x, y)]
    }

    /// An image of the given size with every pixel set to `fill`.
    pub fn new(size: Size2D, fill: Rgb) -> (img: RgbImage)
        requires
            size.width * size.height <= usize::MAX,
        ensures
            img.wf(),
            img.dims() == size,
            img.pixels() == Seq::new((size.width * size.height) as nat, |i: int| fill),
    {
        let data = vec![fill; size.width * size.height];
        let img = RgbImage { data, size };
        assert(img.pixels() =~= Seq::new((size.width * size.height) as nat, |i: int| fill));
        img
    }

    pub fn size(&self) -> (s: &Size2D)
        ensures
            *s == self.dims(),
    {
        &self.size
    }

    pub fn data(&self) -> (d: &[Rgb])
        ensures
            d@ == self.pixels(),
    {
        self.data.as_slice()
    }

    /// The pixels for change in place; the size stays.
    pub fn data_mut(&mut self) -> (d: &mut [Rgb])
        ensures
            d@ == old(self).pixels(),
            final(self).pixels() == final(d)@,
            final(self).dims() == old(self).dims(),
    {
        self.data.as_mut_slice()
    }

    /// The pixel at `(x, y)`, black outside the image.
    pub fn get_pixel(&self, x: usize, y: usize) -> (c: Rgb)
        requires
            self.wf(),
        ensures
            x < self.dims().width && y < self.dims().height ==> c == self.pixel(x as int, y as int),
            !(x < self.dims().width && y < self.dims().height) ==> c == (Rgb { r: 0, g: 0, b: 0 }),
    {
        if x >= self.size.width || y >= self.size.height {
            return Rgb { r: 0, g: 0, b: 0 };
        }
        let _len = self.data.len();
        proof {
            lemma_cell_index(self.size.width as int, self.size.height as int, x as int, y as int);
        }
        self.data[self.size.width * y + x]
    }

    /// Sets the pixel at `(x, y)`; nothing happens outside the image.
    pub fn set_pixel(&mut self, x: usize, y: usize, color: Rgb)
        requires
            old(self).wf(),
        ensures
            final(self).wf(),
            final(self).dims() == old(self).dims(),
            x < old(self).dims().width && y < old(self).dims().height ==> final(self).pixels()
                == old(self).pixels().update(
                cell_index(old(self).dims().width as int, x as int, y as int),
                color,
            ),
            !(x < old(self).dims().width && y < old(self).dims().height) ==> final(self).pixels()
                == old(self).pixels(),
    {
        if x >= self.size.width || y >= self.size.height {
            return;
        }
        let _len = self.data.len();
        proof {
            lemma_cell_index(self.size.width as int, self.size.height as int, x as int, y as int);
        }
        let index = self.size.width * y + x;
        self.data.set(index, color);
    }

    /// Blends the pixel at `(x, y)` toward `color` by `alpha / 255`;
    /// nothing happens outside the image.
    pub fn set_pixel_alpha(&mut self, x: usize, y: usize, color: Rgb, alpha: u8)
        requires
            old(self).wf(),
        ensures
            final(self).wf(),
            final(self).dims() == old(self).dims(),
            x < old(self).dims().width && y < old(self).dims().height ==> final(self).pixels()
                == old(self).pixels().update(
                cell_index(old(self).dims().width as int, x as int, y as int),
                blend_spec(old(self).pixel(x as int, y as int), color, alpha),
            ),
            !(x < old(self).dims().width && y < old(self).dims().height) ==> final(self).pixels()
                == old(self).pixels(),
    {
        if x >= self.size.width || y >= self.size.height {
            return;
        }
        let _len = self.data.len();
        proof {
            lemma_cell_index(self.size.width as int, self.size.height as int, x as int, y as int);
        }
        let index = self.size.width * y + x;
        let mut c = self.data[index];
        c.blend_assign(color, alpha);
        self.data.set(index, c);
    }

    /// The rows of the image.
    pub fn lines(&self) -> (r: Vec<&[Rgb]>)
        requires
            self.wf(),
            self.dims().width > 0,
        ensures
            r@.len() == self.dims().height,
            forall|y: int|
                0 <= y < self.dims().height ==> (#[trigger] r@[y])@ == self.pixels().subrange(
                    self.dims().width * y,
                    self.dims().width * y + self.dims().width,
                ),
    {
        let mut r: Vec<&[Rgb]> = Vec::new();
        let mut y: usize = 0;
        while y < self.size.height
            invariant
                self.wf(),
                self.dims().width > 0,
                y <= self.dims().height,
                r@.len() == y,
                forall|k: int|
                    0 <= k < y ==> (#[trigger] r@[k])@ == self.pixels().subrange(
                        self.dims().width * k,
                        self.dims().width * k + self.dims().width,
                    ),
            decreases self.dims().height - y,
        {
            proof {
                lemma_cell_index(self.size.width as int, self.size.height as int, 0, y as int);
            }
            r.push(self.get_line(y));
            y = y + 1;
        }
        r
    }


    /// Sets every pixel to `color`.
    pub fn fill(&mut self, color: Rgb)
        requires
            old(self).wf(),
        ensures
            final(self).wf(),
            final(self).dims() == old(self).dims(),
            final(self).pixels() == Seq::new(old(self).pixels().len(), |i: int| color),
    {
        fill_all(&mut self.data, color);
    }

    /// Fills each row with `top` blended toward `bottom` by `y * 255 /
    /// height` (integer division) for row `y`.
    pub fn vgradient(&mut self, top_color: Rgb, bottom_color: Rgb)
        requires
            old(self).wf(),
            old(self).dims().height * 255 <= usize::MAX,
        ensures
            final(self).wf(),
            final(self).dims() == old(self).dims(),
            forall|x: int, y: int|
                0 <= x < old(self).dims().width && 0 <= y < old(self).dims().height
                    ==> #[trigger] final(self).pixel(x, y) == blend_spec(
                    top_color,
                    bottom_color,
                    gradient_alpha(y, old(self).dims().height as int),
                ),
    {
        let width = self.size.width;
        let height = self.size.height;
        let ghost w = width as int;
        let ghost h = height as int;
        let _n = self.data.len();
        let mut i: usize = 0;
        let mut y: usize = 0;
        while y < height
            invariant
                self.wf(),
                self.dims() == old(self).dims(),
                width == self.dims().width,
                height == self.dims().height,
                w == width as int,
                h == height as int,
                height * 255 <= usize::MAX,
                y <= height,
                i == width * y,
                forall|j: int|
                    0 <= j < i ==> #[trigger] self.pixels()[j] == blend_spec(
                        top_color,
                        bottom_color,
                        gradient_alpha(j / w, h),
                    ),
            decreases height - y,
        {
            let color = top_color.blend(bottom_color, (y * 255 / height) as u8);
            let mut x: usize = 0;
            while x < width
                invariant
                    self.wf(),
                    self.dims() == old(self).dims(),
                    width == self.dims().width,
                    height == self.dims().height,
                    w == width as int,
                    h == height as int,
                    height * 255 <= usize::MAX,
                    y < height,
                    x <= width,
                    i == width * y + x,
                    color == blend_spec(top_color, bottom_color, gradient_alpha(y as int, h)),
                    forall|j: int|
                        0 <= j < i ==> #[trigger] self.pixels()[j] == blend_spec(
                            top_color,
                            bottom_color,
                            gradient_alpha(j / w, h),
                        ),
                decreases width - x,
            {
                proof {
                    lemma_cell_index(w, h, x as int, y as int);
                    lemma_index_parts(w, x as int, y as int);
                }
                let _n = self.data.len();
                self.data.set(i, color);
                i = i + 1;
                x = x + 1;
            }
            proof {
                lemma_row_start(w, y as int);
            }
            y = y + 1;
        }
        assert forall|x: int, y: int|
            0 <= x < w && 0 <= y < h implies #[trigger] self.pixel(x, y) == blend_spec(
            top_color,
            bottom_color,
            gradient_alpha(y, h),
        ) by {
            lemma_cell_index(w, h, x, y);
            lemma_index_parts(w, x, y);
        }
    }

    /// Fills each column with `left` blended toward `right` by `x * 255 /
    /// width` (integer division) for column `x`.
    pub fn hgradient(&mut self, left_color: Rgb, right_color: Rgb)
        requires
            old(self).wf(),
            old(self).dims().width * 255 <= usize::MAX,
        ensures
            final(self).wf(),
            final(self).dims() == old(self).dims(),
            forall|x: int, y: int|
                0 <= x < old(self).dims().width && 0 <= y < old(self).dims().height
                    ==> #[trigger] final(self).pixel(x, y) == blend_spec(
                    left_color,
                    right_color,
                    gradient_alpha(x, old(self).dims().width as int),
                ),
    {
        let width = self.size.width;
        let height = self.size.height;
        let ghost w = width as int;
        let ghost h = height as int;
        let mut x: usize = 0;
        while x < width
            invariant
                self.wf(),
                self.dims() == old(self).dims(),
                width == self.dims().width,
                height == self.dims().height,
                w == width as int,
                h == height as int,
                width * 255 <= usize::MAX,
                x <= width,
                forall|j: int|
                    0 <= j < self.pixels().len() ==> #[trigger] self.pixels()[j] == if j % w < x {
                        blend_spec(left_color, right_color, gradient_alpha(j % w, w))
                    } else {
                        old(self).pixels()[j]
                    },
            decreases width - x,
        {
            let color = left_color.blend(right_color, (x * 255 / width) as u8);
            let mut y: usize = 0;
            while y < height
                invariant
                    self.wf(),
                    self.dims() == old(self).dims(),
                    width == self.dims().width,
                    height == self.dims().height,
                    w == width as int,
                    h == height as int,
                    width * 255 <= usize::MAX,
                    x < width,
                    y <= height,
                    color == blend_spec(left_color, right_color, gradient_alpha(x as int, w)),
                    forall|j: int|
                        0 <= j < self.pixels().len() ==> #[trigger] self.pixels()[j] == if j % w < x
                            || (j % w == x && j / w < y) {
                            blend_spec(left_color, right_color, gradient_alpha(j % w, w))
                        } else {
                            old(self).pixels()[j]
                        },
                decreases height - y,
            {
                proof {
                    lemma_cell_index(w, h, x as int, y as int);
                    lemma_index_parts(w, x as int, y as int);
                }
                let _n = self.data.len();
                let k = width * y + x;
                self.data.set(k, color);
                assert forall|j: int| 0 <= j < self.pixels().len() implies #[trigger] self.pixels()[j]
                    == if j % w < x || (j % w == x && j / w < y + 1) {
                    blend_spec(left_color, right_color, gradient_alpha(j % w, w))
                } else {
                    old(self).pixels()[j]
                } by {
                    lemma_index_split(w, j);
                    if j / w == y && j % w == x {
                        assert(j == k);
                    }
                }
                y = y + 1;
            }
            assert forall|j: int| 0 <= j < self.pixels().len() implies #[trigger] self.pixels()[j]
                == if j % w < x + 1 {
                blend_spec(left_color, right_color, gradient_alpha(j % w, w))
            } else {
                old(self).pixels()[j]
            } by {
                lemma_index_split(w, j);
                if j % w == x {
                    lemma_row_bound(w, h, j);
                }
            }
            x = x + 1;
        }
        assert forall|x: int, y: int|
            0 <= x < w && 0 <= y < h implies #[trigger] self.pixel(x, y) == blend_spec(
            left_color,
            right_color,
            gradient_alpha(x, w),
        ) by {
            lemma_cell_index(w, h, x, y);
            lemma_index_parts(w, x, y);
        }
    }

    /// Changes the size. The pixels stay in their order in storage: the
    /// storage is cut to the new number of cells, or extended with black.
    pub fn resize(&mut self, size: &Size2D)
        requires
            size.width * size.height <= usize::MAX,
        ensures
            final(self).wf(),
            final(self).dims() == *size,
            final(self).pixels() == resized(
                old(self).pixels(),
                size.width * size.height,
                Rgb { r: 0, g: 0, b: 0 },
            ),
    {
        let n = size.width * size.height;
        self.data.resize(n, Rgb { r: 0, g: 0, b: 0 });
        self.size = *size;
        assert(self.pixels() =~= resized(old(self).pixels(), n as int, Rgb { r: 0, g: 0, b: 0 }));
    }

    /// Sets the pixels of the rectangle, clipped to the image, to `color`.
    pub fn fill_rect(&mut self, rect: &Rect, color: Rgb)
        requires
            old(self).wf(),
        ensures
            final(self).wf(),
            final(self).dims() == old(self).dims(),
            forall|x: int, y: int|
                0 <= x < old(self).dims().width && 0 <= y < old(self).dims().height
                    ==> #[trigger] final(self).pixel(x, y) == if in_rect(*rect, old(self).dims(), x, y) {
                    color
                } else {
                    old(self).pixel(x, y)
                },
    {
        let size = self.size;
        fill_rect_cells(&mut self.data, &size, rect, color);
    }

    /// Row `y` of the image.
    pub fn get_line(&self, y: usize) -> (line: &[Rgb])
        requires
            self.wf(),
            self.dims().width * y + self.dims().width <= self.pixels().len(),
        ensures
            line@ == self.pixels().subrange(
                self.dims().width * y,
                self.dims().width * y + self.dims().width,
            ),
    {
        let _len = self.data.len();
        proof {
            lemma_row_start(self.size.width as int, y as int);
        }
        let start = self.size.width * y;
        vstd::slice::slice_subrange(self.data.as_slice(), start, start + self.size.width)
    }

    /// Row `y` of the image for change in place.
    pub fn get_line_mut(&mut self, y: usize) -> (line: &mut [Rgb])
        requires
            old(self).wf(),
            old(self).dims().width * y + old(self).dims().width <= old(self).pixels().len(),
        ensures
            line@ == old(self).pixels().subrange(
                old(self).dims().width * y,
                old(self).dims().width * y + old(self).dims().width,
            ),
            final(self).dims() == old(self).dims(),
            final(self).pixels() == old(self).pixels().subrange(0, old(self).dims().width * y)
                + final(line)@ + old(self).pixels().subrange(
                old(self).dims().width * y + old(self).dims().width,
                old(self).pixels().len() as int,
            ),
            final(self).wf(),
    {
        let _len = self.data.len();
        proof {
            lemma_row_start(self.size.width as int, y as int);
        }
        let start = self.size.width * y;
        let end = start + self.size.width;
        vec_range_mut(&mut self.data, start, end)
    }
}

/// Appends a row of pixels, separated by spaces.
fn push_line_text(out: &mut Vec<char>, line: &[Rgb])
    ensures
        final(out)@ == old(out)@ + line_text(line@),
{
    let ghost o = out@;
    let mut i: usize = 0;
    while i < line.len()
        invariant
            i <= line@.len(),
            out@ == o + line_text(line@.subrange(0, i as int)),
        decreases line@.len() - i,
    {
        let ghost before = out@;
        if i > 0 {
            out.push(' ');
        }
        let c = line[i];
        push_hex2(out, c.r);
        push_hex2(out, c.g);
        push_hex2(out, c.b);
        proof {
            let l = line@.subrange(0, i + 1);
            assert(l.drop_last() =~= line@.subrange(0, i as int));
            assert(l.last() == c);
            if i == 0 {
                assert(out@ =~= o + pixel_text(c));
            } else {
                reveal_strlit(" ");
                assert(out@ =~= before + " "@ + pixel_text(c));
            }
        }
        i = i + 1;
    }
    assert(line@.subrange(0, line@.len() as int) =~= line@);
}

impl RgbImage {
    /// The rows of the image, top to bottom, separated by line feeds; the
    /// pixels of a row as `RRGGBB` separated by spaces.
    pub fn to_string(&self) -> (s: String)
        requires
            self.wf(),
            self.dims().width > 0,
        ensures
            s@ == lines_text(
                self.pixels(),
                self.dims().width as int,
                self.dims().height as int,
            ),
    {
        let ghost w = self.dims().width as int;
        let mut v: Vec<char> = Vec::new();
        let mut y: usize = 0;
        while y < self.size.height
            invariant
                self.wf(),
                w == self.dims().width,
                w > 0,
                y <= self.dims().height,
                v@ == lines_text(self.pixels(), w, y as int),
            decreases self.dims().height - y,
        {
            proof {
                lemma_cell_index(w, self.size.height as int, 0, y as int);
                lemma_row_start(w, y as int);
            }
            if y > 0 {
                v.push('\n');
            }
            let line = self.get_line(y);
            push_line_text(&mut v, line);
            proof {
                if y == 0 {
                    assert(v@ =~= line_text(self.pixels().subrange(0, w)));
                } else {
                    assert(v@ =~= lines_text(self.pixels(), w, y as int) + seq!['\n'] + line_text(
                        self.pixels().subrange(w * y, w * (y + 1)),
                    ));
                }
            }
            y = y + 1;
        }
        string_from_chars(&v)
    }
}

/// A pixel read after one is set gives the color that was set at that
/// pixel, and the color from before at every other pixel.
pub proof fn set_then_get_pixel(
    pixels: Seq<Rgb>,
    w: int,
    h: int,
    x: int,
    y: int,
    x2: int,
    y2: int,
    color: Rgb,
)
    requires
        pixels.len() == w * h,
        0 <= x < w,
        0 <= y < h,
        0 <= x2 < w,
        0 <= y2 < h,
    ensures
        pixels.update(cell_index(w, x, y), color)[cell_index(w, x2, y2)] == if x2 == x && y2 == y {
            color
        } else {
            pixels[cell_index(w, x2, y2)]
        },
{
    lemma_cell_index(w, h, x, y);
    lemma_cell_index(w, h, x2, y2);
    lemma_index_parts(w, x, y);
    lemma_index_parts(w, x2, y2);
}

/// Resizing to the current number of cells changes nothing.
pub proof fn resize_to_same<T>(s: Seq<T>, fill: T)
    ensures
        resized(s, s.len() as int, fill) == s,
{
    assert(s.subrange(0, s.len() as int) =~= s);
}

impl RgbImage {
    /// The rows of the image for change in place.
    pub fn lines_mut(&mut self) -> (r: Vec<&mut [Rgb]>)
        requires
            old(self).wf(),
            old(self).dims().width > 0,
        ensures
            r@.len() == old(self).dims().height,
            forall|y: int|
                #![auto]
                0 <= y < r@.len() ==> r@[y]@ == old(self).pixels().subrange(
                    old(self).dims().width * y,
                    old(self).dims().width * y + old(self).dims().width,
                ),
            final(self).dims() == old(self).dims(),
            final(self).wf(),
            forall|x: int, y: int|
                0 <= x < old(self).dims().width && 0 <= y < old(self).dims().height
                    ==> #[trigger] final(self).pixel(x, y) == final(r@[y])@[x],
    {
        let ghost w = self.size.width as int;
        let ghost h = self.size.height as int;
        let width = self.size.width;
        proof {
            assert((w * h) % w == 0) by (nonlinear_arith)
                requires
                    w > 0,
                    h >= 0,
            ;
        }
        let r = vec_chunks_mut(&mut self.data, width);
        proof {
            assert(r@.len() == h) by (nonlinear_arith)
                requires
                    r@.len() * w == w * h,
                    w > 0,
            ;
        }
        assert forall|x: int, y: int| 0 <= x < w && 0 <= y < h implies #[trigger] cell_index(w, x, y)
            < w * h && cell_index(w, x, y) / w == y && cell_index(w, x, y) % w == x by {
            lemma_cell_index(w, h, x, y);
            lemma_index_parts(w, x, y);
        }
        r
    }
}

/// A gradient starts with its first color: at position 0 the blend is by
/// 0 (so a horizontal gradient's first column is the left color and a
/// vertical one's first row the top color).
pub proof fn gradient_starts_with_first_color(first: Rgb, last: Rgb, n: int)
    requires
        n > 0,
    ensures
        gradient_alpha(0, n) == 0,
        blend_spec(first, last, gradient_alpha(0, n)) == first,
{
    blend_endpoints(first, last, 0);
}

} // verus!
