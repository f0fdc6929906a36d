//! A frame of terminal character cells, and drawing images into it with
//! block characters.
use vstd::prelude::*;

use crate::color::Rgb;
use crate::draw_mode::DrawMode;
use crate::glyphs::{
    braille_bits, braille_bits_roundtrip, braille_char, braille_mask, braille_pixel,
    get_braille_from_bits, get_two_by_three_from_bits, sextant_char, set_pixel_in_braille,
    BRAILLE_MASK, FULL_BLOCK, LOWER_HALF_BLOCK, UPPER_HALF_BLOCK,
};
use crate::grid::{
    cell_index, fill_all, fill_rect_cells, in_rect, lemma_cell_index, lemma_index_parts,
    lemma_index_split, lemma_row_bound, lemma_row_start,
};
use crate::palette::{
    bin_means, closest_color, closest_color_is_nearest, dist2, distance2, get_clostest_color,
    lemma_cluster_result, two_means,
};
use crate::rgb_image::{resized, vec_range_mut, RgbImage};
use crate::size2d::{Rect, Size2D};
use crate::termio::{bg_rgb_out, csi_num, cursor_bytes, fg_rgb_out, TermIO};
use crate::unicode::{display_char, display_char_spec};
use vstd::utf8::encode_scalar;

verus! {

/// One character cell: a character with its foreground and background.
#[derive(Debug, Clone, Copy, PartialEq, Eq, Structural)]
pub struct TermChar {
    pub c: char,
    pub fg: Rgb,
    pub bg: Rgb,
}

/// A space on black.
pub open spec fn blank_cell() -> TermChar {
    TermChar { c: ' ', fg: Rgb { r: 0, g: 0, b: 0 }, bg: Rgb { r: 0, g: 0, b: 0 } }
}

impl Default for TermChar {
    /// A space on black.
    fn default() -> (t: TermChar)
        ensures
            t == blank_cell(),
    {
        TermChar { c: ' ', fg: Rgb { r: 0, g: 0, b: 0 }, bg: Rgb { r: 0, g: 0, b: 0 } }
    }
}

/// The foreground and background of the cell drawn last, if any.
pub type DrawState = (Option<Rgb>, Option<Rgb>);

pub open spec fn or_else(o: Option<Rgb>, c: Rgb) -> Rgb {
    match o {
        Some(x) => x,
        None => c,
    }
}

/// The half block cell for an upper pixel `c1` and a lower pixel `c2`:
/// a full block of `c1` where they are equal (on the last background, if
/// any), else an upper half block of `c1` on `c2` where that keeps the
/// last foreground or background, else a lower half block of `c2` on `c1`.
pub open spec fn half_block_cell(c1: Rgb, c2: Rgb, st: DrawState) -> TermChar {
    if c1 == c2 {
        TermChar { c: FULL_BLOCK, fg: c1, bg: or_else(st.1, c1) }
    } else if st.0 == Some(c1) || st.1 == Some(c2) {
        TermChar { c: UPPER_HALF_BLOCK, fg: c1, bg: c2 }
    } else {
        TermChar { c: LOWER_HALF_BLOCK, fg: c2, bg: c1 }
    }
}

/// The sextant bits of the pixels among the first `n` whose closest
/// palette color is `fg`.
pub open spec fn sextant_mask(colors: Seq<Rgb>, palette: Seq<Rgb>, fg: Rgb, n: int) -> u32
    decreases n,
{
    if n <= 0 {
        0
    } else {
        sextant_mask(colors, palette, fg, n - 1) | (if closest_color(colors[n - 1], palette) == fg {
            1u32 << ((n - 1) as u32)
        } else {
            0u32
        })
    }
}

/// The braille bits of the pixels among the first `n` whose closest
/// palette color is `fg`.
pub open spec fn braille_mask_bits(colors: Seq<Rgb>, palette: Seq<Rgb>, fg: Rgb, n: int) -> u32
    decreases n,
{
    if n <= 0 {
        0
    } else {
        braille_mask_bits(colors, palette, fg, n - 1) | (if closest_color(colors[n - 1], palette)
            == fg {
            BRAILLE_MASK@[n - 1]
        } else {
            0u32
        })
    }
}

/// The sextant cell of six pixels (row by row): their two cluster colors
/// as foreground and background, and the pixels nearest the first one as
/// the sextant's bits; a full block where both colors agree.
pub open spec fn sextant_cell(colors: Seq<Rgb>, st: DrawState) -> TermChar {
    let p = two_means(colors);
    if p[0] == p[1] {
        TermChar { c: FULL_BLOCK, fg: p[0], bg: or_else(st.1, p[0]) }
    } else {
        TermChar { c: sextant_char(sextant_mask(colors, p, p[0], 6) as int), fg: p[0], bg: p[1] }
    }
}

/// The colors of a braille cell as (foreground, background): the cluster
/// color nearer to the last background becomes the background (the second
/// one on a tie, and where there is no last background).
pub open spec fn braille_colors(p0: Rgb, p1: Rgb, st: DrawState) -> (Rgb, Rgb) {
    match st.1 {
        Some(bg) => if dist2(p0, bg) < dist2(p1, bg) {
            (p1, p0)
        } else {
            (p0, p1)
        },
        None => (p1, p0),
    }
}

/// The braille cell of eight pixels (row by row).
pub open spec fn braille_cell(colors: Seq<Rgb>, st: DrawState) -> TermChar {
    let p = two_means(colors);
    if p[0] == p[1] {
        TermChar { c: FULL_BLOCK, fg: p[0], bg: or_else(st.1, p[0]) }
    } else {
        let (fg, bg) = braille_colors(p[0], p[1], st);
        TermChar { c: braille_char(braille_mask_bits(colors, p, fg, 8)), fg, bg }
    }
}

/// The pixel in column `x` of row `y` of a `w` wide image.
pub open spec fn img_px(img: Seq<Rgb>, w: int, x: int, y: int) -> Rgb {
    img[cell_index(w, x, y)]
}

/// The `2 * n` pixels of columns `x` and `x + 1` in rows `y..y + n`, row
/// by row.
pub open spec fn block_colors(img: Seq<Rgb>, w: int, x: int, y: int, n: int) -> Seq<Rgb> {
    Seq::new((2 * n) as nat, |k: int| img_px(img, w, x + k % 2, y + k / 2))
}

/// The cell that a mode draws for character cell `i` of frame row `tr`.
/// The image rows that it shows are those of frame row `tr`, counted from
/// the image's top.
pub open spec fn draw_cell(
    mode: DrawMode,
    img: Seq<Rgb>,
    w: int,
    tr: int,
    i: int,
    st: DrawState,
) -> TermChar {
    match mode {
        DrawMode::HalfBlock => half_block_cell(
            img_px(img, w, i, 2 * tr),
            img_px(img, w, i, 2 * tr + 1),
            st,
        ),
        DrawMode::TwoByThree => sextant_cell(block_colors(img, w, 2 * i, 3 * tr, 3), st),
        DrawMode::Braille => braille_cell(block_colors(img, w, 2 * i, 4 * tr, 4), st),
    }
}

/// The state before cell `k` of a drawing, cells counted row by row
/// from frame row `row`, `cols` cells a row.
pub open spec fn draw_state(
    mode: DrawMode,
    img: Seq<Rgb>,
    w: int,
    row: int,
    cols: int,
    k: int,
) -> DrawState
    decreases k,
{
    if k <= 0 || cols <= 0 {
        (None, None)
    } else {
        let c = draw_cell(
            mode,
            img,
            w,
            row + (k - 1) / cols,
            (k - 1) % cols,
            draw_state(mode, img, w, row, cols, k - 1),
        );
        (Some(c.fg), Some(c.bg))
    }
}

/// `n / d` rounded up.
pub open spec fn ceil_div(n: int, d: int) -> int {
    n / d + if n % d != 0 {
        1int
    } else {
        0int
    }
}

/// The number of character cells, across and down, that an image covers
/// in a mode.
pub open spec fn image_cells(mode: DrawMode, iw: int, ih: int) -> (int, int) {
    match mode {
        DrawMode::HalfBlock => (iw, ceil_div(ih, 2)),
        DrawMode::TwoByThree => (ceil_div(iw, 2), ceil_div(ih, 3)),
        DrawMode::Braille => (ceil_div(iw, 2), ceil_div(ih, 4)),
    }
}

/// `n` cut to what is left of `limit` from `start`.
pub open spec fn clip_count(start: int, n: int, limit: int) -> int {
    if start + n > limit {
        limit - start
    } else {
        n
    }
}

/// The pixel rows per character cell of a mode.
pub open spec fn mode_rows(mode: DrawMode) -> int {
    match mode {
        DrawMode::HalfBlock => 2,
        DrawMode::TwoByThree => 3,
        DrawMode::Braille => 4,
    }
}

/// The pixel columns per character cell of a mode.
pub open spec fn mode_cols(mode: DrawMode) -> int {
    match mode {
        DrawMode::HalfBlock => 1,
        _ => 2,
    }
}

/// A frame of terminal character cells.
#[derive(Debug, Clone, PartialEq, Eq)]
pub struct TermFrame {
    data: Vec<TermChar>,
    size: Size2D,
}

impl TermFrame {
    /// The cells, row by row.
    pub closed spec fn cells(&self) -> Seq<TermChar> {
        self.data@
    }

    /// The size of the frame in cells.
    pub closed spec fn dims(&self) -> Size2D {
        self.size
    }

    /// There is one cell for each position.
    pub open spec fn wf(&self) -> bool {
        self.cells().len() == self.dims().width * self.dims().height
    }

    /// The cell in column `x` of row `y`.
    pub open spec fn cell(&self, x: int, y: int) -> TermChar {
        self.cells()[cell_index(self.dims().width as int, x, y)]
    }

    /// The cells that drawing an image at `(column, row)` changes:
    /// `(columns, rows)`.
    pub open spec fn draw_extent(
        &self,
        column: int,
        row: int,
        image: &RgbImage,
        mode: DrawMode,
    ) -> (int, int) {
        let cells = image_cells(mode, image.dims().width as int, image.dims().height as int);
        (
            clip_count(column, cells.0, self.dims().width as int),
            clip_count(row, cells.1, self.dims().height as int),
        )
    }

    /// Drawing reads only pixels that the image has. (Elsewhere the
    /// drawing would index past the image and panic.)
    pub open spec fn draw_fits(
        &self,
        column: int,
        row: int,
        image: &RgbImage,
        mode: DrawMode,
    ) -> bool {
        let e = self.draw_extent(column, row, image, mode);
        column >= self.dims().width || row >= self.dims().height || e.0 == 0 || e.1 == 0 || (
        mode_rows(mode) * (row + e.1) <= image.dims().height && mode_cols(mode) * e.0
            <= image.dims().width)
    }

    /// What drawing an image at `(column, row)` leaves in cell `(x, y)`.
    pub open spec fn drawn_cell(
        &self,
        column: int,
        row: int,
        image: &RgbImage,
        mode: DrawMode,
        x: int,
        y: int,
    ) -> TermChar {
        let e = self.draw_extent(column, row, image, mode);
        if column < self.dims().width && row < self.dims().height && column <= x < column + e.0
            && row <= y < row + e.1 {
            draw_cell(
                mode,
                image.pixels(),
                image.dims().width as int,
                y,
                x - column,
                draw_state(
                    mode,
                    image.pixels(),
                    image.dims().width as int,
                    row,
                    e.0,
                    e.0 * (y - row) + (x - column),
                ),
            )
        } else {
            self.cell(x, y)
        }
    }

    /// A frame of the given size with blank cells.
    pub fn new(size: Size2D) -> (f: TermFrame)
        requires
            size.width * size.height <= usize::MAX,
        ensures
            f.wf(),
            f.dims() == size,
            f.cells() == Seq::new((size.width * size.height) as nat, |i: int| blank_cell()),
    {
        let data = vec![TermChar::default(); size.width * size.height];
        let f = TermFrame { data, size };
        assert(f.cells() =~= Seq::new((size.width * size.height) as nat, |i: int| blank_cell()));
        f
    }

    pub fn data(&self) -> (d: &[TermChar])
        ensures
            d@ == self.cells(),
    {
        self.data.as_slice()
    }

    pub fn size(&self) -> (s: &Size2D)
        ensures
            *s == self.dims(),
    {
        &self.size
    }

    /// Changes the size. The cells stay in their order in storage: the
    /// storage is cut to the new number of cells, or extended with blank
    /// cells.
    pub fn resize(&mut self, size: &Size2D)
        requires
            size.width * size.height <= usize::MAX,
        ensures
            final(self).wf(),
            final(self).dims() == *size,
            final(self).cells() == resized(
                old(self).cells(),
                size.width * size.height,
                blank_cell(),
            ),
    {
        let n = size.width * size.height;
        self.data.resize(n, TermChar::default());
        self.size = *size;
        assert(self.cells() =~= resized(old(self).cells(), n as int, blank_cell()));
    }

    /// Sets every cell to `value`.
    pub fn fill(&mut self, value: TermChar)
        ensures
            final(self).dims() == old(self).dims(),
            final(self).cells() == Seq::new(old(self).cells().len(), |i: int| value),
    {
        fill_all(&mut self.data, value);
    }

    /// Sets the cells of the rectangle, clipped to the frame, to `value`.
    pub fn fill_rect(&mut self, rect: &Rect, value: &TermChar)
        requires
            old(self).wf(),
        ensures
            final(self).wf(),
            final(self).dims() == old(self).dims(),
            forall|x: int, y: int|
                0 <= x < old(self).dims().width && 0 <= y < old(self).dims().height
                    ==> #[trigger] final(self).cell(x, y) == if in_rect(*rect, old(self).dims(), x, y) {
                    *value
                } else {
                    old(self).cell(x, y)
                },
    {
        let size = self.size;
        fill_rect_cells(&mut self.data, &size, rect, *value);
    }

    /// Row `index` of the frame.
    pub fn get_row(&self, index: usize) -> (r: &[TermChar])
        requires
            self.wf(),
            self.dims().width * index + self.dims().width <= self.cells().len(),
        ensures
            r@ == self.cells().subrange(
                self.dims().width * index,
                self.dims().width * index + self.dims().width,
            ),
    {
        let _len = self.data.len();
        let start = self.size.width * index;
        vstd::slice::slice_subrange(self.data.as_slice(), start, start + self.size.width)
    }

    /// Row `index` of the frame for change in place.
    pub fn get_row_mut(&mut self, index: usize) -> (r: &mut [TermChar])
        requires
            old(self).wf(),
            old(self).dims().width * index + old(self).dims().width <= old(self).cells().len(),
        ensures
            r@ == old(self).cells().subrange(
                old(self).dims().width * index,
                old(self).dims().width * index + old(self).dims().width,
            ),
            final(self).dims() == old(self).dims(),
            final(self).cells() == old(self).cells().subrange(0, old(self).dims().width * index)
                + final(r)@ + old(self).cells().subrange(
                old(self).dims().width * index + old(self).dims().width,
                old(self).cells().len() as int,
            ),
            final(self).wf(),
    {
        let _len = self.data.len();
        let start = self.size.width * index;
        let end = start + self.size.width;
        vec_range_mut(&mut self.data, start, end)
    }
}

/// The cell that a drawing at column `column` leaves at `(x, y)` of its
/// region.
pub open spec fn region_cell(
    mode: DrawMode,
    img: Seq<Rgb>,
    w: int,
    row: int,
    column: int,
    cols: int,
    x: int,
    y: int,
) -> TermChar {
    draw_cell(
        mode,
        img,
        w,
        y,
        x - column,
        draw_state(mode, img, w, row, cols, cols * (y - row) + (x - column)),
    )
}

fn half_block_cell_exec(c1: Rgb, c2: Rgb, st: DrawState) -> (t: TermChar)
    ensures
        t == half_block_cell(c1, c2, st),
{
    if c1 == c2 {
        let bg = match st.1 {
            Some(b) => b,
            None => c1,
        };
        TermChar { c: FULL_BLOCK, fg: c1, bg }
    } else if st.0 == Some(c1) || st.1 == Some(c2) {
        TermChar { c: UPPER_HALF_BLOCK, fg: c1, bg: c2 }
    } else {
        TermChar { c: LOWER_HALF_BLOCK, fg: c2, bg: c1 }
    }
}

proof fn lemma_sextant_mask_bound(colors: Seq<Rgb>, palette: Seq<Rgb>, fg: Rgb, n: int)
    requires
        0 <= n <= 6,
    ensures
        sextant_mask(colors, palette, fg, n) < 64,
    decreases n,
{
    if n > 0 {
        lemma_sextant_mask_bound(colors, palette, fg, n - 1);
        let b = sextant_mask(colors, palette, fg, n - 1);
        let k = (n - 1) as u32;
        assert(b | (1u32 << k) < 64 && b | 0u32 < 64) by (bit_vector)
            requires
                b < 64,
                k < 6,
        ;
    }
}

/// The sextant cell of six pixels.
fn sextant_cell_exec(colors: &Vec<Rgb>, st: DrawState) -> (t: TermChar)
    requires
        colors@.len() == 6,
    ensures
        t == sextant_cell(colors@, st),
{
    let palette = bin_means(colors.as_slice());
    let c1 = palette[0];
    let c2 = palette[1];
    if c1 == c2 {
        let bg = match st.1 {
            Some(b) => b,
            None => c1,
        };
        return TermChar { c: FULL_BLOCK, fg: c1, bg };
    }
    let mut bits: u32 = 0;
    let mut bit: usize = 0;
    while bit < 6
        invariant
            colors@.len() == 6,
            palette@ == two_means(colors@),
            c1 == palette@[0],
            bit <= 6,
            bits == sextant_mask(colors@, palette@, c1, bit as int),
        decreases 6 - bit,
    {
        if get_clostest_color(colors[bit], palette.as_slice()) == c1 {
            bits = bits | (1u32 << (bit as u32));
        } else {
            assert(bits | 0u32 == bits) by (bit_vector);
        }
        bit = bit + 1;
    }
    proof {
        lemma_sextant_mask_bound(colors@, palette@, c1, 6);
    }
    TermChar { c: get_two_by_three_from_bits(bits), fg: c1, bg: c2 }
}

/// The braille cell of eight pixels.
fn braille_cell_exec(colors: &Vec<Rgb>, st: DrawState) -> (t: TermChar)
    requires
        colors@.len() == 8,
    ensures
        t == braille_cell(colors@, st),
{
    let palette = bin_means(colors.as_slice());
    let mut color1 = palette[0];
    let mut color2 = palette[1];
    if color1 == color2 {
        let bg = match st.1 {
            Some(b) => b,
            None => color1,
        };
        return TermChar { c: FULL_BLOCK, fg: color1, bg };
    }
    match st.1 {
        Some(curr_bg) => {
            if distance2(color1, curr_bg) < distance2(color2, curr_bg) {
                let t = color1;
                color1 = color2;
                color2 = t;
            }
        },
        None => {
            let t = color1;
            color1 = color2;
            color2 = t;
        },
    }
    assert((color1, color2) == braille_colors(palette@[0], palette@[1], st));
    let mut bits: u32 = 0;
    let mut y: u32 = 0;
    while y < 4
        invariant
            colors@.len() == 8,
            palette@ == two_means(colors@),
            y <= 4,
            bits == braille_mask_bits(colors@, palette@, color1, (y * 2) as int),
        decreases 4 - y,
    {
        let mut x: u32 = 0;
        while x < 2
            invariant
                colors@.len() == 8,
                palette@ == two_means(colors@),
                y < 4,
                x <= 2,
                bits == braille_mask_bits(colors@, palette@, color1, (y * 2 + x) as int),
            decreases 2 - x,
        {
            let color = colors[(y * 2 + x) as usize];
            if get_clostest_color(color, palette.as_slice()) == color1 {
                bits = set_pixel_in_braille(bits, x, y);
            } else {
                assert(bits | 0u32 == bits) by (bit_vector);
            }
            x = x + 1;
        }
        y = y + 1;
    }
    TermChar { c: get_braille_from_bits(bits), fg: color1, bg: color2 }
}

/// The `2 * n` pixels of columns `x` and `x + 1` in rows `y..y + n`.
fn gather_block(image: &RgbImage, x: usize, y: usize, n: usize) -> (v: Vec<Rgb>)
    requires
        image.wf(),
        x + 2 <= image.dims().width,
        y + n <= image.dims().height,
    ensures
        v@ == block_colors(image.pixels(), image.dims().width as int, x as int, y as int, n as int),
{
    let mut v: Vec<Rgb> = Vec::new();
    let mut dy: usize = 0;
    while dy < n
        invariant
            image.wf(),
            x + 2 <= image.dims().width,
            y + n <= image.dims().height,
            dy <= n,
            v@ == block_colors(
                image.pixels(),
                image.dims().width as int,
                x as int,
                y as int,
                dy as int,
            ),
        decreases n - dy,
    {
        let a = image.get_pixel(x, y + dy);
        let b = image.get_pixel(x + 1, y + dy);
        v.push(a);
        v.push(b);
        assert(v@ =~= block_colors(
            image.pixels(),
            image.dims().width as int,
            x as int,
            y as int,
            dy + 1,
        ));
        dy = dy + 1;
    }
    v
}

impl TermFrame {
    /// The cell that a mode draws for cell `i` of frame row `tr`.
    fn compute_cell(mode: DrawMode, image: &RgbImage, tr: usize, i: usize, st: DrawState) -> (t:
        TermChar)
        requires
            image.wf(),
            mode_cols(mode) * (i + 1) <= image.dims().width,
            mode_rows(mode) * (tr + 1) <= image.dims().height,
        ensures
            t == draw_cell(mode, image.pixels(), image.dims().width as int, tr as int, i as int, st),
    {
        match mode {
            DrawMode::HalfBlock => {
                let c1 = image.get_pixel(i, 2 * tr);
                let c2 = image.get_pixel(i, 2 * tr + 1);
                half_block_cell_exec(c1, c2, st)
            },
            DrawMode::TwoByThree => {
                let colors = gather_block(image, 2 * i, 3 * tr, 3);
                sextant_cell_exec(&colors, st)
            },
            DrawMode::Braille => {
                let colors = gather_block(image, 2 * i, 4 * tr, 4);
                braille_cell_exec(&colors, st)
            },
        }
    }

    /// Draws `cols` by `rows` cells from `(column, row)` on, the cells in
    /// order row by row, each from the state that the previous one left.
    fn draw_region(
        &mut self,
        column: usize,
        row: usize,
        image: &RgbImage,
        mode: DrawMode,
        cols: usize,
        rows: usize,
    )
        requires
            old(self).wf(),
            image.wf(),
            column + cols <= old(self).dims().width,
            row + rows <= old(self).dims().height,
            cols == 0 || rows == 0 || (mode_rows(mode) * (row + rows) <= image.dims().height
                && mode_cols(mode) * cols <= image.dims().width),
        ensures
            final(self).wf(),
            final(self).dims() == old(self).dims(),
            forall|x: int, y: int|
                0 <= x < old(self).dims().width && 0 <= y < old(self).dims().height
                    ==> #[trigger] final(self).cell(x, y) == if column <= x < column + cols && row
                    <= y < row + rows {
                    region_cell(
                        mode,
                        image.pixels(),
                        image.dims().width as int,
                        row as int,
                        column as int,
                        cols as int,
                        x,
                        y,
                    )
                } else {
                    old(self).cell(x, y)
                },
    {
        let width = self.size.width;
        let ghost w = width as int;
        let ghost h = self.size.height as int;
        let ghost img = image.pixels();
        let ghost iw = image.dims().width as int;
        if cols == 0 || rows == 0 {
            assert forall|x: int, y: int|
                0 <= x < w && 0 <= y < h implies #[trigger] self.cell(x, y) == old(self).cell(
                x,
                y,
            ) by {}
            return;
        }
        let mut st: DrawState = (None, None);
        let mut tr = row;
        while tr < row + rows
            invariant
                self.wf(),
                image.wf(),
                self.dims() == old(self).dims(),
                width == self.dims().width,
                w == width as int,
                h == self.dims().height as int,
                img == image.pixels(),
                iw == image.dims().width as int,
                cols > 0,
                rows > 0,
                column + cols <= w,
                row + rows <= h,
                mode_rows(mode) * (row + rows) <= image.dims().height,
                mode_cols(mode) * cols <= image.dims().width,
                row <= tr <= row + rows,
                st == draw_state(mode, img, iw, row as int, cols as int, cols * (tr - row)),
                forall|j: int|
                    0 <= j < self.cells().len() ==> #[trigger] self.cells()[j] == if column <= j % w
                        < column + cols && row <= j / w < tr {
                        region_cell(mode, img, iw, row as int, column as int, cols as int, j % w, j / w)
                    } else {
                        old(self).cells()[j]
                    },
            decreases row + rows - tr,
        {
            let mut i: usize = 0;
            while i < cols
                invariant
                    self.wf(),
                    image.wf(),
                    self.dims() == old(self).dims(),
                    width == self.dims().width,
                    w == width as int,
                    h == self.dims().height as int,
                    img == image.pixels(),
                    iw == image.dims().width as int,
                    cols > 0,
                    column + cols <= w,
                    row + rows <= h,
                    mode_rows(mode) * (row + rows) <= image.dims().height,
                    mode_cols(mode) * cols <= image.dims().width,
                    row <= tr < row + rows,
                    i <= cols,
                    st == draw_state(mode, img, iw, row as int, cols as int, cols * (tr - row) + i),
                    forall|j: int|
                        0 <= j < self.cells().len() ==> #[trigger] self.cells()[j] == if column <= j
                            % w < column + cols && row <= j / w && (j / w < tr || (j / w == tr && j
                            % w < column + i)) {
                            region_cell(
                                mode,
                                img,
                                iw,
                                row as int,
                                column as int,
                                cols as int,
                                j % w,
                                j / w,
                            )
                        } else {
                            old(self).cells()[j]
                        },
                decreases cols - i,
            {
                proof {
                    assert(mode_cols(mode) * (i + 1) <= mode_cols(mode) * cols) by (nonlinear_arith)
                        requires
                            i + 1 <= cols,
                            mode_cols(mode) >= 1,
                    ;
                    assert(mode_rows(mode) * (tr + 1) <= mode_rows(mode) * (row + rows))
                        by (nonlinear_arith)
                        requires
                            tr + 1 <= row + rows,
                            mode_rows(mode) >= 1,
                    ;
                    lemma_index_parts(cols as int, i as int, tr - row);
                    lemma_cell_index(w, h, column + i, tr as int);
                    lemma_index_parts(w, column + i, tr as int);
                }
                let cell = Self::compute_cell(mode, image, tr, i, st);
                let _n = self.data.len();
                let p = width * tr + column + i;
                let ghost k = cols * (tr - row) + i;
                self.data.set(p, cell);
                assert(cell == region_cell(
                    mode,
                    img,
                    iw,
                    row as int,
                    column as int,
                    cols as int,
                    (column + i) as int,
                    tr as int,
                ));
                st = (Some(cell.fg), Some(cell.bg));
                assert(st == draw_state(mode, img, iw, row as int, cols as int, k + 1));
                assert forall|j: int| 0 <= j < self.cells().len() implies #[trigger] self.cells()[j]
                    == if column <= j % w < column + cols && row <= j / w && (j / w < tr || (j / w
                    == tr && j % w < column + i + 1)) {
                    region_cell(mode, img, iw, row as int, column as int, cols as int, j % w, j / w)
                } else {
                    old(self).cells()[j]
                } by {
                    lemma_index_split(w, j);
                    if j / w == tr && j % w == column + i {
                        assert(j == p);
                    }
                }
                i = i + 1;
            }
            proof {
                lemma_row_start(cols as int, tr - row);
            }
            tr = tr + 1;
        }
        assert forall|x: int, y: int|
            0 <= x < w && 0 <= y < h implies #[trigger] self.cell(x, y) == if column <= x < column
            + cols && row <= y < row + rows {
            region_cell(mode, img, iw, row as int, column as int, cols as int, x, y)
        } else {
            old(self).cell(x, y)
        } by {
            lemma_cell_index(w, h, x, y);
            lemma_index_parts(w, x, y);
        }
    }
}

impl TermFrame {
    /// Draws an image at `(column, row)` in a mode: the cells that it
    /// covers, clipped to the frame, are drawn row by row, each from the
    /// state that the previous one left.
    fn draw_in_mode(&mut self, column: usize, row: usize, image: &RgbImage, mode: DrawMode)
        requires
            old(self).wf(),
            image.wf(),
            old(self).draw_fits(column as int, row as int, image, mode),
        ensures
            final(self).wf(),
            final(self).dims() == old(self).dims(),
            forall|x: int, y: int|
                0 <= x < old(self).dims().width && 0 <= y < old(self).dims().height
                    ==> #[trigger] final(self).cell(x, y) == old(self).drawn_cell(
                    column as int,
                    row as int,
                    image,
                    mode,
                    x,
                    y,
                ),
    {
        let width = self.size.width;
        let height = self.size.height;
        if column >= width || row >= height {
            return;
        }
        let iw = image.size().width;
        let ih = image.size().height;
        let (cw, ch) = match mode {
            DrawMode::HalfBlock => (iw, ih / 2 + if ih % 2 != 0 { 1usize } else { 0usize }),
            DrawMode::TwoByThree => (
                iw / 2 + if iw % 2 != 0 { 1usize } else { 0usize },
                ih / 3 + if ih % 3 != 0 { 1usize } else { 0usize },
            ),
            DrawMode::Braille => (
                iw / 2 + if iw % 2 != 0 { 1usize } else { 0usize },
                ih / 4 + if ih % 4 != 0 { 1usize } else { 0usize },
            ),
        };
        let cols = if cw > width - column { width - column } else { cw };
        let rows = if ch > height - row { height - row } else { ch };
        assert(cols == old(self).draw_extent(column as int, row as int, image, mode).0);
        assert(rows == old(self).draw_extent(column as int, row as int, image, mode).1);
        self.draw_region(column, row, image, mode, cols, rows);
    }

    /// Draws an image at `(column, row)` in the given mode.
    pub fn draw(&mut self, column: usize, row: usize, image: &RgbImage, draw_mode: DrawMode)
        requires
            old(self).wf(),
            image.wf(),
            old(self).draw_fits(column as int, row as int, image, draw_mode),
        ensures
            final(self).wf(),
            final(self).dims() == old(self).dims(),
            forall|x: int, y: int|
                0 <= x < old(self).dims().width && 0 <= y < old(self).dims().height
                    ==> #[trigger] final(self).cell(x, y) == old(self).drawn_cell(
                    column as int,
                    row as int,
                    image,
                    draw_mode,
                    x,
                    y,
                ),
    {
        match draw_mode {
            DrawMode::HalfBlock => self.draw_half_block(column, row, image),
            DrawMode::TwoByThree => self.draw_two_by_three(column, row, image),
            DrawMode::Braille => self.draw_braille(column, row, image),
        }
    }

    /// Draws an image at `(column, row)` with one pixel column and two
    /// pixel rows per cell.
    pub fn draw_half_block(&mut self, column: usize, row: usize, image: &RgbImage)
        requires
            old(self).wf(),
            image.wf(),
            old(self).draw_fits(column as int, row as int, image, DrawMode::HalfBlock),
        ensures
            final(self).wf(),
            final(self).dims() == old(self).dims(),
            forall|x: int, y: int|
                0 <= x < old(self).dims().width && 0 <= y < old(self).dims().height
                    ==> #[trigger] final(self).cell(x, y) == old(self).drawn_cell(
                    column as int,
                    row as int,
                    image,
                    DrawMode::HalfBlock,
                    x,
                    y,
                ),
    {
        self.draw_in_mode(column, row, image, DrawMode::HalfBlock)
    }

    /// Draws an image at `(column, row)` with two by three pixels per cell.
    pub fn draw_two_by_three(&mut self, column: usize, row: usize, image: &RgbImage)
        requires
            old(self).wf(),
            image.wf(),
            old(self).draw_fits(column as int, row as int, image, DrawMode::TwoByThree),
        ensures
            final(self).wf(),
            final(self).dims() == old(self).dims(),
            forall|x: int, y: int|
                0 <= x < old(self).dims().width && 0 <= y < old(self).dims().height
                    ==> #[trigger] final(self).cell(x, y) == old(self).drawn_cell(
                    column as int,
                    row as int,
                    image,
                    DrawMode::TwoByThree,
                    x,
                    y,
                ),
    {
        self.draw_in_mode(column, row, image, DrawMode::TwoByThree)
    }

    /// Draws an image at `(column, row)` with two by four pixels per cell.
    pub fn draw_braille(&mut self, column: usize, row: usize, image: &RgbImage)
        requires
            old(self).wf(),
            image.wf(),
            old(self).draw_fits(column as int, row as int, image, DrawMode::Braille),
        ensures
            final(self).wf(),
            final(self).dims() == old(self).dims(),
            forall|x: int, y: int|
                0 <= x < old(self).dims().width && 0 <= y < old(self).dims().height
                    ==> #[trigger] final(self).cell(x, y) == old(self).drawn_cell(
                    column as int,
                    row as int,
                    image,
                    DrawMode::Braille,
                    x,
                    y,
                ),
    {
        self.draw_in_mode(column, row, image, DrawMode::Braille)
    }
}

/// A line feed.
pub const NEWLINE: [u8; 1] = [10];

/// What a full redraw writes for cell `k`: a line feed before each row but
/// the first, the colors where they differ from those of the cell before
/// (of the first cell, for the first), and the character.
pub open spec fn full_cell_bytes(cells: Seq<TermChar>, w: int, k: int, inverted: bool) -> Seq<
    u8,
> {
    let prev = if k == 0 {
        cells[0]
    } else {
        cells[k - 1]
    };
    let t = cells[k];
    (if k > 0 && k % w == 0 {
        NEWLINE@
    } else {
        Seq::empty()
    }) + (if t.fg != prev.fg {
        fg_rgb_out(t.fg, inverted)
    } else {
        Seq::empty()
    }) + (if t.bg != prev.bg {
        bg_rgb_out(t.bg, inverted)
    } else {
        Seq::empty()
    }) + encode_scalar(t.c as u32)
}

/// What a full redraw writes for the first `n` cells.
pub open spec fn full_cells_bytes(cells: Seq<TermChar>, w: int, n: int, inverted: bool) -> Seq<
    u8,
>
    decreases n,
{
    if n <= 0 {
        Seq::empty()
    } else {
        full_cells_bytes(cells, w, n - 1, inverted) + full_cell_bytes(cells, w, n - 1, inverted)
    }
}

/// What a full redraw of a `w` wide frame writes: the cursor to the top
/// left, then, where there are cells, the colors of the first cell and
/// every cell in turn.
pub open spec fn full_redraw_bytes(cells: Seq<TermChar>, w: int, inverted: bool) -> Seq<u8> {
    cursor_bytes(1, 1) + if cells.len() == 0 {
        Seq::empty()
    } else {
        fg_rgb_out(cells[0].fg, inverted) + bg_rgb_out(cells[0].bg, inverted) + full_cells_bytes(
            cells,
            w,
            cells.len() as int,
            inverted,
        )
    }
}

/// The state of a differential redraw after the first `k` cells: the
/// colors and the position `(column, row)` of the last cell that changed,
/// or no colors and `(0, 0)` where none did.
pub open spec fn diff_state(cur: Seq<TermChar>, prev: Seq<TermChar>, w: int, k: int) -> (
    Option<Rgb>,
    Option<Rgb>,
    int,
    int,
)
    decreases k,
{
    if k <= 0 {
        (None, None, 0, 0)
    } else if cur[k - 1] != prev[k - 1] {
        (Some(cur[k - 1].fg), Some(cur[k - 1].bg), (k - 1) % w, (k - 1) / w)
    } else {
        diff_state(cur, prev, w, k - 1)
    }
}

/// How a differential redraw moves the cursor to `(x, y)` after writing
/// at `(px, py)`: a line feed for the start of the next row, a relative
/// move within a row other than the first, else an absolute move.
pub open spec fn diff_move_bytes(x: int, y: int, px: int, py: int) -> Seq<u8> {
    if x == 0 && py + 1 == y {
        NEWLINE@
    } else if py == y && y != 0 {
        if px + 1 == x {
            Seq::empty()
        } else if px + 1 < x {
            csi_num((x - (px + 1)) as nat, 67)
        } else {
            csi_num((px + 1 - x) as nat, 68)
        }
    } else {
        cursor_bytes((y + 1) as nat, (x + 1) as nat)
    }
}

/// What a differential redraw writes for cell `k`: nothing where it is
/// unchanged, else the cursor move, the colors that differ from the last
/// ones written, and the character.
pub open spec fn diff_cell_bytes(
    cur: Seq<TermChar>,
    prev: Seq<TermChar>,
    w: int,
    k: int,
    inverted: bool,
) -> Seq<u8> {
    if cur[k] == prev[k] {
        Seq::empty()
    } else {
        let s = diff_state(cur, prev, w, k);
        let t = cur[k];
        diff_move_bytes(k % w, k / w, s.2, s.3) + (if s.0 != Some(t.fg) {
            fg_rgb_out(t.fg, inverted)
        } else {
            Seq::empty()
        }) + (if s.1 != Some(t.bg) {
            bg_rgb_out(t.bg, inverted)
        } else {
            Seq::empty()
        }) + encode_scalar(t.c as u32)
    }
}

/// What a differential redraw writes for the first `n` cells.
pub open spec fn diff_cells_bytes(
    cur: Seq<TermChar>,
    prev: Seq<TermChar>,
    w: int,
    n: int,
    inverted: bool,
) -> Seq<u8>
    decreases n,
{
    if n <= 0 {
        Seq::empty()
    } else {
        diff_cells_bytes(cur, prev, w, n - 1, inverted) + diff_cell_bytes(
            cur,
            prev,
            w,
            n - 1,
            inverted,
        )
    }
}

impl TermFrame {
    /// What redrawing this frame over `prev` writes: a full redraw where
    /// the sizes differ, else the changed cells.
    pub open spec fn diff_redraw_bytes(&self, prev: &TermFrame, inverted: bool) -> Seq<u8> {
        if self.dims() != prev.dims() {
            full_redraw_bytes(self.cells(), self.dims().width as int, inverted)
        } else {
            diff_cells_bytes(
                self.cells(),
                prev.cells(),
                self.dims().width as int,
                self.cells().len() as int,
                inverted,
            )
        }
    }

    /// Writes the whole frame, from the top left corner.
    pub fn full_redraw(&self, termio: &mut TermIO)
        requires
            self.wf(),
        ensures
            final(termio)@ == old(termio)@.wrote(
                full_redraw_bytes(self.cells(), self.dims().width as int, old(termio)@.inverted),
            ),
    {
        let ghost v0 = termio@;
        let ghost inv = v0.inverted;
        let ghost cells = self.cells();
        let ghost w = self.dims().width as int;
        termio.move_cursor(0, 0);
        let n = self.data.len();
        if n == 0 {
            return;
        }
        let width = self.size.width;
        let mut curr_fg = self.data[0].fg;
        let mut curr_bg = self.data[0].bg;
        termio.fg_rgb(curr_fg);
        termio.bg_rgb(curr_bg);
        let ghost head = cursor_bytes(1, 1) + fg_rgb_out(cells[0].fg, inv) + bg_rgb_out(
            cells[0].bg,
            inv,
        );
        proof {
            v0.lemma_wrote(cursor_bytes(1, 1), fg_rgb_out(cells[0].fg, inv));
            v0.lemma_wrote(
                cursor_bytes(1, 1) + fg_rgb_out(cells[0].fg, inv),
                bg_rgb_out(cells[0].bg, inv),
            );
            assert(head + full_cells_bytes(cells, w, 0, inv) =~= head);
            if width == 0 {
                assert(self.cells().len() == 0 * self.dims().height);
            }
        }
        let mut k: usize = 0;
        let mut col: usize = 0;
        while k < n
            invariant
                n == cells.len(),
                n > 0,
                width > 0,
                w == width as int,
                cells == self.cells(),
                inv == v0.inverted,
                k <= n,
                col < width,
                col as int == k as int % w,
                curr_fg == (if k == 0 {
                    cells[0]
                } else {
                    cells[k - 1]
                }).fg,
                curr_bg == (if k == 0 {
                    cells[0]
                } else {
                    cells[k - 1]
                }).bg,
                termio@ == v0.wrote(head + full_cells_bytes(cells, w, k as int, inv)),
            decreases n - k,
        {
            let t = self.data[k];
            let ghost p = head + full_cells_bytes(cells, w, k as int, inv);
            write_full_cell(termio, t, k > 0 && col == 0, curr_fg, curr_bg);
            proof {
                v0.lemma_wrote(p, full_cell_bytes(cells, w, k as int, inv));
                assert(p + full_cell_bytes(cells, w, k as int, inv) =~= head + full_cells_bytes(
                    cells,
                    w,
                    k + 1,
                    inv,
                ));
                lemma_next_column(w, k as int);
            }
            curr_fg = t.fg;
            curr_bg = t.bg;
            k = k + 1;
            col = col + 1;
            if col == width {
                col = 0;
            }
        }
        assert(head + full_cells_bytes(cells, w, n as int, inv) =~= full_redraw_bytes(cells, w, inv));
    }
}

/// The column after column `k % w` is `(k + 1) % w`, wrapping to 0 at
/// the end of a row.
proof fn lemma_next_column(w: int, k: int)
    requires
        w > 0,
        k >= 0,
    ensures
        (k + 1) % w == if k % w + 1 == w {
            0
        } else {
            k % w + 1
        },
        (k + 1) / w == if k % w + 1 == w {
            k / w + 1
        } else {
            k / w
        },
{
    lemma_index_split(w, k);
    let q = k / w;
    if k % w + 1 == w {
        lemma_index_parts(w, 0, q + 1);
        assert(w * (q + 1) == w * q + w) by (nonlinear_arith);
    } else {
        lemma_index_parts(w, k % w + 1, q);
    }
}

/// Writes one cell of a full redraw: a line feed where `newline`, the
/// colors of `t` that differ from the current ones, and the character.
fn write_full_cell(termio: &mut TermIO, t: TermChar, newline: bool, curr_fg: Rgb, curr_bg: Rgb)
    ensures
        final(termio)@ == old(termio)@.wrote(
            (if newline {
                NEWLINE@
            } else {
                Seq::empty()
            }) + (if t.fg != curr_fg {
                fg_rgb_out(t.fg, old(termio)@.inverted)
            } else {
                Seq::empty()
            }) + (if t.bg != curr_bg {
                bg_rgb_out(t.bg, old(termio)@.inverted)
            } else {
                Seq::empty()
            }) + encode_scalar(t.c as u32),
        ),
{
    let ghost v0 = termio@;
    let ghost inv = v0.inverted;
    let ghost nl = if newline {
        NEWLINE@
    } else {
        Seq::<u8>::empty()
    };
    let ghost fgb = if t.fg != curr_fg {
        fg_rgb_out(t.fg, inv)
    } else {
        Seq::<u8>::empty()
    };
    let ghost bgb = if t.bg != curr_bg {
        bg_rgb_out(t.bg, inv)
    } else {
        Seq::<u8>::empty()
    };
    if newline {
        termio.write(&NEWLINE);
    }
    proof {
        v0.lemma_wrote(nl, Seq::empty());
        assert(nl + Seq::<u8>::empty() =~= nl);
    }
    let ghost a = termio@;
    if t.fg != curr_fg {
        termio.fg_rgb(t.fg);
    }
    proof {
        a.lemma_wrote(fgb, Seq::empty());
        assert(fgb + Seq::<u8>::empty() =~= fgb);
    }
    let ghost b = termio@;
    if t.bg != curr_bg {
        termio.bg_rgb(t.bg);
    }
    proof {
        b.lemma_wrote(bgb, Seq::empty());
        assert(bgb + Seq::<u8>::empty() =~= bgb);
    }
    let ghost c = termio@;
    termio.write_char(t.c);
    proof {
        v0.lemma_wrote(nl, fgb);
        v0.lemma_wrote(nl + fgb, bgb);
        v0.lemma_wrote(nl + fgb + bgb, encode_scalar(t.c as u32));
    }
}

impl TermFrame {
    /// Writes what changed from `prev_frame` to this frame: every changed
    /// cell, with the cursor moves and color changes it needs. Where the
    /// sizes differ, the whole frame is written.
    pub fn diff_redraw(&self, prev_frame: &TermFrame, termio: &mut TermIO)
        requires
            self.wf(),
            prev_frame.wf(),
            self.dims().width <= u32::MAX,
            self.dims().height <= u32::MAX,
        ensures
            final(termio)@ == old(termio)@.wrote(
                self.diff_redraw_bytes(prev_frame, old(termio)@.inverted),
            ),
    {
        if self.size != prev_frame.size {
            self.full_redraw(termio);
            return;
        }
        let ghost v0 = termio@;
        let ghost inv = v0.inverted;
        let ghost cells = self.cells();
        let ghost pcells = prev_frame.cells();
        let ghost w = self.dims().width as int;
        let ghost h = self.dims().height as int;
        let n = self.data.len();
        let _pn = prev_frame.data.len();
        proof {
            v0.lemma_wrote(Seq::empty(), Seq::empty());
            assert(diff_cells_bytes(cells, pcells, w, 0, inv) =~= Seq::<u8>::empty());
        }
        if n == 0 {
            return;
        }
        let width = self.size.width;
        let ghost height = self.size.height;
        proof {
            if width == 0 {
                assert(self.cells().len() == 0 * self.dims().height);
            }
            lemma_index_parts(w, 0, 0);
        }
        let mut curr_fg: Option<Rgb> = None;
        let mut curr_bg: Option<Rgb> = None;
        let mut prev_x: u32 = 0;
        let mut prev_y: u32 = 0;
        let mut k: usize = 0;
        let mut x: usize = 0;
        let mut y: usize = 0;
        while k < n
            invariant
                n == cells.len(),
                n == pcells.len(),
                n == w * h,
                width > 0,
                w == width as int,
                h == height as int,
                w <= u32::MAX,
                h <= u32::MAX,
                cells == self.cells(),
                pcells == prev_frame.cells(),
                inv == v0.inverted,
                k <= n,
                x < width,
                x as int == k as int % w,
                y as int == k as int / w,
                prev_x < width,
                prev_y < height,
                (curr_fg, curr_bg, prev_x as int, prev_y as int) == diff_state(
                    cells,
                    pcells,
                    w,
                    k as int,
                ),
                termio@ == v0.wrote(diff_cells_bytes(cells, pcells, w, k as int, inv)),
            decreases n - k,
        {
            proof {
                lemma_index_split(w, k as int);
                lemma_row_bound(w, h, k as int);
            }
            let c = self.data[k];
            let pc = prev_frame.data[k];
            let ghost p = diff_cells_bytes(cells, pcells, w, k as int, inv);
            if c != pc {
                write_diff_cell(termio, c, x as u32, y as u32, prev_x, prev_y, curr_fg, curr_bg);
                prev_x = x as u32;
                prev_y = y as u32;
                curr_fg = Some(c.fg);
                curr_bg = Some(c.bg);
            }
            proof {
                v0.lemma_wrote(p, diff_cell_bytes(cells, pcells, w, k as int, inv));
                assert(p + diff_cell_bytes(cells, pcells, w, k as int, inv) =~= diff_cells_bytes(
                    cells,
                    pcells,
                    w,
                    k + 1,
                    inv,
                ));
                if c == pc {
                    assert(p + Seq::<u8>::empty() =~= p);
                }
                lemma_next_column(w, k as int);
            }
            k = k + 1;
            x = x + 1;
            if x == width {
                x = 0;
                y = y + 1;
            }
        }
    }
}

/// Writes one changed cell of a differential redraw at `(x, y)`, the last
/// one having been written at `(px, py)` with colors `curr_fg` and
/// `curr_bg`.
fn write_diff_cell(
    termio: &mut TermIO,
    t: TermChar,
    x: u32,
    y: u32,
    px: u32,
    py: u32,
    curr_fg: Option<Rgb>,
    curr_bg: Option<Rgb>,
)
    requires
        x < u32::MAX,
        y < u32::MAX,
        px < u32::MAX,
        py < u32::MAX,
    ensures
        final(termio)@ == old(termio)@.wrote(
            diff_move_bytes(x as int, y as int, px as int, py as int) + (if curr_fg != Some(t.fg) {
                fg_rgb_out(t.fg, old(termio)@.inverted)
            } else {
                Seq::empty()
            }) + (if curr_bg != Some(t.bg) {
                bg_rgb_out(t.bg, old(termio)@.inverted)
            } else {
                Seq::empty()
            }) + encode_scalar(t.c as u32),
        ),
{
    let ghost v0 = termio@;
    let ghost inv = v0.inverted;
    let ghost mv = diff_move_bytes(x as int, y as int, px as int, py as int);
    let ghost fgb = if curr_fg != Some(t.fg) {
        fg_rgb_out(t.fg, inv)
    } else {
        Seq::<u8>::empty()
    };
    let ghost bgb = if curr_bg != Some(t.bg) {
        bg_rgb_out(t.bg, inv)
    } else {
        Seq::<u8>::empty()
    };
    if x == 0 && py + 1 == y {
        termio.write(&NEWLINE);
    } else if py == y && y != 0 {
        let cx = px + 1;
        if cx == x {
        } else if cx < x {
            termio.move_cursor_forward(x - cx);
        } else {
            termio.move_cursor_back(cx - x);
        }
    } else {
        termio.move_cursor(y, x);
    }
    proof {
        v0.lemma_wrote(mv, Seq::empty());
        assert(mv + Seq::<u8>::empty() =~= mv);
    }
    let ghost a = termio@;
    let fg_differs = match curr_fg {
        Some(f) => f != t.fg,
        None => true,
    };
    if fg_differs {
        termio.fg_rgb(t.fg);
    }
    proof {
        a.lemma_wrote(fgb, Seq::empty());
        assert(fgb + Seq::<u8>::empty() =~= fgb);
    }
    let ghost b = termio@;
    let bg_differs = match curr_bg {
        Some(f) => f != t.bg,
        None => true,
    };
    if bg_differs {
        termio.bg_rgb(t.bg);
    }
    proof {
        b.lemma_wrote(bgb, Seq::empty());
        assert(bgb + Seq::<u8>::empty() =~= bgb);
    }
    termio.write_char(t.c);
    proof {
        v0.lemma_wrote(mv, fgb);
        v0.lemma_wrote(mv + fgb, bgb);
        v0.lemma_wrote(mv + fgb + bgb, encode_scalar(t.c as u32));
    }
}

proof fn lemma_diff_unchanged(cells: Seq<TermChar>, w: int, n: int, inverted: bool)
    ensures
        diff_cells_bytes(cells, cells, w, n, inverted) == Seq::<u8>::empty(),
    decreases n,
{
    if n > 0 {
        lemma_diff_unchanged(cells, w, n - 1, inverted);
        assert(Seq::<u8>::empty() + Seq::<u8>::empty() =~= Seq::<u8>::empty());
    }
}

/// Redrawing a frame over itself writes nothing.
pub proof fn diff_redraw_unchanged(frame: &TermFrame, inverted: bool)
    ensures
        frame.diff_redraw_bytes(frame, inverted) == Seq::<u8>::empty(),
{
    lemma_diff_unchanged(
        frame.cells(),
        frame.dims().width as int,
        frame.cells().len() as int,
        inverted,
    );
}

impl TermFrame {
    /// What writing `text` from `(column, row)` on leaves in cell `(x, y)`.
    pub open spec fn text_cell(
        &self,
        column: int,
        row: int,
        fg: Rgb,
        bg: Rgb,
        text: Seq<char>,
        x: int,
        y: int,
    ) -> TermChar {
        if y == row && column <= x < column + text.len() {
            TermChar { c: display_char_spec(text[x - column]), fg, bg }
        } else {
            self.cell(x, y)
        }
    }

    /// Writes `text` from `(column, row)` on, one character per cell in
    /// the given colors, control characters as their visible symbols;
    /// what lies past the frame's edge is left out.
    pub fn draw_text(&mut self, column: usize, row: usize, fg: Rgb, bg: Rgb, text: &str)
        requires
            old(self).wf(),
        ensures
            final(self).wf(),
            final(self).dims() == old(self).dims(),
            forall|x: int, y: int|
                0 <= x < old(self).dims().width && 0 <= y < old(self).dims().height
                    ==> #[trigger] final(self).cell(x, y) == old(self).text_cell(
                    column as int,
                    row as int,
                    fg,
                    bg,
                    text@,
                    x,
                    y,
                ),
    {
        let width = self.size.width;
        let height = self.size.height;
        let ghost w = width as int;
        let ghost h = height as int;
        if row >= height || column >= width {
            return;
        }
        let n = text.unicode_len();
        let _len = self.data.len();
        let mut i: usize = 0;
        while i < n && i < width - column
            invariant
                self.wf(),
                self.dims() == old(self).dims(),
                width == self.dims().width,
                w == width as int,
                h == self.dims().height as int,
                height == self.dims().height,
                row < height,
                column < width,
                n == text@.len(),
                i <= n,
                i <= width - column,
                forall|j: int|
                    0 <= j < self.cells().len() ==> #[trigger] self.cells()[j] == if j / w == row
                        && column <= j % w < column + i {
                        TermChar { c: display_char_spec(text@[j % w - column]), fg, bg }
                    } else {
                        old(self).cells()[j]
                    },
            decreases n - i,
        {
            proof {
                lemma_cell_index(w, h, column + i, row as int);
                lemma_index_parts(w, column + i, row as int);
            }
            let _l = self.data.len();
            let p = width * row + column + i;
            let t = TermChar { c: display_char(text.get_char(i)), fg, bg };
            self.data.set(p, t);
            assert forall|j: int| 0 <= j < self.cells().len() implies #[trigger] self.cells()[j]
                == if j / w == row && column <= j % w < column + i + 1 {
                TermChar { c: display_char_spec(text@[j % w - column]), fg, bg }
            } else {
                old(self).cells()[j]
            } by {
                lemma_index_split(w, j);
                if j / w == row && j % w == column + i {
                    assert(j == p);
                }
            }
            i = i + 1;
        }
        assert forall|x: int, y: int|
            0 <= x < w && 0 <= y < h implies #[trigger] self.cell(x, y) == old(self).text_cell(
            column as int,
            row as int,
            fg,
            bg,
            text@,
            x,
            y,
        ) by {
            lemma_cell_index(w, h, x, y);
            lemma_index_parts(w, x, y);
        }
    }
}

proof fn lemma_closest_of_two(c: Rgb, p: Seq<Rgb>)
    requires
        p.len() == 2,
    ensures
        closest_color(c, p) == p[0] || closest_color(c, p) == p[1],
        dist2(c, closest_color(c, p)) <= dist2(c, p[0]),
        dist2(c, closest_color(c, p)) <= dist2(c, p[1]),
{
    closest_color_is_nearest(c, p);
    assert(p[0] == p[0]);
    assert(p[1] == p[1]);
}

proof fn lemma_sextant_mask_bit(colors: Seq<Rgb>, palette: Seq<Rgb>, fg: Rgb, n: int, k: int)
    requires
        0 <= n <= 6,
        0 <= k < 6,
    ensures
        (sextant_mask(colors, palette, fg, n) & (1u32 << (k as u32))) != 0 <==> (k < n
            && closest_color(colors[k], palette) == fg),
    decreases n,
{
    let kk = k as u32;
    if n == 0 {
        assert(0u32 & (1u32 << kk) == 0) by (bit_vector);
    } else {
        lemma_sextant_mask_bit(colors, palette, fg, n - 1, k);
        let a = sextant_mask(colors, palette, fg, n - 1);
        let i = (n - 1) as u32;
        let one = 1u32 << i;
        assert(((a | one) & (1u32 << kk)) != 0 <==> ((a & (1u32 << kk)) != 0 || i == kk))
            by (bit_vector)
            requires
                i < 32,
                kk < 32,
                one == 1u32 << i,
        ;
        assert(a | 0u32 == a) by (bit_vector);
    }
}

proof fn lemma_braille_mask_bit(colors: Seq<Rgb>, palette: Seq<Rgb>, fg: Rgb, n: int, k: int)
    requires
        0 <= n <= 8,
        0 <= k < 8,
    ensures
        (braille_mask_bits(colors, palette, fg, n) & BRAILLE_MASK@[k]) != 0 <==> (k < n
            && closest_color(colors[k], palette) == fg),
        braille_mask_bits(colors, palette, fg, n) < 256,
    decreases n,
{
    assert(BRAILLE_MASK@ =~= seq![1u32, 8u32, 2u32, 16u32, 4u32, 32u32, 64u32, 128u32]);
    let mk = BRAILLE_MASK@[k];
    if n == 0 {
        assert(0u32 & mk == 0) by (bit_vector);
    } else {
        lemma_braille_mask_bit(colors, palette, fg, n - 1, k);
        let a = braille_mask_bits(colors, palette, fg, n - 1);
        let mi = BRAILLE_MASK@[n - 1];
        assert(((a | mi) & mk) != 0 <==> ((a & mk) != 0 || mi == mk)) by (bit_vector)
            requires
                mk == 1 || mk == 2 || mk == 4 || mk == 8 || mk == 16 || mk == 32 || mk == 64 || mk
                    == 128,
                mi == 1 || mi == 2 || mi == 4 || mi == 8 || mi == 16 || mi == 32 || mi == 64 || mi
                    == 128,
        ;
        assert(a | 0u32 == a) by (bit_vector);
        assert(a | mi < 256) by (bit_vector)
            requires
                a < 256,
                mi < 256,
        ;
    }
}

proof fn lemma_sextant_char_injective(a: int, b: int)
    requires
        0 <= a < 64,
        0 <= b < 64,
        sextant_char(a) == sextant_char(b),
    ensures
        a == b,
{
    assert((sextant_char(a) as u32) == (sextant_char(b) as u32));
}

/// Each pixel of a sextant cell drawn from six pixels (row by row) is shown
/// in the cell color at least as near to it as the cell's other color: the
/// foreground where its bit in the cell's pattern `m` is set, else the
/// background. (A full block shows one color.)
pub proof fn sextant_cell_nearest(colors: Seq<Rgb>, st: DrawState, k: int, m: u32)
    requires
        colors.len() == 6,
        0 <= k < 6,
        m < 64,
        sextant_cell(colors, st).c != FULL_BLOCK,
        sextant_char(m as int) == sextant_cell(colors, st).c,
    ensures
        ({
            let t = sextant_cell(colors, st);
            let on = (m & (1u32 << (k as u32))) != 0;
            dist2(colors[k], if on { t.fg } else { t.bg }) <= dist2(
                colors[k],
                if on { t.bg } else { t.fg },
            )
        }),
{
    let p = two_means(colors);
    lemma_cluster_result(colors, 2);
    lemma_sextant_mask_bound(colors, p, p[0], 6);
    let mask = sextant_mask(colors, p, p[0], 6);
    lemma_sextant_char_injective(m as int, mask as int);
    lemma_sextant_mask_bit(colors, p, p[0], 6, k);
    lemma_closest_of_two(colors[k], p);
}

/// Each pixel `(x, y)` of a braille cell drawn from eight pixels (row by
/// row) is shown in the cell color at least as near to it as the cell's
/// other color: the foreground where its dot is set, else the background.
/// (A full block shows one color.)
pub proof fn braille_cell_nearest(colors: Seq<Rgb>, st: DrawState, x: u32, y: u32)
    requires
        colors.len() == 8,
        x < 2,
        y < 4,
        braille_cell(colors, st).c != FULL_BLOCK,
    ensures
        ({
            let t = braille_cell(colors, st);
            let on = braille_pixel(braille_bits(t.c), x, y);
            let k = (y * 2 + x) as int;
            dist2(colors[k], if on { t.fg } else { t.bg }) <= dist2(
                colors[k],
                if on { t.bg } else { t.fg },
            )
        }),
{
    let p = two_means(colors);
    lemma_cluster_result(colors, 2);
    let k = (y * 2 + x) as int;
    let (fg, bg) = braille_colors(p[0], p[1], st);
    let mask = braille_mask_bits(colors, p, fg, 8);
    lemma_braille_mask_bit(colors, p, fg, 8, k);
    braille_bits_roundtrip(mask);
    let mk = BRAILLE_MASK@[k];
    assert(BRAILLE_MASK@ =~= seq![1u32, 8u32, 2u32, 16u32, 4u32, 32u32, 64u32, 128u32]);
    assert(braille_mask(x, y) == mk);
    assert((mask & 0xFFu32) & mk == mask & mk) by (bit_vector)
        requires
            mk == 1 || mk == 2 || mk == 4 || mk == 8 || mk == 16 || mk == 32 || mk == 64 || mk
                == 128,
    ;
    assert(mk & (mask & 0xFFu32) == (mask & 0xFFu32) & mk) by (bit_vector);
    lemma_closest_of_two(colors[k], p);
}

proof fn lemma_block_pixel(img: Seq<Rgb>, w: int, x: int, y: int, n: int, dx: int, dy: int)
    requires
        0 <= dx < 2,
        0 <= dy < n,
    ensures
        block_colors(img, w, x, y, n)[2 * dy + dx] == img_px(img, w, x + dx, y + dy),
        block_colors(img, w, x, y, n).len() == 2 * n,
{
    assert((2 * dy + dx) % 2 == dx && (2 * dy + dx) / 2 == dy) by (nonlinear_arith)
        requires
            0 <= dx < 2,
            0 <= dy,
    ;
}

impl TermFrame {
    /// In a cell that drawing in two by three pixels leaves, other than a
    /// full block, each image pixel of the cell is shown in the cell color
    /// at least as near to it as the other: the foreground where its bit in
    /// the cell's pattern `m` is set, else the background.
    pub proof fn draw_two_by_three_nearest(
        &self,
        column: int,
        row: int,
        image: &RgbImage,
        x: int,
        y: int,
        dx: u32,
        dy: u32,
        m: u32,
    )
        requires
            0 <= column < self.dims().width,
            0 <= row < self.dims().height,
            column <= x < column + self.draw_extent(column, row, image, DrawMode::TwoByThree).0,
            row <= y < row + self.draw_extent(column, row, image, DrawMode::TwoByThree).1,
            dx < 2,
            dy < 3,
            m < 64,
            self.drawn_cell(column, row, image, DrawMode::TwoByThree, x, y).c != FULL_BLOCK,
            sextant_char(m as int) == self.drawn_cell(
                column,
                row,
                image,
                DrawMode::TwoByThree,
                x,
                y,
            ).c,
        ensures
            ({
                let t = self.drawn_cell(column, row, image, DrawMode::TwoByThree, x, y);
                let p = image.pixel(2 * (x - column) + dx, 3 * y + dy);
                let on = (m & (1u32 << (dy * 2 + dx))) != 0;
                dist2(p, if on { t.fg } else { t.bg }) <= dist2(p, if on { t.bg } else { t.fg })
            }),
    {
        let img = image.pixels();
        let w = image.dims().width as int;
        let e = self.draw_extent(column, row, image, DrawMode::TwoByThree);
        let st = draw_state(DrawMode::TwoByThree, img, w, row, e.0, e.0 * (y - row) + (x - column));
        let colors = block_colors(img, w, 2 * (x - column), 3 * y, 3);
        lemma_block_pixel(img, w, 2 * (x - column), 3 * y, 3, dx as int, dy as int);
        sextant_cell_nearest(colors, st, (2 * dy + dx) as int, m);
        assert((dy * 2 + dx) as u32 == (2 * dy + dx) as int as u32);
    }

    /// In a cell that drawing in braille leaves, other than a full block,
    /// each image pixel of the cell is shown in the cell color at least as
    /// near to it as the other: the foreground where its dot is set, else
    /// the background.
    pub proof fn draw_braille_nearest(
        &self,
        column: int,
        row: int,
        image: &RgbImage,
        x: int,
        y: int,
        dx: u32,
        dy: u32,
    )
        requires
            0 <= column < self.dims().width,
            0 <= row < self.dims().height,
            column <= x < column + self.draw_extent(column, row, image, DrawMode::Braille).0,
            row <= y < row + self.draw_extent(column, row, image, DrawMode::Braille).1,
            dx < 2,
            dy < 4,
            self.drawn_cell(column, row, image, DrawMode::Braille, x, y).c != FULL_BLOCK,
        ensures
            ({
                let t = self.drawn_cell(column, row, image, DrawMode::Braille, x, y);
                let p = image.pixel(2 * (x - column) + dx, 4 * y + dy);
                let on = braille_pixel(braille_bits(t.c), dx, dy);
                dist2(p, if on { t.fg } else { t.bg }) <= dist2(p, if on { t.bg } else { t.fg })
            }),
    {
        let img = image.pixels();
        let w = image.dims().width as int;
        let e = self.draw_extent(column, row, image, DrawMode::Braille);
        let st = draw_state(DrawMode::Braille, img, w, row, e.0, e.0 * (y - row) + (x - column));
        let colors = block_colors(img, w, 2 * (x - column), 4 * y, 4);
        lemma_block_pixel(img, w, 2 * (x - column), 4 * y, 4, dx as int, dy as int);
        braille_cell_nearest(colors, st, dx, dy);
    }
}

/// Redrawing over a frame of another size writes what a full redraw
/// writes.
pub proof fn diff_redraw_other_size(frame: &TermFrame, prev: &TermFrame, inverted: bool)
    requires
        frame.dims() != prev.dims(),
    ensures
        frame.diff_redraw_bytes(prev, inverted) == full_redraw_bytes(
            frame.cells(),
            frame.dims().width as int,
            inverted,
        ),
{
}

/// The color that a half block cell shows in its upper half: the
/// background under a lower half block, else the foreground.
pub open spec fn upper_shown(t: TermChar) -> Rgb {
    if t.c == LOWER_HALF_BLOCK {
        t.bg
    } else {
        t.fg
    }
}

/// The color that a half block cell shows in its lower half: the
/// background under an upper half block, else the foreground.
pub open spec fn lower_shown(t: TermChar) -> Rgb {
    if t.c == UPPER_HALF_BLOCK {
        t.bg
    } else {
        t.fg
    }
}

impl TermFrame {
    /// Drawing in half blocks shows every pixel in its own color: each
    /// cell it draws is a full, upper half or lower half block whose upper
    /// half shows the upper pixel and whose lower half shows the lower one.
    pub proof fn draw_half_block_shows_pixels(
        &self,
        column: int,
        row: int,
        image: &RgbImage,
        x: int,
        y: int,
    )
        requires
            0 <= column < self.dims().width,
            0 <= row < self.dims().height,
            column <= x < column + self.draw_extent(column, row, image, DrawMode::HalfBlock).0,
            row <= y < row + self.draw_extent(column, row, image, DrawMode::HalfBlock).1,
        ensures
            ({
                let t = self.drawn_cell(column, row, image, DrawMode::HalfBlock, x, y);
                &&& t.c == FULL_BLOCK || t.c == UPPER_HALF_BLOCK || t.c == LOWER_HALF_BLOCK
                &&& upper_shown(t) == image.pixel(x - column, 2 * y)
                &&& lower_shown(t) == image.pixel(x - column, 2 * y + 1)
            }),
    {
    }
}

/// One step of a redraw as the terminal reads it.
pub ghost enum TermOp {
    /// Moves the cursor to a row and column, both counted from 1.
    Goto { row: nat, column: nat },
    /// Moves the cursor right.
    Forward(nat),
    /// Moves the cursor left.
    Back(nat),
    /// Moves the cursor to the start of the next row.
    NewLine,
    /// Selects the foreground color.
    Fg(Rgb),
    /// Selects the background color.
    Bg(Rgb),
    /// Writes a character in the selected colors.
    Glyph(char),
}

/// The bytes of one step (colors swapped where `inverted`).
pub open spec fn op_bytes(op: TermOp, inverted: bool) -> Seq<u8> {
    match op {
        TermOp::Goto { row, column } => cursor_bytes(row, column),
        TermOp::Forward(n) => csi_num(n, 67),
        TermOp::Back(n) => csi_num(n, 68),
        TermOp::NewLine => NEWLINE@,
        TermOp::Fg(c) => fg_rgb_out(c, inverted),
        TermOp::Bg(c) => bg_rgb_out(c, inverted),
        TermOp::Glyph(ch) => encode_scalar(ch as u32),
    }
}

/// The bytes of a sequence of steps.
pub open spec fn ops_bytes(ops: Seq<TermOp>, inverted: bool) -> Seq<u8>
    decreases ops.len(),
{
    if ops.len() == 0 {
        Seq::empty()
    } else {
        ops_bytes(ops.drop_last(), inverted) + op_bytes(ops.last(), inverted)
    }
}

/// The foreground in effect after some steps: the last one selected.
pub open spec fn last_fg(ops: Seq<TermOp>) -> Option<Rgb>
    decreases ops.len(),
{
    if ops.len() == 0 {
        None
    } else if ops.last() is Fg {
        Some(ops.last()->Fg_0)
    } else {
        last_fg(ops.drop_last())
    }
}

/// The background in effect after some steps: the last one selected.
pub open spec fn last_bg(ops: Seq<TermOp>) -> Option<Rgb>
    decreases ops.len(),
{
    if ops.len() == 0 {
        None
    } else if ops.last() is Bg {
        Some(ops.last()->Bg_0)
    } else {
        last_bg(ops.drop_last())
    }
}

proof fn lemma_ops_concat(a: Seq<TermOp>, b: Seq<TermOp>, inverted: bool)
    ensures
        ops_bytes(a + b, inverted) == ops_bytes(a, inverted) + ops_bytes(b, inverted),
        last_fg(a + b) == if last_fg(b) is Some {
            last_fg(b)
        } else {
            last_fg(a)
        },
        last_bg(a + b) == if last_bg(b) is Some {
            last_bg(b)
        } else {
            last_bg(a)
        },
    decreases b.len(),
{
    if b.len() == 0 {
        assert(a + b =~= a);
        assert(ops_bytes(a, inverted) + Seq::<u8>::empty() =~= ops_bytes(a, inverted));
    } else {
        lemma_ops_concat(a, b.drop_last(), inverted);
        assert((a + b).drop_last() =~= a + b.drop_last());
        assert((a + b).last() == b.last());
        assert(ops_bytes(a, inverted) + ops_bytes(b.drop_last(), inverted) + op_bytes(
            b.last(),
            inverted,
        ) =~= ops_bytes(a, inverted) + (ops_bytes(b.drop_last(), inverted) + op_bytes(
            b.last(),
            inverted,
        )));
    }
}

proof fn lemma_ops_small(o1: TermOp, inverted: bool)
    ensures
        ops_bytes(seq![o1], inverted) == op_bytes(o1, inverted),
        ops_bytes(Seq::<TermOp>::empty(), inverted) == Seq::<u8>::empty(),
        last_fg(seq![o1]) == if o1 is Fg {
            Some(o1->Fg_0)
        } else {
            None::<Rgb>
        },
        last_bg(seq![o1]) == if o1 is Bg {
            Some(o1->Bg_0)
        } else {
            None::<Rgb>
        },
        last_fg(Seq::<TermOp>::empty()) == None::<Rgb>,
        last_bg(Seq::<TermOp>::empty()) == None::<Rgb>,
{
    assert(seq![o1].drop_last() =~= Seq::<TermOp>::empty());
    assert(seq![o1].last() == o1);
    assert(ops_bytes(Seq::<TermOp>::empty(), inverted) == Seq::<u8>::empty());
    assert(Seq::<u8>::empty() + op_bytes(o1, inverted) =~= op_bytes(o1, inverted));
}

/// A step that selects the foreground where the color differs.
pub open spec fn fg_op_if(differs: bool, c: Rgb) -> Seq<TermOp> {
    if differs {
        seq![TermOp::Fg(c)]
    } else {
        Seq::empty()
    }
}

/// A step that selects the background where the color differs.
pub open spec fn bg_op_if(differs: bool, c: Rgb) -> Seq<TermOp> {
    if differs {
        seq![TermOp::Bg(c)]
    } else {
        Seq::empty()
    }
}

/// The steps of a full redraw for cell `k`.
pub open spec fn full_cell_ops(cells: Seq<TermChar>, w: int, k: int) -> Seq<TermOp> {
    let prev = if k == 0 {
        cells[0]
    } else {
        cells[k - 1]
    };
    let t = cells[k];
    (if k > 0 && k % w == 0 {
        seq![TermOp::NewLine]
    } else {
        Seq::empty()
    }) + fg_op_if(t.fg != prev.fg, t.fg) + bg_op_if(t.bg != prev.bg, t.bg) + seq![
        TermOp::Glyph(t.c),
    ]
}

/// The steps of a full redraw for the first `n` cells.
pub open spec fn full_cells_ops(cells: Seq<TermChar>, w: int, n: int) -> Seq<TermOp>
    decreases n,
{
    if n <= 0 {
        Seq::empty()
    } else {
        full_cells_ops(cells, w, n - 1) + full_cell_ops(cells, w, n - 1)
    }
}

/// The steps of a full redraw up to the character of cell `k`: the cursor
/// to the top left, the colors of the first cell, then the cells.
pub open spec fn full_ops_through(cells: Seq<TermChar>, w: int, k: int) -> Seq<TermOp> {
    seq![TermOp::Goto { row: 1, column: 1 }, TermOp::Fg(cells[0].fg), TermOp::Bg(cells[0].bg)]
        + full_cells_ops(cells, w, k + 1)
}

proof fn lemma_full_cell_ops(cells: Seq<TermChar>, w: int, k: int, inverted: bool)
    requires
        0 <= k < cells.len(),
    ensures
        ops_bytes(full_cell_ops(cells, w, k), inverted) == full_cell_bytes(cells, w, k, inverted),
{
    let prev = if k == 0 {
        cells[0]
    } else {
        cells[k - 1]
    };
    let t = cells[k];
    let nl: Seq<TermOp> = if k > 0 && k % w == 0 {
        seq![TermOp::NewLine]
    } else {
        Seq::empty()
    };
    let f = fg_op_if(t.fg != prev.fg, t.fg);
    let b = bg_op_if(t.bg != prev.bg, t.bg);
    let g = seq![TermOp::Glyph(t.c)];
    lemma_ops_small(TermOp::NewLine, inverted);
    lemma_ops_small(TermOp::Fg(t.fg), inverted);
    lemma_ops_small(TermOp::Bg(t.bg), inverted);
    lemma_ops_small(TermOp::Glyph(t.c), inverted);
    lemma_ops_concat(nl, f, inverted);
    lemma_ops_concat(nl + f, b, inverted);
    lemma_ops_concat(nl + f + b, g, inverted);
}

proof fn lemma_full_ops(cells: Seq<TermChar>, w: int, n: int, inverted: bool)
    requires
        0 <= n <= cells.len(),
        cells.len() > 0,
    ensures
        ops_bytes(full_cells_ops(cells, w, n), inverted) == full_cells_bytes(
            cells,
            w,
            n,
            inverted,
        ),
        last_fg(
            seq![TermOp::Goto { row: 1, column: 1 }, TermOp::Fg(cells[0].fg), TermOp::Bg(cells[0].bg)]
                + full_cells_ops(cells, w, n),
        ) == Some(
            if n == 0 {
                cells[0]
            } else {
                cells[n - 1]
            }.fg,
        ),
        last_bg(
            seq![TermOp::Goto { row: 1, column: 1 }, TermOp::Fg(cells[0].fg), TermOp::Bg(cells[0].bg)]
                + full_cells_ops(cells, w, n),
        ) == Some(
            if n == 0 {
                cells[0]
            } else {
                cells[n - 1]
            }.bg,
        ),
    decreases n,
{
    let head = seq![
        TermOp::Goto { row: 1, column: 1 },
        TermOp::Fg(cells[0].fg),
        TermOp::Bg(cells[0].bg),
    ];
    if n == 0 {
        lemma_ops_small(TermOp::Goto { row: 1, column: 1 }, inverted);
        assert(head + full_cells_ops(cells, w, 0) =~= head);
        assert(head.drop_last() =~= seq![TermOp::Goto { row: 1, column: 1 }, TermOp::Fg(cells[0].fg)]);
        assert(head.drop_last().drop_last() =~= seq![TermOp::Goto { row: 1, column: 1 }]);
        assert(seq![TermOp::Goto { row: 1, column: 1 }].drop_last() =~= Seq::<TermOp>::empty());
        assert(head.last() == TermOp::Bg(cells[0].bg));
        assert(head.drop_last().last() == TermOp::Fg(cells[0].fg));
        assert(last_fg(head.drop_last()) == Some(cells[0].fg));
        assert(last_fg(head) == Some(cells[0].fg));
    } else {
        lemma_full_ops(cells, w, n - 1, inverted);
        lemma_full_cell_ops(cells, w, n - 1, inverted);
        let a = full_cells_ops(cells, w, n - 1);
        let c = full_cell_ops(cells, w, n - 1);
        lemma_ops_concat(a, c, inverted);
        lemma_ops_concat(head + a, c, inverted);
        assert(head + (a + c) =~= head + a + c);
        let prev = if n - 1 == 0 {
            cells[0]
        } else {
            cells[n - 2]
        };
        let t = cells[n - 1];
        let nl: Seq<TermOp> = if n - 1 > 0 && (n - 1) % w == 0 {
            seq![TermOp::NewLine]
        } else {
            Seq::empty()
        };
        let f = fg_op_if(t.fg != prev.fg, t.fg);
        let b = bg_op_if(t.bg != prev.bg, t.bg);
        let g = seq![TermOp::Glyph(t.c)];
        lemma_ops_small(TermOp::NewLine, inverted);
        lemma_ops_small(TermOp::Fg(t.fg), inverted);
        lemma_ops_small(TermOp::Bg(t.bg), inverted);
        lemma_ops_small(TermOp::Glyph(t.c), inverted);
        lemma_ops_concat(nl, f, inverted);
        lemma_ops_concat(nl + f, b, inverted);
        lemma_ops_concat(nl + f + b, g, inverted);
        assert(c =~= nl + f + b + g);
        if t.fg != prev.fg {
            assert(last_fg(c) == Some(t.fg));
        } else {
            assert(last_fg(c) == None::<Rgb>);
        }
        if t.bg != prev.bg {
            assert(last_bg(c) == Some(t.bg));
        } else {
            assert(last_bg(c) == None::<Rgb>);
        }
    }
}

proof fn lemma_full_head(cells: Seq<TermChar>, w: int, n: int, inverted: bool)
    requires
        0 < n <= cells.len(),
    ensures
        full_redraw_bytes(cells, w, inverted) == ops_bytes(
            full_ops_through(cells, w, cells.len() - 1),
            inverted,
        ),
{
    let head = seq![
        TermOp::Goto { row: 1, column: 1 },
        TermOp::Fg(cells[0].fg),
        TermOp::Bg(cells[0].bg),
    ];
    let len = cells.len() as int;
    lemma_full_ops(cells, w, len, inverted);
    lemma_ops_small(TermOp::Goto { row: 1, column: 1 }, inverted);
    lemma_ops_small(TermOp::Fg(cells[0].fg), inverted);
    lemma_ops_small(TermOp::Bg(cells[0].bg), inverted);
    let h1 = seq![TermOp::Goto { row: 1, column: 1 }];
    let h2 = seq![TermOp::Fg(cells[0].fg)];
    let h3 = seq![TermOp::Bg(cells[0].bg)];
    assert(head =~= h1 + h2 + h3);
    lemma_ops_concat(h1, h2, inverted);
    lemma_ops_concat(h1 + h2, h3, inverted);
    lemma_ops_concat(head, full_cells_ops(cells, w, len), inverted);
    assert(full_ops_through(cells, w, len - 1) == head + full_cells_ops(cells, w, len));
}

/// In a full redraw each cell's character is written in that cell's
/// colors: the steps up to the character of cell `k` end with it, and the
/// foreground and background last selected before it are the cell's. The
/// bytes of the full redraw are those of these steps.
pub proof fn full_redraw_colors(cells: Seq<TermChar>, w: int, k: int, inverted: bool)
    requires
        0 <= k < cells.len(),
    ensures
        full_ops_through(cells, w, k).last() == TermOp::Glyph(cells[k].c),
        last_fg(full_ops_through(cells, w, k).drop_last()) == Some(cells[k].fg),
        last_bg(full_ops_through(cells, w, k).drop_last()) == Some(cells[k].bg),
        full_redraw_bytes(cells, w, inverted) == ops_bytes(
            full_ops_through(cells, w, cells.len() - 1),
            inverted,
        ),
{
    let head = seq![
        TermOp::Goto { row: 1, column: 1 },
        TermOp::Fg(cells[0].fg),
        TermOp::Bg(cells[0].bg),
    ];
    lemma_full_head(cells, w, cells.len() as int, inverted);
    lemma_full_ops(cells, w, k, inverted);
    let a = full_cells_ops(cells, w, k);
    let prev = if k == 0 {
        cells[0]
    } else {
        cells[k - 1]
    };
    let t = cells[k];
    let nl: Seq<TermOp> = if k > 0 && k % w == 0 {
        seq![TermOp::NewLine]
    } else {
        Seq::empty()
    };
    let f = fg_op_if(t.fg != prev.fg, t.fg);
    let b = bg_op_if(t.bg != prev.bg, t.bg);
    let g = seq![TermOp::Glyph(t.c)];
    assert(full_ops_through(cells, w, k) =~= head + a + nl + f + b + g);
    assert(full_ops_through(cells, w, k).drop_last() =~= head + a + nl + f + b);
    lemma_ops_small(TermOp::NewLine, inverted);
    lemma_ops_small(TermOp::Fg(t.fg), inverted);
    lemma_ops_small(TermOp::Bg(t.bg), inverted);
    lemma_ops_concat(head + a, nl, inverted);
    lemma_ops_concat(head + a + nl, f, inverted);
    lemma_ops_concat(head + a + nl + f, b, inverted);
}


/// The cursor move of a differential redraw to `(x, y)` after writing at
/// `(px, py)`, as steps.
pub open spec fn diff_move_ops(x: int, y: int, px: int, py: int) -> Seq<TermOp> {
    if x == 0 && py + 1 == y {
        seq![TermOp::NewLine]
    } else if py == y && y != 0 {
        if px + 1 == x {
            Seq::empty()
        } else if px + 1 < x {
            seq![TermOp::Forward((x - (px + 1)) as nat)]
        } else {
            seq![TermOp::Back((px + 1 - x) as nat)]
        }
    } else {
        seq![TermOp::Goto { row: (y + 1) as nat, column: (x + 1) as nat }]
    }
}

/// The steps of a differential redraw for cell `k`.
pub open spec fn diff_cell_ops(cur: Seq<TermChar>, prev: Seq<TermChar>, w: int, k: int) -> Seq<
    TermOp,
> {
    if cur[k] == prev[k] {
        Seq::empty()
    } else {
        let s = diff_state(cur, prev, w, k);
        let t = cur[k];
        diff_move_ops(k % w, k / w, s.2, s.3) + fg_op_if(s.0 != Some(t.fg), t.fg) + bg_op_if(
            s.1 != Some(t.bg),
            t.bg,
        ) + seq![TermOp::Glyph(t.c)]
    }
}

/// The steps of a differential redraw for the first `n` cells.
pub open spec fn diff_cells_ops(cur: Seq<TermChar>, prev: Seq<TermChar>, w: int, n: int) -> Seq<
    TermOp,
>
    decreases n,
{
    if n <= 0 {
        Seq::empty()
    } else {
        diff_cells_ops(cur, prev, w, n - 1) + diff_cell_ops(cur, prev, w, n - 1)
    }
}

proof fn lemma_diff_move_ops(x: int, y: int, px: int, py: int, inverted: bool)
    ensures
        ops_bytes(diff_move_ops(x, y, px, py), inverted) == diff_move_bytes(x, y, px, py),
        last_fg(diff_move_ops(x, y, px, py)) == None::<Rgb>,
        last_bg(diff_move_ops(x, y, px, py)) == None::<Rgb>,
{
    lemma_ops_small(TermOp::NewLine, inverted);
    lemma_ops_small(TermOp::Forward((x - (px + 1)) as nat), inverted);
    lemma_ops_small(TermOp::Back((px + 1 - x) as nat), inverted);
    lemma_ops_small(TermOp::Goto { row: (y + 1) as nat, column: (x + 1) as nat }, inverted);
}

proof fn lemma_diff_cell_ops(cur: Seq<TermChar>, prev: Seq<TermChar>, w: int, k: int, inverted: bool)
    requires
        0 <= k < cur.len(),
    ensures
        ops_bytes(diff_cell_ops(cur, prev, w, k), inverted) == diff_cell_bytes(
            cur,
            prev,
            w,
            k,
            inverted,
        ),
        last_fg(diff_cell_ops(cur, prev, w, k)) == if cur[k] != prev[k] && diff_state(
            cur,
            prev,
            w,
            k,
        ).0 != Some(cur[k].fg) {
            Some(cur[k].fg)
        } else {
            None::<Rgb>
        },
        last_bg(diff_cell_ops(cur, prev, w, k)) == if cur[k] != prev[k] && diff_state(
            cur,
            prev,
            w,
            k,
        ).1 != Some(cur[k].bg) {
            Some(cur[k].bg)
        } else {
            None::<Rgb>
        },
{
    lemma_ops_small(TermOp::Fg(cur[k].fg), inverted);
    if cur[k] != prev[k] {
        let s = diff_state(cur, prev, w, k);
        let t = cur[k];
        let m = diff_move_ops(k % w, k / w, s.2, s.3);
        let f = fg_op_if(s.0 != Some(t.fg), t.fg);
        let b = bg_op_if(s.1 != Some(t.bg), t.bg);
        let g = seq![TermOp::Glyph(t.c)];
        lemma_diff_move_ops(k % w, k / w, s.2, s.3, inverted);
        lemma_ops_small(TermOp::Fg(t.fg), inverted);
        lemma_ops_small(TermOp::Bg(t.bg), inverted);
        lemma_ops_small(TermOp::Glyph(t.c), inverted);
        lemma_ops_concat(m, f, inverted);
        lemma_ops_concat(m + f, b, inverted);
        lemma_ops_concat(m + f + b, g, inverted);
        assert(diff_cell_ops(cur, prev, w, k) == m + f + b + g);
    }
}

proof fn lemma_diff_ops(cur: Seq<TermChar>, prev: Seq<TermChar>, w: int, n: int, inverted: bool)
    requires
        0 <= n <= cur.len(),
    ensures
        ops_bytes(diff_cells_ops(cur, prev, w, n), inverted) == diff_cells_bytes(
            cur,
            prev,
            w,
            n,
            inverted,
        ),
        last_fg(diff_cells_ops(cur, prev, w, n)) == diff_state(cur, prev, w, n).0,
        last_bg(diff_cells_ops(cur, prev, w, n)) == diff_state(cur, prev, w, n).1,
    decreases n,
{
    lemma_ops_small(TermOp::NewLine, inverted);
    if n > 0 {
        lemma_diff_ops(cur, prev, w, n - 1, inverted);
        lemma_diff_cell_ops(cur, prev, w, n - 1, inverted);
        lemma_ops_concat(diff_cells_ops(cur, prev, w, n - 1), diff_cell_ops(cur, prev, w, n - 1), inverted);
    }
}

proof fn lemma_diff_ops_prefix(cur: Seq<TermChar>, prev: Seq<TermChar>, w: int, m: int, n: int)
    requires
        0 <= m <= n,
    ensures
        diff_cells_ops(cur, prev, w, m).len() <= diff_cells_ops(cur, prev, w, n).len(),
        diff_cells_ops(cur, prev, w, n).subrange(0, diff_cells_ops(cur, prev, w, m).len() as int)
            == diff_cells_ops(cur, prev, w, m),
    decreases n - m,
{
    if m < n {
        lemma_diff_ops_prefix(cur, prev, w, m, n - 1);
        let a = diff_cells_ops(cur, prev, w, n - 1);
        let am = diff_cells_ops(cur, prev, w, m);
        assert((a + diff_cell_ops(cur, prev, w, n - 1)).subrange(0, am.len() as int)
            =~= a.subrange(0, am.len() as int));
    } else {
        assert(diff_cells_ops(cur, prev, w, n).subrange(0, diff_cells_ops(cur, prev, w, n).len() as int)
            =~= diff_cells_ops(cur, prev, w, n));
    }
}

/// In a differential redraw each changed cell's character is written in
/// that cell's colors: the steps up to cell `k` end with its character, and
/// the foreground and background last selected before it are the cell's.
/// These steps begin the steps of the whole redraw, whose bytes are those
/// the redraw writes.
pub proof fn diff_redraw_colors(
    cur: Seq<TermChar>,
    prev: Seq<TermChar>,
    w: int,
    k: int,
    inverted: bool,
)
    requires
        0 <= k < cur.len(),
        cur[k] != prev[k],
    ensures
        diff_cells_ops(cur, prev, w, k + 1).last() == TermOp::Glyph(cur[k].c),
        last_fg(diff_cells_ops(cur, prev, w, k + 1).drop_last()) == Some(cur[k].fg),
        last_bg(diff_cells_ops(cur, prev, w, k + 1).drop_last()) == Some(cur[k].bg),
        diff_cells_ops(cur, prev, w, cur.len() as int).subrange(
            0,
            diff_cells_ops(cur, prev, w, k + 1).len() as int,
        ) == diff_cells_ops(cur, prev, w, k + 1),
        diff_cells_bytes(cur, prev, w, cur.len() as int, inverted) == ops_bytes(
            diff_cells_ops(cur, prev, w, cur.len() as int),
            inverted,
        ),
{
    lemma_diff_ops(cur, prev, w, cur.len() as int, inverted);
    lemma_diff_ops(cur, prev, w, k, inverted);
    lemma_diff_ops_prefix(cur, prev, w, k + 1, cur.len() as int);
    let a = diff_cells_ops(cur, prev, w, k);
    let s = diff_state(cur, prev, w, k);
    let t = cur[k];
    let m = diff_move_ops(k % w, k / w, s.2, s.3);
    let f = fg_op_if(s.0 != Some(t.fg), t.fg);
    let b = bg_op_if(s.1 != Some(t.bg), t.bg);
    let g = seq![TermOp::Glyph(t.c)];
    assert(diff_cells_ops(cur, prev, w, k + 1) =~= a + m + f + b + g);
    assert(diff_cells_ops(cur, prev, w, k + 1).drop_last() =~= a + m + f + b);
    lemma_diff_move_ops(k % w, k / w, s.2, s.3, inverted);
    lemma_ops_small(TermOp::Fg(t.fg), inverted);
    lemma_ops_small(TermOp::Bg(t.bg), inverted);
    lemma_ops_concat(a, m, inverted);
    lemma_ops_concat(a + m, f, inverted);
    lemma_ops_concat(a + m + f, b, inverted);
}

} // verus!
