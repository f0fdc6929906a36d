use termsnow::color::Rgb;
use termsnow::draw_mode::DrawMode;
use termsnow::glyphs::{FULL_BLOCK, LOWER_HALF_BLOCK, UPPER_HALF_BLOCK};
use termsnow::rgb_image::RgbImage;
use termsnow::size2d::{Rect, Size2D};
use termsnow::term_frame::{TermChar, TermFrame};
use termsnow::termio::TermIO;

fn size(width: usize, height: usize) -> Size2D {
    Size2D { width, height }
}

fn cell(c: char, fg: Rgb, bg: Rgb) -> TermChar {
    TermChar { c, fg, bg }
}

const BLACK: Rgb = Rgb { r: 0, g: 0, b: 0 };
const WHITE: Rgb = Rgb { r: 255, g: 255, b: 255 };
const RED: Rgb = Rgb { r: 255, g: 0, b: 0 };
const GREEN: Rgb = Rgb { r: 0, g: 255, b: 0 };
const BLUE: Rgb = Rgb { r: 0, g: 0, b: 255 };

#[test]
fn new_frame_is_blank() {
    let f = TermFrame::new(size(3, 2));
    assert_eq!(*f.size(), size(3, 2));
    assert_eq!(f.data().len(), 6);
    assert!(f.data().iter().all(|&t| t == TermChar::default()));
    assert_eq!(TermChar::default(), cell(' ', BLACK, BLACK));
}

#[test]
fn fill_rect_and_rows() {
    let mut f = TermFrame::new(size(3, 2));
    let x = cell('x', RED, BLUE);
    f.fill_rect(&Rect { x: 1, y: -1, width: 5, height: 2 }, &x);
    assert_eq!(f.get_row(0), &[TermChar::default(), x, x]);
    assert_eq!(f.get_row(1), &[TermChar::default(); 3]);
    f.get_row_mut(1)[0] = x;
    assert_eq!(f.data()[3], x);
    f.fill(x);
    assert!(f.data().iter().all(|&t| t == x));
    f.resize(&size(2, 1));
    assert_eq!(f.data(), &[x, x]);
    f.resize(&size(2, 2));
    assert_eq!(f.data(), &[x, x, TermChar::default(), TermChar::default()]);
}

#[test]
fn half_block_drawing() {
    let mut img = RgbImage::new(size(2, 2), RED);
    img.set_pixel(1, 0, BLUE);
    img.set_pixel(1, 1, GREEN);
    let mut f = TermFrame::new(size(2, 1));
    f.draw_half_block(0, 0, &img);
    assert_eq!(f.data(), &[cell(FULL_BLOCK, RED, RED), cell(LOWER_HALF_BLOCK, GREEN, BLUE)]);
    let mut g = TermFrame::new(size(2, 1));
    g.draw(0, 0, &img, DrawMode::HalfBlock);
    assert_eq!(f, g);
}

#[test]
fn half_block_keeps_last_colors() {
    // upper pixel equal to the last foreground: an upper half block
    let mut img = RgbImage::new(size(2, 2), RED);
    img.set_pixel(0, 1, BLUE);
    img.set_pixel(1, 0, BLUE);
    img.set_pixel(1, 1, GREEN);
    let mut f = TermFrame::new(size(2, 1));
    f.draw_half_block(0, 0, &img);
    assert_eq!(f.data()[0], cell(LOWER_HALF_BLOCK, BLUE, RED));
    assert_eq!(f.data()[1], cell(UPPER_HALF_BLOCK, BLUE, GREEN));
}

#[test]
fn drawing_is_clipped() {
    let img = RgbImage::new(size(4, 4), RED);
    let mut f = TermFrame::new(size(3, 3));
    f.draw_half_block(2, 1, &RgbImage::new(size(4, 6), RED));
    // only column 2 of rows 1 and 2 change
    for y in 0..3 {
        for x in 0..3 {
            let t = f.get_row(y)[x];
            if x == 2 && y >= 1 {
                assert_eq!(t, cell(FULL_BLOCK, RED, RED));
            } else {
                assert_eq!(t, TermChar::default());
            }
        }
    }
    let before = f.clone();
    f.draw_half_block(3, 0, &img);
    f.draw_braille(0, 3, &img);
    assert_eq!(f, before);
}

#[test]
fn two_by_three_drawing() {
    let mut img = RgbImage::new(size(2, 3), BLACK);
    for y in 0..3 {
        img.set_pixel(1, y, WHITE);
    }
    let mut f = TermFrame::new(size(1, 1));
    f.draw_two_by_three(0, 0, &img);
    assert_eq!(f.data()[0], cell('\u{258C}', BLACK, WHITE));
    let uniform = RgbImage::new(size(2, 3), GREEN);
    f.draw(0, 0, &uniform, DrawMode::TwoByThree);
    assert_eq!(f.data()[0], cell(FULL_BLOCK, GREEN, Rgb::new(0x88, 0x88, 0x88)));
}

#[test]
fn braille_drawing() {
    let mut img = RgbImage::new(size(2, 4), BLACK);
    for y in 0..4 {
        img.set_pixel(1, y, WHITE);
    }
    let mut f = TermFrame::new(size(1, 1));
    f.draw_braille(0, 0, &img);
    assert_eq!(f.data()[0], cell('\u{28B8}', WHITE, BLACK));
}

#[test]
fn full_redraw_bytes() {
    let mut f = TermFrame::new(size(2, 2));
    f.get_row_mut(1)[1] = cell('é', RED, BLACK);
    let mut t = TermIO::new();
    t.take_output();
    f.full_redraw(&mut t);
    let expected = [
        &b"\x1B[1;1H\x1B[38;2;0;0;0m\x1B[48;2;0;0;0m  \n "[..],
        &b"\x1B[38;2;255;0;0m"[..],
        "é".as_bytes(),
    ]
    .concat();
    assert_eq!(t.take_output(), expected);
    let mut empty = TermIO::new();
    empty.take_output();
    TermFrame::new(size(0, 5)).full_redraw(&mut empty);
    assert_eq!(empty.take_output(), b"\x1B[1;1H");
}

#[test]
fn full_redraw_inverted() {
    let f = TermFrame::new(size(1, 1));
    let mut t = TermIO::new();
    t.take_output();
    t.invert();
    f.full_redraw(&mut t);
    assert_eq!(t.take_output(), b"\x1B[1;1H\x1B[48;2;0;0;0m\x1B[38;2;0;0;0m ");
}

#[test]
fn diff_redraw_bytes() {
    let prev = TermFrame::new(size(3, 2));
    let mut f = prev.clone();
    let x = cell('x', RED, BLUE);
    f.get_row_mut(0)[1] = x;
    f.get_row_mut(1)[0] = x;
    f.get_row_mut(1)[2] = x;
    let mut t = TermIO::new();
    t.take_output();
    f.diff_redraw(&prev, &mut t);
    assert_eq!(
        t.take_output(),
        b"\x1B[1;2H\x1B[38;2;255;0;0m\x1B[48;2;0;0;255mx\nx\x1B[1Cx".to_vec()
    );
    // an unchanged frame writes nothing
    f.diff_redraw(&f.clone(), &mut t);
    assert!(t.take_output().is_empty());
    // another size: the whole frame
    let small = TermFrame::new(size(1, 1));
    small.diff_redraw(&f, &mut t);
    assert_eq!(t.take_output(), b"\x1B[1;1H\x1B[38;2;0;0;0m\x1B[48;2;0;0;0m ");
}

#[test]
fn diff_redraw_moves_to_a_new_row() {
    let prev = TermFrame::new(size(4, 2));
    let mut f = prev.clone();
    let x = cell('x', RED, BLUE);
    f.get_row_mut(1)[3] = x;
    let mut t = TermIO::new();
    t.take_output();
    f.diff_redraw(&prev, &mut t);
    assert_eq!(t.take_output(), b"\x1B[2;4H\x1B[38;2;255;0;0m\x1B[48;2;0;0;255mx".to_vec());
}
