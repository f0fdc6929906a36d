use termsnow::color::Rgb;
use termsnow::grid::clip_rect;
use termsnow::rgb_image::RgbImage;
use termsnow::size2d::{Rect, Size2D};
use termsnow::termio::WindowSize;

fn size(width: usize, height: usize) -> Size2D {
    Size2D { width, height }
}

#[test]
fn new_and_pixels() {
    let img = RgbImage::new(size(3, 2), Rgb::new(1, 2, 3));
    assert_eq!(*img.size(), size(3, 2));
    assert_eq!(img.data().len(), 6);
    assert_eq!(img.get_pixel(2, 1), Rgb::new(1, 2, 3));
    assert_eq!(img.get_pixel(3, 0), Rgb::new(0, 0, 0));
    assert_eq!(img.get_pixel(0, 2), Rgb::new(0, 0, 0));
}

#[test]
fn set_then_get() {
    let mut img = RgbImage::new(size(3, 2), Rgb::new(0, 0, 0));
    img.set_pixel(1, 1, Rgb::new(9, 9, 9));
    assert_eq!(img.get_pixel(1, 1), Rgb::new(9, 9, 9));
    assert_eq!(img.get_pixel(1, 0), Rgb::new(0, 0, 0));
    assert_eq!(img.data()[4], Rgb::new(9, 9, 9));
    img.set_pixel(5, 5, Rgb::new(1, 1, 1));
    assert!(img.data().iter().all(|&c| c == Rgb::new(0, 0, 0) || c == Rgb::new(9, 9, 9)));
    img.set_pixel_alpha(0, 0, Rgb::new(255, 255, 255), 255);
    assert_eq!(img.get_pixel(0, 0), Rgb::new(255, 255, 255));
    img.set_pixel_alpha(0, 0, Rgb::new(0, 0, 0), 128);
    assert_eq!(img.get_pixel(0, 0), Rgb::new(127, 127, 127));
}

#[test]
fn fill_and_gradients() {
    let mut img = RgbImage::new(size(4, 2), Rgb::new(0, 0, 0));
    img.fill(Rgb::new(5, 6, 7));
    assert!(img.data().iter().all(|&c| c == Rgb::new(5, 6, 7)));
    img.hgradient(Rgb::new(0, 0, 0), Rgb::new(255, 255, 255));
    // alpha x * 255 / 4: 0, 63, 127, 191
    assert_eq!(img.get_pixel(0, 1), Rgb::new(0, 0, 0));
    assert_eq!(img.get_pixel(1, 1), Rgb::new(63, 63, 63));
    assert_eq!(img.get_pixel(2, 0), Rgb::new(127, 127, 127));
    assert_eq!(img.get_pixel(3, 0), Rgb::new(191, 191, 191));
    img.vgradient(Rgb::new(0, 0, 0), Rgb::new(255, 0, 0));
    assert_eq!(img.get_pixel(3, 0), Rgb::new(0, 0, 0));
    assert_eq!(img.get_pixel(0, 1), Rgb::new(127, 0, 0));
}

#[test]
fn fill_rect_clips() {
    let mut img = RgbImage::new(size(4, 3), Rgb::new(0, 0, 0));
    let red = Rgb::new(255, 0, 0);
    img.fill_rect(&Rect { x: -1, y: 1, width: 3, height: 5 }, red);
    for y in 0..3 {
        for x in 0..4 {
            let inside = x < 2 && y >= 1;
            assert_eq!(img.get_pixel(x, y), if inside { red } else { Rgb::new(0, 0, 0) });
        }
    }
    let before = img.clone();
    img.fill_rect(&Rect { x: 4, y: 0, width: 2, height: 2 }, Rgb::new(1, 1, 1));
    img.fill_rect(&Rect { x: -3, y: 0, width: 3, height: 2 }, Rgb::new(1, 1, 1));
    assert_eq!(img, before);
    img.fill_rect(&Rect { x: 0, y: 0, width: 4, height: 1 }, Rgb::new(2, 2, 2));
    assert!(img.get_line(0).iter().all(|&c| c == Rgb::new(2, 2, 2)));
    assert_eq!(clip_rect(&Rect { x: -1, y: 1, width: 3, height: 5 }, &size(4, 3)), Some((0, 1, 2, 2)));
    assert_eq!(clip_rect(&Rect { x: 4, y: 0, width: 2, height: 2 }, &size(4, 3)), None);
}

#[test]
fn resize_keeps_storage_order() {
    let mut img = RgbImage::new(size(2, 2), Rgb::new(1, 1, 1));
    img.set_pixel(1, 0, Rgb::new(2, 2, 2));
    img.resize(&size(3, 2));
    assert_eq!(*img.size(), size(3, 2));
    assert_eq!(img.data()[1], Rgb::new(2, 2, 2));
    assert_eq!(img.data()[4], Rgb::new(0, 0, 0));
    assert_eq!(img.data()[5], Rgb::new(0, 0, 0));
    img.resize(&size(1, 1));
    assert_eq!(img.data(), &[Rgb::new(1, 1, 1)]);
}

#[test]
fn lines_and_text() {
    let mut img = RgbImage::new(size(2, 2), Rgb::new(0xAB, 0xCD, 0xEF));
    img.set_pixel(1, 1, Rgb::new(1, 2, 3));
    let lines = img.lines();
    assert_eq!(lines.len(), 2);
    assert_eq!(lines[1], &[Rgb::new(0xAB, 0xCD, 0xEF), Rgb::new(1, 2, 3)]);
    assert_eq!(img.to_string(), "ABCDEF ABCDEF\nABCDEF 010203");
    assert_eq!(RgbImage::new(size(3, 0), Rgb::new(0, 0, 0)).to_string(), "");
}

#[test]
fn mutable_access() {
    let mut img = RgbImage::new(size(2, 2), Rgb::new(0, 0, 0));
    img.get_line_mut(1)[0] = Rgb::new(7, 7, 7);
    assert_eq!(img.get_pixel(0, 1), Rgb::new(7, 7, 7));
    {
        let mut lines = img.lines_mut();
        assert_eq!(lines.len(), 2);
        lines[0][0] = Rgb::new(6, 6, 6);
        lines[1][1] = Rgb::new(5, 5, 5);
    }
    assert_eq!(img.get_pixel(0, 0), Rgb::new(6, 6, 6));
    assert_eq!(img.get_pixel(1, 1), Rgb::new(5, 5, 5));
    img.data_mut()[1] = Rgb::new(8, 8, 8);
    assert_eq!(img.get_pixel(1, 0), Rgb::new(8, 8, 8));
    assert_eq!(img.get_line(0), &[Rgb::new(6, 6, 6), Rgb::new(8, 8, 8)]);
}

#[test]
fn sizes() {
    let s = size(3, 4);
    assert_eq!(s.mul(&size(2, 3)), size(6, 12));
    assert_eq!(s.mul_scalar(2), size(6, 8));
    let mut t = s;
    t.mul_assign(&size(2, 2));
    assert_eq!(t, size(6, 8));
    t.mul_assign_scalar(3);
    assert_eq!(t, size(18, 24));
    assert_eq!(s.to_string(), "3x4");
    assert_eq!(Size2D::from(WindowSize { rows: 24, columns: 80 }), size(80, 24));
    assert_eq!(WindowSize { rows: 24, columns: 80 }.to_string(), "80x24");
    assert_eq!(WindowSize::default(), WindowSize { rows: 0, columns: 0 });
}
