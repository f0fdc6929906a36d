use termsnow::ansi_codes::{write_bg, write_bg_rgb, write_fg, write_fg_rgb};
use termsnow::color::{Color, Color16, ParseRgbError, Rgb};
use termsnow::draw_mode::{DrawMode, ParseDrawModeError};
use termsnow::fill::{Fill, ParseFillError};
use termsnow::size2d::Size2D;

#[test]
fn rgb_from_u32_splits_channels() {
    let c = Rgb::from_u32(0x432D84);
    assert_eq!(c, Rgb::new(0x43, 0x2D, 0x84));
    assert_eq!(Rgb::from_u32(0xFF123456), Rgb::new(0x12, 0x34, 0x56));
}

#[test]
fn rgb_u32_roundtrip() {
    let c = Rgb::new(1, 2, 3);
    assert_eq!(c.to_u32(), 0x010203);
    assert_eq!(Rgb::from_u32(c.to_u32()), c);
    assert_eq!(Rgb::from_u32(0xAB123456).to_u32(), 0x123456);
    let v: u32 = u32::from(Rgb::new(0xFF, 0, 0x10));
    assert_eq!(v, 0xFF0010);
    assert_eq!(Rgb::from(0x00FF00u32), Rgb::new(0, 255, 0));
}

#[test]
fn rgb_blend_values() {
    let black = Rgb::new(0, 0, 0);
    let white = Rgb::new(255, 255, 255);
    assert_eq!(black.blend(white, 0), black);
    assert_eq!(black.blend(white, 255), white);
    assert_eq!(black.blend(white, 128), Rgb::new(128, 128, 128));
    assert_eq!(Rgb::new(100, 50, 200).blend(Rgb::new(100, 50, 200), 77), Rgb::new(100, 50, 200));
    // (10 * 155 + 200 * 100) / 255 = 84
    assert_eq!(Rgb::new(10, 10, 10).blend(Rgb::new(200, 200, 200), 100), Rgb::new(84, 84, 84));
    let mut c = Rgb::new(255, 0, 0);
    c.blend_assign(Rgb::new(0, 0, 255), 255);
    assert_eq!(c, Rgb::new(0, 0, 255));
}

#[test]
fn rgb_text_and_parse() {
    assert_eq!(Rgb::new(0x43, 0x2D, 0x84).to_string(), "#432D84");
    assert_eq!(Rgb::parse("#432d84"), Ok(Rgb::new(0x43, 0x2D, 0x84)));
    assert_eq!(Rgb::parse("#FFFFFF"), Ok(Rgb::new(255, 255, 255)));
    assert_eq!(Rgb::parse("FFFFFF"), Err(ParseRgbError));
    assert_eq!(Rgb::parse("#FFFFF"), Err(ParseRgbError));
    assert_eq!(Rgb::parse("#GGGGGG"), Err(ParseRgbError));
    assert_eq!(Rgb::parse(""), Err(ParseRgbError));
    let c = Rgb::new(7, 200, 16);
    assert_eq!(Rgb::parse(&c.to_string()), Ok(c));
    let parsed: Rgb = "#010203".parse().unwrap();
    assert_eq!(parsed, Rgb::new(1, 2, 3));
}

#[test]
fn color_kinds() {
    assert!(Color::default().is_default());
    assert_eq!(Color::from_u32(0x102030), Color::Rgb { r: 0x10, g: 0x20, b: 0x30 });
    assert!(Color::from_u32(0).is_rgb());
    assert!(Color16::Red.to_color().is_color16());
    assert_eq!(Color16::Blue.into_color(), Color::Color16(Color16::Blue));
    assert_eq!(Rgb::new(1, 2, 3).to_color(), Color::Rgb { r: 1, g: 2, b: 3 });
    assert_eq!(Color::from(Rgb::new(4, 5, 6)), Color::Rgb { r: 4, g: 5, b: 6 });
    assert_eq!(Color::from(Color16::Cyan), Color::Color16(Color16::Cyan));
    assert!(!Color::Default.is_rgb());
    assert!(!Color::Default.is_color16());
}

#[test]
fn color16_names() {
    assert_eq!(Color16::parse("red"), Some(Color16::Red));
    assert_eq!(Color16::parse("RED"), Some(Color16::Red));
    assert_eq!(Color16::parse("grey"), Some(Color16::BrightBlack));
    assert_eq!(Color16::parse("gray"), Some(Color16::BrightBlack));
    assert_eq!(Color16::parse("BrightWhite"), Some(Color16::BrightWhite));
    assert_eq!(Color16::parse("purple"), None);
    assert_eq!(Color16::parse(""), None);
}

#[test]
fn color16_sequences() {
    assert_eq!(Color16::Black.fg(), b"\x1B[30m");
    assert_eq!(Color16::White.fg(), b"\x1B[37m");
    assert_eq!(Color16::BrightBlack.fg(), b"\x1B[90m");
    assert_eq!(Color16::Red.bg(), b"\x1B[41m");
    assert_eq!(Color16::BrightWhite.bg(), b"\x1B[107m");
}

#[test]
fn ansi_color_writers() {
    let mut out = Vec::new();
    write_fg_rgb(&mut out, Rgb::new(1, 22, 255));
    assert_eq!(out, b"\x1B[38;2;1;22;255m");
    out.clear();
    write_bg_rgb(&mut out, Rgb::new(0, 0, 0));
    assert_eq!(out, b"\x1B[48;2;0;0;0m");
    out.clear();
    write_fg(&mut out, Color::Default);
    write_bg(&mut out, Color::Default);
    assert_eq!(out, b"\x1B[39m\x1B[49m");
    out.clear();
    write_fg(&mut out, Color::Color16(Color16::Green));
    write_bg(&mut out, Color::Rgb { r: 9, g: 8, b: 7 });
    assert_eq!(out, b"\x1B[32m\x1B[48;2;9;8;7m");
}

#[test]
fn draw_mode_names_and_sizes() {
    assert_eq!(DrawMode::parse("half_block"), Ok(DrawMode::HalfBlock));
    assert_eq!(DrawMode::parse("Half-Block"), Ok(DrawMode::HalfBlock));
    assert_eq!(DrawMode::parse("HALFBLOCK"), Ok(DrawMode::HalfBlock));
    assert_eq!(DrawMode::parse("2by3"), Ok(DrawMode::TwoByThree));
    assert_eq!(DrawMode::parse("two_by_three"), Ok(DrawMode::TwoByThree));
    assert_eq!(DrawMode::parse("braille"), Ok(DrawMode::Braille));
    assert_eq!(DrawMode::parse("sextant"), Err(ParseDrawModeError));
    assert_eq!(DrawMode::default(), DrawMode::HalfBlock);
    assert_eq!(DrawMode::HalfBlock.size(), Size2D { width: 1, height: 2 });
    assert_eq!(DrawMode::TwoByThree.size(), Size2D { width: 2, height: 3 });
    assert_eq!(DrawMode::Braille.size(), Size2D { width: 2, height: 4 });
    let m: DrawMode = "braille".parse().unwrap();
    assert_eq!(m, DrawMode::Braille);
}

#[test]
fn fill_parse_forms() {
    assert_eq!(Fill::parse("#432d84"), Ok(Fill::Solid(Rgb::new(0x43, 0x2D, 0x84))));
    assert_eq!(
        Fill::parse("  vertical #000000\t#FFFFFF \n"),
        Ok(Fill::VerticalGradient { top: Rgb::new(0, 0, 0), bottom: Rgb::new(255, 255, 255) })
    );
    assert_eq!(
        Fill::parse("HORIZONTAL #010101 #020202"),
        Ok(Fill::HorizontalGradient { left: Rgb::new(1, 1, 1), right: Rgb::new(2, 2, 2) })
    );
}

#[test]
fn fill_parse_errors() {
    assert_eq!(Fill::parse(""), Err(ParseFillError { cause: None }));
    assert_eq!(Fill::parse("   "), Err(ParseFillError { cause: None }));
    assert_eq!(Fill::parse("vertical #000000"), Err(ParseFillError { cause: None }));
    assert_eq!(Fill::parse("vertical #000000 #000000 #000000"), Err(ParseFillError { cause: None }));
    assert_eq!(Fill::parse("#000000 #111111"), Err(ParseFillError { cause: None }));
    assert_eq!(Fill::parse("#00000"), Err(ParseFillError { cause: Some(ParseRgbError) }));
    assert_eq!(Fill::parse("horizontal #000000 red"), Err(ParseFillError { cause: Some(ParseRgbError) }));
    assert_eq!(ParseFillError::from(ParseRgbError), ParseFillError { cause: Some(ParseRgbError) });
}

#[test]
fn fill_text_roundtrip_values() {
    let fills = [
        Fill::Solid(Rgb::new(1, 2, 3)),
        Fill::VerticalGradient { top: Rgb::new(0xAA, 0xBB, 0xCC), bottom: Rgb::new(0, 0, 0) },
        Fill::HorizontalGradient { left: Rgb::new(255, 0, 0), right: Rgb::new(0, 0, 255) },
    ];
    assert_eq!(fills[1].to_string(), "vertical #AABBCC #000000");
    assert_eq!(fills[2].to_string(), "horizontal #FF0000 #0000FF");
    for f in fills {
        assert_eq!(Fill::parse(&f.to_string()), Ok(f));
        let g: Fill = f.to_string().parse().unwrap();
        assert_eq!(g, f);
    }
}

#[test]
fn fill_start_end() {
    let f = Fill::VerticalGradient { top: Rgb::new(1, 1, 1), bottom: Rgb::new(2, 2, 2) };
    assert_eq!(f.start(), Rgb::new(1, 1, 1));
    assert_eq!(f.end(), Rgb::new(2, 2, 2));
    let h = Fill::HorizontalGradient { left: Rgb::new(3, 3, 3), right: Rgb::new(4, 4, 4) };
    assert_eq!(h.start(), Rgb::new(3, 3, 3));
    assert_eq!(h.end(), Rgb::new(4, 4, 4));
    let s = Fill::Solid(Rgb::new(5, 5, 5));
    assert_eq!(s.start(), s.end());
}
