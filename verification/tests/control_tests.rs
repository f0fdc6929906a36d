use termsnow::color::Rgb;
use termsnow::control::{command_for, first_shown_line, Command};
use termsnow::event::{Event, Key};
use termsnow::rgb_image::RgbImage;
use termsnow::size2d::Size2D;
use termsnow::term_frame::{TermChar, TermFrame};

fn key(key: Key, ctrl: bool, alt: bool, shift: bool) -> Event {
    Event::KeyPress { key, ctrl, alt, shift }
}

#[test]
fn commands_of_events() {
    assert_eq!(command_for(&Event::WindowSize { rows: 3, columns: 4 }), Command::Resize { rows: 3, columns: 4 });
    assert_eq!(command_for(&key(Key::Char(' '), false, false, false)), Command::TogglePause);
    assert_eq!(command_for(&key(Key::Char(' '), false, true, false)), Command::Ignore);
    assert_eq!(command_for(&key(Key::Char('+'), false, false, false)), Command::ChangeParticles(1));
    assert_eq!(command_for(&key(Key::Char('+'), false, true, false)), Command::ChangeParticles(10));
    assert_eq!(command_for(&key(Key::Char('-'), false, false, false)), Command::ChangeParticles(-1));
    assert_eq!(command_for(&key(Key::Char('-'), false, true, false)), Command::ChangeParticles(-10));
    assert_eq!(command_for(&key(Key::Char('+'), true, false, false)), Command::Ignore);
    assert_eq!(command_for(&key(Key::Char('o'), false, false, false)), Command::ToggleOsd);
    assert_eq!(command_for(&key(Key::Char('q'), false, false, false)), Command::Quit);
    assert_eq!(command_for(&key(Key::Char('q'), false, false, true)), Command::Ignore);
    assert_eq!(command_for(&key(Key::Escape, false, false, false)), Command::Quit);
    assert_eq!(command_for(&Event::ConnectionClosed), Command::Quit);
    assert_eq!(command_for(&Event::Unsupported), Command::Ignore);
    assert_eq!(command_for(&key(Key::Up, false, false, false)), Command::Ignore);
}

#[test]
fn shown_log_lines() {
    assert_eq!(first_shown_line(3, 10), 0);
    assert_eq!(first_shown_line(10, 10), 0);
    assert_eq!(first_shown_line(12, 10), 2);
    assert_eq!(first_shown_line(5, 0), 5);
}

#[test]
fn text_in_a_frame() {
    let mut f = TermFrame::new(Size2D { width: 4, height: 2 });
    let fg = Rgb::new(1, 1, 1);
    let bg = Rgb::new(2, 2, 2);
    f.draw_text(1, 1, fg, bg, "ab\x07de");
    assert_eq!(f.get_row(0), &[TermChar::default(); 4]);
    assert_eq!(
        f.get_row(1),
        &[
            TermChar::default(),
            TermChar { c: 'a', fg, bg },
            TermChar { c: 'b', fg, bg },
            TermChar { c: '\u{2407}', fg, bg },
        ]
    );
    let before = f.clone();
    f.draw_text(0, 2, fg, bg, "zz");
    f.draw_text(4, 0, fg, bg, "zz");
    assert_eq!(f, before);
}

#[test]
fn resize_to_the_same_size_keeps_pixels() {
    let mut img = RgbImage::new(Size2D { width: 2, height: 3 }, Rgb::new(1, 2, 3));
    img.set_pixel(1, 2, Rgb::new(4, 5, 6));
    let before = img.clone();
    img.resize(&Size2D { width: 3, height: 2 });
    assert_eq!(img.data(), before.data());
}
