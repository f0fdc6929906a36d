use termsnow::color::{Color, Color16, Rgb};
use termsnow::event::Event;
use termsnow::log::LogEntry;
use termsnow::style::{FontStyle, FontWeight, Style, TextDecoration};
use termsnow::termio::{classify_ready, wait_step, Readiness, TermIO, WaitStep, WindowSize};

fn fresh() -> TermIO {
    let mut t = TermIO::new();
    t.take_output();
    t
}

#[test]
fn new_session_enters_the_screen() {
    let mut t = TermIO::new();
    assert_eq!(t.take_output(), b"\x1B[?1049h\x1B[?25l\x1B[?7l\x1B[2J");
    assert!(t.take_output().is_empty());
    assert!(!t.inverted());
    assert!(!t.is_mouse_enabled());
    assert_eq!(t.default_fg(), Color::Default);
    assert_eq!(t.default_bg(), Color::Default);
    assert_eq!(*t.window_size(), WindowSize { rows: 0, columns: 0 });
}

#[test]
fn writes_queue_in_order() {
    let mut t = fresh();
    t.write_str("ab");
    t.write(b"\x01");
    t.write_char('é');
    t.write_char('🬀');
    let mut expected = b"ab\x01".to_vec();
    expected.extend_from_slice("é🬀".as_bytes());
    assert_eq!(t.take_output(), expected);
}

#[test]
fn colors_and_inversion() {
    let mut t = fresh();
    t.fg_rgb(Rgb::new(1, 2, 3));
    t.bg_rgb(Rgb::new(4, 5, 6));
    assert_eq!(t.take_output(), b"\x1B[38;2;1;2;3m\x1B[48;2;4;5;6m");
    t.invert();
    assert!(t.inverted());
    t.fg_rgb(Rgb::new(1, 2, 3));
    t.bg16(Color16::Red);
    assert_eq!(t.take_output(), b"\x1B[48;2;1;2;3m\x1B[31m");
    t.invert();
    assert!(!t.inverted());
    t.set_inverted(true);
    t.raw_fg_rgb(Rgb::new(0, 0, 0));
    t.raw_bg16(Color16::Green);
    t.raw_fg16(Color16::BrightRed);
    assert_eq!(t.take_output(), b"\x1B[38;2;0;0;0m\x1B[42m\x1B[91m");
}

#[test]
fn default_colors() {
    let mut t = fresh();
    t.fg(Color::Default);
    t.bg(Color::Default);
    assert_eq!(t.take_output(), b"\x1B[39m\x1B[49m");
    t.set_default_fg(Color::Color16(Color16::Yellow));
    t.set_default_bg(Color::Rgb { r: 1, g: 1, b: 1 });
    t.fg_default();
    t.bg_default();
    assert_eq!(t.take_output(), b"\x1B[33m\x1B[48;2;1;1;1m");
    t.invert();
    t.fg(Color::Default);
    t.bg(Color::Color16(Color16::Blue));
    assert_eq!(t.take_output(), b"\x1B[43m\x1B[34m");
    t.raw_fg(Color::Default);
    t.raw_bg(Color::Rgb { r: 2, g: 3, b: 4 });
    assert_eq!(t.take_output(), b"\x1B[39m\x1B[48;2;2;3;4m");
}

#[test]
fn styles() {
    let mut t = fresh();
    t.clear_style();
    t.bold();
    t.faint();
    t.italic();
    t.not_italic();
    t.underline();
    t.doubly_underline();
    t.normal_intensity();
    t.not_underline();
    assert_eq!(t.take_output(), b"\x1B[0m\x1B[1m\x1B[2m\x1B[3m\x1B[23m\x1B[4m\x1B[21m\x1B[22m\x1B[24m");
    t.font_weight(FontWeight::Bold);
    t.font_weight(FontWeight::default());
    t.text_decoration(TextDecoration::DoublyUnderline);
    t.text_decoration(TextDecoration::default());
    t.font_style(FontStyle::Italic);
    t.font_style(FontStyle::default());
    assert_eq!(t.take_output(), b"\x1B[1m\x1B[22m\x1B[21m\x1B[24m\x1B[3m\x1B[23m");
    let mut v = Vec::new();
    FontWeight::Faint.write(&mut v);
    TextDecoration::Underline.write(&mut v);
    assert_eq!(v, b"\x1B[2m\x1B[4m");
}

#[test]
fn cursor_and_clearing() {
    let mut t = fresh();
    t.move_cursor(0, 0);
    t.move_cursor(23, 79);
    t.move_cursor_up(1);
    t.move_cursor_down(20);
    t.move_cursor_forward(300);
    t.move_cursor_back(0);
    assert_eq!(t.take_output(), b"\x1B[1;1H\x1B[24;80H\x1B[1A\x1B[20B\x1B[300C\x1B[0D");
    t.clear_screen();
    t.clear_line();
    t.clear_line_to_end();
    t.clear_line_to_start();
    assert_eq!(t.take_output(), b"\x1B[2J\x1B[2K\x1B[0K\x1B[1K");
    t.repeat(0);
    assert!(t.take_output().is_empty());
    t.repeat(12);
    assert_eq!(t.take_output(), b"\x1B[12b");
}

#[test]
fn mouse_and_shutdown() {
    let mut t = fresh();
    t.enable_mouse();
    assert!(t.is_mouse_enabled());
    assert_eq!(t.take_output(), b"\x1B[?1000h\x1B[?1003h\x1B[?1006h");
    t.shutdown();
    assert!(!t.is_mouse_enabled());
    assert_eq!(t.take_output(), b"\x1B[?1001l\x1B[0m\x1B[?25h\x1B[?7h\x1B[?1049l");
    t.shutdown();
    assert_eq!(t.take_output(), b"\x1B[0m\x1B[?25h\x1B[?7h\x1B[?1049l");
    t.disable_mouse();
    assert_eq!(t.take_output(), b"\x1B[?1001l");
}

#[test]
fn window_size_changes() {
    let mut t = fresh();
    assert!(!t.note_resize_signals(0));
    assert!(t.note_resize_signals(1));
    assert!(!t.note_resize_signals(1));
    let ws = WindowSize { rows: 24, columns: 80 };
    assert_eq!(t.set_window_size(ws), Some(Event::WindowSize { rows: 24, columns: 80 }));
    assert_eq!(*t.window_size(), ws);
    assert_eq!(t.set_window_size(ws), None);
}

#[test]
fn readiness() {
    assert_eq!(classify_ready(&[]), Readiness::Idle);
    assert_eq!(classify_ready(&[(false, false)]), Readiness::Idle);
    assert_eq!(classify_ready(&[(false, true), (false, false)]), Readiness::Data);
    assert_eq!(classify_ready(&[(false, true), (true, false)]), Readiness::Closed);
}

#[test]
fn log_entries_keep_their_message() {
    let e = LogEntry::new(String::from("terminal size: 80x24"));
    assert_eq!(e.message, "terminal size: 80x24");
    assert!(e.timestamp.elapsed().as_secs() < 60);
}

#[test]
fn wait_steps() {
    assert_eq!(wait_step(true, false, &[], false), WaitStep::Fail);
    assert_eq!(wait_step(true, true, &[], true), WaitStep::CheckResize);
    assert_eq!(wait_step(false, false, &[], true), WaitStep::NoEvent);
    assert_eq!(wait_step(false, false, &[], false), WaitStep::WaitAgain);
    assert_eq!(wait_step(false, false, &[(false, false)], true), WaitStep::WaitAgain);
    assert_eq!(wait_step(false, false, &[(false, true)], true), WaitStep::ReadInput);
    assert_eq!(wait_step(false, false, &[(false, true), (true, false)], false), WaitStep::Closed);
}
