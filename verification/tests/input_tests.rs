use termsnow::event::{Event, Key, MouseButton};
use termsnow::input::{decode_event, is_cont, parse_utf8, REPLACEMENT};
use termsnow::termio::TermIO;

fn key(key: Key, ctrl: bool, alt: bool, shift: bool) -> Event {
    Event::KeyPress { key, ctrl, alt, shift }
}

fn decode(input: &[u8]) -> (Event, usize) {
    let mut params = Vec::new();
    decode_event(&mut params, input)
}

#[test]
fn plain_bytes() {
    assert_eq!(decode(b""), (Event::ConnectionClosed, 0));
    assert_eq!(decode(b"\r"), (key(Key::Enter, false, false, false), 1));
    assert_eq!(decode(b"\x01"), (key(Key::Char('a'), true, false, false), 1));
    assert_eq!(decode(b"\t"), (key(Key::Char('i'), true, false, false), 1));
    assert_eq!(decode(b"\x1A"), (key(Key::Char('z'), true, false, false), 1));
    assert_eq!(decode(b"ab"), (key(Key::Char('a'), false, false, false), 1));
    assert_eq!(decode(b"A"), (key(Key::Char('A'), false, false, true), 1));
    assert_eq!(decode(b"\x7F"), (key(Key::Backspace, false, false, false), 1));
    assert_eq!(decode(b" "), (key(Key::Char(' '), false, false, false), 1));
}

#[test]
fn utf8_characters() {
    assert_eq!(decode("é".as_bytes()), (key(Key::Char('é'), false, false, false), 2));
    assert_eq!(decode("É".as_bytes()), (key(Key::Char('É'), false, false, true), 2));
    // three byte sequences take their second byte without decoding it
    assert_eq!(decode("€".as_bytes()), (key(Key::Char('\u{AC}'), false, false, false), 3));
    assert_eq!(decode(b"\xC3"), (key(Key::Char(REPLACEMENT), false, false, false), 1));
    assert_eq!(decode(b"\xE2\x82"), (key(Key::Char(REPLACEMENT), false, false, false), 1));
    assert_eq!(parse_utf8(b"\xC3\xA9", 0xC3, 1), ('é', 2));
    assert_eq!(parse_utf8(b"x", b'x', 1), ('x', 1));
    assert!(is_cont(0x80));
    assert!(is_cont(0xBF));
    assert!(!is_cont(0xC0));
    assert!(!is_cont(0x7F));
}

#[test]
fn escape_and_alt() {
    assert_eq!(decode(b"\x1B"), (key(Key::Escape, false, false, false), 1));
    assert_eq!(decode(b"\x1Bx"), (key(Key::Char('x'), false, true, false), 2));
    assert_eq!(decode(b"\x1BX"), (key(Key::Char('X'), false, true, true), 2));
    assert_eq!(decode(b"\x1B\x1BOM"), (key(Key::Enter, false, true, true), 4));
    assert_eq!(decode(b"\x1B\x1BOx"), (Event::Unsupported, 3));
    assert_eq!(decode(b"\x1B["), (key(Key::Char('['), false, true, false), 2));
    assert_eq!(decode(b"\x1B[\x1B[A"), (key(Key::Char('['), false, true, false), 2));
}

#[test]
fn csi_keys() {
    assert_eq!(decode(b"\x1B[A"), (key(Key::Up, false, false, false), 3));
    assert_eq!(decode(b"\x1B[B"), (key(Key::Down, false, false, false), 3));
    assert_eq!(decode(b"\x1B[C"), (key(Key::Right, false, false, false), 3));
    assert_eq!(decode(b"\x1B[D"), (key(Key::Left, false, false, false), 3));
    assert_eq!(decode(b"\x1B[H"), (key(Key::Home, false, false, false), 3));
    assert_eq!(decode(b"\x1B[F"), (key(Key::End, false, false, false), 3));
    assert_eq!(decode(b"\x1B[E"), (key(Key::Keypad5, false, false, false), 3));
    assert_eq!(decode(b"\x1B[P"), (key(Key::Pause, false, false, false), 3));
    assert_eq!(decode(b"\x1B[[A"), (key(Key::Function(1), false, false, false), 4));
    assert_eq!(decode(b"\x1B[[E"), (key(Key::Function(5), false, false, false), 4));
    assert_eq!(decode(b"\x1B[[Z"), (Event::Unsupported, 3));
    assert_eq!(decode(b"\x1B[1;5C"), (key(Key::Right, true, false, false), 6));
    assert_eq!(decode(b"\x1B[1;2A"), (key(Key::Up, false, false, true), 6));
    assert_eq!(decode(b"\x1B[1;3D"), (key(Key::Left, false, true, false), 6));
    assert_eq!(decode(b"\x1B[3~"), (key(Key::Delete, false, false, false), 4));
    assert_eq!(decode(b"\x1B[2~"), (key(Key::Insert, false, false, false), 4));
    assert_eq!(decode(b"\x1B[6~"), (key(Key::PageDown, false, false, false), 4));
    assert_eq!(decode(b"\x1B[15~"), (key(Key::Function(5), false, false, false), 5));
    assert_eq!(decode(b"\x1B[24~"), (key(Key::Function(12), false, false, false), 5));
    assert_eq!(decode(b"\x1B[5;2~"), (key(Key::PageUp, false, false, true), 6));
    assert_eq!(decode(b"\x1B[99~"), (Event::Unsupported, 5));
    assert_eq!(decode(b"\x1B[~"), (key(Key::Home, false, false, false), 3));
}

#[test]
fn csi_keeps_parameters_between_events() {
    let mut params = Vec::new();
    assert_eq!(decode_event(&mut params, b"\x1B[3~"), (key(Key::Delete, false, false, false), 4));
    assert_eq!(params, vec![3]);
    // no digits: the parameters of the sequence before are used again
    assert_eq!(decode_event(&mut params, b"\x1B[~"), (key(Key::Delete, false, false, false), 3));
    assert_eq!(params, vec![3]);
}

#[test]
fn mouse_reports() {
    assert_eq!(
        decode(b"\x1B[<0;10;5M"),
        (
            Event::MouseDown { row: 4, column: 9, shift: false, ctrl: false, alt: false, button: MouseButton::Left },
            10
        )
    );
    assert_eq!(
        decode(b"\x1B[<2;1;1m"),
        (
            Event::MouseUp { row: 0, column: 0, shift: false, ctrl: false, alt: false, button: MouseButton::Right },
            9
        )
    );
    assert_eq!(
        decode(b"\x1B[<51;3;4M"),
        (
            Event::MouseMove { row: 3, column: 2, shift: false, ctrl: true, alt: false, button: MouseButton::NoButton },
            10
        )
    );
    assert_eq!(
        decode(b"\x1B[<64;1;1M"),
        (Event::WheelUp { row: 0, column: 0, shift: false, ctrl: false, alt: false }, 10)
    );
    assert_eq!(
        decode(b"\x1B[<73;2;2M"),
        (Event::WheelDown { row: 1, column: 1, shift: false, ctrl: false, alt: true }, 10)
    );
    assert_eq!(decode(b"\x1B[<0;0;5M"), (Event::Unsupported, 9));
    assert_eq!(decode(b"\x1B[<128;1;1M"), (Event::Unsupported, 11));
    assert_eq!(decode(b"\x1B[<0;1M"), (Event::Unsupported, 7));
}

#[test]
fn cursor_reports() {
    assert_eq!(decode(b"\x1B[12;40R"), (Event::CursorPosition { row: 11, column: 39 }, 8));
    assert_eq!(decode(b"\x1B[?1;1R"), (Event::CursorPosition { row: 0, column: 0 }, 7));
    assert_eq!(decode(b"\x1B[0;1R"), (Event::Unsupported, 6));
}

#[test]
fn ss3_keys() {
    assert_eq!(decode(b"\x1BO"), (key(Key::Char('O'), false, true, true), 2));
    assert_eq!(decode(b"\x1BOP"), (key(Key::Function(1), false, false, false), 3));
    // one byte more than the sequence is taken
    assert_eq!(decode(b"\x1BOSx"), (key(Key::Function(4), false, false, false), 4));
    assert_eq!(decode(b"\x1BOM"), (key(Key::Enter, false, false, true), 3));
    assert_eq!(decode(b"\x1BOx"), (key(Key::Char('O'), false, true, true), 3));
}

#[test]
fn termio_reads_fed_input() {
    let mut t = TermIO::new();
    assert!(!t.has_input());
    assert_eq!(t.read(), Event::ConnectionClosed);
    t.feed_input(b"a\x1B[A");
    assert!(t.has_input());
    assert_eq!(t.read(), key(Key::Char('a'), false, false, false));
    assert_eq!(t.read(), key(Key::Up, false, false, false));
    assert!(!t.has_input());
    t.feed_input(b"\x1B[1;");
    t.feed_input(b"5A");
    assert_eq!(t.read(), key(Key::Up, true, false, false));
    assert_eq!(t.read(), Event::ConnectionClosed);
}

#[test]
fn every_event_takes_a_byte() {
    let inputs: [&[u8]; 8] = [b"x", b"\x1B", b"\x1B[", b"\x1B[<", b"\x1BO", b"\xF0", b"\x1B[1;", b"\x1B[?"];
    for input in inputs {
        let (_, n) = decode(input);
        assert!(n >= 1 && n <= input.len());
    }
}

#[test]
fn one_and_two_byte_characters_decode_back() {
    for c in ['a', '~', '\u{80}', 'é', '\u{7FF}'] {
        let mut buf = [0u8; 4];
        let bytes = c.encode_utf8(&mut buf).as_bytes();
        assert_eq!(parse_utf8(bytes, bytes[0], 1), (c, bytes.len()));
    }
}
