use termsnow::event::{
    escape_event, fmt_modifiers, fmt_mouse, fmt_wheel, Event, Key, MouseButton, MouseState,
};

#[test]
fn mouse_button_flags() {
    assert_eq!(MouseButton::from_flags(0), MouseButton::Left);
    assert_eq!(MouseButton::from_flags(1), MouseButton::Middle);
    assert_eq!(MouseButton::from_flags(2), MouseButton::Right);
    assert_eq!(MouseButton::from_flags(3), MouseButton::NoButton);
    assert_eq!(MouseButton::from_flags(0x26), MouseButton::Right);
    for b in [MouseButton::Left, MouseButton::Middle, MouseButton::Right, MouseButton::NoButton] {
        assert_eq!(MouseButton::from_flags(b.to_flags()), b);
    }
    assert_eq!(MouseButton::Left.to_string(), "Left Mouse Button");
    assert_eq!(MouseButton::NoButton.to_string(), "None");
}

#[test]
fn keys_from_chars() {
    assert_eq!(Key::from_char('\r'), Key::Enter);
    assert_eq!(Key::from_char('\n'), Key::Enter);
    assert_eq!(Key::from_char('\x1B'), Key::Escape);
    assert_eq!(Key::from_char('\x7F'), Key::Backspace);
    assert_eq!(Key::from_char('q'), Key::Char('q'));
    assert_eq!(Event::from_char('Q'), Event::KeyPress { key: Key::Char('Q'), ctrl: false, alt: false, shift: true });
    assert_eq!(Event::from_char_alt('q'), Event::KeyPress { key: Key::Char('q'), ctrl: false, alt: true, shift: false });
    assert_eq!(Event::key(Key::Up), Event::KeyPress { key: Key::Up, ctrl: false, alt: false, shift: false });
    assert_eq!(Event::alt_key(Key::Up), Event::KeyPress { key: Key::Up, ctrl: false, alt: true, shift: false });
    assert_eq!(escape_event(), Event::key(Key::Escape));
}

#[test]
fn key_text() {
    assert_eq!(Key::Char(' ').to_string(), "Space");
    assert_eq!(Key::Char('\t').to_string(), "Tab");
    assert_eq!(Key::Char('a').to_string(), "A");
    assert_eq!(Key::Char('é').to_string(), "É");
    // the upper case of ß is two characters: the character stays
    assert_eq!(Key::Char('ß').to_string(), "ß");
    assert_eq!(Key::Char('\x01').to_string(), "\u{2401}");
    assert_eq!(Key::Function(12).to_string(), "F12");
    assert_eq!(Key::PageDown.to_string(), "PageDown");
    assert_eq!(Key::Keypad5.to_string(), "Keypad5");
}

#[test]
fn modifier_text() {
    let cases = [
        (false, false, false, ""),
        (true, false, false, "Shift+"),
        (false, true, false, "Alt+"),
        (false, false, true, "Ctrl+"),
        (true, true, true, "Shift+Ctrl+Alt+"),
        (false, true, true, "Ctrl+Alt+"),
        (true, true, false, "Shift+Alt+"),
    ];
    for (shift, alt, ctrl, text) in cases {
        let mut out = Vec::new();
        fmt_modifiers(shift, alt, ctrl, &mut out);
        assert_eq!(out.iter().collect::<String>(), text);
    }
}

#[test]
fn mouse_and_wheel_text() {
    let mut out = Vec::new();
    fmt_mouse(MouseState::Down, 4, 9, true, false, true, MouseButton::Left, &mut out);
    assert_eq!(out.iter().collect::<String>(), "Shift+Ctrl+Left Mouse Button Down 9x4");
    let mut out = Vec::new();
    fmt_mouse(MouseState::Move, 2, 3, false, false, false, MouseButton::NoButton, &mut out);
    assert_eq!(out.iter().collect::<String>(), "Mouse Move 3x2");
    let mut out = Vec::new();
    fmt_wheel(MouseState::Up, -1, 0, false, true, false, &mut out);
    assert_eq!(out.iter().collect::<String>(), "Alt+Wheel Up 0x-1");
}

#[test]
fn event_text() {
    assert_eq!(Event::key(Key::Up).to_string(), "Key Press Up");
    assert_eq!(
        Event::KeyPress { key: Key::Char('a'), ctrl: true, alt: false, shift: false }.to_string(),
        "Key Press Ctrl+A"
    );
    assert_eq!(
        Event::MouseUp { row: 1, column: 2, shift: false, ctrl: false, alt: false, button: MouseButton::Right }
            .to_string(),
        "Right Mouse Button Up 2x1"
    );
    assert_eq!(
        Event::WheelDown { row: 5, column: 6, shift: false, ctrl: true, alt: false }.to_string(),
        "Ctrl+Wheel Down 6x5"
    );
    assert_eq!(Event::WindowSize { rows: 24, columns: 80 }.to_string(), "Window Size 80x24");
    assert_eq!(Event::CursorPosition { row: 1, column: 2 }.to_string(), "Cursor Position 2x1");
    assert_eq!(Event::Unsupported.to_string(), "Unsupported");
    assert_eq!(Event::ConnectionClosed.to_string(), "ConnectionClosed");
}
