//! Terminal input events, and their human readable descriptions.
use vstd::prelude::*;

use crate::text::{
    char_is_uppercase, char_to_uppercase, dec_chars, is_uppercase, push_decimal_chars,
    push_signed_decimal_chars, push_str, signed_dec_chars, string_from_chars, to_uppercase,
};
use crate::unicode::{display_char, display_char_spec, is_ascii_control};

verus! {

pub const ESCAPE: u8 = 0x1B;

pub const MOUSE_MASK_BUTTON: u32 = 3;
pub const MOUSE_MASK_SHIFT: u32 = 4;
pub const MOUSE_MASK_ALT: u32 = 8;
pub const MOUSE_MASK_CTRL: u32 = 16;
pub const MOUSE_MASK_MOVE: u32 = 32;
pub const MOUSE_MASK_WHEEL: u32 = 64;
pub const MOUSE_MASK_UNKNOWN: u32 = 128;

/// The mouse button of a mouse report.
#[derive(Debug, Clone, Copy, PartialEq, Eq, Structural)]
pub enum MouseButton {
    NoButton,
    Left,
    Middle,
    Right,
}

/// The button that the two low bits of a mouse report name.
pub open spec fn button_from_flags(flags: u32) -> MouseButton {
    let b = flags & 3u32;
    if b == 0 {
        MouseButton::Left
    } else if b == 1 {
        MouseButton::Middle
    } else if b == 2 {
        MouseButton::Right
    } else {
        MouseButton::NoButton
    }
}

/// The two low bits that encode a button in a mouse report.
pub open spec fn button_flags(b: MouseButton) -> u32 {
    match b {
        MouseButton::Left => 0,
        MouseButton::Middle => 1,
        MouseButton::Right => 2,
        MouseButton::NoButton => 3,
    }
}

/// How a button is described.
pub open spec fn button_text(b: MouseButton) -> Seq<char> {
    match b {
        MouseButton::Left => "Left Mouse Button"@,
        MouseButton::Middle => "Middle Mouse Button"@,
        MouseButton::Right => "Right Mouse Button"@,
        MouseButton::NoButton => "None"@,
    }
}

impl MouseButton {
    /// Decodes the button bits of a mouse report.
    pub fn from_flags(flags: u32) -> (r: MouseButton)
        ensures
            r == button_from_flags(flags),
    {
        let b = flags & MOUSE_MASK_BUTTON;
        assert(b < 4) by (bit_vector)
            requires
                b == flags & 3u32,
        ;
        if b == 0 {
            MouseButton::Left
        } else if b == 1 {
            MouseButton::Middle
        } else if b == 2 {
            MouseButton::Right
        } else {
            MouseButton::NoButton
        }
    }

    /// Encodes the button as the two low bits of a mouse report.
    pub fn to_flags(&self) -> (r: u32)
        ensures
            r == button_flags(*self),
    {
        match self {
            MouseButton::Left => 0,
            MouseButton::Middle => 1,
            MouseButton::Right => 2,
            MouseButton::NoButton => 3,
        }
    }

    /// Appends the description of the button.
    pub fn fmt_into(&self, out: &mut Vec<char>)
        ensures
            final(out)@ == old(out)@ + button_text(*self),
    {
        match self {
            MouseButton::Left => push_str(out, "Left Mouse Button"),
            MouseButton::Middle => push_str(out, "Middle Mouse Button"),
            MouseButton::Right => push_str(out, "Right Mouse Button"),
            MouseButton::NoButton => push_str(out, "None"),
        }
    }

    /// The description of the button.
    pub fn to_string(&self) -> (s: String)
        ensures
            s@ == button_text(*self),
    {
        let mut v: Vec<char> = Vec::new();
        self.fmt_into(&mut v);
        assert(v@ =~= button_text(*self));
        string_from_chars(&v)
    }
}

/// A key of the keyboard.
#[derive(Debug, Clone, Copy, PartialEq, Eq, Structural)]
pub enum Key {
    Char(char),
    Function(u16),
    Insert,
    Delete,
    Home,
    End,
    Up,
    Down,
    Left,
    Right,
    Keypad5,
    Backspace,
    Pause,
    Enter,
    PageUp,
    PageDown,
    Escape,
}

/// The key that a typed character stands for.
pub open spec fn key_from_char(ch: char) -> Key {
    if ch == '\r' || ch == '\n' {
        Key::Enter
    } else if ch == '\x1B' {
        Key::Escape
    } else if ch == '\x7F' {
        Key::Backspace
    } else {
        Key::Char(ch)
    }
}

/// How a key is described: named keys by name, function keys as `F<n>`,
/// space and tab by name, control characters by their visible symbol, and
/// other characters in upper case where that is a single character.
pub open spec fn key_text(k: Key) -> Seq<char> {
    match k {
        Key::Char(c) => if c == ' ' {
            "Space"@
        } else if c == '\t' {
            "Tab"@
        } else if is_ascii_control(c) {
            seq![display_char_spec(c)]
        } else if char_to_uppercase(c).len() == 1 {
            char_to_uppercase(c)
        } else {
            seq![c]
        },
        Key::Function(n) => "F"@ + dec_chars(n as nat),
        Key::Insert => "Insert"@,
        Key::Delete => "Delete"@,
        Key::Home => "Home"@,
        Key::End => "End"@,
        Key::Up => "Up"@,
        Key::Down => "Down"@,
        Key::Left => "Left"@,
        Key::Right => "Right"@,
        Key::Keypad5 => "Keypad5"@,
        Key::Backspace => "Backspace"@,
        Key::Pause => "Pause"@,
        Key::Enter => "Enter"@,
        Key::PageUp => "PageUp"@,
        Key::PageDown => "PageDown"@,
        Key::Escape => "Escape"@,
    }
}

impl Key {
    /// The key that a typed character stands for: carriage return and line
    /// feed are Enter, ESC is Escape, DEL is Backspace.
    pub fn from_char(ch: char) -> (r: Key)
        ensures
            r == key_from_char(ch),
    {
        match ch {
            '\r' | '\n' => Key::Enter,
            '\x1B' => Key::Escape,
            '\x7F' => Key::Backspace,
            _ => Key::Char(ch),
        }
    }

    /// Appends the description of the key.
    pub fn fmt_into(&self, out: &mut Vec<char>)
        ensures
            final(out)@ == old(out)@ + key_text(*self),
    {
        match *self {
            Key::Char(c) => {
                if c == ' ' {
                    push_str(out, "Space");
                } else if c == '\t' {
                    push_str(out, "Tab");
                } else if (c as u32) < 0x20 || c == '\x7F' {
                    out.push(display_char(c));
                    assert(final(out)@ =~= old(out)@ + key_text(*self));
                } else {
                    let upper = to_uppercase(c);
                    if upper.len() == 1 {
                        out.push(upper[0]);
                        assert(upper@ =~= seq![upper@[0]]);
                    } else {
                        out.push(c);
                    }
                    assert(final(out)@ =~= old(out)@ + key_text(*self));
                }
            },
            Key::Function(n) => {
                push_str(out, "F");
                push_decimal_chars(out, n as u64);
                assert(final(out)@ =~= old(out)@ + key_text(*self));
            },
            Key::Insert => push_str(out, "Insert"),
            Key::Delete => push_str(out, "Delete"),
            Key::Home => push_str(out, "Home"),
            Key::End => push_str(out, "End"),
            Key::Up => push_str(out, "Up"),
            Key::Down => push_str(out, "Down"),
            Key::Left => push_str(out, "Left"),
            Key::Right => push_str(out, "Right"),
            Key::Keypad5 => push_str(out, "Keypad5"),
            Key::Backspace => push_str(out, "Backspace"),
            Key::Pause => push_str(out, "Pause"),
            Key::Enter => push_str(out, "Enter"),
            Key::PageUp => push_str(out, "PageUp"),
            Key::PageDown => push_str(out, "PageDown"),
            Key::Escape => push_str(out, "Escape"),
        }
    }

    /// The description of the key.
    pub fn to_string(&self) -> (s: String)
        ensures
            s@ == key_text(*self),
    {
        let mut v: Vec<char> = Vec::new();
        self.fmt_into(&mut v);
        assert(v@ =~= key_text(*self));
        string_from_chars(&v)
    }
}

/// An input event of the terminal.
#[derive(Debug, Clone, Copy, PartialEq, Eq, Structural)]
pub enum Event {
    CursorPosition { row: i32, column: i32 },
    WindowSize { rows: u32, columns: u32 },
    KeyPress { key: Key, ctrl: bool, alt: bool, shift: bool },
    MouseDown { row: i32, column: i32, shift: bool, ctrl: bool, alt: bool, button: MouseButton },
    MouseUp { row: i32, column: i32, shift: bool, ctrl: bool, alt: bool, button: MouseButton },
    MouseMove { row: i32, column: i32, shift: bool, ctrl: bool, alt: bool, button: MouseButton },
    WheelUp { row: i32, column: i32, shift: bool, ctrl: bool, alt: bool },
    WheelDown { row: i32, column: i32, shift: bool, ctrl: bool, alt: bool },
    Unsupported,
    ConnectionClosed,
}

/// A key press without modifiers, or with Alt alone.
pub open spec fn plain_key(key: Key, alt: bool) -> Event {
    Event::KeyPress { key, ctrl: false, alt, shift: false }
}

/// The key press of a typed character: Shift is set for upper case
/// characters.
pub open spec fn char_event(ch: char, alt: bool) -> Event {
    Event::KeyPress { key: key_from_char(ch), ctrl: false, alt, shift: char_is_uppercase(ch) }
}

/// The escape key without modifiers.
pub open spec fn escape_event_spec() -> Event {
    plain_key(Key::Escape, false)
}

/// The escape key without modifiers.
pub fn escape_event() -> (e: Event)
    ensures
        e == escape_event_spec(),
{
    Event::KeyPress { ctrl: false, alt: false, shift: false, key: Key::Escape }
}

impl Event {
    /// A key press without modifiers.
    pub fn key(key: Key) -> (e: Event)
        ensures
            e == plain_key(key, false),
    {
        Event::KeyPress { ctrl: false, alt: false, shift: false, key }
    }

    /// A key press with Alt.
    pub fn alt_key(key: Key) -> (e: Event)
        ensures
            e == plain_key(key, true),
    {
        Event::KeyPress { ctrl: false, alt: true, shift: false, key }
    }

    /// The key press of a typed character.
    pub fn from_char(ch: char) -> (e: Event)
        ensures
            e == char_event(ch, false),
    {
        Event::KeyPress { ctrl: false, alt: false, shift: is_uppercase(ch), key: Key::from_char(ch) }
    }

    /// The key press of a character typed with Alt.
    pub fn from_char_alt(ch: char) -> (e: Event)
        ensures
            e == char_event(ch, true),
    {
        Event::KeyPress { ctrl: false, alt: true, shift: is_uppercase(ch), key: Key::from_char(ch) }
    }
}

/// The modifier prefix of a description: `Shift`, `Ctrl`, `Alt` joined by
/// `+`, followed by `+` when any is present.
pub open spec fn modifiers_text(shift: bool, alt: bool, ctrl: bool) -> Seq<char> {
    (if shift { "Shift"@ } else { Seq::empty() })
    + (if ctrl { if shift { "+Ctrl"@ } else { "Ctrl"@ } } else { Seq::empty() })
    + (if alt { if shift || ctrl { "+Alt"@ } else { "Alt"@ } } else { Seq::empty() })
    + (if shift || ctrl || alt { "+"@ } else { Seq::empty() })
}

/// Appends the modifier prefix of a description.
pub fn fmt_modifiers(shift: bool, alt: bool, ctrl: bool, out: &mut Vec<char>)
    ensures
        final(out)@ == old(out)@ + modifiers_text(shift, alt, ctrl),
{
    let ghost start = out@;
    if shift {
        push_str(out, "Shift");
    }
    let ghost s1 = out@;
    if ctrl {
        if shift {
            push_str(out, "+Ctrl");
        } else {
            push_str(out, "Ctrl");
        }
    }
    let ghost s2 = out@;
    if alt {
        if shift || ctrl {
            push_str(out, "+Alt");
        } else {
            push_str(out, "Alt");
        }
    }
    let ghost s3 = out@;
    if shift || ctrl || alt {
        push_str(out, "+");
    }
    assert(final(out)@ =~= old(out)@ + modifiers_text(shift, alt, ctrl));
}

/// Whether a mouse report is a press, a release or a move.
#[derive(Debug, Clone, Copy, PartialEq, Eq, Structural)]
pub enum MouseState {
    Up,
    Down,
    Move,
}

pub open spec fn mouse_state_text(s: MouseState) -> Seq<char> {
    match s {
        MouseState::Up => "Up"@,
        MouseState::Down => "Down"@,
        MouseState::Move => "Move"@,
    }
}

fn push_mouse_state(state: MouseState, out: &mut Vec<char>)
    ensures
        final(out)@ == old(out)@ + mouse_state_text(state),
{
    match state {
        MouseState::Up => push_str(out, "Up"),
        MouseState::Down => push_str(out, "Down"),
        MouseState::Move => push_str(out, "Move"),
    }
}

/// A position as `<column>x<row>`.
pub open spec fn position_text(row: i32, column: i32) -> Seq<char> {
    signed_dec_chars(column as int) + "x"@ + signed_dec_chars(row as int)
}

fn push_position(row: i32, column: i32, out: &mut Vec<char>)
    ensures
        final(out)@ == old(out)@ + position_text(row, column),
{
    push_signed_decimal_chars(out, column);
    push_str(out, "x");
    push_signed_decimal_chars(out, row);
    assert(final(out)@ =~= old(out)@ + position_text(row, column));
}

/// The description of a mouse button event.
pub open spec fn mouse_text(
    state: MouseState,
    row: i32,
    column: i32,
    shift: bool,
    alt: bool,
    ctrl: bool,
    button: MouseButton,
) -> Seq<char> {
    modifiers_text(shift, alt, ctrl) + (if button == MouseButton::NoButton {
        "Mouse "@ + mouse_state_text(state)
    } else {
        button_text(button) + " "@ + mouse_state_text(state)
    }) + " "@ + position_text(row, column)
}

/// Appends the description of a mouse button event.
pub fn fmt_mouse(
    state: MouseState,
    row: i32,
    column: i32,
    shift: bool,
    alt: bool,
    ctrl: bool,
    button: MouseButton,
    out: &mut Vec<char>,
)
    ensures
        final(out)@ == old(out)@ + mouse_text(state, row, column, shift, alt, ctrl, button),
{
    fmt_modifiers(shift, alt, ctrl, out);
    let ghost s1 = out@;
    if button == MouseButton::NoButton {
        push_str(out, "Mouse ");
        push_mouse_state(state, out);
    } else {
        button.fmt_into(out);
        push_str(out, " ");
        push_mouse_state(state, out);
    }
    let ghost s2 = out@;
    push_str(out, " ");
    push_position(row, column, out);
    assert(final(out)@ =~= old(out)@ + mouse_text(state, row, column, shift, alt, ctrl, button));
}

/// The description of a wheel event.
pub open spec fn wheel_text(
    state: MouseState,
    row: i32,
    column: i32,
    shift: bool,
    alt: bool,
    ctrl: bool,
) -> Seq<char> {
    modifiers_text(shift, alt, ctrl) + "Wheel "@ + mouse_state_text(state) + " "@ + position_text(
        row,
        column,
    )
}

/// Appends the description of a wheel event.
pub fn fmt_wheel(
    state: MouseState,
    row: i32,
    column: i32,
    shift: bool,
    alt: bool,
    ctrl: bool,
    out: &mut Vec<char>,
)
    ensures
        final(out)@ == old(out)@ + wheel_text(state, row, column, shift, alt, ctrl),
{
    fmt_modifiers(shift, alt, ctrl, out);
    push_str(out, "Wheel ");
    push_mouse_state(state, out);
    push_str(out, " ");
    push_position(row, column, out);
    assert(final(out)@ =~= old(out)@ + wheel_text(state, row, column, shift, alt, ctrl));
}

/// How an event is described.
pub open spec fn event_text(e: Event) -> Seq<char> {
    match e {
        Event::KeyPress { ctrl, alt, shift, key } => "Key Press "@ + modifiers_text(shift, alt, ctrl)
            + key_text(key),
        Event::MouseMove { row, column, shift, ctrl, alt, button } => mouse_text(
            MouseState::Move,
            row,
            column,
            shift,
            alt,
            ctrl,
            button,
        ),
        Event::MouseDown { row, column, shift, ctrl, alt, button } => mouse_text(
            MouseState::Down,
            row,
            column,
            shift,
            alt,
            ctrl,
            button,
        ),
        Event::MouseUp { row, column, shift, ctrl, alt, button } => mouse_text(
            MouseState::Up,
            row,
            column,
            shift,
            alt,
            ctrl,
            button,
        ),
        Event::WheelDown { row, column, shift, ctrl, alt } => wheel_text(
            MouseState::Down,
            row,
            column,
            shift,
            alt,
            ctrl,
        ),
        Event::WheelUp { row, column, shift, ctrl, alt } => wheel_text(
            MouseState::Up,
            row,
            column,
            shift,
            alt,
            ctrl,
        ),
        Event::WindowSize { rows, columns } => "Window Size "@ + dec_chars(columns as nat) + "x"@
            + dec_chars(rows as nat),
        Event::CursorPosition { row, column } => "Cursor Position "@ + position_text(row, column),
        Event::Unsupported => "Unsupported"@,
        Event::ConnectionClosed => "ConnectionClosed"@,
    }
}

impl Event {
    /// Appends the description of the event.
    pub fn fmt_into(&self, out: &mut Vec<char>)
        ensures
            final(out)@ == old(out)@ + event_text(*self),
    {
        match *self {
            Event::KeyPress { ctrl, alt, shift, key } => {
                push_str(out, "Key Press ");
                fmt_modifiers(shift, alt, ctrl, out);
                key.fmt_into(out);
                assert(final(out)@ =~= old(out)@ + event_text(*self));
            },
            Event::MouseMove { row, column, shift, ctrl, alt, button } => {
                fmt_mouse(MouseState::Move, row, column, shift, alt, ctrl, button, out);
            },
            Event::MouseDown { row, column, shift, ctrl, alt, button } => {
                fmt_mouse(MouseState::Down, row, column, shift, alt, ctrl, button, out);
            },
            Event::MouseUp { row, column, shift, ctrl, alt, button } => {
                fmt_mouse(MouseState::Up, row, column, shift, alt, ctrl, button, out);
            },
            Event::WheelDown { row, column, shift, ctrl, alt } => {
                fmt_wheel(MouseState::Down, row, column, shift, alt, ctrl, out);
            },
            Event::WheelUp { row, column, shift, ctrl, alt } => {
                fmt_wheel(MouseState::Up, row, column, shift, alt, ctrl, out);
            },
            Event::WindowSize { rows, columns } => {
                push_str(out, "Window Size ");
                push_decimal_chars(out, columns as u64);
                push_str(out, "x");
                push_decimal_chars(out, rows as u64);
                assert(final(out)@ =~= old(out)@ + event_text(*self));
            },
            Event::CursorPosition { row, column } => {
                push_str(out, "Cursor Position ");
                push_position(row, column, out);
                assert(final(out)@ =~= old(out)@ + event_text(*self));
            },
            Event::Unsupported => push_str(out, "Unsupported"),
            Event::ConnectionClosed => push_str(out, "ConnectionClosed"),
        }
    }

    /// The description of the event.
    pub fn to_string(&self) -> (s: String)
        ensures
            s@ == event_text(*self),
    {
        let mut v: Vec<char> = Vec::new();
        self.fmt_into(&mut v);
        assert(v@ =~= event_text(*self));
        string_from_chars(&v)
    }
}

/// A button's flags decode to the button, and the flags of a decoded
/// button are the two low bits of the report.
pub proof fn button_flags_roundtrip(b: MouseButton, flags: u32)
    ensures
        button_from_flags(button_flags(b)) == b,
        button_flags(button_from_flags(flags)) == flags & 3u32,
{
    assert(0u32 & 3u32 == 0u32 && 1u32 & 3u32 == 1u32 && 2u32 & 3u32 == 2u32 && 3u32 & 3u32 == 3u32)
        by (bit_vector);
    let x = flags & 3u32;
    assert(x < 4) by (bit_vector)
        requires
            x == flags & 3u32,
    ;
}

impl From<u32> for MouseButton {
    /// The button that the two low bits of a mouse report name.
    fn from(value: u32) -> (b: MouseButton)
        ensures
            b == button_from_flags(value),
    {
        MouseButton::from_flags(value)
    }
}

impl vstd::std_specs::convert::FromSpecImpl<u32> for MouseButton {
    open spec fn obeys_from_spec() -> bool {
        true
    }

    open spec fn from_spec(value: u32) -> MouseButton {
        button_from_flags(value)
    }
}

impl From<MouseButton> for u32 {
    /// The two low bits that encode the button in a mouse report.
    fn from(value: MouseButton) -> (v: u32)
        ensures
            v == button_flags(value),
    {
        value.to_flags()
    }
}

impl vstd::std_specs::convert::FromSpecImpl<MouseButton> for u32 {
    open spec fn obeys_from_spec() -> bool {
        true
    }

    open spec fn from_spec(value: MouseButton) -> u32 {
        button_flags(value)
    }
}

} // verus!
