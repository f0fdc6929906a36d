//! What the program does on an input event, and which log lines it shows.
use vstd::prelude::*;

use crate::event::{Event, Key};

verus! {

/// What the program does on an input event.
#[derive(Debug, Clone, Copy, PartialEq, Eq, Structural)]
pub enum Command {
    /// The window has a new size: resize the frames and the image.
    Resize { rows: u32, columns: u32 },
    /// Pause the animation, or go on with it.
    TogglePause,
    /// Add particles (remove them for a negative amount).
    ChangeParticles(i32),
    /// Show or hide the log on the screen.
    ToggleOsd,
    /// End the program.
    Quit,
    /// Nothing.
    Ignore,
}

/// A key press of `key` without modifiers.
pub open spec fn bare(e: Event, key: Key) -> bool {
    e == Event::KeyPress { key, ctrl: false, alt: false, shift: false }
}

/// The command of an event: a new window size resizes; space pauses or
/// goes on; `+` and `-` add or remove one particle, ten with Alt; `o`
/// shows or hides the log; `q`, Escape and a closed connection end the
/// program. Other events, and these keys with other modifiers, do nothing.
pub open spec fn command_of(e: Event) -> Command {
    match e {
        Event::WindowSize { rows, columns } => Command::Resize { rows, columns },
        Event::ConnectionClosed => Command::Quit,
        Event::KeyPress { key, ctrl, alt, shift } => if bare(e, Key::Char(' ')) {
            Command::TogglePause
        } else if key == Key::Char('+') && !ctrl && !shift {
            Command::ChangeParticles(
                if alt {
                    10i32
                } else {
                    1i32
                },
            )
        } else if key == Key::Char('-') && !ctrl && !shift {
            Command::ChangeParticles(
                if alt {
                    -10i32
                } else {
                    -1i32
                },
            )
        } else if bare(e, Key::Char('o')) {
            Command::ToggleOsd
        } else if bare(e, Key::Char('q')) || bare(e, Key::Escape) {
            Command::Quit
        } else {
            Command::Ignore
        },
        _ => Command::Ignore,
    }
}

/// The command of an input event.
pub fn command_for(event: &Event) -> (c: Command)
    ensures
        c == command_of(*event),
{
    match *event {
        Event::WindowSize { rows, columns } => Command::Resize { rows, columns },
        Event::ConnectionClosed => Command::Quit,
        Event::KeyPress { key, ctrl, alt, shift } => {
            if ctrl || shift {
                Command::Ignore
            } else {
                match key {
                    Key::Char(' ') => if alt {
                        Command::Ignore
                    } else {
                        Command::TogglePause
                    },
                    Key::Char('+') => Command::ChangeParticles(if alt { 10 } else { 1 }),
                    Key::Char('-') => Command::ChangeParticles(if alt { -10 } else { -1 }),
                    Key::Char('o') => if alt {
                        Command::Ignore
                    } else {
                        Command::ToggleOsd
                    },
                    Key::Char('q') | Key::Escape => if alt {
                        Command::Ignore
                    } else {
                        Command::Quit
                    },
                    _ => Command::Ignore,
                }
            }
        },
        _ => Command::Ignore,
    }
}

/// The first of `len` log lines that fits on a screen of `rows` rows,
/// the newest lines being at the end.
pub fn first_shown_line(len: usize, rows: usize) -> (first: usize)
    ensures
        first == if len > rows {
            len - rows
        } else {
            0
        },
        len - first <= rows,
{
    if len > rows {
        len - rows
    } else {
        0
    }
}

} // verus!
