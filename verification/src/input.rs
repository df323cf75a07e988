//! The decision core of the interactive line reader: what one key event
//! does to the buffer, and when the line is finished. The caller owns the
//! loop that waits for events.

use vstd::prelude::*;

verus! {

/// One key event, reduced to what the line reader cares about.
pub enum InputEvent {
    /// A printable character was typed.
    Char(char),
    /// The line was finished.
    Enter,
    /// Any other key.
    Other,
}

/// Apply one key event to the line buffer. Returns the new buffer and
/// whether the line is complete: a character extends the buffer, enter
/// finishes the line, anything else changes nothing.
pub fn input_step(buf: Vec<char>, event: InputEvent) -> (r: (Vec<char>, bool))
    ensures
        match event {
            InputEvent::Char(c) => r.0@ == buf@.push(c) && !r.1,
            InputEvent::Enter => r.0@ == buf@ && r.1,
            InputEvent::Other => r.0@ == buf@ && !r.1,
        },
{
    let mut b = buf;
    match event {
        InputEvent::Char(c) => {
            b.push(c);
            (b, false)
        },
        InputEvent::Enter => (b, true),
        InputEvent::Other => (b, false),
    }
}

} // verus!
