//! Terminal input as plain values.

use vstd::prelude::*;

verus! {

/// One key.
#[derive(Clone, Copy, Debug, PartialEq, Eq, Structural)]
pub enum KeyCode {
    Backspace,
    Enter,
    Left,
    Right,
    Up,
    Down,
    Home,
    End,
    PageUp,
    PageDown,
    Tab,
    BackTab,
    Delete,
    Esc,
    F(u8),
    Char(char),
    /// Any key that the interface never reacts to.
    Unused,
}

/// The modifiers held down with a key.
#[derive(Clone, Copy, Debug, PartialEq, Eq, Structural)]
pub struct KeyModifiers {
    pub control: bool,
    pub alt: bool,
    pub shift: bool,
    /// Whether any further modifier is held.
    pub other: bool,
}

impl KeyModifiers {
    /// No modifier.
    pub fn none() -> (r: KeyModifiers)
        ensures
            r == (KeyModifiers { control: false, alt: false, shift: false, other: false }),
    {
        KeyModifiers { control: false, alt: false, shift: false, other: false }
    }
}

/// Whether a key went down, repeats or went up.
#[derive(Clone, Copy, Debug, PartialEq, Eq, Structural)]
pub enum KeyEventKind {
    Press,
    Repeat,
    Release,
}

/// One key event.
#[derive(Clone, Copy, Debug, PartialEq, Eq, Structural)]
pub struct KeyEvent {
    pub code: KeyCode,
    pub modifiers: KeyModifiers,
    pub kind: KeyEventKind,
}

/// A mouse button.
#[derive(Clone, Copy, Debug, PartialEq, Eq, Structural)]
pub enum MouseButton {
    Left,
    Right,
    Middle,
}

/// What the mouse did.
#[derive(Clone, Copy, Debug, PartialEq, Eq, Structural)]
pub enum MouseEventKind {
    Down(MouseButton),
    Up(MouseButton),
    Drag(MouseButton),
    Moved,
    ScrollDown,
    ScrollUp,
    ScrollLeft,
    ScrollRight,
}

/// One mouse event, in terminal cells.
#[derive(Clone, Copy, Debug, PartialEq, Eq, Structural)]
pub struct MouseEvent {
    pub kind: MouseEventKind,
    pub column: u16,
    pub row: u16,
}

/// One terminal event.
#[derive(Clone, Debug, PartialEq, Eq)]
pub enum Event {
    Key(KeyEvent),
    Mouse(MouseEvent),
    Paste(String),
    Resize(u16, u16),
    /// The terminal gained or lost the focus.
    Focus,
}

/// The key pressed by an event, if it is a key press.
pub open spec fn pressed(event: Event) -> Option<(KeyCode, KeyModifiers)> {
    match event {
        Event::Key(key) => if key.kind == KeyEventKind::Press {
            Some((key.code, key.modifiers))
        } else {
            None
        },
        _ => None,
    }
}

/// Reads the key pressed by an event.
pub fn key_press(event: &Event) -> (r: Option<(KeyCode, KeyModifiers)>)
    ensures
        r == pressed(*event),
{
    match event {
        Event::Key(key) => {
            if key.kind == KeyEventKind::Press {
                Some((key.code, key.modifiers))
            } else {
                None
            }
        },
        _ => None,
    }
}

/// Outcome of classifying one terminal event.
#[derive(Clone, Copy, Debug, PartialEq, Eq, Structural)]
pub enum InputAction {
    /// Keep the application running; a resize or non-actionable event may trigger a redraw.
    Continue,
    /// Interrupt active work before exiting the application.
    Interrupt,
}

/// Whether an event is the press of Ctrl+C with no further modifier.
pub open spec fn is_interrupt(event: Event) -> bool {
    pressed(event) == Some(
        (
            KeyCode::Char('c'),
            KeyModifiers { control: true, alt: false, shift: false, other: false },
        ),
    )
}

/// Converts raw terminal input to one explicit application-level action.
#[must_use]
pub fn classify_event(event: &Event) -> (r: InputAction)
    ensures
        r == (if is_interrupt(*event) {
            InputAction::Interrupt
        } else {
            InputAction::Continue
        }),
{
    match key_press(event) {
        Some((code, modifiers)) => {
            if code == KeyCode::Char('c') && modifiers.control && !modifiers.alt
                && !modifiers.shift && !modifiers.other {
                InputAction::Interrupt
            } else {
                InputAction::Continue
            }
        },
        None => InputAction::Continue,
    }
}

} // verus!
