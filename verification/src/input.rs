//! Input events as plain values, the table that maps a key to a command,
//! and the throttle of the input threads.

use vstd::prelude::*;

verus! {

/// A key, as the terminal reports it.
#[derive(Clone, Copy, Debug, PartialEq, Eq, Structural)]
pub enum KeyCode {
    Backspace,
    Enter,
    Left,
    Right,
    Up,
    Down,
    Home,
    End,
    PageUp,
    PageDown,
    Tab,
    BackTab,
    Delete,
    Insert,
    /// A function key, by its number.
    F(u8),
    Char(char),
    Null,
    Esc,
}

/// The modifier keys held with a key.
#[derive(Clone, Copy, Debug, PartialEq, Eq, Structural)]
pub struct KeyModifiers {
    pub shift: bool,
    pub control: bool,
    pub alt: bool,
}

/// A key press.
#[derive(Clone, Copy, Debug, PartialEq, Eq, Structural)]
pub struct KeyEvent {
    pub code: KeyCode,
    pub modifiers: KeyModifiers,
}

/// A mouse button.
#[derive(Clone, Copy, Debug, PartialEq, Eq, Structural)]
pub enum MouseButton {
    Left,
    Right,
    Middle,
}

/// A mouse event, with the column and row of the pointer.
#[derive(Clone, Copy, Debug, PartialEq, Eq, Structural)]
pub enum MouseEvent {
    Down(MouseButton, u16, u16),
    Up(MouseButton, u16, u16),
    Drag(MouseButton, u16, u16),
    ScrollDown(u16, u16),
    ScrollUp(u16, u16),
}

/// A direction in which the focus moves between widgets.
#[derive(Clone, Copy, Debug, PartialEq, Eq, Structural)]
pub enum WidgetDirection {
    Left,
    Right,
    Up,
    Down,
}

/// What a key asks of the application.
#[derive(Clone, Copy, Debug, PartialEq, Eq, Structural)]
pub enum Command {
    /// Leave the event loop.
    Quit,
    /// Ask the harvester to start over, and clear the retained data.
    Reset,
    /// Nothing: the key has no binding.
    NoOp,
    SkipToFirst,
    SkipToLast,
    UpKey,
    DownKey,
    LeftKey,
    RightKey,
    CharKey(char),
    Esc,
    Enter,
    Tab,
    Backspace,
    Delete,
    ToggleIgnoreCase,
    ToggleSearchWholeWord,
    ToggleSearchRegex,
    ToggleTreeMode,
    ToggleSort,
    OpenSearch,
    SkipCursorBeginning,
    SkipCursorEnd,
    ClearSearch,
    MoveWidgetSelection(WidgetDirection),
}

impl KeyModifiers {
    pub open spec fn is_none(self) -> bool {
        !self.shift && !self.control && !self.alt
    }

    pub open spec fn is_only_alt(self) -> bool {
        !self.shift && !self.control && self.alt
    }

    pub open spec fn is_only_control(self) -> bool {
        !self.shift && self.control && !self.alt
    }

    pub open spec fn is_only_shift(self) -> bool {
        self.shift && !self.control && !self.alt
    }
}

/// The binding of a key without modifiers. `q` quits unless a search box
/// has the focus, where it is typed like any character.
pub open spec fn plain_binding(code: KeyCode, in_search: bool) -> Command {
    match code {
        KeyCode::Char(c) => if c == 'q' && !in_search {
            Command::Quit
        } else {
            Command::CharKey(c)
        },
        KeyCode::End => Command::SkipToLast,
        KeyCode::Home => Command::SkipToFirst,
        KeyCode::Up => Command::UpKey,
        KeyCode::Down => Command::DownKey,
        KeyCode::Left => Command::LeftKey,
        KeyCode::Right => Command::RightKey,
        KeyCode::Esc => Command::Esc,
        KeyCode::Enter => Command::Enter,
        KeyCode::Tab => Command::Tab,
        KeyCode::Backspace => Command::Backspace,
        KeyCode::Delete => Command::Delete,
        KeyCode::F(n) => if n == 1 {
            Command::ToggleIgnoreCase
        } else if n == 2 {
            Command::ToggleSearchWholeWord
        } else if n == 3 {
            Command::ToggleSearchRegex
        } else if n == 5 {
            Command::ToggleTreeMode
        } else if n == 6 {
            Command::ToggleSort
        } else {
            Command::NoOp
        },
        _ => Command::NoOp,
    }
}

/// The binding of a key held with ALT.
pub open spec fn alt_binding(code: KeyCode) -> Command {
    match code {
        KeyCode::Char(c) => if c == 'c' || c == 'C' {
            Command::ToggleIgnoreCase
        } else if c == 'w' || c == 'W' {
            Command::ToggleSearchWholeWord
        } else if c == 'r' || c == 'R' {
            Command::ToggleSearchRegex
        } else if c == 'h' {
            Command::LeftKey
        } else if c == 'l' {
            Command::RightKey
        } else {
            Command::NoOp
        },
        _ => Command::NoOp,
    }
}

/// The binding of a key held with CONTROL.
pub open spec fn control_binding(code: KeyCode) -> Command {
    match code {
        KeyCode::Char(c) => if c == 'c' {
            Command::Quit
        } else if c == 'f' {
            Command::OpenSearch
        } else if c == 'r' {
            Command::Reset
        } else if c == 'a' {
            Command::SkipCursorBeginning
        } else if c == 'e' {
            Command::SkipCursorEnd
        } else if c == 'u' {
            Command::ClearSearch
        } else {
            Command::NoOp
        },
        KeyCode::Left => Command::MoveWidgetSelection(WidgetDirection::Left),
        KeyCode::Right => Command::MoveWidgetSelection(WidgetDirection::Right),
        KeyCode::Up => Command::MoveWidgetSelection(WidgetDirection::Up),
        KeyCode::Down => Command::MoveWidgetSelection(WidgetDirection::Down),
        _ => Command::NoOp,
    }
}

/// The binding of a key held with SHIFT.
pub open spec fn shift_binding(code: KeyCode) -> Command {
    match code {
        KeyCode::Char(c) => Command::CharKey(c),
        KeyCode::Left => Command::MoveWidgetSelection(WidgetDirection::Left),
        KeyCode::Right => Command::MoveWidgetSelection(WidgetDirection::Right),
        KeyCode::Up => Command::MoveWidgetSelection(WidgetDirection::Up),
        KeyCode::Down => Command::MoveWidgetSelection(WidgetDirection::Down),
        _ => Command::NoOp,
    }
}

/// The command bound to a key event: one table for keys without modifiers,
/// one each for ALT, CONTROL and SHIFT alone; any other combination of
/// modifiers has no binding.
pub open spec fn key_binding(event: KeyEvent, in_search: bool) -> Command {
    if event.modifiers.is_none() {
        plain_binding(event.code, in_search)
    } else if event.modifiers.is_only_alt() {
        alt_binding(event.code)
    } else if event.modifiers.is_only_control() {
        control_binding(event.code)
    } else if event.modifiers.is_only_shift() {
        shift_binding(event.code)
    } else {
        Command::NoOp
    }
}

fn direction_command(code: KeyCode) -> (command: Command)
    ensures
        command == match code {
            KeyCode::Left => Command::MoveWidgetSelection(WidgetDirection::Left),
            KeyCode::Right => Command::MoveWidgetSelection(WidgetDirection::Right),
            KeyCode::Up => Command::MoveWidgetSelection(WidgetDirection::Up),
            KeyCode::Down => Command::MoveWidgetSelection(WidgetDirection::Down),
            _ => Command::NoOp,
        },
{
    match code {
        KeyCode::Left => Command::MoveWidgetSelection(WidgetDirection::Left),
        KeyCode::Right => Command::MoveWidgetSelection(WidgetDirection::Right),
        KeyCode::Up => Command::MoveWidgetSelection(WidgetDirection::Up),
        KeyCode::Down => Command::MoveWidgetSelection(WidgetDirection::Down),
        _ => Command::NoOp,
    }
}

/// Looks a key event up in the binding tables.
pub fn command_for_key(event: KeyEvent, in_search: bool) -> (command: Command)
    ensures
        command == key_binding(event, in_search),
{
    let m = event.modifiers;
    if !m.shift && !m.control && !m.alt {
        match event.code {
            KeyCode::Char(c) => if c == 'q' && !in_search {
                Command::Quit
            } else {
                Command::CharKey(c)
            },
            KeyCode::End => Command::SkipToLast,
            KeyCode::Home => Command::SkipToFirst,
            KeyCode::Up => Command::UpKey,
            KeyCode::Down => Command::DownKey,
            KeyCode::Left => Command::LeftKey,
            KeyCode::Right => Command::RightKey,
            KeyCode::Esc => Command::Esc,
            KeyCode::Enter => Command::Enter,
            KeyCode::Tab => Command::Tab,
            KeyCode::Backspace => Command::Backspace,
            KeyCode::Delete => Command::Delete,
            KeyCode::F(n) => match n {
                1 => Command::ToggleIgnoreCase,
                2 => Command::ToggleSearchWholeWord,
                3 => Command::ToggleSearchRegex,
                5 => Command::ToggleTreeMode,
                6 => Command::ToggleSort,
                _ => Command::NoOp,
            },
            _ => Command::NoOp,
        }
    } else if m.alt && !m.shift && !m.control {
        match event.code {
            KeyCode::Char(c) => match c {
                'c' | 'C' => Command::ToggleIgnoreCase,
                'w' | 'W' => Command::ToggleSearchWholeWord,
                'r' | 'R' => Command::ToggleSearchRegex,
                'h' => Command::LeftKey,
                'l' => Command::RightKey,
                _ => Command::NoOp,
            },
            _ => Command::NoOp,
        }
    } else if m.control && !m.shift && !m.alt {
        match event.code {
            KeyCode::Char(c) => match c {
                'c' => Command::Quit,
                'f' => Command::OpenSearch,
                'r' => Command::Reset,
                'a' => Command::SkipCursorBeginning,
                'e' => Command::SkipCursorEnd,
                'u' => Command::ClearSearch,
                _ => Command::NoOp,
            },
            code => direction_command(code),
        }
    } else if m.shift && !m.control && !m.alt {
        match event.code {
            KeyCode::Char(c) => Command::CharKey(c),
            code => direction_command(code),
        }
    } else {
        Command::NoOp
    }
}

/// The least time, in milliseconds, between two events that an input source
/// forwards.
pub const INPUT_THROTTLE_IN_MILLISECONDS: u64 = 20;

/// The throttle of one input source: it remembers when the source last
/// forwarded an event.
#[derive(Clone, Copy, Debug, PartialEq, Eq, Structural)]
pub struct InputThrottle {
    pub last_forwarded: u64,
}

/// An event read at `now` is forwarded: the throttle interval has passed
/// since the last forwarded one.
pub open spec fn is_forwarded(throttle: InputThrottle, now: u64) -> bool {
    now - throttle.last_forwarded >= INPUT_THROTTLE_IN_MILLISECONDS
}

impl InputThrottle {
    /// A throttle that starts its first interval at `now`.
    pub fn new(now: u64) -> (throttle: InputThrottle)
        ensures
            throttle.last_forwarded == now,
    {
        InputThrottle { last_forwarded: now }
    }

    /// Decides on an event read at `now`: it is forwarded, and the interval
    /// starts over, where the throttle interval has passed; else it is
    /// dropped and the throttle stays as it is.
    pub fn should_forward(&mut self, now: u64) -> (forward: bool)
        ensures
            forward == is_forwarded(*old(self), now),
            forward ==> final(self).last_forwarded == now,
            !forward ==> *final(self) == *old(self),
    {
        if now >= self.last_forwarded && now - self.last_forwarded
            >= INPUT_THROTTLE_IN_MILLISECONDS {
            self.last_forwarded = now;
            true
        } else {
            false
        }
    }
}

} // verus!
