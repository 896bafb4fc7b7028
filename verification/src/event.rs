//! Keys, mouse reports and pastes, as the parser reads them and as the search screen takes them.

use vstd::prelude::*;

verus! {

/// A normalized key.
#[derive(Debug, Clone, Copy, PartialEq, Eq, Structural)]
pub enum Key {
    Char(char),
    Up,
    Down,
    Left,
    Right,
    Home,
    End,
    PageUp,
    PageDown,
    Backspace,
    Delete,
    Tab,
    BackTab,
    Enter,
    Esc,
    /// A complete but unrecognized escape sequence. The search screen ignores it, so unknown
    /// terminal reports, such as focus events, cannot cancel the search.
    Null,
    Ctrl(char),
}

#[derive(Debug, Clone, Copy, PartialEq, Eq, Structural)]
pub enum MouseButton {
    Left,
    Right,
    Middle,
}

#[derive(Debug, Clone, Copy, PartialEq, Eq, Structural)]
pub enum MouseEventKind {
    Down(MouseButton),
    Up(MouseButton),
    Drag(MouseButton),
    Moved,
    ScrollDown,
    ScrollUp,
    ScrollLeft,
    ScrollRight,
}

/// The modifier keys held during a key press or a mouse report.
#[derive(Debug, Clone, Copy, PartialEq, Eq, Structural)]
pub struct KeyModifiers {
    pub shift: bool,
    pub control: bool,
    pub alt: bool,
}

/// A mouse report. Columns and rows are counted from zero.
#[derive(Debug, Clone, Copy, PartialEq, Eq, Structural)]
pub struct MouseEvent {
    pub kind: MouseEventKind,
    pub column: u16,
    pub row: u16,
    pub modifiers: KeyModifiers,
}

/// A key as the search screen names it, without its modifiers.
#[derive(Debug, Clone, Copy, PartialEq, Eq, Structural)]
pub enum KeyCode {
    Char(char),
    Up,
    Down,
    Left,
    Right,
    Home,
    End,
    PageUp,
    PageDown,
    Backspace,
    Delete,
    Tab,
    BackTab,
    Enter,
    Esc,
    Null,
}

/// A key press.
#[derive(Debug, Clone, Copy, PartialEq, Eq, Structural)]
pub struct KeyEvent {
    pub code: KeyCode,
    pub modifiers: KeyModifiers,
}

/// A fully parsed terminal event.
#[derive(Debug, PartialEq, Eq)]
pub enum Parsed {
    Key(Key),
    Mouse(MouseEvent),
    Paste(String),
}

/// The mathematical value of a [`Parsed`].
pub enum ParsedView {
    Key(Key),
    Mouse(MouseEvent),
    Paste(Seq<char>),
}

impl View for Parsed {
    type V = ParsedView;

    open spec fn view(&self) -> ParsedView {
        match self {
            Parsed::Key(key) => ParsedView::Key(*key),
            Parsed::Mouse(mouse) => ParsedView::Mouse(*mouse),
            Parsed::Paste(text) => ParsedView::Paste(text@),
        }
    }
}

/// An event as the search screen takes it.
#[derive(Debug, PartialEq, Eq)]
pub enum Event {
    Key(KeyEvent),
    Mouse(MouseEvent),
    Paste(String),
}

/// The mathematical value of an [`Event`].
pub enum EventView {
    Key(KeyEvent),
    Mouse(MouseEvent),
    Paste(Seq<char>),
}

impl View for Event {
    type V = EventView;

    open spec fn view(&self) -> EventView {
        match self {
            Event::Key(key) => EventView::Key(*key),
            Event::Mouse(mouse) => EventView::Mouse(*mouse),
            Event::Paste(text) => EventView::Paste(text@),
        }
    }
}

impl KeyModifiers {
    pub open spec fn spec_none() -> KeyModifiers {
        KeyModifiers { shift: false, control: false, alt: false }
    }

    /// No modifier key.
    pub fn none() -> (modifiers: KeyModifiers)
        ensures
            modifiers == KeyModifiers::spec_none(),
    {
        KeyModifiers { shift: false, control: false, alt: false }
    }
}

/// The key code that a normalized key is reported with.
pub open spec fn key_code_of(key: Key) -> KeyCode {
    match key {
        Key::Char(c) => KeyCode::Char(c),
        Key::Up => KeyCode::Up,
        Key::Down => KeyCode::Down,
        Key::Left => KeyCode::Left,
        Key::Right => KeyCode::Right,
        Key::Home => KeyCode::Home,
        Key::End => KeyCode::End,
        Key::PageUp => KeyCode::PageUp,
        Key::PageDown => KeyCode::PageDown,
        Key::Backspace => KeyCode::Backspace,
        Key::Delete => KeyCode::Delete,
        Key::Tab => KeyCode::Tab,
        Key::BackTab => KeyCode::BackTab,
        Key::Enter => KeyCode::Enter,
        Key::Esc => KeyCode::Esc,
        Key::Null => KeyCode::Null,
        Key::Ctrl(c) => KeyCode::Char(c),
    }
}

/// The key press that a normalized key is reported as: only `Ctrl` carries a modifier.
pub open spec fn key_event_of(key: Key) -> KeyEvent {
    KeyEvent {
        code: key_code_of(key),
        modifiers: KeyModifiers { shift: false, control: key is Ctrl, alt: false },
    }
}

/// The key press that a normalized key is reported as.
pub fn key_event(key: Key) -> (event: KeyEvent)
    ensures
        event == key_event_of(key),
{
    let none: KeyModifiers = KeyModifiers::none();
    let control: KeyModifiers = KeyModifiers { shift: false, control: true, alt: false };
    let (code, modifiers): (KeyCode, KeyModifiers) = match key {
        Key::Char(c) => (KeyCode::Char(c), none),
        Key::Up => (KeyCode::Up, none),
        Key::Down => (KeyCode::Down, none),
        Key::Left => (KeyCode::Left, none),
        Key::Right => (KeyCode::Right, none),
        Key::Home => (KeyCode::Home, none),
        Key::End => (KeyCode::End, none),
        Key::PageUp => (KeyCode::PageUp, none),
        Key::PageDown => (KeyCode::PageDown, none),
        Key::Backspace => (KeyCode::Backspace, none),
        Key::Delete => (KeyCode::Delete, none),
        Key::Tab => (KeyCode::Tab, none),
        Key::BackTab => (KeyCode::BackTab, none),
        Key::Enter => (KeyCode::Enter, none),
        Key::Esc => (KeyCode::Esc, none),
        Key::Null => (KeyCode::Null, none),
        Key::Ctrl(c) => (KeyCode::Char(c), control),
    };
    KeyEvent { code, modifiers }
}

/// The event that a parsed event is handed on as.
pub open spec fn event_of(parsed: ParsedView) -> EventView {
    match parsed {
        ParsedView::Key(key) => EventView::Key(key_event_of(key)),
        ParsedView::Mouse(mouse) => EventView::Mouse(mouse),
        ParsedView::Paste(text) => EventView::Paste(text),
    }
}

/// The event that a parsed event is handed on as.
pub fn parsed_event(parsed: Parsed) -> (event: Event)
    ensures
        event@ == event_of(parsed@),
{
    match parsed {
        Parsed::Key(key) => Event::Key(key_event(key)),
        Parsed::Mouse(mouse) => Event::Mouse(mouse),
        Parsed::Paste(text) => Event::Paste(text),
    }
}

/// Different keys are reported as different key presses: nothing that the parser told apart is
/// lost on the way to the search screen.
pub proof fn law_key_events_tell_keys_apart(a: Key, b: Key)
    requires
        key_event_of(a) == key_event_of(b),
    ensures
        a == b,
{
}

} // verus!
