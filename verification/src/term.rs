//! What the multiplexer carries of the terminal model: where the cursor is,
//! the rows that changed, and the keys and mouse events that go to a tab.
//! The model itself lives elsewhere; nothing here looks inside a row.

use vstd::prelude::*;

verus! {

/// Where the cursor stands: the column, and the row counted from the top of
/// the visible screen.
#[derive(Clone, Copy, Debug, PartialEq, Eq, Structural)]
pub struct CursorPosition {
    pub x: usize,
    pub y: i64,
}

impl Default for CursorPosition {
    fn default() -> (r: Self)
        ensures
            r == (CursorPosition { x: 0, y: 0 }),
    {
        CursorPosition { x: 0, y: 0 }
    }
}

/// One row of the screen, in the form in which the terminal model hands it
/// over. The multiplexer passes it on as it is.
#[derive(Debug, PartialEq, Eq)]
pub struct Line {
    pub cells: Vec<u8>,
}

impl View for Line {
    type V = Seq<u8>;

    open spec fn view(&self) -> Seq<u8> {
        self.cells@
    }
}

impl Line {
    /// A copy of the row.
    pub fn duplicate(&self) -> (r: Line)
        ensures
            r@ == self@,
    {
        let cells = self.cells.clone();
        assert(cells@ =~= self.cells@);
        Line { cells }
    }
}

/// A link that a stretch of text carries.
#[derive(Debug, PartialEq, Eq)]
pub struct Hyperlink {
    pub uri: String,
    pub params: Vec<(String, String)>,
    /// Whether a rule found the link in the text, rather than an escape
    /// sequence declaring it.
    pub implicit: bool,
}

/// No modifier key.
pub const MOD_NONE: u8 = 0;

pub const MOD_SHIFT: u8 = 2;

pub const MOD_ALT: u8 = 4;

pub const MOD_CTRL: u8 = 8;

pub const MOD_SUPER: u8 = 16;

/// The modifier keys that were down, one bit each.
#[derive(Clone, Copy, Debug, PartialEq, Eq, Structural)]
pub struct KeyModifiers {
    pub bits: u8,
}

/// Which key: one that types a character, or another, by the number that
/// the keyboard layer has for it.
#[derive(Clone, Copy, Debug, PartialEq, Eq, Structural)]
pub enum KeyCode {
    Char(char),
    Other(u32),
}

/// A key, and the modifiers that were down with it.
#[derive(Clone, Copy, Debug, PartialEq, Eq, Structural)]
pub struct KeyEvent {
    pub key: KeyCode,
    pub modifiers: KeyModifiers,
}

/// A button of the mouse, or a turn of its wheel.
#[derive(Clone, Copy, Debug, PartialEq, Eq, Structural)]
pub enum MouseButton {
    Left,
    Middle,
    Right,
    WheelUp,
    WheelDown,
    /// No button: the mouse only moved.
    NoButton,
}

/// What the mouse did.
#[derive(Clone, Copy, Debug, PartialEq, Eq, Structural)]
pub enum MouseEventKind {
    Press,
    Release,
    Move,
}

/// What the mouse did, and over which cell.
#[derive(Clone, Copy, Debug, PartialEq, Eq, Structural)]
pub struct MouseEvent {
    pub kind: MouseEventKind,
    pub x: usize,
    pub y: i64,
    pub button: MouseButton,
    pub modifiers: KeyModifiers,
}

/// The host could not do what it was asked to.
#[derive(Debug, PartialEq, Eq)]
pub struct HostError {
    pub reason: String,
}

/// Represents the host of the terminal.
/// Provides a means for sending data to the connected pty,
/// and for operating on the clipboard
pub trait TerminalHost {
    /// Sends data to the slave end of the associated pty, and says how many
    /// bytes of it went out.
    fn write(&mut self, data: &[u8]) -> Result<usize, HostError>;

    /// Returns the current clipboard contents
    fn get_clipboard(&mut self) -> Result<String, HostError>;

    /// Adjust the contents of the clipboard
    fn set_clipboard(&mut self, clip: Option<String>) -> Result<(), HostError>;

    /// Change the title of the window
    fn set_title(&mut self, title: &str);

    /// Called when a URL is clicked
    fn click_link(&mut self, link: &Hyperlink);

    /// Switch to a specific tab
    fn activate_tab(&mut self, _tab: usize) {
    }

    /// Activate a relative tab number
    fn activate_tab_relative(&mut self, _delta: isize) {
    }

    /// Toggle full-screen mode
    fn toggle_full_screen(&mut self) {
    }

    /// Increase font size by one step
    fn increase_font_size(&mut self) {
    }

    /// Decrease font size by one step
    fn decrease_font_size(&mut self) {
    }

    /// Reset font size
    fn reset_font_size(&mut self) {
    }
}

} // verus!
