//! What a terminal window under X11 does with the events that the server
//! sends it. Taking an event apart, and painting, belong to whoever holds
//! the connection; what an event means for the window is decided here.

use crate::mux::window::WindowId;
use crate::term::{
    KeyCode, KeyEvent, KeyModifiers, MouseButton, MouseEvent, MouseEventKind, MOD_SUPER,
};
use vstd::prelude::*;

verus! {

/// The codes of the core protocol for the events that a terminal window
/// looks at.
pub const KEY_PRESS: u8 = 2;

pub const BUTTON_PRESS: u8 = 4;

pub const BUTTON_RELEASE: u8 = 5;

pub const MOTION_NOTIFY: u8 = 6;

pub const EXPOSE: u8 = 12;

pub const CONFIGURE_NOTIFY: u8 = 22;

pub const CLIENT_MESSAGE: u8 = 33;

/// The code of an event: its response type without the bit that marks an
/// event sent by another client.
pub fn event_code(response_type: u8) -> (r: u8)
    ensures
        r == response_type % 128,
{
    assert(response_type & 0x7f == response_type % 128) by (bit_vector);
    response_type & 0x7f
}

/// An event, taken apart.
#[derive(Clone, Copy, Debug, PartialEq, Eq, Structural)]
pub enum X11Event {
    Expose,
    ConfigureNotify { width: u16, height: u16 },
    /// A key went down; `key` is what the keyboard layer made of it.
    KeyPress { key: Option<KeyEvent> },
    MotionNotify { event_x: i16, event_y: i16, modifiers: KeyModifiers },
    /// A button went down or up: `code` is `BUTTON_PRESS` or
    /// `BUTTON_RELEASE`, `detail` the button's number.
    Button { code: u8, detail: u8, event_x: i16, event_y: i16, modifiers: KeyModifiers },
    /// A message from another client; `data` is the first word of it.
    ClientMessage { data: u32 },
    Other,
}

impl X11Event {
    /// Whether the event names a point of the window, which has to be
    /// turned into a cell: the mouse moved, or one of its buttons went down
    /// or up.
    pub open spec fn locates(self) -> bool {
        self is MotionNotify || self is Button
    }
}

/// What the window does about an event.
#[derive(Clone, Copy, Debug, PartialEq, Eq, Structural)]
pub enum WindowAction {
    Nothing,
    Paint,
    /// Look at the pending resize as soon as the event loop comes round.
    ScheduleResizeCheck,
    /// Open another window.
    SpawnNewWindow,
    /// Offer the key to the shortcuts of the GUI, and send it to the tab in
    /// front where none takes it.
    Key { code: KeyCode, mods: KeyModifiers },
    /// Send the mouse event to the tab in front.
    Mouse(MouseEvent),
}

/// The window was closed.
#[derive(Clone, Copy, Debug, PartialEq, Eq, Structural)]
pub struct WindowClosed {}

/// A size in pixels.
#[derive(Clone, Copy, Debug, PartialEq, Eq, Structural)]
pub struct PixelSize {
    pub width: u16,
    pub height: u16,
}

/// The size of a window and of its cells, in pixels.
#[derive(Clone, Copy, Debug, PartialEq, Eq, Structural)]
pub struct Dimensions {
    pub width: u16,
    pub height: u16,
    pub cell_height: usize,
    pub cell_width: usize,
}

/// What a terminal window under X11 knows of itself: its size and the size
/// of its cells, in pixels; the size that the server last announced and
/// that has not been acted on yet; and the window of the registry that it
/// shows.
#[derive(Clone, Copy, Debug, PartialEq, Eq, Structural)]
pub struct X11TerminalWindow {
    pub width: u16,
    pub height: u16,
    pub cell_height: usize,
    pub cell_width: usize,
    pub have_pending_resize: Option<PixelSize>,
    pub mux_window_id: WindowId,
}

/// The number that a signed 16-bit coordinate turns into when it is read as
/// an unsigned machine word: itself, or for a negative one as far below the
/// word's range as it lies below zero.
pub open spec fn as_word(v: i16) -> int {
    if v >= 0 {
        v as int
    } else {
        usize::MAX + 1 + v
    }
}

/// The number that a machine word turns into when it is read as a signed
/// 64-bit number.
pub open spec fn as_signed(v: usize) -> int {
    if v <= i64::MAX {
        v as int
    } else {
        v - 0x1_0000_0000_0000_0000
    }
}

/// The button that goes by the number `detail`.
pub open spec fn button_for(detail: u8) -> Option<MouseButton> {
    if detail == 1 {
        Some(MouseButton::Left)
    } else if detail == 2 {
        Some(MouseButton::Middle)
    } else if detail == 3 {
        Some(MouseButton::Right)
    } else if detail == 4 {
        Some(MouseButton::WheelUp)
    } else if detail == 5 {
        Some(MouseButton::WheelDown)
    } else {
        None
    }
}

fn word_of(v: i16) -> (r: usize)
    ensures
        r == as_word(v),
{
    if v >= 0 {
        v as usize
    } else {
        let below: usize = (-(v as i32)) as usize;
        usize::MAX - (below - 1)
    }
}

fn signed_of(v: usize) -> (r: i64)
    ensures
        r == as_signed(v),
{
    let wide: u64 = v as u64;
    if wide <= 0x7fff_ffff_ffff_ffff {
        wide as i64
    } else {
        let over: u64 = wide - 0x8000_0000_0000_0000;
        (over as i64) + (-0x7fff_ffff_ffff_ffff - 1)
    }
}

impl X11TerminalWindow {
    /// The cell under a point of the window: the column, and the row.
    pub open spec fn cell_at(self, event_x: i16, event_y: i16) -> (usize, i64) {
        (
            (as_word(event_x) / self.cell_width as int) as usize,
            as_signed((as_word(event_y) / self.cell_height as int) as usize) as i64,
        )
    }

    /// What follows from `event` where a tab is in front of the window
    /// (`has_tab`), and where `atom_delete` is the word by which the window
    /// manager asks a window to close.
    pub open spec fn action_for(self, event: X11Event, has_tab: bool, atom_delete: u32) -> Result<
        WindowAction,
        WindowClosed,
    > {
        match event {
            X11Event::Expose => Ok(WindowAction::Paint),
            X11Event::ConfigureNotify { width, height } => if self.have_pending_resize is None {
                Ok(WindowAction::ScheduleResizeCheck)
            } else {
                Ok(WindowAction::Nothing)
            },
            X11Event::KeyPress { key } => match key {
                Some(key) => if !has_tab {
                    Ok(WindowAction::Nothing)
                } else if key.modifiers.bits == MOD_SUPER && key.key == KeyCode::Char('n') {
                    Ok(WindowAction::SpawnNewWindow)
                } else {
                    Ok(WindowAction::Key { code: key.key, mods: key.modifiers })
                },
                None => Ok(WindowAction::Nothing),
            },
            X11Event::MotionNotify { event_x, event_y, modifiers } => if has_tab {
                Ok(
                    WindowAction::Mouse(
                        MouseEvent {
                            kind: MouseEventKind::Move,
                            button: MouseButton::NoButton,
                            x: self.cell_at(event_x, event_y).0,
                            y: self.cell_at(event_x, event_y).1,
                            modifiers,
                        },
                    ),
                )
            } else {
                Ok(WindowAction::Nothing)
            },
            X11Event::Button { code, detail, event_x, event_y, modifiers } => match button_for(
                detail,
            ) {
                Some(button) => if has_tab && (code == BUTTON_PRESS || code == BUTTON_RELEASE) {
                    Ok(
                        WindowAction::Mouse(
                            MouseEvent {
                                kind: if code == BUTTON_PRESS {
                                    MouseEventKind::Press
                                } else {
                                    MouseEventKind::Release
                                },
                                button,
                                x: self.cell_at(event_x, event_y).0,
                                y: self.cell_at(event_x, event_y).1,
                                modifiers,
                            },
                        ),
                    )
                } else {
                    Ok(WindowAction::Nothing)
                },
                None => Ok(WindowAction::Nothing),
            },
            X11Event::ClientMessage { data } => if data == atom_delete {
                Err(WindowClosed {  })
            } else {
                Ok(WindowAction::Nothing)
            },
            X11Event::Other => Ok(WindowAction::Nothing),
        }
    }

    /// The dimensions after `event`: a new size is noted as pending, and
    /// nothing else changes them.
    pub open spec fn after_event(self, event: X11Event) -> X11TerminalWindow {
        match event {
            X11Event::ConfigureNotify { width, height } => X11TerminalWindow {
                have_pending_resize: Some(PixelSize { width, height }),
                ..self
            },
            _ => self,
        }
    }

    /// A window for a tab of `physical_rows` by `physical_cols` cells, each
    /// `cell_width` by `cell_height` pixels, that shows the window
    /// `mux_window_id` of the registry.
    pub fn new(
        cell_width: usize,
        cell_height: usize,
        physical_rows: usize,
        physical_cols: usize,
        mux_window_id: WindowId,
    ) -> (r: Self)
        requires
            cell_width * physical_cols <= usize::MAX,
            cell_height * physical_rows <= usize::MAX,
        ensures
            r == (X11TerminalWindow {
                width: ((cell_width * physical_cols) % 0x1_0000) as u16,
                height: ((cell_height * physical_rows) % 0x1_0000) as u16,
                cell_height,
                cell_width,
                have_pending_resize: None,
                mux_window_id,
            }),
    {
        let (width, height) = window_size(cell_width, cell_height, physical_rows, physical_cols);
        X11TerminalWindow {
            width,
            height,
            cell_height,
            cell_width,
            have_pending_resize: None,
            mux_window_id,
        }
    }

    /// The window of the registry that this window shows.
    pub fn get_mux_window_id(&self) -> (r: WindowId)
        ensures
            r == self.mux_window_id,
    {
        self.mux_window_id
    }

    /// The size of the window and of its cells.
    pub fn get_dimensions(&self) -> (r: Dimensions)
        ensures
            r == (Dimensions {
                width: self.width,
                height: self.height,
                cell_height: self.cell_height,
                cell_width: self.cell_width,
            }),
    {
        Dimensions {
            width: self.width,
            height: self.height,
            cell_height: self.cell_height,
            cell_width: self.cell_width,
        }
    }

    /// The cell under the point `(event_x, event_y)` of the window.
    pub fn cell_under(&self, event_x: i16, event_y: i16) -> (r: (usize, i64))
        requires
            self.cell_width > 0,
            self.cell_height > 0,
        ensures
            r == self.cell_at(event_x, event_y),
    {
        let x: usize = word_of(event_x) / self.cell_width;
        let y: usize = word_of(event_y) / self.cell_height;
        (x, signed_of(y))
    }

    /// Decides what the window does about an event. An event of the mouse
    /// is located by cell, so the cells must have a size by then; for every
    /// other event they need none.
    pub fn dispatch_event(&mut self, event: X11Event, has_tab: bool, atom_delete: u32) -> (r: Result<
        WindowAction,
        WindowClosed,
    >)
        requires
            event.locates() ==> old(self).cell_width > 0 && old(self).cell_height > 0,
        ensures
            r == old(self).action_for(event, has_tab, atom_delete),
            *final(self) == old(self).after_event(event),
    {
        match event {
            X11Event::Expose => Ok(WindowAction::Paint),
            X11Event::ConfigureNotify { width, height } => {
                let schedule = self.have_pending_resize.is_none();
                self.have_pending_resize = Some(PixelSize { width, height });
                if schedule {
                    Ok(WindowAction::ScheduleResizeCheck)
                } else {
                    Ok(WindowAction::Nothing)
                }
            },
            X11Event::KeyPress { key } => {
                if !has_tab {
                    return Ok(WindowAction::Nothing);
                }
                match key {
                    Some(key) => {
                        if key.modifiers.bits == MOD_SUPER && key.key == KeyCode::Char('n') {
                            return Ok(WindowAction::SpawnNewWindow);
                        }
                        Ok(WindowAction::Key { code: key.key, mods: key.modifiers })
                    },
                    None => Ok(WindowAction::Nothing),
                }
            },
            X11Event::MotionNotify { event_x, event_y, modifiers } => {
                if !has_tab {
                    return Ok(WindowAction::Nothing);
                }
                let (x, y) = self.cell_under(event_x, event_y);
                Ok(
                    WindowAction::Mouse(
                        MouseEvent {
                            kind: MouseEventKind::Move,
                            button: MouseButton::NoButton,
                            x,
                            y,
                            modifiers,
                        },
                    ),
                )
            },
            X11Event::Button { code, detail, event_x, event_y, modifiers } => {
                let kind = if code == BUTTON_PRESS {
                    MouseEventKind::Press
                } else if code == BUTTON_RELEASE {
                    MouseEventKind::Release
                } else {
                    return Ok(WindowAction::Nothing);
                };
                let button = match detail {
                    1 => MouseButton::Left,
                    2 => MouseButton::Middle,
                    3 => MouseButton::Right,
                    4 => MouseButton::WheelUp,
                    5 => MouseButton::WheelDown,
                    _ => {
                        return Ok(WindowAction::Nothing);
                    },
                };
                if !has_tab {
                    return Ok(WindowAction::Nothing);
                }
                let (x, y) = self.cell_under(event_x, event_y);
                Ok(WindowAction::Mouse(MouseEvent { kind, button, x, y, modifiers }))
            },
            X11Event::ClientMessage { data } => {
                if data == atom_delete {
                    return Err(WindowClosed {  });
                }
                Ok(WindowAction::Nothing)
            },
            X11Event::Other => Ok(WindowAction::Nothing),
        }
    }

    /// Takes the pending size, for the window to go to.
    pub fn check_for_resize(&mut self) -> (r: Option<PixelSize>)
        ensures
            r == old(self).have_pending_resize,
            *final(self) == (X11TerminalWindow { have_pending_resize: None, ..*old(self) }),
    {
        self.have_pending_resize.take()
    }

    /// Notes that the cells have a new size.
    pub fn advise_renderer_that_scaling_has_changed(&mut self, cell_width: usize, cell_height: usize)
        ensures
            *final(self) == (X11TerminalWindow { cell_width, cell_height, ..*old(self) }),
    {
        self.cell_width = cell_width;
        self.cell_height = cell_height;
    }

    /// Notes that the window has a new size.
    pub fn advise_renderer_of_resize(&mut self, width: u16, height: u16)
        ensures
            *final(self) == (X11TerminalWindow { width, height, ..*old(self) }),
    {
        self.width = width;
        self.height = height;
    }
}

/// The size in pixels of a new window for a tab of `physical_rows` by
/// `physical_cols` cells: as many pixels as the cells take, as far as 16
/// bits hold them.
pub fn window_size(
    cell_width: usize,
    cell_height: usize,
    physical_rows: usize,
    physical_cols: usize,
) -> (r: (u16, u16))
    requires
        cell_width * physical_cols <= usize::MAX,
        cell_height * physical_rows <= usize::MAX,
    ensures
        r.0 == (cell_width * physical_cols) % 0x1_0000,
        r.1 == (cell_height * physical_rows) % 0x1_0000,
{
    let width: usize = cell_width * physical_cols;
    let height: usize = cell_height * physical_rows;
    assert(width & 0xffff == width % 0x1_0000) by (bit_vector);
    assert(height & 0xffff == height % 0x1_0000) by (bit_vector);
    ((width & 0xffff) as u16, (height & 0xffff) as u16)
}

} // verus!
