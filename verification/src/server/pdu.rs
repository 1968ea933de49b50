//! The messages of the multiplexer protocol. Each kind of message has a
//! number that never changes: a kind that is retired leaves its number
//! unused, and a new kind takes a new number, so that two builds of
//! different age can still tell each other's messages apart.

use crate::cmdbuilder::CommandBuilder;
use crate::mux::domain::DomainId;
use crate::mux::tab::TabId;
use crate::mux::window::WindowId;
use crate::pty::PtySize;
use crate::term::{CursorPosition, Hyperlink, KeyEvent, Line, MouseEvent};
use vstd::prelude::*;

verus! {

/// The kinds of message.
#[derive(Clone, Copy, Debug, PartialEq, Eq, Structural)]
pub enum PduKind {
    ErrorResponse,
    Ping,
    Pong,
    ListTabs,
    ListTabsResponse,
    GetCoarseTabRenderableData,
    GetCoarseTabRenderableDataResponse,
    Spawn,
    SpawnResponse,
    WriteToTab,
    UnitResponse,
    SendKeyDown,
    SendMouseEvent,
    SendPaste,
    Resize,
    SendMouseEventResponse,
}

impl PduKind {
    /// The number under which this kind travels.
    pub open spec fn spec_ident(self) -> u64 {
        match self {
            PduKind::ErrorResponse => 0,
            PduKind::Ping => 1,
            PduKind::Pong => 2,
            PduKind::ListTabs => 3,
            PduKind::ListTabsResponse => 4,
            PduKind::GetCoarseTabRenderableData => 5,
            PduKind::GetCoarseTabRenderableDataResponse => 6,
            PduKind::Spawn => 7,
            PduKind::SpawnResponse => 8,
            PduKind::WriteToTab => 9,
            PduKind::UnitResponse => 10,
            PduKind::SendKeyDown => 11,
            PduKind::SendMouseEvent => 12,
            PduKind::SendPaste => 13,
            PduKind::Resize => 14,
            PduKind::SendMouseEventResponse => 17,
        }
    }

    /// The kind that travels under `ident`, if any does.
    pub open spec fn spec_from_ident(ident: u64) -> Option<PduKind> {
        if ident == 0 {
            Some(PduKind::ErrorResponse)
        } else if ident == 1 {
            Some(PduKind::Ping)
        } else if ident == 2 {
            Some(PduKind::Pong)
        } else if ident == 3 {
            Some(PduKind::ListTabs)
        } else if ident == 4 {
            Some(PduKind::ListTabsResponse)
        } else if ident == 5 {
            Some(PduKind::GetCoarseTabRenderableData)
        } else if ident == 6 {
            Some(PduKind::GetCoarseTabRenderableDataResponse)
        } else if ident == 7 {
            Some(PduKind::Spawn)
        } else if ident == 8 {
            Some(PduKind::SpawnResponse)
        } else if ident == 9 {
            Some(PduKind::WriteToTab)
        } else if ident == 10 {
            Some(PduKind::UnitResponse)
        } else if ident == 11 {
            Some(PduKind::SendKeyDown)
        } else if ident == 12 {
            Some(PduKind::SendMouseEvent)
        } else if ident == 13 {
            Some(PduKind::SendPaste)
        } else if ident == 14 {
            Some(PduKind::Resize)
        } else if ident == 17 {
            Some(PduKind::SendMouseEventResponse)
        } else {
            None
        }
    }

    /// The number under which this kind travels.
    #[verifier::when_used_as_spec(spec_ident)]
    pub fn ident(self) -> (r: u64)
        ensures
            r == self.spec_ident(),
    {
        match self {
            PduKind::ErrorResponse => 0,
            PduKind::Ping => 1,
            PduKind::Pong => 2,
            PduKind::ListTabs => 3,
            PduKind::ListTabsResponse => 4,
            PduKind::GetCoarseTabRenderableData => 5,
            PduKind::GetCoarseTabRenderableDataResponse => 6,
            PduKind::Spawn => 7,
            PduKind::SpawnResponse => 8,
            PduKind::WriteToTab => 9,
            PduKind::UnitResponse => 10,
            PduKind::SendKeyDown => 11,
            PduKind::SendMouseEvent => 12,
            PduKind::SendPaste => 13,
            PduKind::Resize => 14,
            PduKind::SendMouseEventResponse => 17,
        }
    }

    /// The kind that travels under `ident`, if any does.
    #[verifier::when_used_as_spec(spec_from_ident)]
    pub fn from_ident(ident: u64) -> (r: Option<PduKind>)
        ensures
            r == PduKind::spec_from_ident(ident),
    {
        match ident {
            0 => Some(PduKind::ErrorResponse),
            1 => Some(PduKind::Ping),
            2 => Some(PduKind::Pong),
            3 => Some(PduKind::ListTabs),
            4 => Some(PduKind::ListTabsResponse),
            5 => Some(PduKind::GetCoarseTabRenderableData),
            6 => Some(PduKind::GetCoarseTabRenderableDataResponse),
            7 => Some(PduKind::Spawn),
            8 => Some(PduKind::SpawnResponse),
            9 => Some(PduKind::WriteToTab),
            10 => Some(PduKind::UnitResponse),
            11 => Some(PduKind::SendKeyDown),
            12 => Some(PduKind::SendMouseEvent),
            13 => Some(PduKind::SendPaste),
            14 => Some(PduKind::Resize),
            17 => Some(PduKind::SendMouseEventResponse),
            _ => None,
        }
    }
}

impl PduKind {
    /// The kind of the reply that a request of this kind gets where all
    /// goes well; none for a kind that is itself a reply. Where something
    /// goes wrong the reply is an `ErrorResponse`, whatever the request.
    pub open spec fn spec_response(self) -> Option<PduKind> {
        match self {
            PduKind::Ping => Some(PduKind::Pong),
            PduKind::ListTabs => Some(PduKind::ListTabsResponse),
            PduKind::GetCoarseTabRenderableData => Some(
                PduKind::GetCoarseTabRenderableDataResponse,
            ),
            PduKind::Spawn => Some(PduKind::SpawnResponse),
            PduKind::WriteToTab => Some(PduKind::UnitResponse),
            PduKind::SendKeyDown => Some(PduKind::UnitResponse),
            PduKind::SendMouseEvent => Some(PduKind::SendMouseEventResponse),
            PduKind::SendPaste => Some(PduKind::UnitResponse),
            PduKind::Resize => Some(PduKind::UnitResponse),
            _ => None,
        }
    }

    /// The kind of the reply that a request of this kind gets where all
    /// goes well.
    #[verifier::when_used_as_spec(spec_response)]
    pub fn response(self) -> (r: Option<PduKind>)
        ensures
            r == self.spec_response(),
    {
        match self {
            PduKind::Ping => Some(PduKind::Pong),
            PduKind::ListTabs => Some(PduKind::ListTabsResponse),
            PduKind::GetCoarseTabRenderableData => Some(
                PduKind::GetCoarseTabRenderableDataResponse,
            ),
            PduKind::Spawn => Some(PduKind::SpawnResponse),
            PduKind::WriteToTab => Some(PduKind::UnitResponse),
            PduKind::SendKeyDown => Some(PduKind::UnitResponse),
            PduKind::SendMouseEvent => Some(PduKind::SendMouseEventResponse),
            PduKind::SendPaste => Some(PduKind::UnitResponse),
            PduKind::Resize => Some(PduKind::UnitResponse),
            _ => None,
        }
    }

    /// Whether a message of this kind is a request, which goes from client
    /// to server.
    pub fn is_request(self) -> (r: bool)
        ensures
            r == self.spec_response() is Some,
    {
        self.response().is_some()
    }
}

/// Requests and replies do not mix: what answers a request is itself no
/// request, so a server never has to answer an answer.
pub proof fn replies_are_no_requests(request: PduKind)
    ensures
        request.spec_response() matches Some(reply) ==> reply.spec_response() is None,
        PduKind::ErrorResponse.spec_response() is None,
{
}

/// The numbers name the kinds one to one: a kind is found again under its
/// own number, and a number that finds a kind is that kind's number. So no
/// two kinds share a number, and what is no kind's number finds none.
pub proof fn idents_are_stable(kind: PduKind, ident: u64)
    ensures
        PduKind::spec_from_ident(kind.spec_ident()) == Some(kind),
        PduKind::spec_from_ident(ident) == Some(kind) <==> kind.spec_ident() == ident,
{
}

/// The reply to a request that has nothing to report but that it was done.
#[derive(Debug, PartialEq)]
pub struct UnitResponse {}

/// The reply to a request that failed. It comes under the serial of the
/// request, like any other reply.
#[derive(Debug, PartialEq)]
pub struct ErrorResponse {
    pub reason: String,
}

/// Asks whether the server is there.
#[derive(Debug, PartialEq)]
pub struct Ping {}

/// Says that it is.
#[derive(Debug, PartialEq)]
pub struct Pong {}

/// Asks for the tabs of the server.
#[derive(Debug, PartialEq)]
pub struct ListTabs {}

/// One tab of a listing: the window that shows it, the tab, and its title.
#[derive(Debug, PartialEq)]
pub struct WindowAndTabEntry {
    pub window_id: WindowId,
    pub tab_id: TabId,
    pub title: String,
}

/// The tabs of the server.
#[derive(Debug, PartialEq)]
pub struct ListTabsResponse {
    pub tabs: Vec<WindowAndTabEntry>,
}

/// Asks for what is needed to paint a tab: all of its rows where
/// `dirty_all` is set, else those that changed since the last such request.
#[derive(Debug, PartialEq)]
pub struct GetCoarseTabRenderableData {
    pub tab_id: TabId,
    pub dirty_all: bool,
}

/// A row that has changed: its index, the row, and the columns from which
/// and up to which the selection covers it.
#[derive(Debug, PartialEq)]
pub struct DirtyLine {
    pub line_idx: usize,
    pub line: Line,
    pub selection_col_from: usize,
    pub selection_col_to: usize,
}

/// What is needed to paint a tab: where the cursor is, how large the tab
/// is, the link under the mouse, the rows that changed, and the title.
#[derive(Debug, PartialEq)]
pub struct GetCoarseTabRenderableDataResponse {
    pub cursor_position: CursorPosition,
    pub physical_rows: usize,
    pub physical_cols: usize,
    pub current_highlight: Option<Hyperlink>,
    pub dirty_lines: Vec<DirtyLine>,
    pub title: String,
}

/// Asks for a new tab in a domain of the server.
#[derive(Debug, PartialEq)]
pub struct Spawn {
    pub domain_id: DomainId,
    /// If None, create a new window for this new tab
    pub window_id: Option<WindowId>,
    pub command: Option<CommandBuilder>,
    pub size: PtySize,
}

/// The tab that was made, and the window that shows it.
#[derive(Debug, PartialEq)]
pub struct SpawnResponse {
    pub tab_id: TabId,
    pub window_id: WindowId,
}

/// Bytes for the pty of a tab.
#[derive(Debug, PartialEq)]
pub struct WriteToTab {
    pub tab_id: TabId,
    pub data: Vec<u8>,
}

/// Text to paste into a tab.
#[derive(Debug, PartialEq)]
pub struct SendPaste {
    pub tab_id: TabId,
    pub data: String,
}

/// A key that went down over a tab.
#[derive(Debug, PartialEq)]
pub struct SendKeyDown {
    pub tab_id: TabId,
    pub event: KeyEvent,
}

/// Something that the mouse did over a tab.
#[derive(Debug, PartialEq)]
pub struct SendMouseEvent {
    pub tab_id: TabId,
    pub event: MouseEvent,
}

/// The reply to a mouse event: what to put on the clipboard, if the event
/// has selected something.
#[derive(Debug, PartialEq)]
pub struct SendMouseEventResponse {
    pub clipboard: Option<String>,
}

/// A new size for a tab.
#[derive(Debug, PartialEq)]
pub struct Resize {
    pub tab_id: TabId,
    pub size: PtySize,
}

/// A message. `Invalid` stands for one whose number this build does not
/// know: it can be received, and is never sent.
#[derive(Debug, PartialEq)]
pub enum Pdu {
    Invalid { ident: u64 },
    ErrorResponse(ErrorResponse),
    Ping(Ping),
    Pong(Pong),
    ListTabs(ListTabs),
    ListTabsResponse(ListTabsResponse),
    GetCoarseTabRenderableData(GetCoarseTabRenderableData),
    GetCoarseTabRenderableDataResponse(GetCoarseTabRenderableDataResponse),
    Spawn(Spawn),
    SpawnResponse(SpawnResponse),
    WriteToTab(WriteToTab),
    UnitResponse(UnitResponse),
    SendKeyDown(SendKeyDown),
    SendMouseEvent(SendMouseEvent),
    SendPaste(SendPaste),
    Resize(Resize),
    SendMouseEventResponse(SendMouseEventResponse),
}

impl Pdu {
    /// The kind of the message; none for `Invalid`.
    pub open spec fn spec_kind(&self) -> Option<PduKind> {
        match self {
            Pdu::Invalid { .. } => None,
            Pdu::ErrorResponse(_) => Some(PduKind::ErrorResponse),
            Pdu::Ping(_) => Some(PduKind::Ping),
            Pdu::Pong(_) => Some(PduKind::Pong),
            Pdu::ListTabs(_) => Some(PduKind::ListTabs),
            Pdu::ListTabsResponse(_) => Some(PduKind::ListTabsResponse),
            Pdu::GetCoarseTabRenderableData(_) => Some(PduKind::GetCoarseTabRenderableData),
            Pdu::GetCoarseTabRenderableDataResponse(_) => Some(
                PduKind::GetCoarseTabRenderableDataResponse,
            ),
            Pdu::Spawn(_) => Some(PduKind::Spawn),
            Pdu::SpawnResponse(_) => Some(PduKind::SpawnResponse),
            Pdu::WriteToTab(_) => Some(PduKind::WriteToTab),
            Pdu::UnitResponse(_) => Some(PduKind::UnitResponse),
            Pdu::SendKeyDown(_) => Some(PduKind::SendKeyDown),
            Pdu::SendMouseEvent(_) => Some(PduKind::SendMouseEvent),
            Pdu::SendPaste(_) => Some(PduKind::SendPaste),
            Pdu::Resize(_) => Some(PduKind::Resize),
            Pdu::SendMouseEventResponse(_) => Some(PduKind::SendMouseEventResponse),
        }
    }

    /// The kind of the message; none for `Invalid`.
    #[verifier::when_used_as_spec(spec_kind)]
    pub fn kind(&self) -> (r: Option<PduKind>)
        ensures
            r == self.spec_kind(),
    {
        match self {
            Pdu::Invalid { .. } => None,
            Pdu::ErrorResponse(_) => Some(PduKind::ErrorResponse),
            Pdu::Ping(_) => Some(PduKind::Ping),
            Pdu::Pong(_) => Some(PduKind::Pong),
            Pdu::ListTabs(_) => Some(PduKind::ListTabs),
            Pdu::ListTabsResponse(_) => Some(PduKind::ListTabsResponse),
            Pdu::GetCoarseTabRenderableData(_) => Some(PduKind::GetCoarseTabRenderableData),
            Pdu::GetCoarseTabRenderableDataResponse(_) => Some(
                PduKind::GetCoarseTabRenderableDataResponse,
            ),
            Pdu::Spawn(_) => Some(PduKind::Spawn),
            Pdu::SpawnResponse(_) => Some(PduKind::SpawnResponse),
            Pdu::WriteToTab(_) => Some(PduKind::WriteToTab),
            Pdu::UnitResponse(_) => Some(PduKind::UnitResponse),
            Pdu::SendKeyDown(_) => Some(PduKind::SendKeyDown),
            Pdu::SendMouseEvent(_) => Some(PduKind::SendMouseEvent),
            Pdu::SendPaste(_) => Some(PduKind::SendPaste),
            Pdu::Resize(_) => Some(PduKind::Resize),
            Pdu::SendMouseEventResponse(_) => Some(PduKind::SendMouseEventResponse),
        }
    }
}

/// A message as it was received, with the serial that it came under.
#[derive(Debug, PartialEq)]
pub struct DecodedPdu {
    pub serial: u64,
    pub pdu: Pdu,
}

} // verus!
