//! The client's side of a tab that lives in a server. Input goes out as
//! messages. What to paint is asked for at most every `POLL_INTERVAL` and
//! kept until the next answer.
//!
//! Nothing here sends or waits. `poll` is told the time and what has become
//! of the request that is under way, and says which request to send next;
//! whoever holds the connection does the sending.

use crate::mux::domain::DomainId;
use crate::mux::tab::{alloc_tab_id, IdCounter, TabId};
use crate::pty::PtySize;
use crate::server::pdu::{
    GetCoarseTabRenderableData, GetCoarseTabRenderableDataResponse, Resize, SendKeyDown,
    SendMouseEvent, SendMouseEventResponse, SendPaste, WriteToTab,
};
use crate::term::{CursorPosition, Hyperlink, KeyCode, KeyEvent, KeyModifiers, Line, MouseEvent};
use vstd::prelude::*;
use vstd::string::StringExecFns;

verus! {

/// The shortest time between an answer and the next request, in
/// nanoseconds: 50 ms.
pub const POLL_INTERVAL: u64 = 50_000_000;

/// What has become of the request that is under way.
#[derive(Debug, PartialEq)]
pub enum PollReply {
    /// No answer yet; also the value to pass where no request is under way.
    Pending,
    /// The answer.
    Ready(GetCoarseTabRenderableDataResponse),
    /// The connection failed.
    Failed,
}

/// The request failed; the tab is dead.
#[derive(Clone, Copy, Debug, PartialEq, Eq, Structural)]
pub struct PollFailed {}

/// What the client knows of a remote tab. Times are nanoseconds on a clock
/// that never runs backwards.
pub struct RenderableView {
    pub remote_tab_id: TabId,
    /// The last answer.
    pub coarse: Option<GetCoarseTabRenderableDataResponse>,
    /// When the last answer came in; before the first, when the tab was made.
    pub last_poll: u64,
    /// Whether the next request asks for every row.
    pub dirty_all: bool,
    /// Whether a request has failed. Once set it stays set.
    pub dead: bool,
    /// Whether a request is under way. There is never more than one.
    pub polling: bool,
}

/// The client's picture of a remote tab.
#[derive(Debug)]
pub struct RenderableState {
    remote_tab_id: TabId,
    coarse: Option<GetCoarseTabRenderableDataResponse>,
    last_poll: u64,
    dirty_all: bool,
    dead: bool,
    polling: bool,
}

impl View for RenderableState {
    type V = RenderableView;

    closed spec fn view(&self) -> RenderableView {
        RenderableView {
            remote_tab_id: self.remote_tab_id,
            coarse: self.coarse,
            last_poll: self.last_poll,
            dirty_all: self.dirty_all,
            dead: self.dead,
            polling: self.polling,
        }
    }
}

/// The time that has passed since `last_poll`; none where the clock reads
/// less than it did then.
pub open spec fn elapsed(last_poll: u64, now: u64) -> int {
    if now >= last_poll {
        now - last_poll
    } else {
        0
    }
}

impl RenderableView {
    /// Whether `poll` sends a request. It does not while one is under way.
    /// Once the answer is there, or where none was asked for, it sends at
    /// once if every row is wanted, else when `POLL_INTERVAL` has passed
    /// since the last answer. A failure only ends the request.
    pub open spec fn sends(self, now: u64, reply: PollReply) -> bool {
        if self.polling {
            reply is Ready && self.dirty_all
        } else {
            self.dirty_all || elapsed(self.last_poll, now) >= POLL_INTERVAL
        }
    }

    /// The state after `poll`.
    pub open spec fn polled(self, now: u64, reply: PollReply) -> RenderableView {
        let settled = if self.polling {
            match reply {
                PollReply::Pending => self,
                PollReply::Ready(coarse) => RenderableView {
                    coarse: Some(coarse),
                    last_poll: now,
                    polling: false,
                    ..self
                },
                PollReply::Failed => RenderableView { polling: false, ..self },
            }
        } else {
            self
        };
        if self.sends(now, reply) {
            RenderableView { polling: true, dirty_all: false, ..settled }
        } else {
            settled
        }
    }

    /// Whether the last answer names rows that changed.
    pub open spec fn has_dirty(self) -> bool {
        match self.coarse {
            Some(coarse) => coarse.dirty_lines@.len() > 0,
            None => false,
        }
    }

    /// The state after `has_dirty_lines`: that after `poll`, and dead where
    /// the request under way has failed.
    pub open spec fn checked(self, now: u64, reply: PollReply) -> RenderableView {
        RenderableView {
            dead: self.dead || (self.polling && reply is Failed),
            ..self.polled(now, reply)
        }
    }
}

impl RenderableState {
    /// The state of a tab that was just made: nothing known of it, every
    /// row wanted.
    pub fn new(remote_tab_id: TabId, now: u64) -> (r: Self)
        ensures
            r@ == (RenderableView {
                remote_tab_id,
                coarse: None,
                last_poll: now,
                dirty_all: true,
                dead: false,
                polling: false,
            }),
    {
        RenderableState {
            remote_tab_id,
            coarse: None,
            last_poll: now,
            dirty_all: true,
            dead: false,
            polling: false,
        }
    }

    /// Takes in what has become of the request under way, and decides
    /// whether to send another: the result holds the request to send, if
    /// any. `Err` means that the request under way has failed.
    pub fn poll(&mut self, now: u64, reply: PollReply) -> (r: Result<
        Option<GetCoarseTabRenderableData>,
        PollFailed,
    >)
        ensures
            final(self)@ == old(self)@.polled(now, reply),
            match r {
                Ok(Some(request)) => old(self)@.sends(now, reply) && request == (
                GetCoarseTabRenderableData {
                    tab_id: old(self)@.remote_tab_id,
                    dirty_all: old(self)@.dirty_all,
                }),
                Ok(None) => !old(self)@.sends(now, reply) && !(old(self)@.polling
                    && reply is Failed),
                Err(_) => old(self)@.polling && reply is Failed,
            },
    {
        if self.polling {
            match reply {
                PollReply::Pending => {
                    // We have a poll in progress
                    return Ok(None);
                },
                PollReply::Ready(coarse) => {
                    self.coarse = Some(coarse);
                    self.last_poll = now;
                    self.polling = false;
                },
                PollReply::Failed => {
                    self.polling = false;
                    return Err(PollFailed {  });
                },
            }
        }
        let dirty_all = self.dirty_all;
        if !dirty_all {
            let passed = if now >= self.last_poll {
                now - self.last_poll
            } else {
                0
            };
            if passed < POLL_INTERVAL {
                return Ok(None);
            }
        }
        self.polling = true;
        self.dirty_all = false;
        Ok(Some(GetCoarseTabRenderableData { tab_id: self.remote_tab_id, dirty_all }))
    }
}

impl RenderableState {
    /// The server's identifier of the tab.
    pub fn remote_tab_id(&self) -> (r: TabId)
        ensures
            r == self@.remote_tab_id,
    {
        self.remote_tab_id
    }

    /// The last answer, if there has been one.
    pub fn coarse(&self) -> (r: Option<&GetCoarseTabRenderableDataResponse>)
        ensures
            match self@.coarse {
                Some(coarse) => r matches Some(got) && *got == coarse,
                None => r is None,
            },
    {
        match &self.coarse {
            Some(coarse) => Some(coarse),
            None => None,
        }
    }

    /// When the last answer came in.
    pub fn last_poll(&self) -> (r: u64)
        ensures
            r == self@.last_poll,
    {
        self.last_poll
    }

    /// Whether the next request asks for every row.
    pub fn wants_all(&self) -> (r: bool)
        ensures
            r == self@.dirty_all,
    {
        self.dirty_all
    }

    /// Whether a request has failed.
    pub fn is_dead(&self) -> (r: bool)
        ensures
            r == self@.dead,
    {
        self.dead
    }

    /// Whether a request is under way.
    pub fn is_polling(&self) -> (r: bool)
        ensures
            r == self@.polling,
    {
        self.polling
    }

    /// Where the cursor was at the last answer; the top left corner before
    /// the first.
    pub fn get_cursor_position(&self) -> (r: CursorPosition)
        ensures
            r == match self@.coarse {
                Some(coarse) => coarse.cursor_position,
                None => CursorPosition { x: 0, y: 0 },
            },
    {
        match &self.coarse {
            Some(coarse) => coarse.cursor_position,
            None => CursorPosition::default(),
        }
    }

    /// The rows that changed: for each its index, the row, and the columns
    /// from which and up to which the selection covers it.
    pub fn get_dirty_lines(&self) -> (r: Vec<(usize, Line, usize, usize)>)
        ensures
            match self@.coarse {
                Some(coarse) => {
                    &&& r@.len() == coarse.dirty_lines@.len()
                    &&& forall|i: int|
                        0 <= i < r@.len() ==> {
                            let dl = coarse.dirty_lines@[i];
                            &&& (#[trigger] r@[i]).0 == dl.line_idx
                            &&& r@[i].1@ == dl.line@
                            &&& r@[i].2 == dl.selection_col_from
                            &&& r@[i].3 == dl.selection_col_to
                        }
                },
                None => r@.len() == 0,
            },
    {
        let mut out: Vec<(usize, Line, usize, usize)> = Vec::new();
        match &self.coarse {
            Some(coarse) => {
                let mut i: usize = 0;
                while i < coarse.dirty_lines.len()
                    invariant
                        i <= coarse.dirty_lines@.len(),
                        out@.len() == i,
                        forall|j: int|
                            0 <= j < i ==> {
                                let dl = coarse.dirty_lines@[j];
                                &&& (#[trigger] out@[j]).0 == dl.line_idx
                                &&& out@[j].1@ == dl.line@
                                &&& out@[j].2 == dl.selection_col_from
                                &&& out@[j].3 == dl.selection_col_to
                            },
                    decreases coarse.dirty_lines.len() - i,
                {
                    let dl = &coarse.dirty_lines[i];
                    out.push(
                        (dl.line_idx, dl.line.duplicate(), dl.selection_col_from, dl.selection_col_to),
                    );
                    i = i + 1;
                }
            },
            None => {},
        }
        out
    }

    /// Says whether rows have changed. On the way it polls: the second part
    /// of the result is the request to send, if any. A request that has
    /// failed leaves the tab dead.
    pub fn has_dirty_lines(&mut self, now: u64, reply: PollReply) -> (r: (
        bool,
        Option<GetCoarseTabRenderableData>,
    ))
        ensures
            final(self)@ == old(self)@.checked(now, reply),
            r.0 == final(self)@.has_dirty(),
            match r.1 {
                Some(request) => old(self)@.sends(now, reply) && request == (
                GetCoarseTabRenderableData {
                    tab_id: old(self)@.remote_tab_id,
                    dirty_all: old(self)@.dirty_all,
                }),
                None => !old(self)@.sends(now, reply),
            },
            old(self)@.dead ==> final(self)@.dead,
    {
        let request = match self.poll(now, reply) {
            Ok(request) => request,
            Err(_) => {
                self.dead = true;
                None
            },
        };
        let dirty = match &self.coarse {
            Some(coarse) => coarse.dirty_lines.len() > 0,
            None => false,
        };
        (dirty, request)
    }

    /// Makes the next request ask for every row.
    pub fn make_all_lines_dirty(&mut self)
        ensures
            final(self)@ == (RenderableView { dirty_all: true, ..old(self)@ }),
    {
        self.dirty_all = true;
    }

    /// Forgets the rows that changed, once they are painted.
    pub fn clean_dirty_lines(&mut self)
        ensures
            !final(self)@.has_dirty(),
            final(self)@.remote_tab_id == old(self)@.remote_tab_id,
            final(self)@.last_poll == old(self)@.last_poll,
            final(self)@.dirty_all == old(self)@.dirty_all,
            final(self)@.dead == old(self)@.dead,
            final(self)@.polling == old(self)@.polling,
            match (old(self)@.coarse, final(self)@.coarse) {
                (Some(before), Some(after)) => after.dirty_lines@.len() == 0
                    && after.cursor_position == before.cursor_position && after.physical_rows
                    == before.physical_rows && after.physical_cols == before.physical_cols
                    && after.current_highlight == before.current_highlight && after.title
                    == before.title,
                (None, None) => true,
                _ => false,
            },
    {
        match self.coarse.take() {
            Some(mut coarse) => {
                coarse.dirty_lines.clear();
                self.coarse = Some(coarse);
            },
            None => {},
        }
    }

    /// The link that the last answer named, if it named one.
    pub fn current_highlight(&self) -> (r: Option<&Hyperlink>)
        ensures
            match self@.coarse {
                Some(coarse) => match coarse.current_highlight {
                    Some(link) => r matches Some(got) && *got == link,
                    None => r is None,
                },
                None => r is None,
            },
    {
        match &self.coarse {
            Some(coarse) => match &coarse.current_highlight {
                Some(link) => Some(link),
                None => None,
            },
            None => None,
        }
    }

    /// Rows and columns of the tab: 24 by 80 until an answer says
    /// otherwise.
    pub fn physical_dimensions(&self) -> (r: (usize, usize))
        ensures
            r == match self@.coarse {
                Some(coarse) => (coarse.physical_rows, coarse.physical_cols),
                None => (24usize, 80usize),
            },
    {
        match &self.coarse {
            Some(coarse) => (coarse.physical_rows, coarse.physical_cols),
            None => (24, 80),
        }
    }
}

/// A tab of this process that stands for one in a server.
#[derive(Debug)]
pub struct ClientTab {
    pub local_domain_id: DomainId,
    pub local_tab_id: TabId,
    pub remote_tab_id: TabId,
    pub renderable: RenderableState,
}

/// What every title of a remote tab begins with.
pub open spec fn muxed_prefix() -> Seq<char> {
    "[muxed] "@
}

impl ClientTab {
    /// The tab for the server's tab `remote_tab_id`, under a fresh
    /// identifier of this process.
    pub fn new(
        local_domain_id: DomainId,
        tab_ids: &mut IdCounter,
        remote_tab_id: TabId,
        now: u64,
    ) -> (r: Self)
        requires
            old(tab_ids).next_id() < usize::MAX,
        ensures
            r.local_domain_id == local_domain_id,
            r.local_tab_id == old(tab_ids).next_id(),
            r.remote_tab_id == remote_tab_id,
            r.renderable@ == (RenderableView {
                remote_tab_id,
                coarse: None,
                last_poll: now,
                dirty_all: true,
                dead: false,
                polling: false,
            }),
            final(tab_ids).next_id() == old(tab_ids).next_id() + 1,
    {
        let local_tab_id = alloc_tab_id(tab_ids);
        ClientTab {
            local_domain_id,
            local_tab_id,
            remote_tab_id,
            renderable: RenderableState::new(remote_tab_id, now),
        }
    }

    /// The identifier of the tab in this process.
    pub fn tab_id(&self) -> (r: TabId)
        ensures
            r == self.local_tab_id,
    {
        self.local_tab_id
    }

    /// The domain of this process that the tab belongs to.
    pub fn domain_id(&self) -> (r: DomainId)
        ensures
            r == self.local_domain_id,
    {
        self.local_domain_id
    }

    /// The title that the server last gave, marked as remote.
    pub fn get_title(&self) -> (r: String)
        ensures
            r@ == muxed_prefix() + match self.renderable@.coarse {
                Some(coarse) => coarse.title@,
                None => Seq::empty(),
            },
    {
        let mut title = String::from_str("[muxed] ");
        match &self.renderable.coarse {
            Some(coarse) => {
                title.append(coarse.title.as_str());
            },
            None => {
                assert(title@ + Seq::<char>::empty() =~= title@);
            },
        }
        title
    }

    /// The message that pastes `text` into the tab.
    pub fn send_paste(&self, text: &str) -> (r: SendPaste)
        ensures
            r.tab_id == self.remote_tab_id,
            r.data@ == text@,
    {
        SendPaste { tab_id: self.remote_tab_id, data: text.to_owned() }
    }

    /// The message that writes `data` to the tab's pty.
    pub fn write(&self, data: &[u8]) -> (r: WriteToTab)
        ensures
            r.tab_id == self.remote_tab_id,
            r.data@ == data@,
    {
        WriteToTab { tab_id: self.remote_tab_id, data: vstd::slice::slice_to_vec(data) }
    }

    /// The message that resizes the tab.
    pub fn resize(&self, size: PtySize) -> (r: Resize)
        ensures
            r == (Resize { tab_id: self.remote_tab_id, size }),
    {
        Resize { tab_id: self.remote_tab_id, size }
    }

    /// The message for a key that went down.
    pub fn key_down(&self, key: KeyCode, mods: KeyModifiers) -> (r: SendKeyDown)
        ensures
            r == (SendKeyDown {
                tab_id: self.remote_tab_id,
                event: KeyEvent { key, modifiers: mods },
            }),
    {
        SendKeyDown { tab_id: self.remote_tab_id, event: KeyEvent { key, modifiers: mods } }
    }

    /// The message for something that the mouse did.
    pub fn mouse_event(&self, event: MouseEvent) -> (r: SendMouseEvent)
        ensures
            r == (SendMouseEvent { tab_id: self.remote_tab_id, event }),
    {
        SendMouseEvent { tab_id: self.remote_tab_id, event }
    }

    /// What to put on the clipboard after the server has answered a mouse
    /// event: the text that the answer carries, and nothing where it
    /// carries none.
    pub fn clipboard_update(response: SendMouseEventResponse) -> (r: Option<String>)
        ensures
            r == response.clipboard,
    {
        response.clipboard
    }

    /// Whether a request for the tab has failed.
    pub fn is_dead(&self) -> (r: bool)
        ensures
            r == self.renderable@.dead,
    {
        self.renderable.is_dead()
    }
}

/// One call of `poll`: the time, and what had become of the request.
pub struct PollEvent {
    pub now: u64,
    pub reply: PollReply,
}

/// The state after a run of polls.
pub open spec fn polled_all(s: RenderableView, events: Seq<PollEvent>) -> RenderableView
    decreases events.len(),
{
    if events.len() == 0 {
        s
    } else {
        polled_all(s, events.drop_last()).polled(events.last().now, events.last().reply)
    }
}

/// After a request was sent at `since`, and while nothing but polls without
/// failure has happened: not every row is wanted, and either an answer is
/// awaited or the last one came no earlier than `since`.
spec fn waits_since(s: RenderableView, since: u64) -> bool {
    !s.dirty_all && (s.polling || s.last_poll >= since)
}

proof fn lemma_waits_on(s: RenderableView, events: Seq<PollEvent>, i: int, k: int)
    requires
        0 <= i < k <= events.len(),
        forall|a: int, b: int| i <= a <= b < k ==> events[a].now <= events[b].now,
        forall|m: int| i < m < k ==> !(events[m].reply is Failed),
        polled_all(s, events.take(i)).sends(events[i].now, events[i].reply),
    ensures
        waits_since(polled_all(s, events.take(k)), events[i].now),
    decreases k - i,
{
    assert(events.take(k).drop_last() =~= events.take(k - 1));
    assert(events.take(k).last() == events[k - 1]);
    if k > i + 1 {
        lemma_waits_on(s, events, i, k - 1);
    }
}

/// Requests keep their distance. In a run of polls in time order, take two
/// that each send a request. If no request failed after the first of them,
/// and nothing but polls happened in between (so nobody asked for every
/// row), then at least `POLL_INTERVAL` lies between the two.
pub proof fn poll_rate_bound(s: RenderableView, events: Seq<PollEvent>, i: int, j: int)
    requires
        0 <= i < j < events.len(),
        forall|a: int, b: int| i <= a <= b <= j ==> events[a].now <= events[b].now,
        forall|m: int| i < m <= j ==> !(events[m].reply is Failed),
        polled_all(s, events.take(i)).sends(events[i].now, events[i].reply),
        polled_all(s, events.take(j)).sends(events[j].now, events[j].reply),
    ensures
        events[j].now - events[i].now >= POLL_INTERVAL,
{
    lemma_waits_on(s, events, i, j);
}

} // verus!
