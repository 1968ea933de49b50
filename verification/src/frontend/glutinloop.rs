//! The rules of the GUI thread's event loop. Work for the GUI thread comes
//! in on two ways. What the GUI thread itself submits is urgent and goes
//! into a queue without bound. What other threads submit goes through a
//! channel that holds `GUI_CHANNEL_CAPACITY` pieces: a thread that finds it
//! full waits, and so a pty that floods its reader cannot starve the user's
//! input.
//!
//! One round of the loop runs the urgent queue empty, then takes from the
//! channel until it is empty or `MAX_POLL_LOOP_DURATION` has passed, then
//! sees to the ticks that are due, then waits for the next event.
//!
//! The two queues, the round (`GuiRound`) and the other decisions of the
//! loop are here. The clock, the windows, and the waiting and waking of
//! threads belong to whoever runs the loop: the round says when the clock
//! is to be started, and is told what it reads.

use std::collections::VecDeque;
use vstd::prelude::*;

verus! {

/// How many pieces of work the channel from other threads holds before a
/// sender has to wait.
pub const GUI_CHANNEL_CAPACITY: usize = 12;

/// The time between two ticks, in milliseconds. On a tick the loop looks for
/// children that have exited and paints what needs painting.
pub const TICK_INTERVAL: u64 = 50;

/// How long one round takes work from the channel, in milliseconds.
pub const MAX_POLL_LOOP_DURATION: u64 = 500;

/// The nanoseconds of a millisecond.
pub const NANOS_PER_MILLI: u64 = 1_000_000;

/// Where a piece of work is submitted from.
#[derive(Clone, Copy, Debug, PartialEq, Eq, Structural)]
pub enum Submitter {
    /// From a thread on which no front end is registered: not the GUI thread.
    OtherThread,
    /// From the GUI thread of this front end.
    GuiThread,
    /// From a thread on which a front end of another kind is registered.
    ForeignFrontEnd,
}

/// Which way a piece of work goes.
#[derive(Clone, Copy, Debug, PartialEq, Eq, Structural)]
pub enum Route {
    /// Into the urgent queue of the GUI thread.
    UrgentQueue,
    /// Through the bounded channel, where the sender may have to wait.
    Channel,
}

/// Work was submitted on a thread that runs a front end of another kind.
#[derive(Clone, Copy, Debug, PartialEq, Eq, Structural)]
pub struct WrongFrontEnd {}

/// Decides which way a piece of work goes. After either way the event loop
/// is woken.
pub fn route(from: Submitter) -> (r: Result<Route, WrongFrontEnd>)
    ensures
        r == match from {
            Submitter::GuiThread => Ok::<Route, WrongFrontEnd>(Route::UrgentQueue),
            Submitter::OtherThread => Ok::<Route, WrongFrontEnd>(Route::Channel),
            Submitter::ForeignFrontEnd => Err::<Route, WrongFrontEnd>(WrongFrontEnd {  }),
        },
{
    match from {
        // If we can get a handle on the event loop then we
        // are in the gui thread and can queue up func directly.
        Submitter::GuiThread => Ok(Route::UrgentQueue),
        // Otherwise, send it through the bounded channel,
        // which may block us
        Submitter::OtherThread => Ok(Route::Channel),
        Submitter::ForeignFrontEnd => Err(WrongFrontEnd {  }),
    }
}

/// The urgent queue: what the GUI thread submitted to itself, first in,
/// first out.
pub struct GuiThreadSends<F> {
    queue: VecDeque<F>,
}

impl<F> View for GuiThreadSends<F> {
    type V = Seq<F>;

    closed spec fn view(&self) -> Seq<F> {
        self.queue@
    }
}

impl<F> GuiThreadSends<F> {
    /// An empty queue.
    pub fn new() -> (r: Self)
        ensures
            r@ == Seq::<F>::empty(),
    {
        GuiThreadSends { queue: VecDeque::new() }
    }

    /// Puts `func` at the end of the queue.
    pub fn spawn_func(&mut self, func: F)
        ensures
            final(self)@ == old(self)@.push(func),
    {
        self.queue.push_back(func);
    }

    /// Takes the piece of work that has waited longest.
    pub fn pop_gui_thread_send(&mut self) -> (r: Option<F>)
        ensures
            match r {
                Some(func) => old(self)@.len() > 0 && func == old(self)@[0] && final(self)@ == old(
                    self,
                )@.subrange(1, old(self)@.len() as int),
                None => old(self)@.len() == 0 && final(self)@ == old(self)@,
            },
    {
        self.queue.pop_front()
    }
}

/// The channel through which other threads hand work to the GUI thread:
/// first in, first out, and never more than `GUI_CHANNEL_CAPACITY` pieces
/// at a time. Waiting is for whoever shares the channel between the
/// threads: a sender that `try_send` turns away waits until the GUI thread
/// has taken a piece, and tries again.
pub struct GuiChannel<F> {
    queue: VecDeque<F>,
}

impl<F> View for GuiChannel<F> {
    type V = Seq<F>;

    closed spec fn view(&self) -> Seq<F> {
        self.queue@
    }
}

impl<F> GuiChannel<F> {
    /// The channel holds no more than its capacity.
    pub open spec fn wf(&self) -> bool {
        self@.len() <= GUI_CHANNEL_CAPACITY
    }

    /// An empty channel.
    pub fn new() -> (r: Self)
        ensures
            r@ == Seq::<F>::empty(),
            r.wf(),
    {
        GuiChannel { queue: VecDeque::new() }
    }

    /// How many pieces wait.
    pub fn len(&self) -> (r: usize)
        ensures
            r == self@.len(),
    {
        self.queue.len()
    }

    /// Puts `func` at the end of the channel, unless the channel is full:
    /// then `func` comes back, and the sender has to wait.
    pub fn try_send(&mut self, func: F) -> (r: Result<(), F>)
        requires
            old(self).wf(),
        ensures
            final(self).wf(),
            match r {
                Ok(()) => old(self)@.len() < GUI_CHANNEL_CAPACITY && final(self)@ == old(
                    self,
                )@.push(func),
                Err(back) => old(self)@.len() == GUI_CHANNEL_CAPACITY && back == func
                    && final(self)@ == old(self)@,
            },
    {
        if self.queue.len() >= GUI_CHANNEL_CAPACITY {
            return Err(func);
        }
        self.queue.push_back(func);
        Ok(())
    }

    /// Takes the piece that has waited longest, for the GUI thread to run.
    pub fn try_recv(&mut self) -> (r: Option<F>)
        requires
            old(self).wf(),
        ensures
            final(self).wf(),
            match r {
                Some(func) => old(self)@.len() > 0 && func == old(self)@[0] && final(self)@ == old(
                    self,
                )@.subrange(1, old(self)@.len() as int),
                None => old(self)@.len() == 0 && final(self)@ == old(self)@,
            },
    {
        self.queue.pop_front()
    }
}

/// What becomes of a channel when a thread sends `items` through it, one
/// after the other, while nobody takes anything out: the channel at the
/// moment when the thread is through or has to wait, and how many of the
/// items it has got rid of by then.
pub open spec fn after_sends<F>(channel: Seq<F>, items: Seq<F>) -> (Seq<F>, nat)
    decreases items.len(),
{
    if items.len() == 0 || channel.len() >= GUI_CHANNEL_CAPACITY {
        (channel, 0)
    } else {
        let (end, sent) = after_sends(channel.push(items[0]), items.skip(1));
        (end, sent + 1)
    }
}

/// A flood is held back. While the GUI thread takes nothing out of the
/// channel, a thread gets rid of as many pieces as the channel has room
/// for, which is `GUI_CHANNEL_CAPACITY` at most, and waits with the next.
/// What it got rid of stands in the channel behind what was there, in the
/// order in which it was sent.
pub proof fn backpressure<F>(channel: Seq<F>, items: Seq<F>)
    requires
        channel.len() <= GUI_CHANNEL_CAPACITY,
    ensures
        ({
            let (end, sent) = after_sends(channel, items);
            let room = GUI_CHANNEL_CAPACITY - channel.len();
            &&& sent <= GUI_CHANNEL_CAPACITY
            &&& sent == if items.len() <= room {
                items.len() as int
            } else {
                room
            }
            &&& end == channel + items.take(sent as int)
            &&& end.len() <= GUI_CHANNEL_CAPACITY
            &&& sent < items.len() ==> end.len() == GUI_CHANNEL_CAPACITY
        }),
    decreases items.len(),
{
    if items.len() == 0 || channel.len() >= GUI_CHANNEL_CAPACITY {
        assert(channel + items.take(0) =~= channel);
    } else {
        backpressure(channel.push(items[0]), items.skip(1));
        let (end, sent) = after_sends(channel.push(items[0]), items.skip(1));
        assert(channel.push(items[0]) + items.skip(1).take(sent as int) =~= channel + items.take(
            (sent + 1) as int,
        ));
    }
}

/// What asking a channel for its next item gave.
#[derive(Clone, Copy, Debug, PartialEq, Eq, Structural)]
pub enum Received {
    /// An item.
    Item,
    /// Nothing is waiting.
    Empty,
    /// All senders are gone.
    Disconnected,
}

/// What the loop does after asking a channel.
#[derive(Clone, Copy, Debug, PartialEq, Eq, Structural)]
pub enum Step {
    /// Deal with the item, then ask again.
    Run,
    /// This part of the round is over.
    Done,
}

/// A channel of the loop has lost its senders.
#[derive(Clone, Copy, Debug, PartialEq, Eq, Structural)]
pub struct ChannelClosed {}

/// Whether a reading of the clock leaves the round time for the channel.
/// `elapsed` is the time since the round began to take from the channel, in
/// nanoseconds, or `None` where the clock could not say. There is time
/// while no more than `MAX_POLL_LOOP_DURATION` has passed.
pub open spec fn in_time(elapsed: Option<u128>) -> bool {
    match elapsed {
        Some(nanos) => nanos <= MAX_POLL_LOOP_DURATION * NANOS_PER_MILLI,
        None => false,
    }
}

/// Whether the round may still take work from the channel.
pub fn may_poll(elapsed: Option<u128>) -> (r: bool)
    ensures
        r == in_time(elapsed),
{
    assert(MAX_POLL_LOOP_DURATION * NANOS_PER_MILLI == 500_000_000) by (nonlinear_arith)
        requires
            MAX_POLL_LOOP_DURATION == 500,
            NANOS_PER_MILLI == 1_000_000,
    ;
    let limit: u128 = (MAX_POLL_LOOP_DURATION as u128) * (NANOS_PER_MILLI as u128);
    match elapsed {
        Some(nanos) => nanos <= limit,
        None => false,
    }
}

/// What follows from asking the work channel, or the tick channel, for its
/// next item: an item is dealt with and the channel asked again, an empty
/// channel ends this part of the round, and a channel without senders is an
/// error.
pub fn after_receive(received: Received) -> (r: Result<Step, ChannelClosed>)
    ensures
        r == match received {
            Received::Item => Ok::<Step, ChannelClosed>(Step::Run),
            Received::Empty => Ok::<Step, ChannelClosed>(Step::Done),
            Received::Disconnected => Err::<Step, ChannelClosed>(ChannelClosed {  }),
        },
{
    match received {
        Received::Item => Ok(Step::Run),
        Received::Empty => Ok(Step::Done),
        Received::Disconnected => Err(ChannelClosed {  }),
    }
}

/// What a round of the loop does next with its work.
#[derive(Debug, PartialEq, Eq)]
pub enum RoundStep<F> {
    /// Run this piece of work, then ask again.
    Run(F),
    /// The urgent queue is empty. Start the clock, then ask again: from here
    /// on the round takes from the channel, and the time that it has for
    /// that counts from now.
    StartDrain,
    /// The round has done its work.
    Done,
}

/// The work of a round, as far as the round has come with it: whether it
/// has turned to the channel yet, and what waits in the two queues.
pub struct RoundView<F> {
    pub draining: bool,
    pub urgent: Seq<F>,
    pub channel: Seq<F>,
}

impl<F> RoundView<F> {
    /// What the round does next. It runs the urgent queue first, piece by
    /// piece, until the queue is empty; what a piece adds to the queue is
    /// run as well. Then it turns to the channel, and takes from it for as
    /// long as the clock leaves it time and a piece is there. `elapsed` is
    /// the time since it turned to the channel; before that it is not
    /// looked at.
    pub open spec fn step(self, elapsed: Option<u128>) -> RoundStep<F> {
        if !self.draining {
            if self.urgent.len() > 0 {
                RoundStep::Run(self.urgent[0])
            } else {
                RoundStep::StartDrain
            }
        } else if in_time(elapsed) && self.channel.len() > 0 {
            RoundStep::Run(self.channel[0])
        } else {
            RoundStep::Done
        }
    }

    /// The round after that step: what was run has left its queue, and
    /// nothing else has changed.
    pub open spec fn after(self, elapsed: Option<u128>) -> RoundView<F> {
        if !self.draining {
            if self.urgent.len() > 0 {
                RoundView { urgent: self.urgent.skip(1), ..self }
            } else {
                RoundView { draining: true, ..self }
            }
        } else if in_time(elapsed) && self.channel.len() > 0 {
            RoundView { channel: self.channel.skip(1), ..self }
        } else {
            self
        }
    }

    /// The reading of the clock that the next step goes by, where the
    /// readings `readings` are still to come: the first of them once the
    /// round has turned to the channel, and none before, nor when they have
    /// run out.
    pub open spec fn reading(self, readings: Seq<Option<u128>>) -> Option<u128> {
        if self.draining && readings.len() > 0 {
            readings[0]
        } else {
            None
        }
    }

    /// The readings that are left after the next step: a step that takes
    /// from the channel uses one up.
    pub open spec fn readings_left(self, readings: Seq<Option<u128>>) -> Seq<Option<u128>> {
        if self.draining && readings.len() > 0 {
            readings.skip(1)
        } else {
            readings
        }
    }

    /// The pieces of work that the round runs until it is done, in the
    /// order in which it runs them, where nothing is submitted meanwhile
    /// and the clock reads `readings`, one reading before each piece that
    /// is taken from the channel.
    pub open spec fn work(self, readings: Seq<Option<u128>>) -> Seq<F>
        decreases
                self.urgent.len() + self.channel.len() + (if self.draining {
                    0nat
                } else {
                    1nat
                }),
    {
        let elapsed = self.reading(readings);
        match self.step(elapsed) {
            RoundStep::Done => Seq::empty(),
            RoundStep::StartDrain => self.after(elapsed).work(readings),
            RoundStep::Run(func) => seq![func] + self.after(elapsed).work(
                self.readings_left(readings),
            ),
        }
    }

    /// What is left in the queues when the round is done.
    pub open spec fn end(self, readings: Seq<Option<u128>>) -> RoundView<F>
        decreases
                self.urgent.len() + self.channel.len() + (if self.draining {
                    0nat
                } else {
                    1nat
                }),
    {
        let elapsed = self.reading(readings);
        match self.step(elapsed) {
            RoundStep::Done => self,
            RoundStep::StartDrain => self.after(elapsed).end(readings),
            RoundStep::Run(func) => self.after(elapsed).end(self.readings_left(readings)),
        }
    }
}

/// How many of `n` pieces the round takes from the channel under the
/// readings `readings`: as many as there are readings in time before the
/// first that is not.
pub open spec fn drained(n: nat, readings: Seq<Option<u128>>) -> nat
    decreases n,
{
    if n == 0 || readings.len() == 0 || !in_time(readings[0]) {
        0
    } else {
        1 + drained((n - 1) as nat, readings.skip(1))
    }
}

/// The phase of a round of the loop. A round begins with the urgent queue
/// and turns to the channel once; the next round begins anew.
#[derive(Debug)]
pub struct GuiRound {
    draining: bool,
}

impl GuiRound {
    /// Whether the round has turned to the channel.
    pub closed spec fn draining(&self) -> bool {
        self.draining
    }

    /// The round as a whole, with the queues that it works on.
    pub open spec fn with<F>(&self, urgent: Seq<F>, channel: Seq<F>) -> RoundView<F> {
        RoundView { draining: self.draining(), urgent, channel }
    }

    /// A round that has not begun.
    pub fn new() -> (r: Self)
        ensures
            !r.draining(),
    {
        GuiRound { draining: false }
    }

    /// Whether the round has turned to the channel.
    pub fn is_draining(&self) -> (r: bool)
        ensures
            r == self.draining(),
    {
        self.draining
    }

    /// Takes the next step of the round: hands out the piece of work to run
    /// next, or says that the clock is to be started, or that the round is
    /// done. `elapsed` is the time since the clock was started, in
    /// nanoseconds, or `None` where the clock cannot say or has not been
    /// started.
    pub fn step<F>(
        &mut self,
        urgent: &mut GuiThreadSends<F>,
        channel: &mut GuiChannel<F>,
        elapsed: Option<u128>,
    ) -> (r: RoundStep<F>)
        requires
            old(channel).wf(),
        ensures
            final(channel).wf(),
            r == old(self).with(old(urgent)@, old(channel)@).step(elapsed),
            final(self).with(final(urgent)@, final(channel)@) == old(self).with(
                old(urgent)@,
                old(channel)@,
            ).after(elapsed),
    {
        if !self.draining {
            match urgent.pop_gui_thread_send() {
                Some(func) => RoundStep::Run(func),
                None => {
                    self.draining = true;
                    RoundStep::StartDrain
                },
            }
        } else if !may_poll(elapsed) {
            RoundStep::Done
        } else {
            match channel.try_recv() {
                Some(func) => RoundStep::Run(func),
                None => RoundStep::Done,
            }
        }
    }
}

/// Once the round has turned to the channel, it runs the pieces of the
/// channel in their order, as many as the clock leaves it time for.
proof fn lemma_drain<F>(urgent: Seq<F>, channel: Seq<F>, readings: Seq<Option<u128>>)
    ensures
        ({
            let v = RoundView { draining: true, urgent, channel };
            let k = drained(channel.len(), readings);
            &&& k <= channel.len()
            &&& k <= readings.len()
            &&& v.work(readings) == channel.take(k as int)
            &&& v.end(readings) == (RoundView { draining: true, urgent, channel: channel.skip(k as int) })
            &&& forall|i: int| 0 <= i < k ==> in_time(#[trigger] readings[i])
            &&& k == channel.len() || k == readings.len() || !in_time(readings[k as int])
        }),
    decreases channel.len(),
{
    let v = RoundView { draining: true, urgent, channel };
    let k = drained(channel.len(), readings);
    if channel.len() == 0 || readings.len() == 0 || !in_time(readings[0]) {
        assert(channel.take(0) =~= Seq::<F>::empty());
        assert(channel.skip(0) =~= channel);
    } else {
        let rest = channel.skip(1);
        let later = readings.skip(1);
        lemma_drain(urgent, rest, later);
        let j = drained(rest.len(), later);
        assert(k == j + 1);
        assert(seq![channel[0]] + rest.take(j as int) =~= channel.take(k as int));
        assert(rest.skip(j as int) =~= channel.skip(k as int));
        assert forall|i: int| 0 <= i < k implies in_time(#[trigger] readings[i]) by {
            if i > 0 {
                assert(readings[i] == later[i - 1]);
            }
        }
        if j < rest.len() && j < later.len() {
            assert(readings[k as int] == later[j as int]);
        }
    }
}

/// A round runs its work in order. Where nothing is submitted while the
/// round is under way: every piece of the urgent queue is run, in the order
/// of the queue, before any piece of the channel; then the pieces of the
/// channel are run in their order, each after a reading of the clock that
/// was in time, until the channel is empty or a reading is not in time,
/// which is when more than `MAX_POLL_LOOP_DURATION` has passed since the
/// round turned to the channel. No piece is run twice, and what is not run
/// stays in the channel, in its order.
pub proof fn round_runs_urgent_first<F>(
    urgent: Seq<F>,
    channel: Seq<F>,
    readings: Seq<Option<u128>>,
)
    ensures
        ({
            let v = RoundView { draining: false, urgent, channel };
            let k = drained(channel.len(), readings);
            &&& k <= channel.len()
            &&& v.work(readings) == urgent + channel.take(k as int)
            &&& v.end(readings) == (RoundView {
                draining: true,
                urgent: Seq::empty(),
                channel: channel.skip(k as int),
            })
            &&& v.work(readings) + v.end(readings).channel == urgent + channel
            &&& forall|i: int| 0 <= i < k ==> in_time(#[trigger] readings[i])
            &&& k == channel.len() || k == readings.len() || !in_time(readings[k as int])
        }),
    decreases urgent.len(),
{
    let v = RoundView { draining: false, urgent, channel };
    let k = drained(channel.len(), readings);
    if urgent.len() == 0 {
        lemma_drain(urgent, channel, readings);
        assert(urgent =~= Seq::<F>::empty());
        assert(urgent + channel.take(k as int) =~= channel.take(k as int));
    } else {
        round_runs_urgent_first(urgent.skip(1), channel, readings);
        assert(seq![urgent[0]] + (urgent.skip(1) + channel.take(k as int)) =~= urgent
            + channel.take(k as int));
    }
    assert(urgent + channel.take(k as int) + channel.skip(k as int) =~= urgent + channel);
}

/// How handing an event to its window ended.
#[derive(Clone, Copy, Debug, PartialEq, Eq, Structural)]
pub enum Dispatched {
    /// No window has the identifier that the event names.
    NoSuchWindow,
    /// The window dealt with the event.
    Handled,
    /// The window's session is over: its process has exited, or the window
    /// was closed.
    SessionTerminated,
    /// The window failed in some other way.
    Failed,
}

/// What the native event loop is told after an event.
#[derive(Clone, Copy, Debug, PartialEq, Eq, Structural)]
pub enum ControlFlow {
    /// Wait for the next event.
    Continue,
    /// Return to the round: there is work to do.
    Break,
}

/// An event of the native event loop, as far as the loop cares.
#[derive(Clone, Copy, Debug, PartialEq, Eq, Structural)]
pub enum GuiEvent {
    /// An event for a window, and how handing it over ended.
    Window(Dispatched),
    /// Somebody woke the loop.
    Awakened,
    /// Anything else.
    Other,
}

/// What follows an event.
#[derive(Clone, Copy, Debug, PartialEq, Eq, Structural)]
pub struct EventOutcome {
    pub flow: ControlFlow,
    /// Whether to schedule the closing of the window that the event was for.
    pub close_window: bool,
}

/// The window failed on an event, and not because its session is over.
#[derive(Clone, Copy, Debug, PartialEq, Eq, Structural)]
pub struct WindowFailed {}

/// Process a single event of the native event loop. A wakeup breaks out of
/// the loop. A window whose session is over is scheduled for closing. A
/// window that fails otherwise fails the loop.
pub fn process_gui_event(event: GuiEvent) -> (r: Result<EventOutcome, WindowFailed>)
    ensures
        r == match event {
            GuiEvent::Window(Dispatched::Failed) => Err::<EventOutcome, WindowFailed>(
                WindowFailed {  },
            ),
            GuiEvent::Window(Dispatched::SessionTerminated) => Ok::<EventOutcome, WindowFailed>(
                EventOutcome { flow: ControlFlow::Continue, close_window: true },
            ),
            GuiEvent::Window(_) => Ok::<EventOutcome, WindowFailed>(
                EventOutcome { flow: ControlFlow::Continue, close_window: false },
            ),
            GuiEvent::Awakened => Ok::<EventOutcome, WindowFailed>(
                EventOutcome { flow: ControlFlow::Break, close_window: false },
            ),
            GuiEvent::Other => Ok::<EventOutcome, WindowFailed>(
                EventOutcome { flow: ControlFlow::Continue, close_window: false },
            ),
        },
{
    match event {
        GuiEvent::Window(dispatched) => match dispatched {
            Dispatched::Failed => Err(WindowFailed {  }),
            Dispatched::SessionTerminated => Ok(
                EventOutcome { flow: ControlFlow::Continue, close_window: true },
            ),
            _ => Ok(EventOutcome { flow: ControlFlow::Continue, close_window: false }),
        },
        GuiEvent::Awakened => Ok(EventOutcome { flow: ControlFlow::Break, close_window: false }),
        GuiEvent::Other => Ok(EventOutcome { flow: ControlFlow::Continue, close_window: false }),
    }
}

} // verus!
