//! The client's book of the requests that it has sent. Each request goes
//! out under a serial of its own. The server puts the serial of a request on
//! its reply, so the replies may come in any order. When the connection is
//! lost, every request that still waits is given up, and no new one is
//! taken.

use std::collections::HashMap;
use vstd::prelude::*;
use vstd::std_specs::iter::IteratorSpec;

verus! {

broadcast use vstd::std_specs::hash::group_hash_axioms;

/// What the book holds. `W` is whatever waits for a reply.
pub struct PendingView<W> {
    /// Who waits, by the serial of the request.
    pub waiters: Map<u64, W>,
    /// The serial that the next request gets.
    pub next_serial: u64,
    pub connected: bool,
}

impl<W> PendingView<W> {
    /// Every serial in the book has been given out already.
    pub open spec fn wf(self) -> bool {
        forall|serial: u64| #[trigger] self.waiters.contains_key(serial) ==> serial
            < self.next_serial
    }
}

/// Why a request was not taken.
#[derive(Clone, Copy, Debug, PartialEq, Eq, Structural)]
pub enum SendError {
    /// The connection is lost.
    Disconnected,
    /// The serials have run out.
    Exhausted,
}

/// The requests of a connection that await their reply.
pub struct Pending<W> {
    waiters: HashMap<u64, W>,
    next_serial: u64,
    connected: bool,
}

impl<W> View for Pending<W> {
    type V = PendingView<W>;

    closed spec fn view(&self) -> PendingView<W> {
        PendingView {
            waiters: self.waiters@,
            next_serial: self.next_serial,
            connected: self.connected,
        }
    }
}

impl<W> Pending<W> {
    /// The book of a fresh connection. Serials start at `first_serial`.
    pub fn new(first_serial: u64) -> (r: Self)
        ensures
            r@.wf(),
            r@ == (PendingView {
                waiters: Map::<u64, W>::empty(),
                next_serial: first_serial,
                connected: true,
            }),
    {
        Pending { waiters: HashMap::new(), next_serial: first_serial, connected: true }
    }

    /// How many requests wait.
    pub fn len(&self) -> (r: usize)
        ensures
            r == self@.waiters.len(),
    {
        self.waiters.len()
    }

    /// Whether the connection still stands.
    pub fn is_connected(&self) -> (r: bool)
        ensures
            r == self@.connected,
    {
        self.connected
    }

    /// Enters `waiter` for a request that is about to go out, and returns
    /// the serial to send it under: one that no request of this connection
    /// has had. A lost connection takes no request, and gives the waiter
    /// back.
    pub fn register(&mut self, waiter: W) -> (r: Result<u64, (SendError, W)>)
        requires
            old(self)@.wf(),
        ensures
            final(self)@.wf(),
            final(self)@ == old(self)@.after(PendingOp::Register(waiter)),
            match r {
                Ok(serial) => {
                    &&& old(self)@.connected
                    &&& old(self)@.next_serial < u64::MAX
                    &&& serial == old(self)@.next_serial
                    &&& !old(self)@.waiters.contains_key(serial)
                    &&& final(self)@ == (PendingView {
                        waiters: old(self)@.waiters.insert(serial, waiter),
                        next_serial: (serial + 1) as u64,
                        connected: true,
                    })
                },
                Err((e, w)) => {
                    &&& w == waiter
                    &&& final(self)@ == old(self)@
                    &&& e == if !old(self)@.connected {
                        SendError::Disconnected
                    } else {
                        SendError::Exhausted
                    }
                    &&& !old(self)@.connected || old(self)@.next_serial == u64::MAX
                },
            },
    {
        if !self.connected {
            return Err((SendError::Disconnected, waiter));
        }
        if self.next_serial == u64::MAX {
            return Err((SendError::Exhausted, waiter));
        }
        let serial = self.next_serial;
        self.next_serial = serial + 1;
        self.waiters.insert(serial, waiter);
        Ok(serial)
    }

    /// Takes out who waited for the reply under `serial`. A reply under a
    /// serial that nobody waits for finds nobody, and changes nothing.
    pub fn complete(&mut self, serial: u64) -> (r: Option<W>)
        requires
            old(self)@.wf(),
        ensures
            final(self)@.wf(),
            final(self)@ == old(self)@.after(PendingOp::Complete(serial)),
            match r {
                Some(waiter) => old(self)@.waiters.contains_key(serial) && waiter == old(
                    self,
                )@.waiters[serial],
                None => !old(self)@.waiters.contains_key(serial),
            },
    {
        let found = self.waiters.remove(&serial);
        assert forall|s: u64| #[trigger] self@.waiters.contains_key(s) implies s
            < self@.next_serial by {
            assert(old(self)@.waiters.contains_key(s));
        }
        found
    }

    /// Notes that the connection is lost, and hands out everybody who still
    /// waits, each with the serial of the request, in no particular order.
    /// After this no request is taken.
    pub fn disconnect(&mut self) -> (r: Vec<(u64, W)>)
        requires
            old(self)@.wf(),
        ensures
            final(self)@.wf(),
            final(self)@ == old(self)@.after(PendingOp::Disconnect),
            r@.len() == old(self)@.waiters.len(),
            forall|i: int|
                0 <= i < r@.len() ==> old(self)@.waiters.contains_key((#[trigger] r@[i]).0)
                    && r@[i].1 == old(self)@.waiters[r@[i].0],
            forall|i: int, j: int| 0 <= i < j < r@.len() ==> r@[i].0 != r@[j].0,
    {
        self.connected = false;
        let mut serials: Vec<u64> = Vec::new();
        let ghost keys = self.waiters.keys().remaining().unref();
        for serial in it: self.waiters.keys()
            invariant
                it.seq().unref() == keys,
                serials@.len() == it.index(),
                serials@ == keys.take(serials@.len() as int),
        {
            serials.push(*serial);
        }
        assert(serials@ =~= keys);
        proof {
            serials@.unique_seq_to_set();
        }
        let ghost before = old(self)@.waiters;
        let mut out: Vec<(u64, W)> = Vec::new();
        let mut k: usize = 0;
        while k < serials.len()
            invariant
                k <= serials@.len(),
                serials@.no_duplicates(),
                serials@.to_set() == before.dom(),
                serials@.len() == before.len(),
                before == old(self)@.waiters,
                self.next_serial == old(self)@.next_serial,
                !self.connected,
                out@.len() == k,
                forall|i: int| 0 <= i < k ==> (#[trigger] out@[i]).0 == serials@[i],
                forall|i: int|
                    0 <= i < k ==> before.contains_key((#[trigger] out@[i]).0) && out@[i].1
                        == before[out@[i].0],
                self.waiters@ == before.remove_keys(serials@.take(k as int).to_set()),
            decreases serials.len() - k,
        {
            let serial = serials[k];
            let ghost done = serials@.take(k as int).to_set();
            proof {
                assert(serials@.contains(serial)) by {
                    assert(serials@[k as int] == serial);
                }
                assert(before.dom().contains(serial));
                assert(!done.contains(serial)) by {
                    if serials@.take(k as int).contains(serial) {
                        let i = choose|i: int|
                            0 <= i < k && #[trigger] serials@.take(k as int)[i] == serial;
                        assert(serials@[i] == serials@[k as int]);
                    }
                }
                assert(serials@.take(k + 1) =~= serials@.take(k as int).push(serial));
                serials@.take(k as int).lemma_push_to_set_commute(serial);
                assert(self.waiters@.contains_key(serial));
            }
            match self.waiters.remove(&serial) {
                Some(waiter) => {
                    out.push((serial, waiter));
                },
                None => {
                    proof {
                        assert(false);
                    }
                },
            }
            proof {
                assert(self.waiters@ =~= before.remove_keys(done.insert(serial)));
            }
            k = k + 1;
        }
        proof {
            assert(serials@.take(k as int) =~= serials@);
            assert(self.waiters@ =~= Map::<u64, W>::empty());
        }
        out
    }
}

/// Something that happens to the book.
pub enum PendingOp<W> {
    /// A request is to go out.
    Register(W),
    /// The reply under this serial has come.
    Complete(u64),
    /// The connection is lost.
    Disconnect,
}

impl<W> PendingView<W> {
    /// Whether a request is taken.
    pub open spec fn takes(self) -> bool {
        self.connected && self.next_serial < u64::MAX
    }

    /// The book after `op`.
    pub open spec fn after(self, op: PendingOp<W>) -> Self {
        match op {
            PendingOp::Register(waiter) => if self.takes() {
                PendingView {
                    waiters: self.waiters.insert(self.next_serial, waiter),
                    next_serial: (self.next_serial + 1) as u64,
                    connected: true,
                }
            } else {
                self
            },
            PendingOp::Complete(serial) => PendingView {
                waiters: self.waiters.remove(serial),
                ..self
            },
            PendingOp::Disconnect => PendingView {
                waiters: Map::empty(),
                next_serial: self.next_serial,
                connected: false,
            },
        }
    }

    /// The book after the operations `ops`.
    pub open spec fn after_all(self, ops: Seq<PendingOp<W>>) -> Self
        decreases ops.len(),
    {
        if ops.len() == 0 {
            self
        } else {
            self.after_all(ops.drop_last()).after(ops.last())
        }
    }

    /// The serials that were given out in the course of `ops`, in their
    /// order.
    pub open spec fn serials_of(self, ops: Seq<PendingOp<W>>) -> Seq<u64>
        decreases ops.len(),
    {
        if ops.len() == 0 {
            Seq::empty()
        } else {
            let before = self.after_all(ops.drop_last());
            let given = self.serials_of(ops.drop_last());
            if ops.last() is Register && before.takes() {
                given.push(before.next_serial)
            } else {
                given
            }
        }
    }
}

/// No two requests of a connection share a serial. Whatever is sent,
/// answered and given up, the serials that are given out grow from one
/// request to the next, none is below the first, and the serial that comes
/// next lies above them all.
pub proof fn serials_are_unique<W>(p: PendingView<W>, ops: Seq<PendingOp<W>>)
    ensures
        ({
            let given = p.serials_of(ops);
            &&& forall|i: int, j: int| 0 <= i < j < given.len() ==> given[i] < given[j]
            &&& forall|i: int|
                0 <= i < given.len() ==> p.next_serial <= #[trigger] given[i] < p.after_all(
                    ops,
                ).next_serial
            &&& p.next_serial <= p.after_all(ops).next_serial
            &&& p.wf() ==> p.after_all(ops).wf()
        }),
    decreases ops.len(),
{
    if ops.len() > 0 {
        serials_are_unique(p, ops.drop_last());
        let before = p.after_all(ops.drop_last());
        let after = p.after_all(ops);
        let earlier = p.serials_of(ops.drop_last());
        let given = p.serials_of(ops);
        assert forall|i: int, j: int| 0 <= i < j < given.len() implies given[i] < given[j] by {
            if j < earlier.len() {
                assert(given[i] == earlier[i] && given[j] == earlier[j]);
            } else {
                assert(given[i] == earlier[i]);
            }
        }
        assert forall|i: int| 0 <= i < given.len() implies p.next_serial <= #[trigger] given[i]
            < after.next_serial by {
            if i < earlier.len() {
                assert(given[i] == earlier[i]);
            }
        }
        if p.wf() {
            assert forall|serial: u64| #[trigger] after.waiters.contains_key(serial) implies serial
                < after.next_serial by {
                if before.waiters.contains_key(serial) {
                }
            }
        }
    }
}

} // verus!
