//! The loop that reads a tab's pty. It runs on a thread of its own and does
//! nothing with what it reads but hand it to the GUI thread: each chunk of
//! output as one piece of work, and at the end of the output the removal of
//! the tab.
//!
//! Reading and handing over are for the thread that runs the loop. What
//! to hand over after each read is decided here.

use crate::mux::tab::TabId;
use vstd::prelude::*;

verus! {

/// How many bytes one read asks for.
pub const BUFSIZE: usize = 32 * 1024;

/// A piece of work for the GUI thread.
#[derive(Debug, PartialEq, Eq)]
pub enum TabWork {
    /// Feed `data` to the terminal of the tab, if the tab is still there.
    Advance { tab_id: TabId, data: Vec<u8> },
    /// Take the tab out of the registry.
    Remove { tab_id: TabId },
}

/// What a piece of work holds.
pub enum TabWorkView {
    Advance { tab_id: TabId, data: Seq<u8> },
    Remove { tab_id: TabId },
}

impl View for TabWork {
    type V = TabWorkView;

    open spec fn view(&self) -> TabWorkView {
        match self {
            TabWork::Advance { tab_id, data } => TabWorkView::Advance {
                tab_id: *tab_id,
                data: data@,
            },
            TabWork::Remove { tab_id } => TabWorkView::Remove { tab_id: *tab_id },
        }
    }
}

/// Whether a read ends the output: it does where it failed (`None`) and
/// where it gave no byte, which is how the end of the output shows.
pub open spec fn ends_output(read: Option<Seq<u8>>) -> bool {
    match read {
        None => true,
        Some(data) => data.len() == 0,
    }
}

/// What the reader of a tab's pty knows.
pub struct PtyReaderView {
    pub tab_id: TabId,
    /// Whether the output has ended. Nothing is read after that.
    pub finished: bool,
}

/// The reader of one tab's pty.
#[derive(Debug)]
pub struct PtyReader {
    tab_id: TabId,
    finished: bool,
}

impl View for PtyReader {
    type V = PtyReaderView;

    closed spec fn view(&self) -> PtyReaderView {
        PtyReaderView { tab_id: self.tab_id, finished: self.finished }
    }
}

impl PtyReaderView {
    /// The work that follows from a read; none from a reader that has
    /// finished.
    pub open spec fn work_for(self, read: Option<Seq<u8>>) -> Option<TabWorkView> {
        if self.finished {
            None
        } else if ends_output(read) {
            Some(TabWorkView::Remove { tab_id: self.tab_id })
        } else {
            Some(TabWorkView::Advance { tab_id: self.tab_id, data: read->0 })
        }
    }

    /// The reader after a read.
    pub open spec fn after(self, read: Option<Seq<u8>>) -> PtyReaderView {
        PtyReaderView { tab_id: self.tab_id, finished: self.finished || ends_output(read) }
    }
}

impl PtyReader {
    /// A reader that has read nothing yet.
    pub fn new(tab_id: TabId) -> (r: Self)
        ensures
            r@ == (PtyReaderView { tab_id, finished: false }),
    {
        PtyReader { tab_id, finished: false }
    }

    /// The tab whose pty is read.
    pub fn tab_id(&self) -> (r: TabId)
        ensures
            r == self@.tab_id,
    {
        self.tab_id
    }

    /// Whether the output has ended, and the loop with it.
    pub fn is_finished(&self) -> (r: bool)
        ensures
            r == self@.finished,
    {
        self.finished
    }

    /// Takes in what a read gave: the bytes, or `None` where the read
    /// failed. Returns the work to hand to the GUI thread. The loop goes on
    /// until the reader has finished.
    pub fn step(&mut self, read: Option<&[u8]>) -> (r: Option<TabWork>)
        ensures
            final(self)@ == old(self)@.after(
                match read {
                    Some(data) => Some(data@),
                    None => None,
                },
            ),
            match old(self)@.work_for(
                match read {
                    Some(data) => Some(data@),
                    None => None,
                },
            ) {
                Some(work) => r matches Some(got) && got@ == work,
                None => r is None,
            },
    {
        if self.finished {
            return None;
        }
        match read {
            Some(data) => {
                if data.len() == 0 {
                    self.finished = true;
                    Some(TabWork::Remove { tab_id: self.tab_id })
                } else {
                    Some(
                        TabWork::Advance {
                            tab_id: self.tab_id,
                            data: vstd::slice::slice_to_vec(data),
                        },
                    )
                }
            },
            None => {
                self.finished = true;
                Some(TabWork::Remove { tab_id: self.tab_id })
            },
        }
    }
}

/// The reader after the reads `reads`.
pub open spec fn after_all(reader: PtyReaderView, reads: Seq<Option<Seq<u8>>>) -> PtyReaderView
    decreases reads.len(),
{
    if reads.len() == 0 {
        reader
    } else {
        after_all(reader, reads.drop_last()).after(reads.last())
    }
}

/// All the work that the reads `reads` lead to, in its order.
pub open spec fn work_of(reader: PtyReaderView, reads: Seq<Option<Seq<u8>>>) -> Seq<TabWorkView>
    decreases reads.len(),
{
    if reads.len() == 0 {
        Seq::empty()
    } else {
        let before = work_of(reader, reads.drop_last());
        match after_all(reader, reads.drop_last()).work_for(reads.last()) {
            Some(work) => before.push(work),
            None => before,
        }
    }
}

/// The index of the first read that ends the output; the number of reads
/// where none does.
pub open spec fn first_end(reads: Seq<Option<Seq<u8>>>) -> int
    decreases reads.len(),
{
    if reads.len() == 0 {
        0
    } else {
        let e = first_end(reads.drop_last());
        if e < reads.len() - 1 {
            e
        } else if ends_output(reads.last()) {
            reads.len() - 1
        } else {
            reads.len() as int
        }
    }
}

/// The tab is removed once, and last. Whatever a fresh reader is given to
/// read: each chunk before the first read that ends the output becomes one
/// piece of work, in the order of the reads; that read becomes the removal
/// of the tab; and nothing comes after it, however many reads follow.
pub proof fn reader_removes_once(tab_id: TabId, reads: Seq<Option<Seq<u8>>>)
    ensures
        ({
            let work = work_of(PtyReaderView { tab_id, finished: false }, reads);
            let e = first_end(reads);
            &&& 0 <= e <= reads.len()
            &&& forall|i: int| 0 <= i < e ==> !ends_output(#[trigger] reads[i])
            &&& e < reads.len() ==> ends_output(reads[e])
            &&& work.len() == if e < reads.len() {
                e + 1
            } else {
                e
            }
            &&& forall|i: int|
                0 <= i < e ==> #[trigger] work[i] == (TabWorkView::Advance {
                    tab_id,
                    data: reads[i]->0,
                })
            &&& e < reads.len() ==> work[e] == (TabWorkView::Remove { tab_id })
            &&& after_all(PtyReaderView { tab_id, finished: false }, reads).finished == (e
                < reads.len())
            &&& after_all(PtyReaderView { tab_id, finished: false }, reads).tab_id == tab_id
        }),
    decreases reads.len(),
{
    if reads.len() > 0 {
        reader_removes_once(tab_id, reads.drop_last());
        let front = reads.drop_last();
        let e = first_end(reads);
        assert forall|i: int| 0 <= i < e implies !ends_output(#[trigger] reads[i]) by {
            if i < front.len() {
                assert(front[i] == reads[i]);
            }
        }
        let work = work_of(PtyReaderView { tab_id, finished: false }, reads);
        assert forall|i: int| 0 <= i < e implies #[trigger] work[i] == (TabWorkView::Advance {
            tab_id,
            data: reads[i]->0,
        }) by {
            if i < front.len() {
                assert(front[i] == reads[i]);
            }
        }
        if e < reads.len() && e < front.len() {
            assert(front[e] == reads[e]);
        }
    }
}

} // verus!
