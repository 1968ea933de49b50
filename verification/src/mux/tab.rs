//! Identifiers of tabs.

use vstd::prelude::*;

verus! {

/// Names a tab for as long as the process runs.
pub type TabId = usize;

/// Hands out identifiers: 0 first, then one more each time, and none
/// twice. The three kinds of identifier, for tabs, windows and domains, each
/// have a counter of their own.
#[derive(Debug)]
pub struct IdCounter {
    next: usize,
}

impl IdCounter {
    /// The identifier that comes next.
    pub closed spec fn next_id(&self) -> usize {
        self.next
    }

    /// A counter that starts at 0.
    pub fn new() -> (r: Self)
        ensures
            r.next_id() == 0,
    {
        IdCounter { next: 0 }
    }

    /// Takes the next identifier. Every identifier that is taken later is
    /// larger, so none comes twice. The last number that the machine has is
    /// kept back: `has_more` says whether an identifier is left.
    pub fn take(&mut self) -> (id: usize)
        requires
            old(self).next_id() < usize::MAX,
        ensures
            id == old(self).next_id(),
            final(self).next_id() == id + 1,
    {
        let id = self.next;
        self.next = id + 1;
        id
    }

    /// Says whether another identifier can be taken.
    pub fn has_more(&self) -> (r: bool)
        ensures
            r == (self.next_id() < usize::MAX),
    {
        self.next < usize::MAX
    }
}

/// Takes a fresh identifier for a tab.
pub fn alloc_tab_id(counter: &mut IdCounter) -> (id: TabId)
    requires
        old(counter).next_id() < usize::MAX,
    ensures
        id == old(counter).next_id(),
        final(counter).next_id() == id + 1,
{
    counter.take()
}

} // verus!
