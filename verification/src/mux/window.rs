//! A window: the tabs that it shows, in their order, and which of them is
//! in front.

use crate::mux::tab::TabId;
use vstd::prelude::*;

verus! {

/// Names a window for as long as the process runs.
pub type WindowId = usize;

/// What a window holds.
pub struct WindowView {
    pub id: WindowId,
    pub tabs: Seq<TabId>,
    pub active: nat,
}

/// `tabs` without every occurrence of `id`, the rest in their order.
pub open spec fn without(tabs: Seq<TabId>, id: TabId) -> Seq<TabId>
    decreases tabs.len(),
{
    if tabs.len() == 0 {
        tabs
    } else {
        let rest = without(tabs.drop_last(), id);
        if tabs.last() == id {
            rest
        } else {
            rest.push(tabs.last())
        }
    }
}

/// What `without` keeps and what it drops: `id` is gone, every other tab of
/// the list is still there, nothing new has come in, and the list is as long
/// as before exactly where `id` was not in it.
pub proof fn lemma_without(tabs: Seq<TabId>, id: TabId)
    ensures
        !without(tabs, id).contains(id),
        forall|t: TabId| without(tabs, id).contains(t) <==> tabs.contains(t) && t != id,
        without(tabs, id).len() <= tabs.len(),
        without(tabs, id).len() == tabs.len() <==> !tabs.contains(id),
        !tabs.contains(id) ==> without(tabs, id) == tabs,
    decreases tabs.len(),
{
    if tabs.len() > 0 {
        let front = tabs.drop_last();
        let last = tabs.last();
        lemma_without(front, id);
        let rest = without(front, id);
        assert(tabs =~= front.push(last));
        assert forall|t: TabId| tabs.contains(t) <==> front.contains(t) || t == last by {
            if front.contains(t) {
                let i = choose|i: int| 0 <= i < front.len() && front[i] == t;
                assert(tabs[i] == t);
            }
            if t == last {
                assert(tabs[tabs.len() - 1] == t);
            }
        }
        if last == id {
        } else {
            let out = rest.push(last);
            assert forall|t: TabId| out.contains(t) <==> rest.contains(t) || t == last by {
                if rest.contains(t) {
                    let i = choose|i: int| 0 <= i < rest.len() && rest[i] == t;
                    assert(out[i] == t);
                }
                if t == last {
                    assert(out[out.len() - 1] == t);
                }
            }
            if !tabs.contains(id) {
                assert(out =~= tabs);
            }
        }
    }
}

impl WindowView {
    /// The index of the tab in front lies inside a list that is not empty.
    pub open spec fn wf(self) -> bool {
        self.tabs.len() > 0 ==> self.active < self.tabs.len()
    }

    /// The window after `tab` was appended and brought to the front.
    pub open spec fn pushed(self, tab: TabId) -> WindowView {
        WindowView { id: self.id, tabs: self.tabs.push(tab), active: self.tabs.len() }
    }

    /// The window after `tab` was taken out of it. The index of the tab in
    /// front stays where the list still reaches it, and falls back to the
    /// last tab where it does not.
    pub open spec fn removed(self, tab: TabId) -> WindowView {
        let rest = without(self.tabs, tab);
        WindowView {
            id: self.id,
            tabs: rest,
            active: if rest.len() > 0 && self.active >= rest.len() {
                (rest.len() - 1) as nat
            } else {
                self.active
            },
        }
    }
}

/// An ordered collection of tabs, one of which is in front.
#[derive(Debug)]
pub struct Window {
    id: WindowId,
    tabs: Vec<TabId>,
    active: usize,
}

impl View for Window {
    type V = WindowView;

    closed spec fn view(&self) -> WindowView {
        WindowView { id: self.id, tabs: self.tabs@, active: self.active as nat }
    }
}

impl Window {
    /// An empty window under the identifier `id`.
    pub fn new(id: WindowId) -> (r: Self)
        ensures
            r@ == (WindowView { id, tabs: Seq::empty(), active: 0 }),
            r@.wf(),
    {
        Window { id, tabs: Vec::new(), active: 0 }
    }

    /// The identifier that the window was made under.
    pub fn window_id(&self) -> (id: WindowId)
        ensures
            id == self@.id,
    {
        self.id
    }

    /// Appends `tab` and makes it the tab in front.
    pub fn push(&mut self, tab: TabId)
        ensures
            final(self)@ == old(self)@.pushed(tab),
            final(self)@.wf(),
    {
        self.active = self.tabs.len();
        self.tabs.push(tab);
    }

    /// Whether the window shows no tab. The registry removes a window that
    /// the removal of a tab has left so.
    pub fn is_empty(&self) -> (r: bool)
        ensures
            r == (self@.tabs.len() == 0),
    {
        self.tabs.len() == 0
    }

    /// How many tabs the window shows.
    pub fn len(&self) -> (r: usize)
        ensures
            r == self@.tabs.len(),
    {
        self.tabs.len()
    }

    /// The tab at `idx`, if the list reaches that far.
    pub fn get_by_idx(&self, idx: usize) -> (r: Option<TabId>)
        ensures
            r == if idx < self@.tabs.len() {
                Some(self@.tabs[idx as int])
            } else {
                None
            },
    {
        if idx < self.tabs.len() {
            Some(self.tabs[idx])
        } else {
            None
        }
    }

    /// Where `id` first stands in the list.
    pub fn idx_by_id(&self, id: TabId) -> (r: Option<usize>)
        ensures
            match r {
                Some(idx) => idx < self@.tabs.len() && self@.tabs[idx as int] == id && forall|
                    j: int,
                | 0 <= j < idx ==> self@.tabs[j] != id,
                None => !self@.tabs.contains(id),
            },
    {
        let mut idx: usize = 0;
        while idx < self.tabs.len()
            invariant
                idx <= self.tabs@.len(),
                forall|j: int| 0 <= j < idx ==> self.tabs@[j] != id,
            decreases self.tabs.len() - idx,
        {
            if self.tabs[idx] == id {
                return Some(idx);
            }
            idx = idx + 1;
        }
        None
    }

    /// Takes `id` out of the window, wherever it stands in the list, and
    /// says whether it was there. Where the tab in front was the last of the
    /// list and the list got shorter, the new last tab comes to the front.
    pub fn remove_by_id(&mut self, id: TabId) -> (r: bool)
        ensures
            r == old(self)@.tabs.contains(id),
            final(self)@ == old(self)@.removed(id),
            final(self)@.wf(),
    {
        let mut kept: Vec<TabId> = Vec::new();
        let mut i: usize = 0;
        while i < self.tabs.len()
            invariant
                i <= self.tabs@.len(),
                kept@ == without(self.tabs@.take(i as int), id),
            decreases self.tabs.len() - i,
        {
            let t = self.tabs[i];
            if t != id {
                kept.push(t);
            }
            assert(self.tabs@.take(i + 1).drop_last() =~= self.tabs@.take(i as int));
            i = i + 1;
        }
        proof {
            assert(self.tabs@.take(i as int) =~= self.tabs@);
            lemma_without(self.tabs@, id);
        }
        let found = kept.len() != self.tabs.len();
        self.tabs = kept;
        let len = self.tabs.len();
        if len > 0 && self.active >= len {
            self.active = len - 1;
        }
        found
    }

    /// The tab in front; none in an empty window.
    pub fn get_active(&self) -> (r: Option<TabId>)
        ensures
            r == if self@.active < self@.tabs.len() {
                Some(self@.tabs[self@.active as int])
            } else {
                None
            },
    {
        self.get_by_idx(self.active)
    }

    /// The index of the tab in front.
    pub fn get_active_idx(&self) -> (r: usize)
        ensures
            r == self@.active,
    {
        self.active
    }

    /// Brings the tab at `idx` to the front.
    pub fn set_active(&mut self, idx: usize)
        requires
            idx < old(self)@.tabs.len(),
        ensures
            final(self)@ == (WindowView { active: idx as nat, ..old(self)@ }),
            final(self)@.wf(),
    {
        self.active = idx;
    }
}

} // verus!
