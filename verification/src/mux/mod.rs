//! The registry of the process: which tabs live, which windows show them,
//! and which domains make them.

pub mod domain;
pub mod reader;
pub mod tab;
pub mod window;

use crate::mux::domain::DomainId;
use crate::mux::tab::{IdCounter, TabId};
use crate::mux::window::{lemma_without, without, Window, WindowId, WindowView};
use std::collections::HashMap;
use vstd::prelude::*;
use vstd::std_specs::iter::IteratorSpec;

verus! {

broadcast use vstd::std_specs::hash::group_hash_axioms;

/// What the registry holds. `T` is the handle of a tab and `D` the handle of
/// a domain: the registry keeps them and hands them out, and never looks
/// inside.
pub struct MuxView<T, D> {
    pub tabs: Map<TabId, T>,
    pub windows: Map<WindowId, WindowView>,
    pub domains: Map<DomainId, D>,
    pub default_domain: DomainId,
    pub next_window: usize,
}

impl<T, D> MuxView<T, D> {
    /// Every window stands under its own identifier, has its tab in front
    /// inside its list, and was made before the identifier that comes next;
    /// and the default domain is one of the domains.
    pub open spec fn wf(self) -> bool {
        &&& self.domains.contains_key(self.default_domain)
        &&& forall|w: WindowId| #[trigger]
            self.windows.contains_key(w) ==> self.windows[w].id == w && self.windows[w].wf() && w
                < self.next_window
    }

    /// Every tab that a window shows is a tab of the registry.
    pub open spec fn contained(self) -> bool {
        forall|w: WindowId, i: int|
            self.windows.contains_key(w) && 0 <= i < self.windows[w].tabs.len()
                ==> self.tabs.contains_key(#[trigger] self.windows[w].tabs[i])
    }

    /// No window is without a tab.
    pub open spec fn no_empty_window(self) -> bool {
        forall|w: WindowId| #[trigger]
            self.windows.contains_key(w) ==> self.windows[w].tabs.len() > 0
    }

    /// The registry after the tab `tab` came in under `id`.
    pub open spec fn with_tab(self, id: TabId, tab: T) -> Self {
        MuxView { tabs: self.tabs.insert(id, tab), ..self }
    }

    /// The registry after the tab `id` was appended to the window `window`.
    pub open spec fn with_tab_in_window(self, id: TabId, window: WindowId) -> Self {
        MuxView { windows: self.windows.insert(window, self.windows[window].pushed(id)), ..self }
    }

    /// Whether taking the tab `id` away closes the window `w`: it does where
    /// the window shows that tab and no other.
    pub open spec fn closes(self, id: TabId, w: WindowId) -> bool {
        self.windows[w].tabs.contains(id) && without(self.windows[w].tabs, id).len() == 0
    }

    /// The registry after the tab `id` was taken away: out of the tabs, out
    /// of every window, and without the windows that this left empty.
    pub open spec fn without_tab(self, id: TabId) -> Self {
        MuxView {
            tabs: self.tabs.remove(id),
            windows: Map::new(
                |w: WindowId| self.windows.contains_key(w) && !self.closes(id, w),
                |w: WindowId| self.windows[w].removed(id),
            ),
            ..self
        }
    }

    /// The registry after an empty window was made under the identifier that
    /// came next.
    pub open spec fn with_empty_window(self) -> Self {
        MuxView {
            windows: self.windows.insert(
                self.next_window,
                WindowView { id: self.next_window, tabs: Seq::empty(), active: 0 },
            ),
            next_window: (self.next_window + 1) as usize,
            ..self
        }
    }
}

/// The windows while the tab `id` is being taken away: those in `done` have
/// been dealt with, the others are as they were.
spec fn partly_removed(
    windows: Map<WindowId, WindowView>,
    done: Set<WindowId>,
    id: TabId,
) -> Map<WindowId, WindowView> {
    Map::new(
        |w: WindowId|
            windows.contains_key(w) && !(done.contains(w) && windows[w].tabs.contains(id)
                && without(windows[w].tabs, id).len() == 0),
        |w: WindowId|
            if done.contains(w) {
                windows[w].removed(id)
            } else {
                windows[w]
            },
    )
}

/// One of the three operations that change which tabs the registry and its
/// windows hold.
pub enum MuxOp<T> {
    AddTab { tab_id: TabId, tab: T },
    AddTabToWindow { tab_id: TabId, window_id: WindowId },
    RemoveTab { tab_id: TabId },
}

impl<T, D> MuxView<T, D> {
    /// The registry after `op`. Appending to a window that the registry
    /// does not have fails and changes nothing.
    pub open spec fn apply(self, op: MuxOp<T>) -> Self {
        match op {
            MuxOp::AddTab { tab_id, tab } => self.with_tab(tab_id, tab),
            MuxOp::AddTabToWindow { tab_id, window_id } => if self.windows.contains_key(
                window_id,
            ) {
                self.with_tab_in_window(tab_id, window_id)
            } else {
                self
            },
            MuxOp::RemoveTab { tab_id } => self.without_tab(tab_id),
        }
    }

    /// Whether `op` names only tabs that the registry knows where it puts
    /// one into a window.
    pub open spec fn admits(self, op: MuxOp<T>) -> bool {
        match op {
            MuxOp::AddTabToWindow { tab_id, window_id } => self.tabs.contains_key(tab_id),
            _ => true,
        }
    }

    /// The registry after the operations `ops`, one after the other.
    pub open spec fn run(self, ops: Seq<MuxOp<T>>) -> Self
        decreases ops.len(),
    {
        if ops.len() == 0 {
            self
        } else {
            self.run(ops.drop_last()).apply(ops.last())
        }
    }

    /// Whether each of `ops` is admitted by the registry that it meets.
    pub open spec fn admits_all(self, ops: Seq<MuxOp<T>>) -> bool
        decreases ops.len(),
    {
        ops.len() == 0 || (self.admits_all(ops.drop_last()) && self.run(ops.drop_last()).admits(
            ops.last(),
        ))
    }
}

/// Taking a tab away leaves no trace of it: no window shows it any more, no
/// other tab has left a window, and the only windows that went are those
/// that showed nothing else.
pub proof fn remove_tab_is_thorough<T, D>(m: MuxView<T, D>, tab_id: TabId)
    ensures
        !m.without_tab(tab_id).tabs.contains_key(tab_id),
        forall|w: WindowId| #[trigger]
            m.without_tab(tab_id).windows.contains_key(w) ==> {
                &&& m.windows.contains_key(w)
                &&& !m.without_tab(tab_id).windows[w].tabs.contains(tab_id)
                &&& forall|t: TabId|
                    m.without_tab(tab_id).windows[w].tabs.contains(t) <==> m.windows[w].tabs.contains(
                        t,
                    ) && t != tab_id
            },
        forall|w: WindowId|
            m.windows.contains_key(w) && !m.without_tab(tab_id).windows.contains_key(w)
                ==> forall|i: int|
                0 <= i < m.windows[w].tabs.len() ==> #[trigger] m.windows[w].tabs[i] == tab_id,
{
    let r = m.without_tab(tab_id);
    assert forall|w: WindowId| #[trigger] r.windows.contains_key(w) implies {
        &&& m.windows.contains_key(w)
        &&& !r.windows[w].tabs.contains(tab_id)
        &&& forall|t: TabId|
            r.windows[w].tabs.contains(t) <==> m.windows[w].tabs.contains(t) && t != tab_id
    } by {
        lemma_without(m.windows[w].tabs, tab_id);
    }
    assert forall|w: WindowId|
        m.windows.contains_key(w) && !r.windows.contains_key(w) implies forall|i: int|
        0 <= i < m.windows[w].tabs.len() ==> #[trigger] m.windows[w].tabs[i] == tab_id by {
        lemma_without(m.windows[w].tabs, tab_id);
        assert forall|i: int| 0 <= i < m.windows[w].tabs.len() implies #[trigger] m.windows[w].tabs[i]
            == tab_id by {
            let t = m.windows[w].tabs[i];
            if t != tab_id {
                assert(m.windows[w].tabs.contains(t));
                assert(without(m.windows[w].tabs, tab_id).contains(t));
            }
        }
    }
}

/// A new window shows no tab, so it cannot show an unknown one.
pub proof fn empty_window_is_harmless<T, D>(m: MuxView<T, D>)
    requires
        m.wf(),
    ensures
        m.contained() ==> m.with_empty_window().contained(),
{
    let r = m.with_empty_window();
    if m.contained() {
        assert forall|w: WindowId, i: int|
            r.windows.contains_key(w) && 0 <= i < r.windows[w].tabs.len() implies r.tabs.contains_key(
            #[trigger] r.windows[w].tabs[i],
        ) by {
            assert(w != m.next_window);
            assert(m.windows.contains_key(w));
            assert(r.windows[w].tabs[i] == m.windows[w].tabs[i]);
        }
    }
}

/// One operation keeps the registry in order: where every tab that a window
/// shows is a tab of the registry and no window is empty, the same holds
/// after the operation, given that the operation puts only a known tab into
/// a window.
pub proof fn containment_kept<T, D>(m: MuxView<T, D>, op: MuxOp<T>)
    requires
        m.admits(op),
    ensures
        m.contained() ==> m.apply(op).contained(),
        m.no_empty_window() ==> m.apply(op).no_empty_window(),
{
    let r = m.apply(op);
    match op {
        MuxOp::AddTab { tab_id, tab } => {},
        MuxOp::AddTabToWindow { tab_id, window_id } => {
            if m.windows.contains_key(window_id) && m.contained() {
                assert forall|w: WindowId, i: int|
                    r.windows.contains_key(w) && 0 <= i < r.windows[w].tabs.len() implies r.tabs.contains_key(
                    #[trigger] r.windows[w].tabs[i],
                ) by {
                    if w == window_id && i < m.windows[w].tabs.len() {
                        assert(r.windows[w].tabs[i] == m.windows[w].tabs[i]);
                    }
                    if w != window_id {
                        assert(r.windows[w].tabs[i] == m.windows[w].tabs[i]);
                    }
                }
            }
        },
        MuxOp::RemoveTab { tab_id } => {
            remove_tab_is_thorough(m, tab_id);
            if m.contained() {
                assert forall|w: WindowId, i: int|
                    r.windows.contains_key(w) && 0 <= i < r.windows[w].tabs.len() implies r.tabs.contains_key(
                    #[trigger] r.windows[w].tabs[i],
                ) by {
                    let t = r.windows[w].tabs[i];
                    assert(r.windows[w].tabs.contains(t));
                    assert(m.windows[w].tabs.contains(t) && t != tab_id);
                    let j = choose|j: int|
                        0 <= j < m.windows[w].tabs.len() && m.windows[w].tabs[j] == t;
                    assert(m.tabs.contains_key(m.windows[w].tabs[j]));
                }
            }
            if m.no_empty_window() {
                assert forall|w: WindowId| #[trigger] r.windows.contains_key(w) implies r.windows[w].tabs.len()
                    > 0 by {
                    lemma_without(m.windows[w].tabs, tab_id);
                }
            }
        },
    }
}

/// The registry stays in order through any run of operations: where every
/// tab that a window shows is a tab of the registry and no window is empty,
/// the same holds after tabs were added, put into windows and taken away
/// in any number and order, given that only known tabs were put into
/// windows.
pub proof fn containment_holds<T, D>(m: MuxView<T, D>, ops: Seq<MuxOp<T>>)
    requires
        m.contained(),
        m.no_empty_window(),
        m.admits_all(ops),
    ensures
        m.run(ops).contained(),
        m.run(ops).no_empty_window(),
    decreases ops.len(),
{
    if ops.len() > 0 {
        containment_holds(m, ops.drop_last());
        containment_kept(m.run(ops.drop_last()), ops.last());
    }
}

/// Adding tabs, putting them into windows and taking them away gives out
/// no identifier of a window, and keeps every window as it must be.
pub proof fn run_keeps_windows_in_order<T, D>(m: MuxView<T, D>, ops: Seq<MuxOp<T>>)
    requires
        m.wf(),
    ensures
        m.run(ops).wf(),
        m.run(ops).next_window == m.next_window,
        m.run(ops).domains == m.domains,
        m.run(ops).default_domain == m.default_domain,
        forall|w: WindowId| #[trigger]
            m.run(ops).windows.contains_key(w) ==> m.windows.contains_key(w),
    decreases ops.len(),
{
    if ops.len() > 0 {
        run_keeps_windows_in_order(m, ops.drop_last());
        let before = m.run(ops.drop_last());
        let after = m.run(ops);
        match ops.last() {
            MuxOp::AddTab { tab_id, tab } => {},
            MuxOp::AddTabToWindow { tab_id, window_id } => {},
            MuxOp::RemoveTab { tab_id } => {
                assert forall|w: WindowId| #[trigger] after.windows.contains_key(w) implies {
                    &&& before.windows.contains_key(w)
                    &&& after.windows[w].id == w
                    &&& after.windows[w].wf()
                } by {}
            },
        }
    }
}

/// A new window is a new window. It stands under an identifier that no
/// window of the registry has; it is empty; and nothing else has changed: no
/// tab, no domain, and no other window. Whatever tabs are then added, put
/// into windows and taken away, the window that is made next gets another
/// identifier, so that no two windows of a process ever share one.
pub proof fn new_windows_are_fresh<T, D>(m: MuxView<T, D>, ops: Seq<MuxOp<T>>)
    requires
        m.wf(),
        m.next_window < usize::MAX,
    ensures
        ({
            let made = m.with_empty_window();
            let w = m.next_window;
            &&& !m.windows.contains_key(w)
            &&& made.wf()
            &&& made.windows.dom() == m.windows.dom().insert(w)
            &&& made.windows[w] == (WindowView { id: w, tabs: Seq::empty(), active: 0 })
            &&& forall|other: WindowId|
                m.windows.contains_key(other) ==> made.windows[other] == m.windows[other]
            &&& made.tabs == m.tabs
            &&& made.domains == m.domains
            &&& made.run(ops).next_window == w + 1
            &&& forall|other: WindowId| #[trigger]
                made.run(ops).windows.contains_key(other) ==> other <= w
        }),
{
    let made = m.with_empty_window();
    let w = m.next_window;
    assert(made.windows.dom() =~= m.windows.dom().insert(w));
    assert(made.wf());
    run_keeps_windows_in_order(made, ops);
    assert forall|other: WindowId| #[trigger]
        made.run(ops).windows.contains_key(other) implies other <= w by {
        assert(made.windows.contains_key(other));
    }
}

/// A tab that is spawned without a window is found in a window of its own.
/// After the registry has made a window for the tab, entered the tab and
/// put it into that window, the window is new, shows this tab and no
/// other, with this tab in front; the tab is in the registry; and every
/// other window is as it was. So a listing of the tabs names the tab once,
/// under the new window.
pub proof fn spawned_tab_has_its_window<T, D>(m: MuxView<T, D>, tab_id: TabId, tab: T)
    requires
        m.wf(),
        m.next_window < usize::MAX,
    ensures
        ({
            let w = m.next_window;
            let after = m.with_empty_window().with_tab(tab_id, tab).with_tab_in_window(tab_id, w);
            &&& !m.windows.contains_key(w)
            &&& after.wf()
            &&& after.tabs.contains_key(tab_id) && after.tabs[tab_id] == tab
            &&& after.windows.contains_key(w)
            &&& after.windows[w] == (WindowView { id: w, tabs: seq![tab_id], active: 0 })
            &&& forall|other: WindowId|
                other != w ==> after.windows.contains_key(other) == m.windows.contains_key(other)
                    && (m.windows.contains_key(other) ==> after.windows[other]
                    == m.windows[other])
            &&& m.contained() ==> after.contained()
        }),
{
    let w = m.next_window;
    let made = m.with_empty_window();
    let entered = made.with_tab(tab_id, tab);
    let after = entered.with_tab_in_window(tab_id, w);
    assert(Seq::<TabId>::empty().push(tab_id) =~= seq![tab_id]);
    empty_window_is_harmless(m);
    containment_kept(made, MuxOp::AddTab { tab_id, tab });
    containment_kept(entered, MuxOp::AddTabToWindow { tab_id, window_id: w });
}

/// Why a session is over.
#[derive(Debug, PartialEq, Eq)]
pub enum SessionTerminated {
    /// The process of the tab has exited.
    ProcessStatus { success: bool },
    /// Something failed.
    Error { reason: String },
    /// The window was closed.
    WindowClosed,
}

/// The tabs that a listing names for the window `w`, in the order of the
/// listing.
pub open spec fn listed_for(listing: Seq<(WindowId, TabId)>, w: WindowId) -> Seq<TabId>
    decreases listing.len(),
{
    if listing.len() == 0 {
        Seq::empty()
    } else if listing.last().0 == w {
        listed_for(listing.drop_last(), w).push(listing.last().1)
    } else {
        listed_for(listing.drop_last(), w)
    }
}

proof fn lemma_listed_push(listing: Seq<(WindowId, TabId)>, entry: (WindowId, TabId), w: WindowId)
    ensures
        listed_for(listing.push(entry), w) == if entry.0 == w {
            listed_for(listing, w).push(entry.1)
        } else {
            listed_for(listing, w)
        },
{
    assert(listing.push(entry).drop_last() =~= listing);
}

/// A lookup went wrong.
#[derive(Clone, Copy, Debug, PartialEq, Eq, Structural)]
pub enum MuxError {
    /// The registry has no window under this identifier.
    NoSuchWindow { window_id: WindowId },
    /// The registry has no tab under this identifier.
    NoSuchTab { tab_id: TabId },
}

/// The registry of tabs, windows and domains. There is one for the process;
/// it is changed on the GUI thread only.
pub struct Mux<T, D> {
    tabs: HashMap<TabId, T>,
    windows: HashMap<WindowId, Window>,
    domains: HashMap<DomainId, D>,
    default_domain: DomainId,
    window_ids: IdCounter,
}

impl<T, D> View for Mux<T, D> {
    type V = MuxView<T, D>;

    closed spec fn view(&self) -> MuxView<T, D> {
        MuxView {
            tabs: self.tabs@,
            windows: self.windows@.map_values(|w: Window| w@),
            domains: self.domains@,
            default_domain: self.default_domain,
            next_window: self.window_ids.next_id(),
        }
    }
}

impl<T, D> Mux<T, D> {
    /// A registry without tabs and windows, whose one domain is the default
    /// domain.
    pub fn new(default_domain_id: DomainId, default_domain: D) -> (r: Self)
        ensures
            r@.wf(),
            r@.tabs == Map::<TabId, T>::empty(),
            r@.windows == Map::<WindowId, WindowView>::empty(),
            r@.domains == Map::<DomainId, D>::empty().insert(default_domain_id, default_domain),
            r@.default_domain == default_domain_id,
            r@.next_window == 0,
    {
        let mut domains: HashMap<DomainId, D> = HashMap::new();
        domains.insert(default_domain_id, default_domain);
        let r = Mux {
            tabs: HashMap::new(),
            windows: HashMap::new(),
            domains,
            default_domain: default_domain_id,
            window_ids: IdCounter::new(),
        };
        assert(r@.windows =~= Map::<WindowId, WindowView>::empty());
        r
    }

    /// The default domain's identifier.
    pub fn default_domain_id(&self) -> (id: DomainId)
        ensures
            id == self@.default_domain,
    {
        self.default_domain
    }

    /// The domain under which tabs are made where no other is asked for.
    pub fn default_domain(&self) -> (r: &D)
        requires
            self@.wf(),
        ensures
            *r == self@.domains[self@.default_domain],
    {
        let found = self.domains.get(&self.default_domain);
        match found {
            Some(d) => d,
            None => {
                proof {
                    assert(false);
                }
                vstd::pervasive::unreached()
            },
        }
    }

    /// The domain under the identifier `id`.
    pub fn get_domain(&self, id: DomainId) -> (r: Option<&D>)
        ensures
            match r {
                Some(d) => self@.domains.contains_key(id) && *d == self@.domains[id],
                None => !self@.domains.contains_key(id),
            },
    {
        self.domains.get(&id)
    }

    /// Enters `domain` under the identifier `id`, in place of what stood
    /// there.
    pub fn add_domain(&mut self, id: DomainId, domain: D)
        requires
            old(self)@.wf(),
        ensures
            final(self)@ == (MuxView { domains: old(self)@.domains.insert(id, domain), ..old(self)@ }),
            final(self)@.wf(),
    {
        self.domains.insert(id, domain);
        assert(self@.windows == old(self)@.windows);
    }

    /// The tab under the identifier `tab_id`.
    pub fn get_tab(&self, tab_id: TabId) -> (r: Option<&T>)
        ensures
            match r {
                Some(t) => self@.tabs.contains_key(tab_id) && *t == self@.tabs[tab_id],
                None => !self@.tabs.contains_key(tab_id),
            },
    {
        self.tabs.get(&tab_id)
    }

    /// The tab under the identifier `tab_id`, or the error that says that
    /// there is none.
    pub fn tab(&self, tab_id: TabId) -> (r: Result<&T, MuxError>)
        ensures
            match r {
                Ok(t) => self@.tabs.contains_key(tab_id) && *t == self@.tabs[tab_id],
                Err(e) => !self@.tabs.contains_key(tab_id) && e == (MuxError::NoSuchTab { tab_id }),
            },
    {
        match self.tabs.get(&tab_id) {
            Some(t) => Ok(t),
            None => Err(MuxError::NoSuchTab { tab_id }),
        }
    }

    /// Enters the tab `tab` under the identifier `tab_id`. No window shows it
    /// yet.
    pub fn add_tab(&mut self, tab_id: TabId, tab: T)
        requires
            old(self)@.wf(),
        ensures
            final(self)@ == old(self)@.with_tab(tab_id, tab),
            final(self)@.wf(),
            old(self)@.contained() ==> final(self)@.contained(),
            old(self)@.no_empty_window() ==> final(self)@.no_empty_window(),
    {
        self.tabs.insert(tab_id, tab);
        assert(self@.windows == old(self)@.windows);
        proof {
            containment_kept(old(self)@, MuxOp::AddTab { tab_id, tab });
        }
    }

    /// The window under the identifier `window_id`.
    pub fn get_window(&self, window_id: WindowId) -> (r: Option<&Window>)
        ensures
            match r {
                Some(w) => self@.windows.contains_key(window_id) && w@
                    == self@.windows[window_id],
                None => !self@.windows.contains_key(window_id),
            },
    {
        self.windows.get(&window_id)
    }

    /// Appends the tab `tab_id` to the window `window_id` and brings it to
    /// the front there. Fails where the registry has no such window.
    pub fn add_tab_to_window(&mut self, tab_id: TabId, window_id: WindowId) -> (r: Result<
        (),
        MuxError,
    >)
        requires
            old(self)@.wf(),
        ensures
            final(self)@.wf(),
            match r {
                Ok(()) => old(self)@.windows.contains_key(window_id) && final(self)@ == old(
                    self,
                )@.with_tab_in_window(tab_id, window_id),
                Err(e) => !old(self)@.windows.contains_key(window_id) && final(self)@ == old(self)@
                    && e == (MuxError::NoSuchWindow { window_id }),
            },
            old(self)@.contained() && old(self)@.tabs.contains_key(tab_id)
                ==> final(self)@.contained(),
            old(self)@.no_empty_window() ==> final(self)@.no_empty_window(),
    {
        proof {
            if old(self)@.tabs.contains_key(tab_id) {
                containment_kept(old(self)@, MuxOp::AddTabToWindow { tab_id, window_id });
            }
        }
        match self.windows.remove(&window_id) {
            Some(mut window) => {
                window.push(tab_id);
                self.windows.insert(window_id, window);
                assert(self@.windows =~= old(self)@.windows.insert(
                    window_id,
                    old(self)@.windows[window_id].pushed(tab_id),
                ));
                Ok(())
            },
            None => {
                assert(self@.windows =~= old(self)@.windows);
                Err(MuxError::NoSuchWindow { window_id })
            },
        }
    }

    /// Whether another window can be made: the identifiers have not run out.
    pub fn has_window_ids(&self) -> (r: bool)
        ensures
            r == (self@.next_window < usize::MAX),
    {
        self.window_ids.has_more()
    }

    /// Makes an empty window under a fresh identifier, and returns the
    /// identifier: one that no window has, and none has had. Nothing else
    /// changes. The last number that the machine has is no identifier:
    /// `has_window_ids` says whether one is left.
    pub fn new_empty_window(&mut self) -> (id: WindowId)
        requires
            old(self)@.wf(),
            old(self)@.next_window < usize::MAX,
        ensures
            id == old(self)@.next_window,
            !old(self)@.windows.contains_key(id),
            final(self)@ == old(self)@.with_empty_window(),
            final(self)@.wf(),
            final(self)@.next_window == id + 1,
            final(self)@.windows.dom() == old(self)@.windows.dom().insert(id),
            final(self)@.windows[id] == (WindowView { id, tabs: Seq::empty(), active: 0 }),
            forall|other: WindowId|
                old(self)@.windows.contains_key(other) ==> #[trigger] final(self)@.windows[other]
                    == old(self)@.windows[other],
            final(self)@.tabs == old(self)@.tabs,
            final(self)@.domains == old(self)@.domains,
            old(self)@.contained() ==> final(self)@.contained(),
    {
        proof {
            empty_window_is_harmless(old(self)@);
        }
        let id = self.window_ids.take();
        let window = Window::new(id);
        self.windows.insert(id, window);
        assert(self@.windows =~= old(self)@.windows.insert(
            id,
            WindowView { id, tabs: Seq::empty(), active: 0 },
        ));
        id
    }

    /// Brings the tab at `idx` of the window `window_id` to the front.
    /// Fails where the registry has no such window; leaves the window as it
    /// is where its list does not reach `idx`.
    pub fn set_active_tab(&mut self, window_id: WindowId, idx: usize) -> (r: Result<bool, MuxError>)
        requires
            old(self)@.wf(),
        ensures
            final(self)@.wf(),
            match r {
                Ok(moved) => {
                    &&& old(self)@.windows.contains_key(window_id)
                    &&& moved == (idx < old(self)@.windows[window_id].tabs.len())
                    &&& final(self)@ == if moved {
                        MuxView {
                            windows: old(self)@.windows.insert(
                                window_id,
                                WindowView { active: idx as nat, ..old(self)@.windows[window_id] },
                            ),
                            ..old(self)@
                        }
                    } else {
                        old(self)@
                    }
                },
                Err(e) => !old(self)@.windows.contains_key(window_id) && final(self)@ == old(self)@
                    && e == (MuxError::NoSuchWindow { window_id }),
            },
    {
        match self.windows.remove(&window_id) {
            Some(mut window) => {
                let moved = idx < window.len();
                if moved {
                    window.set_active(idx);
                }
                self.windows.insert(window_id, window);
                if moved {
                    assert(self@.windows =~= old(self)@.windows.insert(
                        window_id,
                        WindowView { active: idx as nat, ..old(self)@.windows[window_id] },
                    ));
                } else {
                    assert(self@.windows =~= old(self)@.windows);
                }
                Ok(moved)
            },
            None => {
                assert(self@.windows =~= old(self)@.windows);
                Err(MuxError::NoSuchWindow { window_id })
            },
        }
    }

    /// The tab in front of the window `window_id`: none where the registry
    /// has no such window, where the window is empty, or where the registry
    /// does not hold the tab that the window names.
    pub fn get_active_tab_for_window(&self, window_id: WindowId) -> (r: Option<&T>)
        ensures
            match r {
                Some(t) => {
                    &&& self@.windows.contains_key(window_id)
                    &&& self@.windows[window_id].active < self@.windows[window_id].tabs.len()
                    &&& self@.tabs.contains_key(
                        self@.windows[window_id].tabs[self@.windows[window_id].active as int],
                    )
                    &&& *t == self@.tabs[self@.windows[window_id].tabs[self@.windows[window_id].active as int]]
                },
                None => {
                    ||| !self@.windows.contains_key(window_id)
                    ||| self@.windows[window_id].active >= self@.windows[window_id].tabs.len()
                    ||| !self@.tabs.contains_key(
                        self@.windows[window_id].tabs[self@.windows[window_id].active as int],
                    )
                },
            },
    {
        match self.windows.get(&window_id) {
            Some(window) => match window.get_active() {
                Some(tab_id) => self.tabs.get(&tab_id),
                None => None,
            },
            None => None,
        }
    }

    /// Takes the tab `tab_id` away: out of the tabs, and out of every window
    /// that shows it. A window that this leaves without a tab is removed
    /// too.
    pub fn remove_tab(&mut self, tab_id: TabId)
        requires
            old(self)@.wf(),
        ensures
            final(self)@ == old(self)@.without_tab(tab_id),
            final(self)@.wf(),
            old(self)@.contained() ==> final(self)@.contained(),
            old(self)@.no_empty_window() ==> final(self)@.no_empty_window(),
    {
        proof {
            containment_kept(old(self)@, MuxOp::RemoveTab { tab_id });
        }
        self.tabs.remove(&tab_id);
        let ids = self.iter_windows();
        let ghost before = old(self)@.windows;
        let mut k: usize = 0;
        assert(self@.windows =~= partly_removed(before, ids@.take(0).to_set(), tab_id));
        while k < ids.len()
            invariant
                k <= ids@.len(),
                ids@.to_set() == before.dom(),
                ids@.no_duplicates(),
                before == old(self)@.windows,
                old(self)@.wf(),
                self@.tabs == old(self)@.tabs.remove(tab_id),
                self@.domains == old(self)@.domains,
                self@.default_domain == old(self)@.default_domain,
                self@.next_window == old(self)@.next_window,
                self@.windows == partly_removed(before, ids@.take(k as int).to_set(), tab_id),
            decreases ids.len() - k,
        {
            let w = ids[k];
            let ghost done = ids@.take(k as int).to_set();
            let ghost now = ids@.take(k + 1).to_set();
            proof {
                assert(ids@.take(k + 1) =~= ids@.take(k as int).push(w));
                ids@.take(k as int).lemma_push_to_set_commute(w);
                assert(now == done.insert(w));
                assert(ids@.contains(w)) by {
                    assert(ids@[k as int] == w);
                }
                assert(before.dom().contains(w));
                assert(!done.contains(w)) by {
                    if ids@.take(k as int).contains(w) {
                        let i = choose|i: int| 0 <= i < k && #[trigger] ids@.take(k as int)[i] == w;
                        assert(ids@[i] == ids@[k as int]);
                    }
                }
            }
            let ghost mid = self@.windows;
            match self.windows.remove(&w) {
                Some(mut window) => {
                    let found = window.remove_by_id(tab_id);
                    if !(found && window.is_empty()) {
                        self.windows.insert(w, window);
                    }
                },
                None => {},
            }
            proof {
                lemma_without(before[w].tabs, tab_id);
                let goal = partly_removed(before, now, tab_id);
                assert(mid.contains_key(w) && mid[w] == before[w]);
                assert forall|x: WindowId| self@.windows.contains_key(x) == goal.contains_key(
                    x,
                ) by {
                    if x != w {
                        assert(mid.contains_key(x) == goal.contains_key(x));
                    }
                }
                assert forall|x: WindowId| #[trigger] self@.windows.contains_key(x) implies self@.windows[x]
                    == goal[x] by {
                    if x != w {
                        assert(mid.contains_key(x));
                        assert(goal.contains_key(x));
                        assert(now.contains(x) == done.contains(x));
                        assert(self@.windows[x] == mid[x]);
                        assert(mid[x] == goal[x]);
                    }
                }
                assert(self@.windows =~= goal);
            }
            k = k + 1;
        }
        proof {
            assert(ids@.take(k as int) =~= ids@);
            assert(self@.windows =~= old(self)@.without_tab(tab_id).windows);
            assert forall|w: WindowId| #[trigger] self@.windows.contains_key(w) implies self@.windows[w].id
                == w && self@.windows[w].wf() && w < self@.next_window by {
                assert(before.contains_key(w));
            }
        }
    }

    /// Whether the registry holds no tab.
    pub fn is_empty(&self) -> (r: bool)
        ensures
            r == (self@.tabs.len() == 0),
    {
        self.tabs.len() == 0
    }

    /// The identifiers of the tabs, each once, in no particular order.
    pub fn iter_tabs(&self) -> (r: Vec<TabId>)
        ensures
            r@.to_set() == self@.tabs.dom(),
            r@.no_duplicates(),
    {
        let mut out: Vec<TabId> = Vec::new();
        let ghost keys = self.tabs.keys().remaining().unref();
        for id in it: self.tabs.keys()
            invariant
                it.seq().unref() == keys,
                out@.len() == it.index(),
                out@ == keys.take(out@.len() as int),
        {
            out.push(*id);
        }
        assert(out@ =~= keys);
        out
    }

    /// Enters the tab `tab` under `tab_id` and shows it in the window
    /// `window_id`, as a domain does with a tab that it has made. Where the
    /// registry has no such window the tab is entered all the same, and
    /// shown nowhere.
    pub fn add_tab_in_window(&mut self, tab_id: TabId, tab: T, window_id: WindowId) -> (r: Result<
        (),
        MuxError,
    >)
        requires
            old(self)@.wf(),
        ensures
            final(self)@.wf(),
            old(self)@.contained() ==> final(self)@.contained(),
            match r {
                Ok(()) => old(self)@.windows.contains_key(window_id) && final(self)@ == old(
                    self,
                )@.with_tab(tab_id, tab).with_tab_in_window(tab_id, window_id),
                Err(e) => !old(self)@.windows.contains_key(window_id) && final(self)@ == old(
                    self,
                )@.with_tab(tab_id, tab) && e == (MuxError::NoSuchWindow { window_id }),
            },
    {
        self.add_tab(tab_id, tab);
        proof {
            containment_kept(old(self)@, MuxOp::AddTab { tab_id, tab });
            containment_kept(self@, MuxOp::AddTabToWindow { tab_id, window_id });
        }
        self.add_tab_to_window(tab_id, window_id)
    }

    /// Enters the tab `tab` under `tab_id` and shows it in a window: the
    /// window `window_id` where one is named, else a new one. Returns the
    /// window. Where the named window is not there, the tab is entered all
    /// the same.
    pub fn spawn_into(&mut self, tab_id: TabId, tab: T, window_id: Option<WindowId>) -> (r: Result<
        WindowId,
        MuxError,
    >)
        requires
            old(self)@.wf(),
            window_id is None ==> old(self)@.next_window < usize::MAX,
        ensures
            final(self)@.wf(),
            match window_id {
                Some(window) => match r {
                    Ok(w) => w == window && old(self)@.windows.contains_key(window)
                        && final(self)@ == old(self)@.with_tab(tab_id, tab).with_tab_in_window(
                        tab_id,
                        window,
                    ),
                    Err(e) => !old(self)@.windows.contains_key(window) && final(self)@ == old(
                        self,
                    )@.with_tab(tab_id, tab) && e == (MuxError::NoSuchWindow { window_id: window }),
                },
                None => r == Ok::<WindowId, MuxError>(old(self)@.next_window) && final(self)@
                    == old(self)@.with_empty_window().with_tab(tab_id, tab).with_tab_in_window(
                    tab_id,
                    old(self)@.next_window,
                ),
            },
            old(self)@.contained() ==> final(self)@.contained(),
            old(self)@.no_empty_window() && r is Ok ==> final(self)@.no_empty_window(),
    {
        let window = match window_id {
            Some(window) => window,
            None => self.new_empty_window(),
        };
        let ghost mid = self@;
        proof {
            if window_id is None {
                empty_window_is_harmless(old(self)@);
            }
        }
        match self.add_tab_in_window(tab_id, tab, window) {
            Ok(()) => {
                proof {
                    if old(self)@.no_empty_window() {
                        assert forall|w: WindowId| #[trigger]
                            self@.windows.contains_key(w) implies self@.windows[w].tabs.len()
                            > 0 by {
                            if w != window {
                                assert(mid.windows.contains_key(w));
                                assert(old(self)@.windows.contains_key(w));
                            }
                        }
                    }
                }
                Ok(window)
            },
            Err(e) => Err(e),
        }
    }

    /// Lists every tab that a window shows, with its window: the tabs of a
    /// window in the window's order, the windows in no particular order.
    pub fn list_tabs(&self) -> (r: Vec<(WindowId, TabId)>)
        ensures
            forall|w: WindowId|
                listed_for(r@, w) == if self@.windows.contains_key(w) {
                    self@.windows[w].tabs
                } else {
                    Seq::<TabId>::empty()
                },
    {
        let ids = self.iter_windows();
        let mut out: Vec<(WindowId, TabId)> = Vec::new();
        let mut k: usize = 0;
        while k < ids.len()
            invariant
                k <= ids@.len(),
                ids@.no_duplicates(),
                ids@.to_set() == self@.windows.dom(),
                forall|w: WindowId|
                    listed_for(out@, w) == if ids@.take(k as int).contains(w) {
                        self@.windows[w].tabs
                    } else {
                        Seq::<TabId>::empty()
                    },
            decreases ids.len() - k,
        {
            let w = ids[k];
            proof {
                assert(ids@.contains(w)) by {
                    assert(ids@[k as int] == w);
                }
                assert(self@.windows.dom().contains(w));
                assert(!ids@.take(k as int).contains(w)) by {
                    if ids@.take(k as int).contains(w) {
                        let i = choose|i: int| 0 <= i < k && #[trigger] ids@.take(k as int)[i] == w;
                        assert(ids@[i] == ids@[k as int]);
                    }
                }
                assert(listed_for(out@, w) == Seq::<TabId>::empty());
            }
            let ghost before = out@;
            match self.get_window(w) {
                Some(window) => {
                    let mut i: usize = 0;
                    while i < window.len()
                        invariant
                            i <= window@.tabs.len(),
                            self@.windows.contains_key(w),
                            window@ == self@.windows[w],
                            listed_for(out@, w) == window@.tabs.take(i as int),
                            forall|x: WindowId|
                                x != w ==> listed_for(out@, x) == listed_for(before, x),
                        decreases window@.tabs.len() - i,
                    {
                        match window.get_by_idx(i) {
                            Some(t) => {
                                proof {
                                    assert forall|x: WindowId|
                                        listed_for(out@.push((w, t)), x) == if x == w {
                                            listed_for(out@, x).push(t)
                                        } else {
                                            listed_for(out@, x)
                                        } by {
                                        lemma_listed_push(out@, (w, t), x);
                                    }
                                    assert(window@.tabs.take(i + 1) =~= window@.tabs.take(
                                        i as int,
                                    ).push(t));
                                }
                                out.push((w, t));
                            },
                            None => {},
                        }
                        i = i + 1;
                    }
                    assert(window@.tabs.take(i as int) =~= window@.tabs);
                },
                None => {},
            }
            assert(listed_for(out@, w) == self@.windows[w].tabs);
            assert(forall|x: WindowId| x != w ==> listed_for(out@, x) == listed_for(before, x));
            proof {
                assert(ids@.take(k + 1) =~= ids@.take(k as int).push(w));
                assert forall|x: WindowId|
                    listed_for(out@, x) == if ids@.take(k + 1).contains(x) {
                        self@.windows[x].tabs
                    } else {
                        Seq::<TabId>::empty()
                    } by {
                    if x == w {
                        assert(ids@.take(k + 1)[k as int] == w);
                    } else {
                        assert(listed_for(before, x) == if ids@.take(k as int).contains(x) {
                            self@.windows[x].tabs
                        } else {
                            Seq::<TabId>::empty()
                        });
                        if ids@.take(k + 1).contains(x) {
                            let i = choose|i: int|
                                0 <= i < k + 1 && #[trigger] ids@.take(k + 1)[i] == x;
                            assert(ids@.take(k as int)[i] == x);
                        }
                        if ids@.take(k as int).contains(x) {
                            let i = choose|i: int|
                                0 <= i < k && #[trigger] ids@.take(k as int)[i] == x;
                            assert(ids@.take(k + 1)[i] == x);
                        }
                    }
                }
            }
            k = k + 1;
        }
        proof {
            assert(ids@.take(k as int) =~= ids@);
            assert forall|w: WindowId|
                listed_for(out@, w) == if self@.windows.contains_key(w) {
                    self@.windows[w].tabs
                } else {
                    Seq::<TabId>::empty()
                } by {
                assert(ids@.contains(w) == ids@.to_set().contains(w));
            }
        }
        out
    }

    /// The identifiers of the windows, each once, in no particular order.
    pub fn iter_windows(&self) -> (r: Vec<WindowId>)
        ensures
            r@.to_set() == self@.windows.dom(),
            r@.no_duplicates(),
    {
        let mut out: Vec<WindowId> = Vec::new();
        let ghost keys = self.windows.keys().remaining().unref();
        for id in it: self.windows.keys()
            invariant
                it.seq().unref() == keys,
                out@.len() == it.index(),
                out@ == keys.take(out@.len() as int),
        {
            out.push(*id);
        }
        assert(self@.windows.dom() =~= self.windows@.dom());
        assert(out@ =~= keys);
        out
    }
}

} // verus!
