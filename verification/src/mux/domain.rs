//! A domain is one instance of a multiplexer: the one behind the windows of
//! this process, or one that a server hosts and this process reaches over a
//! connection. A domain makes tabs.

use crate::mux::tab::IdCounter;
use vstd::prelude::*;

verus! {

/// Names a domain for as long as the process runs.
pub type DomainId = usize;

/// Takes a fresh identifier for a domain.
pub fn alloc_domain_id(counter: &mut IdCounter) -> (id: DomainId)
    requires
        old(counter).next_id() < usize::MAX,
    ensures
        id == old(counter).next_id(),
        final(counter).next_id() == id + 1,
{
    counter.take()
}

/// How many lines of scrollback a terminal keeps where the configuration
/// does not say.
pub const DEFAULT_SCROLLBACK_LINES: usize = 3500;

/// The domain of the tabs that this process runs itself, each on a pty of
/// its own.
#[derive(Debug, PartialEq, Eq)]
pub struct LocalDomain {
    id: DomainId,
}

impl LocalDomain {
    /// The identifier of the domain.
    pub closed spec fn spec_domain_id(&self) -> DomainId {
        self.id
    }

    /// A local domain under a fresh identifier.
    pub fn new(counter: &mut IdCounter) -> (r: Self)
        requires
            old(counter).next_id() < usize::MAX,
        ensures
            r.spec_domain_id() == old(counter).next_id(),
            final(counter).next_id() == old(counter).next_id() + 1,
    {
        let id = alloc_domain_id(counter);
        LocalDomain { id }
    }

    /// Returns the domain id, which is useful for obtaining
    /// a handle on the domain later.
    #[verifier::when_used_as_spec(spec_domain_id)]
    pub fn domain_id(&self) -> (r: DomainId)
        ensures
            r == self.spec_domain_id(),
    {
        self.id
    }

    /// The number of scrollback lines for a terminal of this domain, given
    /// what the configuration says.
    pub fn scrollback_lines(configured: Option<usize>) -> (r: usize)
        ensures
            r == match configured {
                Some(lines) => lines,
                None => DEFAULT_SCROLLBACK_LINES,
            },
    {
        match configured {
            Some(lines) => lines,
            None => DEFAULT_SCROLLBACK_LINES,
        }
    }
}

} // verus!
