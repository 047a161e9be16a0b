//! Single-owner guards for native resource handles.
//!
//! Each native handle (a poll context, a daemon connection, a registration
//! group, a browser) is owned by exactly one guard for its whole lifetime.
//! The guard is created from the address the native allocation returned —
//! atomically failing on null, so no partly-built resource leaks — and
//! releases the handle exactly once: the first teardown yields the address to
//! free, every later one yields nothing.  The unverified shell performs the
//! actual native free for each yielded address, so a guard torn down both
//! explicitly and at scope exit never double-frees.

use vstd::prelude::*;

use crate::error::Error;

verus! {

/// What a guard guards: each native handle kind the binding layer manages.
#[derive(Debug, Copy, Clone, PartialEq, Eq, Structural)]
pub enum HandleKind {
    /// The event-polling object driving the native service's I/O.
    Poll,
    /// A client connection to the discovery daemon.
    Client,
    /// The native resources of one advertised service.
    Registration,
    /// One outstanding browse operation.
    Browser,
}

/// The guard's abstract state: which handle it owns and whether the handle
/// has already been released.
#[derive(Debug, Copy, Clone, PartialEq, Eq, Structural)]
pub struct GuardState {
    pub kind: HandleKind,
    pub addr: usize,
    pub released: bool,
}

/// The release transition: the state afterwards, and the address the caller
/// must free now — present on the first release only.
pub open spec fn spec_release(s: GuardState) -> (GuardState, Option<usize>) {
    if s.released {
        (s, None)
    } else {
        (GuardState { released: true, ..s }, Some(s.addr))
    }
}

/// Releasing a guard twice frees at most once: whatever the state, the second
/// release yields no address to free.
pub proof fn lemma_release_idempotent(s: GuardState)
    ensures
        spec_release(spec_release(s).0).1 is None,
{
}

/// A single-owner guard over one native handle.
#[derive(Debug)]
pub struct HandleGuard {
    kind: HandleKind,
    addr: usize,
    released: bool,
}

impl View for HandleGuard {
    type V = GuardState;

    closed spec fn view(&self) -> GuardState {
        GuardState { kind: self.kind, addr: self.addr, released: self.released }
    }
}

impl HandleGuard {
    /// A live guard owns a non-null handle.
    pub open spec fn wf(self) -> bool {
        self@.addr != 0
    }

    /// Wraps the address a native allocation returned.  Fails atomically with
    /// `InitializationError` on the null address, so a failed native
    /// allocation leaks nothing and no guard ever owns null.
    pub fn acquire(kind: HandleKind, addr: usize) -> (r: Result<HandleGuard, Error>)
        ensures
            match r {
                Ok(g) => addr != 0 && g.wf() && g@ == (GuardState {
                    kind,
                    addr,
                    released: false,
                }),
                Err(e) => addr == 0 && e == Error::InitializationError,
            },
    {
        if addr == 0 {
            Err(Error::InitializationError)
        } else {
            Ok(HandleGuard { kind, addr, released: false })
        }
    }

    /// Wraps the daemon connection the shell's connect obtained.  A null
    /// connection means the daemon was unreachable or refused: that fails
    /// with `ConnectionError` carrying the native diagnostic, and no guard
    /// is made.
    pub fn accept_connection(addr: usize, diagnostic: String) -> (r: Result<HandleGuard, Error>)
        ensures
            match r {
                Ok(g) => addr != 0 && g.wf() && g@ == (GuardState {
                    kind: HandleKind::Client,
                    addr,
                    released: false,
                }),
                Err(e) => addr == 0 && (e matches Error::ConnectionError { message } && message@
                    == diagnostic@),
            },
    {
        if addr == 0 {
            Err(Error::ConnectionError { message: diagnostic })
        } else {
            Ok(HandleGuard { kind: HandleKind::Client, addr, released: false })
        }
    }

    /// The owned handle's kind.
    pub fn kind(&self) -> (r: HandleKind)
        ensures
            r == self@.kind,
    {
        self.kind
    }

    /// The owned handle's address, for handing to native record operations.
    /// Must not be used once the guard is released: the components around the
    /// guard uphold that as a precondition.
    pub fn addr(&self) -> (r: usize)
        requires
            !self@.released,
        ensures
            r == self@.addr,
    {
        self.addr
    }

    /// True once the handle has been released.
    pub fn is_released(&self) -> (r: bool)
        ensures
            r == self@.released,
    {
        self.released
    }

    /// Releases the handle: the first call yields the address the caller must
    /// now free natively, every later call yields nothing and changes
    /// nothing.  Tearing down explicitly and again at scope exit is thus
    /// safe.
    pub fn release(&mut self) -> (r: Option<usize>)
        ensures
            (final(self)@, r) == spec_release(old(self)@),
            final(self)@.released,
    {
        if self.released {
            None
        } else {
            self.released = true;
            Some(self.addr)
        }
    }
}

} // verus!
