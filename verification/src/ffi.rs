//! Utilities for the boundary with the native discovery service.
//!
//! The native layer deals in opaque handles; here a handle is modelled by its
//! address, with address `0` standing for the null handle.  The unverified
//! shell that makes the actual C calls converts between these addresses and
//! its raw pointers; the conversions where "absent" must become a null
//! pointer silently (never an assertion failure) are the two traits below.

use vstd::prelude::*;

verus! {

/// A non-owning reference to a native object, identified by its address.
/// Address `0` is the null handle.
#[derive(Debug, Copy, Clone, PartialEq, Eq, Structural)]
pub struct HandleRef {
    pub addr: usize,
}

impl HandleRef {
    /// The null handle.
    pub fn null() -> (r: HandleRef)
        ensures
            r.addr == 0,
    {
        HandleRef { addr: 0 }
    }

    pub open spec fn is_null(self) -> bool {
        self.addr == 0
    }
}

/// Unwraps a value to a read-only handle, or to the null handle if absent.
///
/// This is for the callers to whom null is a valid argument: absence is
/// turned into null silently, never asserted against.
pub trait UnwrapOrNull {
    /// The address the unwrapping must produce.
    spec fn addr_or_null(&self) -> usize;

    /// Unwraps this value to a handle, or to the null handle if not present.
    fn unwrap_or_null(&self) -> (r: HandleRef)
        ensures
            r.addr == self.addr_or_null(),
    ;
}

impl UnwrapOrNull for Option<HandleRef> {
    open spec fn addr_or_null(&self) -> usize {
        match *self {
            Some(h) => h.addr,
            None => 0,
        }
    }

    fn unwrap_or_null(&self) -> (r: HandleRef) {
        match *self {
            Some(h) => h,
            None => HandleRef { addr: 0 },
        }
    }
}

/// Unwraps a value to a mutable handle, or to the null handle if absent.
///
/// Like [`UnwrapOrNull`], but for the positions where the native call takes a
/// mutable handle.
pub trait UnwrapMutOrNull: Sized {
    /// The address the unwrapping must produce.
    spec fn addr_mut_or_null(&self) -> usize;

    /// Unwraps this value to a mutable handle, or to the null handle if not
    /// present.
    fn unwrap_mut_or_null(&mut self) -> (r: HandleRef)
        ensures
            r.addr == old(self).addr_mut_or_null(),
            *final(self) == *old(self),
    ;
}

impl UnwrapMutOrNull for Option<HandleRef> {
    open spec fn addr_mut_or_null(&self) -> usize {
        match *self {
            Some(h) => h.addr,
            None => 0,
        }
    }

    fn unwrap_mut_or_null(&mut self) -> (r: HandleRef) {
        match *self {
            Some(h) => h,
            None => HandleRef { addr: 0 },
        }
    }
}

} // verus!
