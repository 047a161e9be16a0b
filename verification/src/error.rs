//! The error taxonomy of the binding layer.
//!
//! Failures fall into two groups: those returned synchronously at a call site
//! (construction, connect, register, browse-start) and those delivered to a
//! user callback while polling (a per-instance resolve failure, a rejected
//! registration).  Both groups use this one enum.

use vstd::prelude::*;

verus! {

/// An error of the binding layer.
#[derive(Debug, Clone, PartialEq, Eq)]
pub enum Error {
    /// A native allocation returned null.
    InitializationError,
    /// The discovery daemon was unreachable or refused the connection; the
    /// native diagnostic string is carried along.
    ConnectionError { message: String },
    /// The native daemon rejected a registration or exhausted its renaming.
    RegistrationError { message: String },
    /// Resolving one discovered instance failed; the instance is named so the
    /// caller knows which one, and the browse itself goes on.
    ResolveError { name: String },
    /// A TXT record buffer had a length prefix running past its end, or an
    /// entry that no valid record can hold.
    MalformedRecord,
    /// A TXT entry would exceed the platform's per-entry size limit, or its
    /// key is not a legal TXT key.
    EncodingError,
    /// An underlying system call failed; the OS error code is propagated
    /// un-translated for diagnosability.
    OsError { code: i32 },
    /// The native layer handed back an impossible (null) handle where one was
    /// asserted non-null: a programming-logic fault, not recoverable.
    NullPointer,
}

} // verus!
