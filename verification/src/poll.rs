//! The managed poll context's readiness logic.
//!
//! On platforms with no native polling primitive the poll context waits on
//! the connection's socket with a bounded timeout (a `select()`-style call)
//! before asking the native layer to process pending data.  The wait itself
//! is a system call made by the unverified shell; everything around it is
//! verified here: building the descriptor set, splitting the timeout into
//! the wait's second/microsecond fields, and interpreting the wait's return
//! value — a negative return is an OS-level failure and must propagate as
//! one, never be mistaken for "no data".

use vstd::prelude::*;

use crate::error::Error;

verus! {

/// The capacity of a descriptor set handed to the manual wait.
pub const FD_SET_CAPACITY: usize = 64;

/// A set of socket descriptors to be watched for readability, mirroring the
/// platform's `fd_set`: bounded capacity, each descriptor held once.
#[derive(Debug, Clone)]
pub struct FdSet {
    fds: Vec<i32>,
}

impl View for FdSet {
    type V = Seq<i32>;

    closed spec fn view(&self) -> Seq<i32> {
        self.fds@
    }
}

impl FdSet {
    /// Within capacity and free of duplicates.
    pub open spec fn wf(self) -> bool {
        &&& self@.len() <= FD_SET_CAPACITY
        &&& forall|i: int, j: int| 0 <= i < j < self@.len() ==> self@[i] != self@[j]
    }

    /// An empty descriptor set.
    pub fn new() -> (r: FdSet)
        ensures
            r@ == Seq::<i32>::empty(),
            r.wf(),
    {
        FdSet { fds: Vec::new() }
    }

    /// Empties the set.
    pub fn zero(&mut self)
        ensures
            final(self)@ == Seq::<i32>::empty(),
            final(self).wf(),
    {
        self.fds.clear();
    }

    /// The number of descriptors held.
    pub fn len(&self) -> (r: usize)
        ensures
            r == self@.len(),
    {
        self.fds.len()
    }

    /// True when the set holds this descriptor.
    pub fn contains(&self, fd: i32) -> (r: bool)
        ensures
            r == self@.contains(fd),
    {
        let n = self.fds.len();
        let mut i: usize = 0;
        while i < n
            invariant
                n == self@.len(),
                0 <= i <= n,
                forall|m: int| 0 <= m < i ==> self@[m] != fd,
            decreases n - i,
        {
            if self.fds[i] == fd {
                assert(self@.contains(fd));
                return true;
            }
            i = i + 1;
        }
        false
    }

    /// Adds a descriptor: already-present descriptors and a full set leave
    /// the set unchanged, otherwise the descriptor is appended.
    pub fn insert(&mut self, fd: i32)
        requires
            old(self).wf(),
        ensures
            final(self).wf(),
            final(self)@ == if old(self)@.contains(fd) || old(self)@.len() >= FD_SET_CAPACITY {
                old(self)@
            } else {
                old(self)@.push(fd)
            },
            !old(self)@.contains(fd) && old(self)@.len() < FD_SET_CAPACITY
                ==> final(self)@.contains(fd),
    {
        if self.contains(fd) {
            return ;
        }
        if self.fds.len() >= FD_SET_CAPACITY {
            return ;
        }
        let ghost old_fds = self@;
        self.fds.push(fd);
        proof {
            assert(self@ == old_fds.push(fd));
            assert(self@[self@.len() - 1] == fd);
            assert forall|i: int, j: int| 0 <= i < j < self@.len() implies self@[i] != self@[j] by {
                if j < self@.len() - 1 {
                    assert(old_fds[i] != old_fds[j]);
                } else {
                    assert(self@[i] == old_fds[i]);
                    assert(old_fds.contains(old_fds[i]));
                }
            }
        }
    }
}

/// A bounded wait duration, split as the native wait's `timeval` wants it.
#[derive(Debug, Copy, Clone, PartialEq, Eq, Structural)]
pub struct WaitTimeout {
    pub secs: u64,
    pub micros: u32,
}

impl WaitTimeout {
    /// The microsecond part stays below one second and the second part fits
    /// the native wait's signed field.
    pub open spec fn wf(self) -> bool {
        &&& self.micros < 1000000
        &&& self.secs <= 0x7fffffffffffffff
    }

    /// A zero timeout: the wait returns without blocking.
    pub fn zero() -> (r: WaitTimeout)
        ensures
            r == (WaitTimeout { secs: 0u64, micros: 0u32 }),
            r.wf(),
    {
        WaitTimeout { secs: 0, micros: 0 }
    }

    /// The signed `(seconds, microseconds)` pair the native wait takes.
    pub fn timeval_parts(&self) -> (r: (i64, i64))
        requires
            self.wf(),
        ensures
            r.0 == self.secs as i64,
            r.1 == self.micros as i64,
    {
        (self.secs as i64, self.micros as i64)
    }
}

/// Interprets the raw return of the native blocking dispatch loop: the loop
/// runs until interrupted, and a non-zero return code on the way out is a
/// native failure, propagated with its code.
pub fn run_loop_outcome(code: i32) -> (r: Result<(), Error>)
    ensures
        code == 0 ==> r == Ok::<(), Error>(()),
        code != 0 ==> r == Err::<(), Error>(Error::OsError { code }),
{
    if code == 0 {
        Ok(())
    } else {
        Err(Error::OsError { code })
    }
}

/// Interprets the raw return of the manual readiness wait: a negative value
/// is an OS-level failure whose code is propagated un-translated, any other
/// value is the count of ready descriptors (zero meaning the wait timed out).
pub fn read_select_outcome(result: i32) -> (r: Result<u32, Error>)
    ensures
        result < 0 ==> r == Err::<u32, Error>(Error::OsError { code: result }),
        result >= 0 ==> r == Ok::<u32, Error>(result as u32),
{
    if result < 0 {
        Err(Error::OsError { code: result })
    } else {
        Ok(result as u32)
    }
}

} // verus!
