use zeroconf::error::Error;
use zeroconf::event_loop::{poll_plan, PollPlan};
use zeroconf::ffi::{HandleRef, UnwrapMutOrNull, UnwrapOrNull};
use zeroconf::handle::{HandleGuard, HandleKind};
use zeroconf::poll::{read_select_outcome, run_loop_outcome, FdSet, WaitTimeout, FD_SET_CAPACITY};
use zeroconf::util::ByteOrder;

#[test]
fn acquire_of_null_handle_fails() {
    assert_eq!(
        HandleGuard::acquire(HandleKind::Poll, 0).unwrap_err(),
        Error::InitializationError
    );
}

#[test]
fn release_is_idempotent() {
    let mut g = HandleGuard::acquire(HandleKind::Poll, 0x1000).unwrap();
    assert_eq!(g.kind(), HandleKind::Poll);
    assert_eq!(g.addr(), 0x1000);
    assert!(!g.is_released());
    assert_eq!(g.release(), Some(0x1000));
    assert!(g.is_released());
    // the second teardown frees nothing: no double-free
    assert_eq!(g.release(), None);
    assert_eq!(g.release(), None);
}

#[test]
fn failed_connection_carries_diagnostic() {
    let err = HandleGuard::accept_connection(0, "daemon not running".to_string()).unwrap_err();
    assert_eq!(
        err,
        Error::ConnectionError { message: "daemon not running".to_string() }
    );
}

#[test]
fn successful_connection_owns_the_handle() {
    let g = HandleGuard::accept_connection(0x2000, String::new()).unwrap();
    assert_eq!(g.kind(), HandleKind::Client);
    assert_eq!(g.addr(), 0x2000);
}

#[test]
fn fd_set_holds_each_descriptor_once() {
    let mut s = FdSet::new();
    assert_eq!(s.len(), 0);
    s.insert(4);
    s.insert(7);
    s.insert(4);
    assert_eq!(s.len(), 2);
    assert!(s.contains(4));
    assert!(s.contains(7));
    assert!(!s.contains(5));
    s.zero();
    assert_eq!(s.len(), 0);
    assert!(!s.contains(4));
}

#[test]
fn fd_set_stops_at_capacity() {
    let mut s = FdSet::new();
    for fd in 0..(FD_SET_CAPACITY as i32 + 10) {
        s.insert(fd);
    }
    assert_eq!(s.len(), FD_SET_CAPACITY);
    assert!(s.contains(0));
    assert!(!s.contains(FD_SET_CAPACITY as i32));
}

#[test]
fn timeval_parts_split_the_timeout() {
    let t = WaitTimeout { secs: 3, micros: 250_000 };
    assert_eq!(t.timeval_parts(), (3, 250_000));
    assert_eq!(WaitTimeout::zero().timeval_parts(), (0, 0));
}

#[test]
fn select_errors_propagate_the_os_code() {
    assert_eq!(read_select_outcome(-1), Err(Error::OsError { code: -1 }));
    assert_eq!(read_select_outcome(0), Ok(0));
    assert_eq!(read_select_outcome(3), Ok(3));
}

#[test]
fn run_loop_outcome_propagates_the_native_code() {
    assert_eq!(run_loop_outcome(0), Ok(()));
    assert_eq!(run_loop_outcome(-2), Err(Error::OsError { code: -2 }));
}

#[test]
fn poll_plan_never_mistakes_an_error_for_no_data() {
    assert_eq!(poll_plan(-9), Err(Error::OsError { code: -9 }));
    assert_eq!(poll_plan(0), Ok(PollPlan::Idle));
    assert_eq!(poll_plan(2), Ok(PollPlan::ProcessPending));
}

#[test]
fn unwrap_or_null_turns_absent_into_null() {
    let some: Option<HandleRef> = Some(HandleRef { addr: 0x42 });
    let none: Option<HandleRef> = None;
    assert_eq!(some.unwrap_or_null().addr, 0x42);
    assert_eq!(none.unwrap_or_null().addr, 0);
    assert_eq!(HandleRef::null().addr, 0);
}

#[test]
fn unwrap_mut_or_null_turns_absent_into_null() {
    let mut some: Option<HandleRef> = Some(HandleRef { addr: 0x43 });
    let mut none: Option<HandleRef> = None;
    assert_eq!(some.unwrap_mut_or_null().addr, 0x43);
    assert_eq!(none.unwrap_mut_or_null().addr, 0);
}

#[test]
fn byte_order_defaults_to_the_platform_choice() {
    assert_eq!(ByteOrder::default(), ByteOrder::Default);
    assert_ne!(ByteOrder::BigEndian, ByteOrder::LittleEndian);
}
