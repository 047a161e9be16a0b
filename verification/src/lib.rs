//! A memory-safe binding layer for zero-configuration networking (mDNS/DNS-SD).
//!
//! The actual multicast-DNS protocol work is delegated to a platform-native
//! responder daemon reached over a narrow C-level API.  What this crate
//! verifies is the binding layer around that black box: the TXT-record store
//! and its wire codec, service-type validation, the single-owner lifecycle of
//! native handles, and the decision logic that drives registration, browsing
//! and polling.  The raw native calls themselves are made by a thin unverified
//! shell that feeds their results back into the verified decision functions.

pub mod browser;
pub mod error;
pub mod event_loop;
pub mod ffi;
pub mod handle;
pub mod poll;
pub mod service;
pub mod service_type;
pub mod txt_record;
pub mod util;
