//! Core of an operator dashboard that supervises a child process: lines read
//! from the child's two output streams are classified into domain events
//! (peers discovered, clients seen, readiness announced), merged into one
//! aggregate state, and viewed through a bounded scrolling window.
//!
//! This crate holds the verified logic: the line classifier, the aggregate
//! state store with its update rules, and the scroll/view controller. The
//! surrounding process plumbing (spawning the child, pumping its streams,
//! polling the keyboard, drawing frames) lives outside it and only calls in
//! with plain values.
use vstd::prelude::*;

pub mod classify;
pub mod laws;
pub mod scroll;
pub mod state;
pub mod text;

verus! {

/// Number of log lines visible at once in the scrolling window.
pub const VIEWPORT_CAPACITY: usize = 10;

/// Number of lines a page-up / page-down navigation moves the cursor by.
pub const PAGE_SIZE: usize = 10;

} // verus!
