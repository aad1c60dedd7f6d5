//! Verified core of the Vicia browser database layer.
//!
//! The crate owns the decisions and data structures behind the browser
//! façade: the page buffer, the IndexedDB publication rules, the handle
//! guards, paging and read loops, write receipts and benchmark rules. The code
//! that talks to JavaScript, IndexedDB or a child process only performs what
//! the functions here decide.

use vstd::prelude::*;

pub mod bench;
pub mod browser;
pub mod collections;
pub mod entity;
pub mod json;
pub mod storage;
pub mod text;

verus! {

} // verus!
