//! Converts a decoded execution-state snapshot into a canonical state and an
//! account export: account records are resolved from their short or long field
//! names with defaults, each account is classified as externally owned or as a
//! contract, and contract code is resolved from the snapshot's bytecode table.
use vstd::prelude::*;

pub mod account;
pub mod export;
pub mod receipt;
pub mod state;
pub mod words;

verus! {

} // verus!
