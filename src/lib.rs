//! Core of a full-screen terminal directory browser: the grid layout, the
//! navigation state machine over one frame's items, and the frame planner.
//! Listing directories, reading keys and writing to the terminal are left to
//! the caller, which hands this crate plain values.
use vstd::prelude::*;

pub mod entry;
pub mod layout;
pub mod nav;
pub mod path;
pub mod render;
pub mod search;

verus! {

} // verus!
