//! Focus-history tracking for a tiling window manager.
//!
//! The library keeps an ordered most-recently-used (MRU) stack of window
//! identifiers together with the identifier of the window currently holding
//! focus, applies window-manager events (focus changes, window closes) to
//! that state, and decides which window a "switch to previous window"
//! trigger should focus.  All window-manager I/O (issuing focus commands,
//! reading the event stream, signal and key-binding plumbing) lives outside
//! the library; the library works on plain identifier values.

use vstd::prelude::*;

pub mod mru;
pub mod state;
pub mod trigger;
pub mod laws;

verus! {

/// The reserved identifier meaning "no window holds focus".
pub const NONE_WINDOW: i64 = 0;

} // verus!
