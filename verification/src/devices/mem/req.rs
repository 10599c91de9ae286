//! Request types.

use vstd::prelude::*;

verus! {

/// Plug blocks.
pub const PLUG: u16 = 0;

/// Unplug blocks.
pub const UNPLUG: u16 = 1;

/// Unplug everything.
pub const UNPLUG_ALL: u16 = 2;

/// Report the state of blocks.
pub const STATE: u16 = 3;

} // verus!
