//! Block states in a STATE response.

use vstd::prelude::*;

verus! {

/// Every block in the range is plugged.
pub const PLUGGED: u16 = 0;

/// Every block in the range is unplugged.
pub const UNPLUGGED: u16 = 1;

/// Some of each.
pub const MIXED: u16 = 2;

} // verus!
