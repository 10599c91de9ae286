//! Interrupt status bits (virtio-mmio `InterruptStatus`).

use vstd::prelude::*;

verus! {

/// A used buffer was returned.
pub const USED_RING: u32 = 1;

/// The configuration space changed.
pub const CONFIG_CHANGE: u32 = 2;

} // verus!
