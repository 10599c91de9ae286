//! Response types.

use vstd::prelude::*;

verus! {

/// Done.
pub const ACK: u16 = 0;

/// Refused for now (plugging past `requested_size`).
pub const NACK: u16 = 1;

/// Busy (not used by this device).
pub const BUSY: u16 = 2;

/// A malformed request.
pub const ERROR: u16 = 3;

} // verus!
