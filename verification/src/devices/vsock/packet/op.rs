//! The vsock packet operations.

use vstd::prelude::*;

verus! {

/// Connect.
pub const REQUEST: u16 = 1;

/// Connection accepted.
pub const RESPONSE: u16 = 2;

/// Connection refused or torn down.
pub const RST: u16 = 3;

/// One side will send or receive no more.
pub const SHUTDOWN: u16 = 4;

/// Data.
pub const RW: u16 = 5;

/// Unsolicited credit update.
pub const CREDIT_UPDATE: u16 = 6;

/// Please send a credit update.
pub const CREDIT_REQUEST: u16 = 7;

} // verus!
