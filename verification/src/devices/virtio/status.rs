//! Device status bits (virtio 1.2, 2.1).

use vstd::prelude::*;

verus! {

/// The guest noticed the device.
pub const ACKNOWLEDGE: u32 = 1;

/// The guest has a driver for it.
pub const DRIVER: u32 = 2;

/// The driver is ready.
pub const DRIVER_OK: u32 = 4;

/// Feature negotiation is complete.
pub const FEATURES_OK: u32 = 8;

/// The device hit an error it cannot recover from without a reset.
pub const DEVICE_NEEDS_RESET: u32 = 64;

/// The driver gave up on the device.
pub const FAILED: u32 = 128;

} // verus!
