//! The virtio-mmio register offsets (virtio 1.2, table 4.1).

use vstd::prelude::*;

verus! {

/// "virt".
pub const MAGIC: u64 = 0x000;

/// 2 (modern).
pub const VERSION: u64 = 0x004;

/// Virtio device id.
pub const DEVICE_ID: u64 = 0x008;

/// Vendor id.
pub const VENDOR_ID: u64 = 0x00c;

/// Device features, 32 bits selected by `DEVICE_FEATURES_SEL`.
pub const DEVICE_FEATURES: u64 = 0x010;

/// Selects the device feature word.
pub const DEVICE_FEATURES_SEL: u64 = 0x014;

/// Driver features, 32 bits selected by `DRIVER_FEATURES_SEL`.
pub const DRIVER_FEATURES: u64 = 0x020;

/// Selects the driver feature word.
pub const DRIVER_FEATURES_SEL: u64 = 0x024;

/// Selects the queue the queue registers refer to.
pub const QUEUE_SEL: u64 = 0x030;

/// Maximum size of the selected queue.
pub const QUEUE_NUM_MAX: u64 = 0x034;

/// Size of the selected queue.
pub const QUEUE_NUM: u64 = 0x038;

/// The selected queue is ready.
pub const QUEUE_READY: u64 = 0x044;

/// The driver has new buffers in the queue written here.
pub const QUEUE_NOTIFY: u64 = 0x050;

/// Pending interrupt reasons.
pub const INTERRUPT_STATUS: u64 = 0x060;

/// Acknowledge interrupt reasons.
pub const INTERRUPT_ACK: u64 = 0x064;

/// Device status.
pub const STATUS: u64 = 0x070;

/// Descriptor table address, low 32 bits.
pub const QUEUE_DESC_LOW: u64 = 0x080;

/// Descriptor table address, high 32 bits.
pub const QUEUE_DESC_HIGH: u64 = 0x084;

/// Available ring address, low.
pub const QUEUE_DRIVER_LOW: u64 = 0x090;

/// Available ring address, high.
pub const QUEUE_DRIVER_HIGH: u64 = 0x094;

/// Used ring address, low.
pub const QUEUE_DEVICE_LOW: u64 = 0x0a0;

/// Used ring address, high.
pub const QUEUE_DEVICE_HIGH: u64 = 0x0a4;

/// Shared memory region select (no regions: lengths read as all ones).
pub const SHM_SEL: u64 = 0x0ac;

/// Shared memory length, low.
pub const SHM_LEN_LOW: u64 = 0x0b0;

/// Shared memory length, high.
pub const SHM_LEN_HIGH: u64 = 0x0b4;

/// Configuration generation.
pub const CONFIG_GENERATION: u64 = 0x0fc;

/// Start of the device configuration space.
pub const CONFIG: u64 = 0x100;

} // verus!
