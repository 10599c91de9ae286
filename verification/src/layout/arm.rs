//! aarch64 constants.

use vstd::prelude::*;

verus! {

/// GIC distributor.
pub const GIC_DIST: u64 = 0x0800_0000;

/// GIC distributor size.
pub const GIC_DIST_SIZE: u64 = 0x1_0000;

/// GICv2 CPU interface.
pub const GIC_CPU: u64 = 0x0801_0000;

/// GICv2 CPU interface size.
pub const GIC_CPU_SIZE: u64 = 0x2000;

/// GICv3 redistributors, one 128 KiB frame per vCPU.
pub const GIC_REDIST: u64 = 0x080a_0000;

/// One redistributor frame.
pub const GIC_REDIST_STRIDE: u64 = 0x2_0000;

/// The MMIO 8250 console.
pub const SERIAL_ADDR: u64 = 0x0900_0000;

/// First virtio-mmio window.
pub const VIRTIO_BASE: u64 = 0x0a00_0000;

/// RAM starts at 2 GiB.
pub const RAM_START: u64 = 0x8000_0000;

/// The first interrupt number the monitor assigns. On aarch64 an irqfd GSI `n` raises
/// SPI `n` (INTID `32 + n`), and the device tree names the SPI, so GSI and SPI agree.
pub const SPI_BASE: u32 = 32;

/// GSI of the console.
pub const SERIAL_GSI: u32 = 33;

/// GSI of the first virtio device.
pub const VIRTIO_GSI_BASE: u32 = 48;

/// Room reserved at the top of boot RAM for the device tree.
pub const FDT_MAX: u64 = 0x20_0000;

} // verus!
