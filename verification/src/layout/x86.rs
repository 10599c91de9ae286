//! x86_64 constants.

use vstd::prelude::*;

verus! {

/// Start of the 32-bit MMIO hole; low RAM ends here.
pub const MMIO_GAP_START: u64 = 0xc000_0000;

/// End of the 32-bit MMIO hole; high RAM starts here.
pub const MMIO_GAP_END: u64 = 0x1_0000_0000;

/// First virtio-mmio window.
pub const VIRTIO_BASE: u64 = 0xd000_0000;

/// The CPU hot-plug controller's registers.
pub const CPU_HOTPLUG_ADDR: u64 = 0xfe00_0000;

/// The IOAPIC.
pub const IOAPIC_ADDR: u64 = 0xfec0_0000;

/// The local APIC.
pub const LAPIC_ADDR: u64 = 0xfee0_0000;

/// GSI of the first virtio device; 0 to 4 are the legacy PIC lines (4 is COM1).
pub const VIRTIO_GSI_BASE: u32 = 5;

/// GSI of the ACPI Generic Event Device (CPU hot-add), the IOAPIC's last pin.
pub const GED_GSI: u32 = 23;

/// The GDT.
pub const GDT_ADDR: u64 = 0x500;

/// The (empty) IDT.
pub const IDT_ADDR: u64 = 0x520;

/// The Linux zero page (`boot_params`).
pub const ZERO_PAGE_ADDR: u64 = 0x7000;

/// The boot stack pointer.
pub const BOOT_STACK: u64 = 0x8ff0;

/// Level-4 page table.
pub const PML4_ADDR: u64 = 0x9000;

/// Level-3 page table.
pub const PDPTE_ADDR: u64 = 0xa000;

/// Level-2 page table (identity-maps the first GiB with 2 MiB pages).
pub const PDE_ADDR: u64 = 0xb000;

/// The kernel command line.
pub const CMDLINE_ADDR: u64 = 0x2_0000;

/// Start of the extended BIOS data area; RAM below it is usable.
pub const EBDA_START: u64 = 0x9_fc00;

/// Where the RSDP and the ACPI tables go (the kernel scans 0xe0000 to 0xfffff).
pub const ACPI_ADDR: u64 = 0xe_0000;

/// Bytes available for the ACPI tables.
pub const ACPI_MAX: u64 = 0x2_0000;

/// Where the kernel is loaded ("high memory" to the boot protocol).
pub const KERNEL_ADDR: u64 = 0x10_0000;

} // verus!
