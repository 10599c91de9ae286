//! The two port-IO devices an x86_64 Linux guest uses to stop the machine: the i8042
//! controller's reset line (`reboot=k`) and the ACPI hardware-reduced sleep and reset
//! registers the FADT points at (`poweroff`). On aarch64 the guest stops through PSCI, which
//! KVM reports as a system event, and neither device exists.
//!
//! Each device records the first stop reason in its [`StopSignal`]; the vCPU loop passes it on
//! and ends the run.

use super::{latched, zero_fill, Device, StopReason, StopSignal, StopView};
use vstd::prelude::*;

verus! {

/// The i8042 data port.
pub const I8042_DATA_PORT: u64 = 0x60;

/// The i8042 command/status port.
pub const I8042_COMMAND_PORT: u64 = 0x64;

/// The i8042 command that pulses the CPU reset line.
pub const I8042_RESET_CMD: u8 = 0xfe;

/// The ACPI PM register block: sleep control at +0, sleep status at +1, reset at +2.
pub const ACPI_PM_PORT: u64 = 0x600;

/// Size of the ACPI PM register block.
pub const ACPI_PM_BYTES: u64 = 3;

/// Offset of the sleep control register.
pub const SLEEP_CONTROL: u64 = 0;

/// Offset of the sleep status register.
pub const SLEEP_STATUS: u64 = 1;

/// Offset of the reset register.
pub const RESET_REGISTER: u64 = 2;

/// The value the FADT tells the guest to write to the reset register.
pub const RESET_VALUE: u8 = 0x01;

/// `SLP_EN` in the sleep control register.
pub const SLP_EN: u8 = 0x20;

/// The `SLP_TYP` value the DSDT's `_S5` object names (soft off).
pub const S5_TYPE: u8 = 5;

/// The i8042 as far as a guest's reset needs it: status reads 0 (no data, input buffer
/// empty), a reset command stops the run, everything else is ignored.
pub struct I8042 {
    stop: StopSignal,
}

impl I8042 {
    /// What the device recorded.
    pub closed spec fn stopped(&self) -> Option<StopView> {
        self.stop@
    }

    /// An i8042 reporting to `stop`.
    pub fn new(stop: StopSignal) -> (d: Self)
        ensures
            d.stopped() == stop@,
    {
        I8042 { stop }
    }

    /// What the device recorded.
    pub fn stop(&self) -> (s: &StopSignal)
        ensures
            s@ == self.stopped(),
    {
        &self.stop
    }
}

impl Device for I8042 {
    open spec fn wf(&self) -> bool {
        true
    }

    /// Every register reads as 0.
    open spec fn reads(&self, after: &Self, offset: u64, before: Seq<u8>, data: Seq<u8>) -> bool {
        data == Seq::new(before.len(), |i: int| 0u8) && *after == *self
    }

    /// The reset command at the command port stops the run.
    open spec fn writes(&self, after: &Self, offset: u64, data: Seq<u8>) -> bool {
        after.stopped() == if offset == I8042_COMMAND_PORT - I8042_DATA_PORT && data
            == seq![I8042_RESET_CMD] {
            latched(self.stopped(), StopView::Reset)
        } else {
            self.stopped()
        }
    }

    open spec fn label(&self) -> Seq<char> {
        "i8042"@
    }

    fn name(&self) -> &'static str {
        "i8042"
    }

    /// Offsets are relative to port 0x60, so 4 is the command port.
    fn read(&mut self, offset: u64, data: &mut [u8]) {
        zero_fill(data);
    }

    fn write(&mut self, offset: u64, data: &[u8]) {
        if offset == I8042_COMMAND_PORT - I8042_DATA_PORT && data.len() == 1 && data[0]
            == I8042_RESET_CMD {
            assert(data@ =~= seq![I8042_RESET_CMD]);
            let _ = self.stop.request(StopReason::Reset);
        }
    }
}

/// The ACPI hardware-reduced sleep and reset registers.
pub struct AcpiPm {
    stop: StopSignal,
}

impl AcpiPm {
    /// What the device recorded.
    pub closed spec fn stopped(&self) -> Option<StopView> {
        self.stop@
    }

    /// Registers reporting to `stop`.
    pub fn new(stop: StopSignal) -> (d: Self)
        ensures
            d.stopped() == stop@,
    {
        AcpiPm { stop }
    }

    /// What the device recorded.
    pub fn stop(&self) -> (s: &StopSignal)
        ensures
            s@ == self.stopped(),
    {
        &self.stop
    }
}

/// Whether `v` in the sleep control register enters soft off: `SLP_EN` set and `SLP_TYP` 5.
pub open spec fn enters_s5(v: u8) -> bool {
    v & SLP_EN != 0 && (v >> 2) & 7 == S5_TYPE
}

impl Device for AcpiPm {
    open spec fn wf(&self) -> bool {
        true
    }

    /// Every register reads as 0.
    open spec fn reads(&self, after: &Self, offset: u64, before: Seq<u8>, data: Seq<u8>) -> bool {
        data == Seq::new(before.len(), |i: int| 0u8) && *after == *self
    }

    /// Entering S5 powers off, the reset value at the reset register resets; only one-byte
    /// writes count.
    open spec fn writes(&self, after: &Self, offset: u64, data: Seq<u8>) -> bool {
        after.stopped() == if data.len() != 1 {
            self.stopped()
        } else if offset == SLEEP_CONTROL && enters_s5(data[0]) {
            latched(self.stopped(), StopView::PowerOff)
        } else if offset == RESET_REGISTER && data[0] == RESET_VALUE {
            latched(self.stopped(), StopView::Reset)
        } else {
            self.stopped()
        }
    }

    open spec fn label(&self) -> Seq<char> {
        "acpi-pm"@
    }

    fn name(&self) -> &'static str {
        "acpi-pm"
    }

    fn read(&mut self, offset: u64, data: &mut [u8]) {
        zero_fill(data);
    }

    fn write(&mut self, offset: u64, data: &[u8]) {
        if data.len() != 1 {
            return;
        }
        let v = data[0];
        if offset == SLEEP_CONTROL && v & SLP_EN != 0 && (v >> 2) & 7 == S5_TYPE {
            let _ = self.stop.request(StopReason::PowerOff);
        } else if offset == RESET_REGISTER && v == RESET_VALUE {
            let _ = self.stop.request(StopReason::Reset);
        }
    }
}

} // verus!
