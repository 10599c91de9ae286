//! The x86_64 CPU hot-plug controller: the registers the DSDT's CPU methods read to learn
//! which vCPUs are present and which were just inserted.
//!
//! Every vCPU up to `--cpus-max` is created at boot; those above `--cpus` are described in the
//! MADT as present-but-disabled ("online capable") and report "not present" through `_STA`.
//! `resize --cpus n` marks the next ones enabled and inserting and raises the ACPI Generic
//! Event Device's interrupt; the guest's `_EVT` runs `CSCN`, which walks this controller,
//! `Notify`s each inserting CPU and clears its inserting bit. Removal is not offered.
//!
//! Register window: offset 0, `CSEL`, 32 bits, selects a CPU; offset 4, `STAT`, 8 bits: bit 0
//! `CPEN` (the selected CPU is enabled), bit 1 `CINS` (inserted and not yet seen; the guest
//! writes 1 to clear it).

use super::{zero_fill, Device};
use crate::bytes::{le_at, le_bytes, lemma_le_bytes_len, push_le, u32_at};
use crate::error::{Result, VmmError, VmmErrorView};
use crate::text::{cat3, cat4, dec, dec_text};
use vstd::prelude::*;

verus! {

/// Offset of `CSEL`.
pub const CSEL: u64 = 0;

/// Offset of `STAT`.
pub const STAT: u64 = 4;

/// `STAT` bit: enabled.
pub const CPEN: u8 = 1;

/// `STAT` bit: inserting.
pub const CINS: u8 = 2;

/// Size of the register window.
pub const WINDOW_BYTES: u64 = 0x10;

/// The controller. The enabled vCPUs are always the first ones.
pub struct CpuHotplug {
    selected: u32,
    enabled: u32,
    inserting: Vec<bool>,
}

/// The state of the controller.
#[verifier::ext_equal]
pub struct CpuView {
    pub selected: u32,
    /// How many vCPUs are enabled, from 0 up.
    pub enabled: u32,
    /// Which vCPUs the guest has not seen yet; one entry per possible vCPU.
    pub inserting: Seq<bool>,
}

impl CpuView {
    /// At most as many vCPUs are enabled as there can be, and only enabled ones are inserting.
    pub open spec fn wf(self) -> bool {
        &&& self.enabled <= self.inserting.len() <= u32::MAX
        &&& forall|i: int| self.enabled <= i < self.inserting.len() ==> !#[trigger] self.inserting[i]
    }

    /// What `STAT` reads for the selected vCPU.
    pub open spec fn stat(self) -> u8 {
        let i = self.selected;
        if i >= self.inserting.len() {
            0
        } else if i >= self.enabled {
            0
        } else if self.inserting[i as int] {
            3
        } else {
            1
        }
    }

    /// The state after the guest cleared the inserting bit of the selected vCPU.
    pub open spec fn seen(self) -> CpuView {
        if self.selected < self.inserting.len() {
            CpuView { inserting: self.inserting.update(self.selected as int, false), ..self }
        } else {
            self
        }
    }
}

impl View for CpuHotplug {
    type V = CpuView;

    closed spec fn view(&self) -> CpuView {
        CpuView { selected: self.selected, enabled: self.enabled, inserting: self.inserting@ }
    }
}

impl CpuHotplug {
    /// `boot` vCPUs enabled out of `max`.
    pub fn new(boot: u32, max: u32) -> (c: Self)
        ensures
            c@.wf(),
            c@ == (CpuView {
                selected: 0,
                enabled: if boot < max {
                    boot
                } else {
                    max
                },
                inserting: Seq::new(max as nat, |i: int| false),
            }),
    {
        let mut inserting: Vec<bool> = Vec::new();
        let mut i: u32 = 0;
        while i < max
            invariant
                i <= max,
                inserting@.len() == i,
                forall|j: int| 0 <= j < i ==> !#[trigger] inserting@[j],
            decreases max - i,
        {
            inserting.push(false);
            i += 1;
        }
        assert(inserting@ =~= Seq::new(max as nat, |i: int| false));
        CpuHotplug {
            selected: 0,
            enabled: if boot < max {
                boot
            } else {
                max
            },
            inserting,
        }
    }

    /// vCPUs currently enabled.
    pub fn enabled(&self) -> (n: u32)
        ensures
            n == self@.enabled,
    {
        self.enabled
    }

    /// The most vCPUs this guest can have.
    pub fn max(&self) -> (n: u32)
        requires
            self@.wf(),
        ensures
            n == self@.inserting.len(),
    {
        self.inserting.len() as u32
    }

    /// Enable vCPUs up to `target`; returns the ids newly marked inserting (the caller then
    /// raises the GED interrupt if any). Refused above the boot maximum and below the current
    /// count.
    pub fn grow_to(&mut self, target: u32) -> (r: Result<Vec<u32>>)
        requires
            old(self)@.wf(),
        ensures
            final(self)@.wf(),
            r is Ok <==> old(self)@.enabled <= target <= old(self)@.inserting.len(),
            r matches Ok(added) ==> {
                &&& added@ == Seq::new(
                    (target - old(self)@.enabled) as nat,
                    |i: int| (old(self)@.enabled + i) as u32,
                )
                &&& final(self)@ == (CpuView {
                    selected: old(self)@.selected,
                    enabled: target,
                    inserting: Seq::new(
                        old(self)@.inserting.len(),
                        |i: int| old(self)@.inserting[i] || old(self)@.enabled <= i < target,
                    ),
                })
            },
            r is Err ==> final(self)@ == old(self)@,
            r matches Err(e) ==> e@ == VmmErrorView::Control(
                if target > old(self)@.inserting.len() {
                    dec(target as nat) + " vCPUs exceeds --cpus-max "@ + dec(
                        old(self)@.inserting.len(),
                    )
                } else {
                    dec(target as nat) + " vCPUs is below the "@ + dec(
                        old(self)@.enabled as nat,
                    ) + " online; vCPU removal is not supported (hot-add only)"@
                },
            ),
    {
        let ghost before = self@;
        if target > self.max() {
            let a = dec_text(target as u64);
            let b = dec_text(self.max() as u64);
            return Err(VmmError::Control(cat3(&a, " vCPUs exceeds --cpus-max ", &b)));
        }
        let now = self.enabled;
        if target < now {
            let a = dec_text(target as u64);
            let b = dec_text(now as u64);
            return Err(
                VmmError::Control(
                    cat4(
                        &a,
                        " vCPUs is below the ",
                        &b,
                        " online; vCPU removal is not supported (hot-add only)",
                    ),
                ),
            );
        }
        let mut added: Vec<u32> = Vec::new();
        let mut id: u32 = now;
        while id < target
            invariant
                now <= id <= target,
                before.wf(),
                now == before.enabled,
                target <= before.inserting.len(),
                self.selected == before.selected,
                self.inserting@.len() == before.inserting.len(),
                added@ == Seq::new((id - now) as nat, |i: int| (now + i) as u32),
                forall|i: int|
                    0 <= i < self.inserting@.len() ==> #[trigger] self.inserting@[i] == (
                    before.inserting[i] || now <= i < id),
            decreases target - id,
        {
            self.inserting.set(id as usize, true);
            added.push(id);
            assert(added@ =~= Seq::new((id + 1 - now) as nat, |i: int| (now + i) as u32));
            id += 1;
        }
        self.enabled = target;
        assert(self@.inserting =~= Seq::new(
            before.inserting.len(),
            |i: int| before.inserting[i] || before.enabled <= i < target,
        ));
        Ok(added)
    }
}

impl Device for CpuHotplug {
    open spec fn wf(&self) -> bool {
        self@.wf()
    }

    /// `CSEL` reads as 4 bytes; `STAT` is the first byte of what is read there; everything else
    /// reads as 0.
    open spec fn reads(&self, after: &Self, offset: u64, before: Seq<u8>, data: Seq<u8>) -> bool {
        let zeros = Seq::new(before.len(), |i: int| 0u8);
        &&& *after == *self
        &&& data == if offset == CSEL && before.len() == 4 {
            le_bytes(self@.selected as nat, 4)
        } else if offset == STAT && before.len() > 0 {
            zeros.update(0, self@.stat())
        } else {
            zeros
        }
    }

    /// A 4-byte write of `CSEL` selects; a write of `CINS` to `STAT` marks the selected vCPU
    /// seen; everything else is ignored.
    open spec fn writes(&self, after: &Self, offset: u64, data: Seq<u8>) -> bool {
        after@ == if offset == CSEL && data.len() == 4 {
            CpuView { selected: le_at(data, 0, 4) as u32, ..self@ }
        } else if offset == STAT && data.len() > 0 && data[0] & CINS != 0 {
            self@.seen()
        } else {
            self@
        }
    }

    open spec fn label(&self) -> Seq<char> {
        "cpu-hotplug"@
    }

    fn name(&self) -> &'static str {
        "cpu-hotplug"
    }

    fn read(&mut self, offset: u64, data: &mut [u8]) {
        zero_fill(data);
        let i = self.selected as usize;
        if offset == CSEL && data.len() == 4 {
            let mut b: Vec<u8> = Vec::new();
            push_le(&mut b, self.selected as u64, 4);
            proof {
                lemma_le_bytes_len(self.selected as nat, 4);
            }
            assert(b@ =~= le_bytes(self.selected as nat, 4));
            data[0] = b[0];
            data[1] = b[1];
            data[2] = b[2];
            data[3] = b[3];
            assert(data@ =~= b@);
        } else if offset == STAT && data.len() > 0 {
            let there = i < self.inserting.len();
            data[0] = if !there || self.selected >= self.enabled {
                0
            } else if self.inserting[i] {
                3
            } else {
                CPEN
            };
        }
    }

    fn write(&mut self, offset: u64, data: &[u8]) {
        let ghost before = self@;
        if offset == CSEL && data.len() == 4 {
            self.selected = u32_at(data, 0);
        } else if offset == STAT && data.len() > 0 && data[0] & CINS != 0 {
            let i = self.selected as usize;
            if i < self.inserting.len() {
                self.inserting.set(i, false);
                assert(self@ =~= before.seen());
            }
        }
    }
}

/// A vCPU is never taken away: growing keeps every enabled vCPU enabled, and those and only
/// those it adds are reported inserting on top of what was.
pub proof fn law_hot_add_only(c: CpuHotplug, target: u32)
    requires
        c@.wf(),
        c@.enabled <= target <= c@.inserting.len(),
    ensures
        ({
            let after = CpuView {
                selected: c@.selected,
                enabled: target,
                inserting: Seq::new(
                    c@.inserting.len(),
                    |i: int| c@.inserting[i] || c@.enabled <= i < target,
                ),
            };
            &&& after.wf()
            &&& after.enabled >= c@.enabled
            &&& forall|i: int|
                0 <= i < c@.enabled ==> #[trigger] after.inserting[i] == c@.inserting[i]
            &&& forall|i: int| c@.enabled <= i < target ==> #[trigger] after.inserting[i]
        }),
{
}

} // verus!
