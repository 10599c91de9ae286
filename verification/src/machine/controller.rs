//! The control socket's view of a running machine: what it may be resized to, and how it is.

use crate::control::{Controller, Status};
use crate::devices::cpu_hotplug::{CpuHotplug, CpuView};
use crate::devices::mem::{MemBacking, MemView, VirtioMem, BLOCK_BYTES};
use crate::devices::mmio::MmioTransport;
use crate::devices::virtio::{raise_came_to, raise_failed};
use crate::devices::{latched, Irq, StopReason, StopSignal, StopView};
use crate::error::{Result, VmmError, VmmErrorView};
use crate::text::{cat3, cat4, dec, dec_text};
use vstd::prelude::*;

verus! {

/// The control socket's view of a running machine.
pub struct VmController<B: MemBacking, I: Irq> {
    /// The virtio-mem device, when the guest can grow.
    pub vmem: Option<MmioTransport<VirtioMem<B>, I>>,
    /// The CPU hot-plug controller, where there is one.
    pub hotplug: Option<CpuHotplug>,
    /// The Generic Event Device's line.
    pub ged: Option<I>,
    /// Memory at boot.
    pub boot_memory: u64,
    /// The most memory.
    pub memory_max: u64,
    /// vCPUs at boot.
    pub cpus_boot: u32,
    /// The most vCPUs.
    pub cpus_max: u32,
    /// Why the guest stopped, once it has.
    pub stop: StopSignal,
}

/// The state of a guest as the control socket sees it.
pub open spec fn status_of(
    boot: u64,
    max: u64,
    mem: Option<MemView>,
    cpus_boot: u32,
    cpus_max: u32,
    cpus: Option<CpuView>,
    stopped: bool,
) -> Status {
    Status {
        memory_bytes: (boot + match mem {
            Some(m) => m.requested_size as int,
            None => 0,
        }) as u64,
        memory_plugged_bytes: (boot + match mem {
            Some(m) => m.plugged_size as int,
            None => 0,
        }) as u64,
        memory_max_bytes: max,
        cpus: match cpus {
            Some(c) => c.enabled,
            None => cpus_boot,
        },
        cpus_max,
        stopped,
    }
}

/// The refusal of a memory size, if it is one: below what the guest booted with, above what it
/// may grow to, or of a guest that cannot grow.
pub open spec fn memory_refusal(
    bytes: u64,
    boot: u64,
    max: u64,
    mem: Option<MemView>,
) -> Option<VmmErrorView> {
    if bytes < boot {
        Some(
            VmmErrorView::Control(
                dec(bytes as nat) + " is below the "@ + dec(boot as nat)
                    + " bytes of boot memory; only hot-plugged memory can be removed"@,
            ),
        )
    } else if bytes > max {
        Some(
            VmmErrorView::Control(dec(bytes as nat) + " exceeds --memory-max "@ + dec(max as nat)),
        )
    } else {
        match mem {
            None => Some(
                VmmErrorView::Control(
                    "the guest was booted with --memory-max equal to --memory"@,
                ),
            ),
            Some(m) => if bytes - boot > m.region_size {
                Some(
                    VmmErrorView::Control(
                        dec((bytes - boot) as nat) + " bytes of hot-plug memory exceeds the "@
                            + dec(m.region_size as nat) + " reserved at boot"@,
                    ),
                )
            } else if (bytes - boot) % (BLOCK_BYTES as int) != 0 {
                Some(
                    VmmErrorView::Control(
                        dec((bytes - boot) as nat)
                            + " is not a multiple of the 2097152-byte block"@,
                    ),
                )
            } else {
                None
            },
        }
    }
}

impl<B: MemBacking, I: Irq> VmController<B, I> {
    /// The virtio-mem device's state.
    pub open spec fn memory(&self) -> Option<MemView> {
        match self.vmem {
            Some(t) => Some(t.dev()@),
            None => None,
        }
    }

    /// The hot-plug controller's state.
    pub open spec fn processors(&self) -> Option<CpuView> {
        match self.hotplug {
            Some(h) => Some(h@),
            None => None,
        }
    }

    /// The state of the guest.
    pub open spec fn state(&self) -> Status {
        status_of(
            self.boot_memory,
            self.memory_max,
            self.memory(),
            self.cpus_boot,
            self.cpus_max,
            self.processors(),
            self.stop@ is Some,
        )
    }

    /// Whether all but the virtio-mem device is the same.
    pub open spec fn same_but_memory(&self, after: &Self) -> bool {
        &&& after.hotplug == self.hotplug
        &&& after.ged == self.ged
        &&& after.stop == self.stop
        &&& after.boot_memory == self.boot_memory
        &&& after.memory_max == self.memory_max
        &&& after.cpus_boot == self.cpus_boot
        &&& after.cpus_max == self.cpus_max
    }
}

impl<B: MemBacking, I: Irq> Controller for VmController<B, I> {
    open spec fn wf(&self) -> bool {
        &&& self.vmem matches Some(t) ==> t.ok() && t.dev()@.wf() && self.boot_memory
            + t.dev()@.region_size <= u64::MAX
        &&& self.hotplug matches Some(h) ==> h@.wf()
    }

    open spec fn memory_resized(&self, bytes: u64, r: Result<Status>, after: &Self) -> bool {
        &&& self.same_but_memory(after)
        &&& match memory_refusal(bytes, self.boot_memory, self.memory_max, self.memory()) {
            Some(why) => {
                &&& after.memory() == self.memory()
                &&& self.vmem matches Some(t) ==> after.vmem->Some_0.regs() == t.regs()
                    && after.vmem->Some_0.line() == t.line()
                &&& r matches Err(e) && e@ == why
            },
            None => {
                &&& after.memory() == Some(
                    MemView {
                        requested_size: (bytes - self.boot_memory) as u64,
                        ..self.memory()->Some_0
                    },
                )
                &&& after.vmem->Some_0.regs() == self.vmem->Some_0.regs().config_changed()
                &&& raise_came_to(self.vmem->Some_0.line(), after.vmem->Some_0.line(), r)
                &&& match r {
                    Ok(s) => s == after.state(),
                    Err(e) => raise_failed(e@),
                }
            },
        }
    }

    open spec fn cpus_resized(&self, cpus: u32, r: Result<Status>, after: &Self) -> bool {
        &&& after.vmem == self.vmem
        &&& after.stop == self.stop
        &&& after.boot_memory == self.boot_memory && after.memory_max == self.memory_max
        &&& after.cpus_boot == self.cpus_boot && after.cpus_max == self.cpus_max
        &&& match self.processors() {
            None => {
                &&& after.hotplug == self.hotplug
                &&& after.ged == self.ged
                &&& if cpus == self.cpus_boot {
                    r matches Ok(s) && s == self.state()
                } else {
                    r matches Err(e) && e@ == VmmErrorView::Control(
                        "vCPU hot-add is not available for this guest"@,
                    )
                }
            },
            Some(c) => if c.enabled <= cpus <= c.inserting.len() {
                &&& after.processors() == Some(
                    CpuView {
                        selected: c.selected,
                        enabled: cpus,
                        inserting: Seq::new(
                            c.inserting.len(),
                            |i: int| c.inserting[i] || c.enabled <= i < cpus,
                        ),
                    },
                )
                &&& if self.ged is Some && c.enabled < cpus {
                    after.ged is Some && raise_came_to(self.ged->Some_0, after.ged->Some_0, r)
                } else {
                    after.ged == self.ged
                }
                &&& match r {
                    Ok(s) => s == after.state(),
                    Err(e) => self.ged is Some && c.enabled < cpus && (
                    e@ matches VmmErrorView::Io { op, target, .. } && op == "irq"@ && target
                        == "ged"@),
                }
            } else {
                &&& after.processors() == self.processors()
                &&& after.ged == self.ged
                &&& r matches Err(e) && e@ == VmmErrorView::Control(
                    if cpus > c.inserting.len() {
                        dec(cpus as nat) + " vCPUs exceeds --cpus-max "@ + dec(c.inserting.len())
                    } else {
                        dec(cpus as nat) + " vCPUs is below the "@ + dec(c.enabled as nat)
                            + " online; vCPU removal is not supported (hot-add only)"@
                    },
                )
            },
        }
    }

    open spec fn is_current(&self, s: Status) -> bool {
        s == self.state()
    }

    open spec fn stops(&self, after: &Self) -> bool {
        &&& after.vmem == self.vmem
        &&& after.hotplug == self.hotplug
        &&& after.ged == self.ged
        &&& after.boot_memory == self.boot_memory && after.memory_max == self.memory_max
        &&& after.cpus_boot == self.cpus_boot && after.cpus_max == self.cpus_max
        &&& after.stop@ == latched(self.stop@, StopView::Killed)
    }

    fn resize_memory(&mut self, bytes: u64) -> (r: Result<Status>) {
        if bytes < self.boot_memory {
            let a = dec_text(bytes);
            let b = dec_text(self.boot_memory);
            return Err(
                VmmError::Control(
                    cat4(
                        &a,
                        " is below the ",
                        &b,
                        " bytes of boot memory; only hot-plugged memory can be removed",
                    ),
                ),
            );
        }
        if bytes > self.memory_max {
            let a = dec_text(bytes);
            let b = dec_text(self.memory_max);
            return Err(VmmError::Control(cat3(&a, " exceeds --memory-max ", &b)));
        }
        let asked = bytes - self.boot_memory;
        match &mut self.vmem {
            Some(t) => {
                t.device_mut().set_requested(asked)?;
                t.config_changed()?;
            },
            None => {
                return Err(
                    VmmError::Control(
                        "the guest was booted with --memory-max equal to --memory".to_owned(),
                    ),
                );
            },
        }
        Ok(self.status())
    }

    fn resize_cpus(&mut self, cpus: u32) -> (r: Result<Status>) {
        let added: usize = match &mut self.hotplug {
            Some(h) => {
                let new = h.grow_to(cpus)?;
                new.len()
            },
            None => {
                if cpus == self.cpus_boot {
                    return Ok(self.status());
                }
                return Err(
                    VmmError::Control("vCPU hot-add is not available for this guest".to_owned()),
                );
            },
        };
        if added > 0 {
            match &mut self.ged {
                Some(line) => match line.trigger() {
                    Ok(()) => {},
                    Err(e) => {
                        return Err(VmmError::io("irq", "ged", &e));
                    },
                },
                None => {},
            }
        }
        Ok(self.status())
    }

    fn status(&self) -> (s: Status) {
        let (requested, plugged): (u64, u64) = match &self.vmem {
            Some(t) => (t.device().requested_size(), t.device().plugged_size()),
            None => (0, 0),
        };
        let cpus: u32 = match &self.hotplug {
            Some(h) => h.enabled(),
            None => self.cpus_boot,
        };
        Status {
            memory_bytes: self.boot_memory + requested,
            memory_plugged_bytes: self.boot_memory + plugged,
            memory_max_bytes: self.memory_max,
            cpus,
            cpus_max: self.cpus_max,
            stopped: self.stop.is_stopped(),
        }
    }

    fn stop(&mut self) {
        self.stop.request(StopReason::Killed);
    }
}

/// A size the guest was resized to is the size it is then reported to have been asked for, and
/// lies between what it booted with and what it may grow to.
pub proof fn law_a_resize_is_what_status_reports<B: MemBacking, I: Irq>(
    before: VmController<B, I>,
    bytes: u64,
    r: Result<Status>,
    after: VmController<B, I>,
)
    requires
        before.wf(),
        after.wf(),
        before.memory_resized(bytes, r, &after),
        r is Ok,
    ensures
        after.state().memory_bytes == bytes,
        before.boot_memory <= bytes <= before.memory_max,
        after.state().memory_plugged_bytes == before.state().memory_plugged_bytes,
        after.state().cpus == before.state().cpus,
{
}

} // verus!
