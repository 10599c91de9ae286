//! What the KVM half of the monitor decides, apart from the calls into KVM: whether the host's
//! KVM will do, how many vCPUs there are, the state each starts in, and what a vCPU's exits mean.

use crate::boot::{
    arm64_reg_pc, arm64_reg_pstate, arm64_reg_x, segment, segment_of, x86_patch_cpuid,
    ARM64_BOOT_PSTATE, CR0_PE, CR0_PG, CR4_PAE, EFER_LMA, EFER_LME, GDT, Segment,
};
use crate::config::VmConfig;
use crate::devices::{StopReason, StopView};
use crate::error::{Result, VmmError, VmmErrorView};
use crate::fdt::GicVersion;
use crate::layout::{arm, x86, Arch};
use crate::text::{cat2, cat3, cat4, dec, dec_text, hex0x, hex0x_text};
use vstd::prelude::*;

verus! {

/// The KVM API version this monitor speaks (stable since Linux 2.6.22).
pub const KVM_API_VERSION: u32 = 12;

/// How often a stopping monitor re-signals vCPU threads still inside `KVM_RUN`, in
/// milliseconds.
pub const KICK_INTERVAL_MS: u64 = 10;

/// Whether the host's KVM will do, from its API version and its capabilities.
pub fn check_host(version: u32, irqfd: bool, user_memory: bool) -> (r: Result<()>)
    ensures
        r is Ok <==> version == KVM_API_VERSION && irqfd && user_memory,
        r matches Err(e) ==> e@ == VmmErrorView::NoKvm(
            if version != KVM_API_VERSION {
                "API version "@ + dec(version as nat) + " is not 12"@
            } else if !irqfd {
                "the host lacks KVM_CAP_IRQFD"@
            } else {
                "the host lacks KVM_CAP_USER_MEMORY"@
            },
        ),
{
    if version != KVM_API_VERSION {
        let v = dec_text(version as u64);
        return Err(VmmError::NoKvm(cat3("API version ", &v, " is not 12")));
    }
    if !irqfd {
        return Err(VmmError::NoKvm("the host lacks KVM_CAP_IRQFD".to_owned()));
    }
    if !user_memory {
        return Err(VmmError::NoKvm("the host lacks KVM_CAP_USER_MEMORY".to_owned()));
    }
    Ok(())
}

/// How many vCPUs are created: every one that may be hot-added on x86_64, those of the boot on
/// aarch64; refused beyond the `most` the host's KVM allows.
pub fn vcpu_count(arch: Arch, config: &VmConfig, most: u64) -> (r: Result<u32>)
    ensures
        r is Ok <==> config@.cpus_max <= most,
        r matches Ok(n) ==> n == (match arch {
            Arch::X86_64 => config@.cpus_max,
            Arch::Aarch64 => config@.cpus,
        }),
        r matches Err(e) ==> e@ == (VmmErrorView::Config {
            field: "--cpus-max"@,
            msg: "this host's KVM allows "@ + dec(most as nat) + " vCPUs"@,
        }),
{
    if config.cpus_max as u64 > most {
        let n = dec_text(most);
        let msg = cat3("this host's KVM allows ", &n, " vCPUs");
        return Err(VmmError::config("--cpus-max", &msg));
    }
    Ok(
        match arch {
            Arch::X86_64 => config.cpus_max,
            Arch::Aarch64 => config.cpus,
        },
    )
}

/// Why a vCPU came back from running the guest, where no device is concerned.
#[derive(Debug, PartialEq, Eq)]
pub enum VcpuEvent {
    /// A device access, already served.
    Served,
    /// The guest halted the vCPU, or a signal interrupted it.
    Idle,
    /// A triple fault.
    Shutdown,
    /// A system event of this kind.
    SystemEvent(u32),
    /// The hardware refused to enter the guest: the reason and the CPU.
    FailEntry(u64, u32),
    /// KVM failed inside.
    InternalError,
    /// Any other exit, as text.
    Other(String),
    /// Running was interrupted and is tried again.
    Interrupted,
    /// Running failed, as text.
    Failed(String),
}

/// The system event of a guest that powers off.
pub const SYSTEM_EVENT_SHUTDOWN: u32 = 1;

/// The system event of a guest that resets.
pub const SYSTEM_EVENT_RESET: u32 = 2;

/// The system event of a guest that crashed.
pub const SYSTEM_EVENT_CRASH: u32 = 3;

/// Why the run ends on an event, if it does.
pub open spec fn reason_of(event: VcpuEvent) -> Option<StopView> {
    match event {
        VcpuEvent::Served => None,
        VcpuEvent::Idle => None,
        VcpuEvent::Interrupted => None,
        VcpuEvent::Shutdown => Some(StopView::Reset),
        VcpuEvent::SystemEvent(kind) => Some(
            if kind == SYSTEM_EVENT_SHUTDOWN {
                StopView::PowerOff
            } else if kind == SYSTEM_EVENT_RESET {
                StopView::Reset
            } else if kind == SYSTEM_EVENT_CRASH {
                StopView::Crash
            } else {
                StopView::MonitorError("system event "@ + dec(kind as nat))
            },
        ),
        VcpuEvent::FailEntry(reason, cpu) => Some(
            StopView::MonitorError(
                "vcpu "@ + dec(cpu as nat) + " failed entry, hardware reason "@ + hex0x(
                    reason as nat,
                ),
            ),
        ),
        VcpuEvent::InternalError => Some(StopView::MonitorError("KVM internal error"@)),
        VcpuEvent::Other(what) => Some(StopView::MonitorError("unexpected vcpu exit "@ + what@)),
        VcpuEvent::Failed(why) => Some(StopView::MonitorError("KVM_RUN: "@ + why@)),
    }
}

/// Why the run ends on an event, if it does.
pub fn stop_reason(event: &VcpuEvent) -> (r: Option<StopReason>)
    ensures
        match (r, reason_of(*event)) {
            (Some(x), Some(v)) => x@ == v,
            (None, None) => true,
            _ => false,
        },
{
    match event {
        VcpuEvent::Served => None,
        VcpuEvent::Idle => None,
        VcpuEvent::Interrupted => None,
        VcpuEvent::Shutdown => Some(StopReason::Reset),
        VcpuEvent::SystemEvent(kind) => {
            if *kind == SYSTEM_EVENT_SHUTDOWN {
                Some(StopReason::PowerOff)
            } else if *kind == SYSTEM_EVENT_RESET {
                Some(StopReason::Reset)
            } else if *kind == SYSTEM_EVENT_CRASH {
                Some(StopReason::Crash)
            } else {
                let k = dec_text(*kind as u64);
                Some(StopReason::MonitorError(cat2("system event ", &k)))
            }
        },
        VcpuEvent::FailEntry(reason, cpu) => {
            let c = dec_text(*cpu as u64);
            let h = hex0x_text(*reason);
            Some(
                StopReason::MonitorError(
                    cat4("vcpu ", &c, " failed entry, hardware reason ", &h),
                ),
            )
        },
        VcpuEvent::InternalError => Some(
            StopReason::MonitorError("KVM internal error".to_owned()),
        ),
        VcpuEvent::Other(what) => Some(
            StopReason::MonitorError(cat2("unexpected vcpu exit ", what)),
        ),
        VcpuEvent::Failed(why) => Some(StopReason::MonitorError(cat2("KVM_RUN: ", why))),
    }
}

/// One guest memory range as KVM is told of it.
#[derive(Clone, Copy, Debug, PartialEq, Eq, Structural)]
pub struct MemorySlot {
    pub slot: u32,
    pub guest_addr: u64,
    pub size: u64,
}

/// The memory slots of some ranges: one each, numbered from 0.
pub fn memory_slots(ranges: &Vec<(u64, u64)>) -> (v: Vec<MemorySlot>)
    requires
        ranges@.len() <= u32::MAX,
    ensures
        v@ == Seq::new(
            ranges@.len(),
            |i: int|
                MemorySlot { slot: i as u32, guest_addr: ranges@[i].0, size: ranges@[i].1 },
        ),
{
    let mut v: Vec<MemorySlot> = Vec::new();
    let mut i: usize = 0;
    while i < ranges.len()
        invariant
            i <= ranges@.len() <= u32::MAX,
            v@ == Seq::new(
                i as nat,
                |i: int|
                    MemorySlot { slot: i as u32, guest_addr: ranges@[i].0, size: ranges@[i].1 },
            ),
        decreases ranges@.len() - i,
    {
        v.push(MemorySlot { slot: i as u32, guest_addr: ranges[i].0, size: ranges[i].1 });
        i += 1;
        assert(v@ =~= Seq::new(
            i as nat,
            |i: int| MemorySlot { slot: i as u32, guest_addr: ranges@[i].0, size: ranges@[i].1 },
        ));
    }
    v
}

/// One CPUID leaf: the function, the index, and EAX, EBX, ECX, EDX.
#[derive(Clone, Copy, Debug, PartialEq, Eq)]
pub struct CpuidLeaf {
    pub function: u32,
    pub index: u32,
    pub regs: [u32; 4],
}

/// A leaf as vCPU `id` of `cpus_max` sees it.
pub open spec fn leaf_for(leaf: CpuidLeaf, id: u32, cpus_max: u32) -> (u32, u32, Seq<u32>) {
    (
        leaf.function,
        leaf.index,
        crate::boot::patched(leaf.function, leaf.index, leaf.regs@, id, cpus_max),
    )
}

/// A leaf's parts.
pub open spec fn leaf_parts(leaf: CpuidLeaf) -> (u32, u32, Seq<u32>) {
    (leaf.function, leaf.index, leaf.regs@)
}

/// The leaves vCPU `id` of `cpus_max` sees: the host's, with the vCPU's own topology.
pub fn cpuid_for(supported: &Vec<CpuidLeaf>, id: u32, cpus_max: u32) -> (v: Vec<CpuidLeaf>)
    ensures
        v@.len() == supported@.len(),
        forall|i: int|
            0 <= i < v@.len() ==> leaf_parts(#[trigger] v@[i]) == leaf_for(
                supported@[i],
                id,
                cpus_max,
            ),
{
    let mut v: Vec<CpuidLeaf> = Vec::new();
    let mut i: usize = 0;
    while i < supported.len()
        invariant
            i <= supported@.len(),
            v@.len() == i,
            forall|k: int|
                0 <= k < i ==> leaf_parts(#[trigger] v@[k]) == leaf_for(
                    supported@[k],
                    id,
                    cpus_max,
                ),
        decreases supported@.len() - i,
    {
        let leaf = supported[i];
        let mut regs: [u32; 4] = leaf.regs;
        x86_patch_cpuid(leaf.function, leaf.index, &mut regs, id, cpus_max);
        v.push(CpuidLeaf { function: leaf.function, index: leaf.index, regs });
        i += 1;
    }
    v
}

/// Whether KVM took every MSR it was given.
pub fn check_msrs(set: usize, given: usize) -> (r: Result<()>)
    ensures
        r is Ok <==> set == given,
        r matches Err(e) ==> e@ == (VmmErrorView::Hypervisor {
            op: "KVM_SET_MSRS"@,
            msg: "set "@ + dec(set as nat) + " of "@ + dec(given as nat) + " MSRs"@,
        }),
{
    if set == given {
        return Ok(());
    }
    let a = dec_text(set as u64);
    let b = dec_text(given as u64);
    let tail = cat2(&b, " MSRs");
    Err(VmmError::Hypervisor { op: "KVM_SET_MSRS", msg: cat4("set ", &a, " of ", &tail) })
}

/// The FPU control word the first vCPU starts with.
pub const BOOT_FCW: u16 = 0x37f;

/// The SSE control word the first vCPU starts with.
pub const BOOT_MXCSR: u32 = 0x1f80;

/// The special registers of the first x86_64 vCPU: 64-bit mode with paging on, flat segments.
#[derive(Clone, Copy, Debug)]
pub struct SpecialRegs {
    pub gdt_base: u64,
    pub gdt_limit: u16,
    pub idt_base: u64,
    pub idt_limit: u16,
    pub cs: Segment,
    /// DS, ES, FS, GS and SS.
    pub data: Segment,
    pub tr: Segment,
    pub cr0: u64,
    pub cr3: u64,
    pub cr4: u64,
    pub efer: u64,
}

/// The special registers of the first vCPU, from the control registers it had.
pub fn boot_special_regs(cr0: u64, cr4: u64, efer: u64) -> (s: SpecialRegs)
    ensures
        s.gdt_base == x86::GDT_ADDR && s.gdt_limit == 31,
        s.idt_base == x86::IDT_ADDR && s.idt_limit == 7,
        s.cs == segment_of(GDT@[1] as int, 1),
        s.data == segment_of(GDT@[2] as int, 2),
        s.tr == segment_of(GDT@[3] as int, 3),
        s.cr0 == cr0 | (CR0_PE | CR0_PG),
        s.cr3 == x86::PML4_ADDR,
        s.cr4 == cr4 | CR4_PAE,
        s.efer == efer | (EFER_LME | EFER_LMA),
{
    SpecialRegs {
        gdt_base: x86::GDT_ADDR,
        gdt_limit: 31,
        idt_base: x86::IDT_ADDR,
        idt_limit: 7,
        cs: segment(GDT[1], 1),
        data: segment(GDT[2], 2),
        tr: segment(GDT[3], 3),
        cr0: cr0 | (CR0_PE | CR0_PG),
        cr3: x86::PML4_ADDR,
        cr4: cr4 | CR4_PAE,
        efer: efer | (EFER_LME | EFER_LMA),
    }
}

/// Interrupt lines the vGIC is sized for: 32 private plus 96 shared, more than the devices use
/// (the last virtio GSI is below 70).
pub const GIC_NR_IRQS: u32 = 128;

/// One attribute of the vGIC: the group, the attribute, and the value it is set to.
#[derive(Clone, Copy, Debug, PartialEq, Eq, Structural)]
pub struct GicAttr {
    pub group: u32,
    pub attr: u64,
    pub value: u64,
}

/// The vGIC's attributes, in the order they are set: where the distributor and the second
/// window lie, then the number of interrupt lines.
pub open spec fn gic_attrs_of(gic: GicVersion) -> Seq<GicAttr> {
    match gic {
        GicVersion::V3 => seq![
            GicAttr { group: 0, attr: 2, value: arm::GIC_DIST },
            GicAttr { group: 0, attr: 3, value: arm::GIC_REDIST },
            GicAttr { group: 3, attr: 0, value: GIC_NR_IRQS as u64 },
        ],
        GicVersion::V2 => seq![
            GicAttr { group: 0, attr: 0, value: arm::GIC_DIST },
            GicAttr { group: 0, attr: 1, value: arm::GIC_CPU },
            GicAttr { group: 3, attr: 0, value: GIC_NR_IRQS as u64 },
        ],
    }
}

/// The vGIC's attributes, in the order they are set.
pub fn gic_attrs(gic: GicVersion) -> (v: Vec<GicAttr>)
    ensures
        v@ == gic_attrs_of(gic),
{
    let v = match gic {
        GicVersion::V3 => vec![
            GicAttr { group: 0, attr: 2, value: arm::GIC_DIST },
            GicAttr { group: 0, attr: 3, value: arm::GIC_REDIST },
            GicAttr { group: 3, attr: 0, value: GIC_NR_IRQS as u64 },
        ],
        GicVersion::V2 => vec![
            GicAttr { group: 0, attr: 0, value: arm::GIC_DIST },
            GicAttr { group: 0, attr: 1, value: arm::GIC_CPU },
            GicAttr { group: 3, attr: 0, value: GIC_NR_IRQS as u64 },
        ],
    };
    assert(v@ =~= gic_attrs_of(gic));
    v
}

/// The aarch64 vCPU features: the host's preferred ones and PSCI 0.2 (bit 2). Secondaries start
/// powered off (bit 0) and are brought up through PSCI.
pub fn arm_features(preferred: u32, id: u32) -> (f: u32)
    ensures
        f == (if id > 0 {
            preferred | 4 | 1
        } else {
            preferred | 4
        }),
{
    if id > 0 {
        preferred | 4 | 1
    } else {
        preferred | 4
    }
}

/// The registers the first aarch64 vCPU starts with, by their ids: the processor state, the
/// program counter, and the device tree's address in X0.
pub fn arm_boot_regs(entry: u64, fdt: u64) -> (v: Vec<(u64, u64)>)
    ensures
        v@ == seq![
            (0x6030_0000_0010_0042u64, ARM64_BOOT_PSTATE),
            (0x6030_0000_0010_0040, entry),
            (0x6030_0000_0010_0000, fdt),
        ],
{
    let mut v: Vec<(u64, u64)> = Vec::new();
    v.push((arm64_reg_pstate(), ARM64_BOOT_PSTATE));
    v.push((arm64_reg_pc(), entry));
    v.push((arm64_reg_x(0), fdt));
    assert(v@ =~= seq![
        (0x6030_0000_0010_0042u64, ARM64_BOOT_PSTATE),
        (0x6030_0000_0010_0040, entry),
        (0x6030_0000_0010_0000, fdt),
    ]);
    v
}

/// The run goes on over served accesses, halts, signals and interruptions, and over nothing else.
/// It ends well only when the guest powers off or resets, as a crash only when the guest says so,
/// and as a failure of the monitor on all the rest.
pub proof fn law_a_run_ends_only_on_what_ends_it(event: VcpuEvent)
    ensures
        reason_of(event) is None <==> event is Served || event is Idle || event is Interrupted,
        reason_of(event) == Some(StopView::PowerOff) <==> event == VcpuEvent::SystemEvent(1),
        reason_of(event) == Some(StopView::Reset) <==> event is Shutdown || event
            == VcpuEvent::SystemEvent(2),
        reason_of(event) == Some(StopView::Crash) <==> event == VcpuEvent::SystemEvent(3),
        reason_of(event) != Some(StopView::Killed),
        reason_of(event) matches Some(StopView::MonitorError(_)) <==> event is FailEntry
            || event is InternalError || event is Other || event is Failed || (
        event matches VcpuEvent::SystemEvent(kind) && kind != 1 && kind != 2 && kind != 3),
{
}

/// A run that failed says what failed: the text the host gave ends the reason, and two system
/// events, CPUs or hardware reasons that differ give reasons that differ.
pub proof fn law_a_failed_run_says_why(event: VcpuEvent, other: VcpuEvent)
    requires
        reason_of(event) matches Some(StopView::MonitorError(_)),
    ensures
        ({
            let why = reason_of(event)->0->MonitorError_0;
            &&& event matches VcpuEvent::Other(what) ==> crate::text::ends(why, what@)
            &&& event matches VcpuEvent::Failed(what) ==> crate::text::ends(why, what@)
            &&& event matches VcpuEvent::SystemEvent(kind) ==> crate::text::ends(
                why,
                dec(kind as nat),
            )
            &&& event matches VcpuEvent::FailEntry(reason, cpu) ==> crate::text::ends(
                why,
                hex0x(reason as nat),
            ) && crate::text::begins(why, "vcpu "@ + dec(cpu as nat) + " "@)
        }),
        reason_of(event) == reason_of(other) && event is SystemEvent && other is SystemEvent
            ==> event == other,
{
    let why = reason_of(event)->0->MonitorError_0;
    if let VcpuEvent::Other(what) = event {
        assert(why.subrange(why.len() - what@.len(), why.len() as int) =~= what@);
    }
    if let VcpuEvent::Failed(what) = event {
        assert(why.subrange(why.len() - what@.len(), why.len() as int) =~= what@);
    }
    if let VcpuEvent::SystemEvent(kind) = event {
        let n = dec(kind as nat);
        assert(why.subrange(why.len() - n.len(), why.len() as int) =~= n);
        if let VcpuEvent::SystemEvent(k) = other {
            if reason_of(event) == reason_of(other) {
                let m = dec(k as nat);
                assert(why == "system event "@ + m);
                assert(why.subrange("system event "@.len() as int, why.len() as int) =~= m);
                assert(why.subrange("system event "@.len() as int, why.len() as int) =~= n);
                crate::text::laws::law_decimals_tell_numbers_apart(kind as nat, k as nat);
            }
        }
    }
    if let VcpuEvent::FailEntry(reason, cpu) = event {
        let h = hex0x(reason as nat);
        assert(why.subrange(why.len() - h.len(), why.len() as int) =~= h);
        let head = "vcpu "@ + dec(cpu as nat) + " "@;
        reveal_strlit(" failed entry, hardware reason ");
        reveal_strlit(" ");
        assert(why.subrange(0, head.len() as int) =~= head);
    }
}

/// The vGIC's windows lie where the device tree puts them, each attribute is set once, and the
/// number of lines, set last, covers every line that a device raises.
pub proof fn law_the_interrupt_controller_is_where_the_guest_looks(gic: GicVersion, i: int)
    requires
        0 <= i < 32,
    ensures
        gic_attrs_of(gic).len() == 3,
        gic_attrs_of(gic)[0].group == 0 && gic_attrs_of(gic)[1].group == 0,
        gic_attrs_of(gic)[0].attr == (if gic is V3 {
            2u64
        } else {
            0u64
        }),
        gic_attrs_of(gic)[1].attr == gic_attrs_of(gic)[0].attr + 1,
        gic_attrs_of(gic)[0].value == 0x0800_0000,
        gic_attrs_of(gic)[1].value == (if gic is V3 {
            0x080a_0000u64
        } else {
            0x0801_0000u64
        }),
        gic_attrs_of(gic)[2].group == 3 && gic_attrs_of(gic)[2].attr == 0,
        32 + crate::layout::slot(Arch::Aarch64, i).gsi < gic_attrs_of(gic)[2].value,
        gic_attrs_of(gic)[2].value % 32 == 0,
{
}

/// A vCPU finds each leaf where the host has it.
pub proof fn law_leaves_keep_their_place(leaf: CpuidLeaf, id: u32, cpus_max: u32)
    ensures
        leaf_for(leaf, id, cpus_max).0 == leaf.function,
        leaf_for(leaf, id, cpus_max).1 == leaf.index,
{
}

} // verus!
