//! The machine a boot assembles, independent of the hypervisor: guest memory, where each device
//! stands with its interrupt line, the boot tables, the status port and the resize controller.

use crate::acpi;
use crate::boot::{
    boot_pieces, boot_word, memory_error_text, write_bytes, write_x86_boot_tables,
};
use crate::config::{DiskConfig, DiskView, HostFacts, VmConfig, VmView};
use crate::devices::legacy::{
    ACPI_PM_BYTES, ACPI_PM_PORT, I8042_COMMAND_PORT, I8042_DATA_PORT,
};
use crate::devices::queue::{covered, mem_ranges, mem_written, Mem};
use crate::devices::{cpu_hotplug, overlap, serial, StopReason, StopView};
use crate::error::{
    Result, VmmError, VmmErrorView, EXIT_GUEST_PANIC, EXIT_MONITOR, EXIT_NO_CODE,
};
use crate::fdt::{build, FdtSpec, GicVersion};
use crate::layout::{arm, cmdline, cmdline_words, slot, spaced, x86, Arch, Layout, Slot, MMIO_WINDOW};
use crate::text::{
    begins, cat2, cat3, cat4, chars_of, dec, dec_text, hex0x, hex0x_text, lossy_text,
    natural, occurs, parse_natural, trim, trimmed, utf8_lossy,
};
use vstd::prelude::*;
use vstd::utf8::*;

pub mod controller;
pub mod laws;

verus! {

/// The guest port Moruna listens on.
pub const GUEST_AGENT_PORT: u32 = 5000;

/// The host port the guest's init reports Moruna's exit code on (`exit <code>\n`). The
/// monitor serves it in-process; it is the monitor's own channel, not the host protocol.
pub const STATUS_PORT: u32 = 1024;

/// Longest status line read.
pub const STATUS_LINE_MAX: usize = 64;

/// The block device id of the image's root filesystem.
pub const ROOTFS_ID: &'static str = "moruna-root";

/// How long the vsock backend waits in one poll, in milliseconds; bounds how late it notices a
/// stop.
pub const BACKEND_POLL_MS: u64 = 100;

/// What a status line reports: `exit <code>` with a code of 0 to 255, else nothing.
pub open spec fn status_of(line: Seq<char>) -> Option<i32> {
    let t = trimmed(line);
    if begins(t, "exit "@) {
        match natural(trimmed(t.subrange(5, t.len() as int)), 255) {
            Some(n) => Some(n as i32),
            None => None,
        }
    } else {
        None
    }
}

/// `exit <code>` with a code of 0 to 255, else nothing.
pub fn parse_status_line(line: &str) -> (r: Option<i32>)
    ensures
        r == status_of(line@),
        r matches Some(code) ==> 0 <= code <= 255,
{
    let v = chars_of(line);
    let p = chars_of("exit ");
    proof {
        reveal_strlit("exit ");
        assert(v@.subrange(0, v@.len() as int) =~= v@);
    }
    let (a, b) = trim(&v, 0, v.len());
    let ghost t = trimmed(line@);
    if b - a < 5 {
        return None;
    }
    assert(v@.subrange(a as int, a + 5) =~= t.subrange(0, 5));
    if !occurs(&v, a, &p) {
        return None;
    }
    let (c, d) = trim(&v, a + 5, b);
    assert(v@.subrange(a + 5, b as int) =~= t.subrange(5, t.len() as int));
    match parse_natural(&v, c, d, 255) {
        Some(n) => Some(n as i32),
        None => None,
    }
}

/// The monitor's end of the status port: the first valid report wins.
pub struct StatusPort {
    code: Option<i32>,
}

impl View for StatusPort {
    type V = Option<i32>;

    closed spec fn view(&self) -> Option<i32> {
        self.code
    }
}

impl Default for StatusPort {
    fn default() -> (p: Self)
        ensures
            p@ is None,
    {
        StatusPort { code: None }
    }
}

impl StatusPort {
    /// The code the guest reported, if it did.
    pub fn reported(&self) -> (r: Option<i32>)
        ensures
            r == self@,
    {
        self.code
    }

    /// Whether reading a status line goes on after `got` was read (`None` when nothing more
    /// came): up to a line feed, and to at most [`STATUS_LINE_MAX`] bytes.
    pub fn take(buf: &mut Vec<u8>, got: Option<u8>) -> (more: bool)
        requires
            old(buf)@.len() < STATUS_LINE_MAX,
        ensures
            match got {
                Some(b) => if b != 10 {
                    final(buf)@ == old(buf)@.push(b) && more == (final(buf)@.len()
                        < STATUS_LINE_MAX)
                } else {
                    final(buf)@ == old(buf)@ && !more
                },
                None => final(buf)@ == old(buf)@ && !more,
            },
    {
        match got {
            Some(b) => {
                if b == 10 {
                    return false;
                }
                buf.push(b);
                buf.len() < STATUS_LINE_MAX
            },
            None => false,
        }
    }

    /// Record what one connection sent: the first valid report wins, anything else is ignored.
    pub fn record(&mut self, line: &Vec<u8>)
        ensures
            final(self)@ == (match old(self)@ {
                Some(code) => Some(code),
                None => status_of(utf8_lossy(line@)),
            }),
    {
        let text = lossy_text(line);
        if self.code.is_none() {
            self.code = parse_status_line(&text);
        }
    }
}

/// The exit code `moruna-vmm boot` ends with.
pub open spec fn exit_of(reason: StopView, reported: Option<i32>, panicked: bool) -> i32 {
    if panicked || reason is Crash {
        EXIT_GUEST_PANIC
    } else if reason is MonitorError {
        EXIT_MONITOR
    } else {
        match reported {
            Some(code) => code,
            None => EXIT_NO_CODE,
        }
    }
}

/// The exit code `moruna-vmm boot` ends with: a panic is 6 whatever else happened; a monitor
/// failure is 8; otherwise the code the guest reported, or 7 when it reported none.
pub fn exit_code(reason: &StopReason, reported: Option<i32>, panicked: bool) -> (code: i32)
    ensures
        code == exit_of(reason@, reported, panicked),
{
    if panicked {
        return EXIT_GUEST_PANIC;
    }
    match reason {
        StopReason::Crash => EXIT_GUEST_PANIC,
        StopReason::MonitorError(_) => EXIT_MONITOR,
        _ => match reported {
            Some(code) => code,
            None => EXIT_NO_CODE,
        },
    }
}

/// How a run ended: the exit code, what to say about it on one line (if anything), and whether
/// the console's tail follows.
#[derive(Debug, PartialEq, Eq)]
pub struct Ending {
    pub code: i32,
    pub message: Option<String>,
    pub console: bool,
}

/// The name of a reason.
pub open spec fn reason_name(reason: StopView) -> Seq<char> {
    match reason {
        StopView::PowerOff => "PowerOff"@,
        StopView::Reset => "Reset"@,
        StopView::Crash => "Crash"@,
        StopView::Killed => "Killed"@,
        StopView::MonitorError(m) => "MonitorError"@,
    }
}

/// What is said about an ending.
pub open spec fn ending_message(reason: StopView, code: i32) -> Option<Seq<char>> {
    if code == EXIT_GUEST_PANIC {
        Some("moruna-vmm: guest kernel panic; console follows"@)
    } else {
        match reason {
            StopView::MonitorError(m) => Some("moruna-vmm: "@ + m),
            _ => if code == EXIT_NO_CODE {
                Some(
                    "moruna-vmm: guest stopped ("@ + reason_name(reason)
                        + ") without reporting an exit code"@,
                )
            } else {
                None
            },
        }
    }
}

/// The reason that counts: none recorded is a monitor fault.
pub open spec fn reason_or_fault(reason: Option<StopView>) -> StopView {
    match reason {
        Some(r) => r,
        None => StopView::MonitorError("no stop reason"@),
    }
}

/// How the guest stopped, for the process that ran it.
pub fn finish(reason: Option<StopReason>, reported: Option<i32>, panicked: bool) -> (e: Ending)
    ensures
        ({
            let why = reason_or_fault(
                match reason {
                    Some(r) => Some(r@),
                    None => None,
                },
            );
            &&& e.code == exit_of(why, reported, panicked)
            &&& match (e.message, ending_message(why, e.code)) {
                (Some(m), Some(t)) => m@ == t,
                (None, None) => true,
                _ => false,
            }
            &&& e.console == (e.code == EXIT_GUEST_PANIC)
        }),
{
    let why = match reason {
        Some(r) => r,
        None => StopReason::MonitorError("no stop reason".to_owned()),
    };
    let code = exit_code(&why, reported, panicked);
    if code == EXIT_GUEST_PANIC {
        let message = Some("moruna-vmm: guest kernel panic; console follows".to_owned());
        return Ending { code, message, console: true };
    }
    let name: &str = match &why {
        StopReason::PowerOff => "PowerOff",
        StopReason::Reset => "Reset",
        StopReason::Crash => "Crash",
        StopReason::Killed => "Killed",
        StopReason::MonitorError(m) => {
            let message = Some(cat2("moruna-vmm: ", m));
            return Ending { code, message, console: false };
        },
    };
    if code == EXIT_NO_CODE {
        let message = Some(
            cat3("moruna-vmm: guest stopped (", name, ") without reporting an exit code"),
        );
        return Ending { code, message, console: false };
    }
    Ending { code, message: None, console: false }
}

/// A guest that panicked is reported as such, whatever it reported and however it stopped.
pub proof fn law_a_panic_is_never_masked(reason: StopView, reported: Option<i32>)
    ensures
        exit_of(reason, reported, true) == EXIT_GUEST_PANIC,
        exit_of(StopView::Crash, reported, false) == EXIT_GUEST_PANIC,
{
}

/// Why guest memory could not be mapped.
#[verifier::external_type_specification]
#[verifier::external_body]
pub struct ExFromRangesError(vm_memory::mmap::FromRangesError);

/// What `vm_memory::mmap::FromRangesError` prints. Nothing is claimed of the text.
#[verifier::external_body]
fn ranges_error_text(e: &vm_memory::mmap::FromRangesError) -> String {
    e.to_string()
}

/// `vm_memory`'s `GuestMemoryMmap::from_ranges`: memory made of these ranges, where the host
/// can map them.
#[verifier::external_body]
fn map_memory(ranges: &Vec<(u64, u64)>) -> (r: std::result::Result<
    Mem,
    vm_memory::mmap::FromRangesError,
>)
    requires
        forall|i: int| 0 <= i < ranges@.len() ==> (#[trigger] ranges@[i]).1 <= usize::MAX,
    ensures
        r is Ok ==> mem_ranges(r->Ok_0) == ranges@,
        r is Ok ==> mem_written(r->Ok_0) == Seq::<(u64, Seq<u8>)>::empty(),
{
    let ranges: Vec<(vm_memory::GuestAddress, usize)> = ranges.iter().map(
        |r| (vm_memory::GuestAddress(r.0), r.1 as usize),
    ).collect();
    Mem::from_ranges(&ranges)
}

/// Guest memory for `layout`: boot RAM and the hot-plug region, anonymous and not reserved, so
/// unplugged memory costs the host nothing.
pub fn guest_memory(layout: &Layout) -> (r: Result<Mem>)
    requires
        forall|i: int| 0 <= i < layout.ranges().len() ==> (#[trigger] layout.ranges()[i]).1 <= usize::MAX,
    ensures
        r matches Ok(m) ==> mem_ranges(m) == layout.ranges(),
        r matches Ok(m) ==> mem_written(m) == Seq::<(u64, Seq<u8>)>::empty(),
        r matches Err(e) ==> e@ matches VmmErrorView::Config { field, msg } && field == "--memory"@
            && begins(msg, "cannot map guest memory: "@),
{
    let ranges = layout.memory_ranges();
    match map_memory(&ranges) {
        Ok(m) => Ok(m),
        Err(e) => {
            let why = ranges_error_text(&e);
            let msg = cat2("cannot map guest memory: ", &why);
            assert(msg@.subrange(0, "cannot map guest memory: "@.len() as int)
                =~= "cannot map guest memory: "@);
            Err(VmmError::config("--memory", &msg))
        },
    }
}

/// The start of the message about a file that does not fit.
pub open spec fn does_not_fit(addr: u64) -> Seq<char> {
    "does not fit in guest memory at "@ + hex0x(addr as nat) + ": "@
}

/// Put the contents of the file at `path` into guest memory at `addr`; returns its size.
pub fn place_file(mem: &mut Mem, path: &str, data: &Vec<u8>, addr: u64) -> (r: Result<u64>)
    ensures
        mem_ranges(*final(mem)) == mem_ranges(*old(mem)),
        r is Ok <==> covered(mem_ranges(*old(mem)), addr, data@.len() as int),
        r is Ok ==> mem_written(*final(mem)) == mem_written(*old(mem)).push((addr, data@)),
        r matches Ok(n) ==> n == data@.len(),
        r matches Err(e) ==> e@ matches VmmErrorView::Image { path: p, msg } && p == path@
            && begins(msg, does_not_fit(addr)),
{
    match write_bytes(mem, data.as_slice(), addr) {
        Ok(()) => Ok(data.len() as u64),
        Err(e) => {
            let why = memory_error_text(&e);
            let at = hex0x_text(addr);
            let msg = cat4("does not fit in guest memory at ", &at, ": ", &why);
            assert(msg@.subrange(0, does_not_fit(addr).len() as int) =~= does_not_fit(addr));
            Err(VmmError::Image { path: path.to_owned(), msg })
        },
    }
}

/// The parameter the x86 kernel discovers a device by.
pub open spec fn param_text(s: Slot) -> Seq<char> {
    "virtio_mmio.device=4K@"@ + hex0x(s.addr as nat) + ":"@ + dec(s.gsi as nat)
}

/// The `virtio_mmio.device=` parameter the x86 kernel discovers a device by.
pub fn virtio_mmio_param(slot: &Slot) -> (s: String)
    ensures
        s@ == param_text(*slot),
{
    let addr = hex0x_text(slot.addr);
    let gsi = dec_text(slot.gsi as u64);
    cat4("virtio_mmio.device=4K@", &addr, ":", &gsi)
}

/// What stands at a virtio slot.
#[derive(Debug, PartialEq, Eq)]
pub enum Role {
    /// The vsock device.
    Vsock,
    /// The virtio-mem device over this hot-plug region.
    Memory(u64, u64),
    /// A block device with its id.
    Disk(DiskConfig, String),
}

/// A [`Role`] with its texts as character sequences.
#[verifier::ext_equal]
pub enum RoleView {
    Vsock,
    Memory(u64, u64),
    Disk(DiskView, Seq<char>),
}

impl View for Role {
    type V = RoleView;

    open spec fn view(&self) -> RoleView {
        match self {
            Role::Vsock => RoleView::Vsock,
            Role::Memory(addr, len) => RoleView::Memory(*addr, *len),
            Role::Disk(d, id) => RoleView::Disk(d@, id@),
        }
    }
}

/// The views of some roles.
pub open spec fn role_views(r: Seq<Role>) -> Seq<RoleView> {
    Seq::new(r.len(), |i: int| r[i]@)
}

/// The virtio devices in slot order: vsock, mem, the root filesystem, the disks.
pub open spec fn roles_of(
    hotplug: Option<(u64, u64)>,
    rootfs: Option<Seq<char>>,
    disks: Seq<DiskView>,
) -> Seq<RoleView> {
    seq![RoleView::Vsock] + (match hotplug {
        Some(region) => seq![RoleView::Memory(region.0, region.1)],
        None => Seq::empty(),
    }) + (match rootfs {
        Some(path) => seq![RoleView::Disk(DiskView { path, read_only: true }, ROOTFS_ID@)],
        None => Seq::empty(),
    }) + Seq::new(disks.len(), |i: int| RoleView::Disk(disks[i], "moruna-disk-"@ + dec(i as nat)))
}

/// The command line with the parameters of the first `n` virtio devices.
pub open spec fn with_params(arch: Arch, line: Seq<char>, n: nat) -> Seq<char>
    decreases n,
{
    if n == 0 {
        line
    } else {
        with_params(arch, line, (n - 1) as nat) + " "@ + param_text(slot(arch, n - 1))
    }
}

/// The command line of a machine with `n` virtio devices; the x86 kernel is told of each.
pub open spec fn line_of(arch: Arch, has_rootfs: bool, n: nat) -> Seq<char> {
    let line = spaced(cmdline_words(arch, has_rootfs));
    match arch {
        Arch::X86_64 => with_params(arch, line, n),
        Arch::Aarch64 => line,
    }
}

/// What a boot will assemble: the memory map, what stands at each virtio slot, the command
/// line.
#[derive(Debug)]
pub struct Plan {
    /// The architecture.
    pub arch: Arch,
    /// The memory map.
    pub layout: Layout,
    /// What stands at each virtio slot, in order.
    pub roles: Vec<Role>,
    /// The kernel command line.
    pub cmdline: String,
    /// vCPUs at boot.
    pub cpus: u32,
    /// The most vCPUs.
    pub cpus_max: u32,
}

/// The text of an optional path.
pub open spec fn path_view(p: Option<&String>) -> Option<Seq<char>> {
    match p {
        Some(s) => Some(s@),
        None => None,
    }
}

/// The refusal of hot-add where the guest cannot do it.
pub open spec fn no_hot_add() -> VmmErrorView {
    VmmErrorView::Config {
        field: "--cpus-max"@,
        msg: "vCPU hot-add on aarch64 needs ACPI, which a device-tree boot does not have; boot aarch64 guests with --cpus-max equal to --cpus"@,
    }
}

impl Plan {
    /// What every plan keeps: the layout is a configuration's, and every device has a slot.
    pub open spec fn wf(&self) -> bool {
        &&& self.layout.arch == self.arch
        &&& self.layout.in_bounds()
        &&& self.layout.low_ram_end_spec() >= arm::FDT_MAX
        &&& self.roles@.len() <= crate::layout::MAX_VIRTIO_DEVICES
        &&& self.layout.ram@.len() <= 2
        &&& self.cpus <= self.cpus_max <= crate::config::MAX_VCPUS
    }

    /// Whether this is the plan of a configuration.
    pub open spec fn describes(
        &self,
        arch: Arch,
        c: VmView,
        rootfs: Option<Seq<char>>,
    ) -> bool {
        &&& self.wf()
        &&& self.arch == arch
        &&& self.layout.ram@ == crate::layout::boot_ram(arch, c.memory_bytes)
        &&& self.layout.hotplug == crate::layout::hotplug_region(
            arch,
            c.memory_bytes,
            (c.memory_max_bytes - c.memory_bytes) as u64,
        )
        &&& role_views(self.roles@) == roles_of(self.layout.hotplug, rootfs, c.disks)
        &&& self.cmdline@ == line_of(arch, rootfs is Some, self.roles@.len())
        &&& self.cpus == c.cpus
        &&& self.cpus_max == c.cpus_max
    }

    /// Plan the machine for `config` on `arch`; `rootfs` is the image's root filesystem.
    pub fn new(
        arch: Arch,
        config: &VmConfig,
        facts: &HostFacts,
        rootfs: Option<&String>,
    ) -> (r: Result<Plan>)
        requires
            facts.disks@.len() == config.disks@.len(),
        ensures
            r is Ok <==> config@.valid(*facts) && !(arch is Aarch64 && config@.cpus_max
                > config@.cpus),
            r matches Ok(p) ==> p.describes(arch, config@, path_view(rootfs)),
            r matches Err(e) ==> if config@.valid(*facts) {
                e@ == no_hot_add()
            } else {
                config@.refusal(*facts) matches Some(why) && e@ == crate::config::refusal_error(why)
            },
    {
        config.validate(facts)?;
        if matches!(arch, Arch::Aarch64) && config.cpus_max > config.cpus {
            return Err(
                VmmError::config(
                    "--cpus-max",
                    "vCPU hot-add on aarch64 needs ACPI, which a device-tree boot does not have; boot aarch64 guests with --cpus-max equal to --cpus",
                ),
            );
        }
        proof {
            crate::layout::law_valid_configurations_have_a_layout(arch, config@, *facts);
        }
        let layout = Layout::for_config(arch, config)?;
        let mut roles: Vec<Role> = Vec::new();
        roles.push(Role::Vsock);
        match layout.hotplug {
            Some(region) => roles.push(Role::Memory(region.0, region.1)),
            None => {},
        }
        match rootfs {
            Some(path) => {
                let d = DiskConfig { path: path.clone(), read_only: true };
                roles.push(Role::Disk(d, ROOTFS_ID.to_owned()));
            },
            None => {},
        }
        let ghost head = role_views(roles@);
        let ghost tail = |n: nat|
            Seq::new(
                n,
                |i: int| RoleView::Disk(config@.disks[i], "moruna-disk-"@ + dec(i as nat)),
            );
        proof {
            assert(head + tail(0) =~= head);
            assert(head + tail(config@.disks.len()) =~= roles_of(
                layout.hotplug,
                path_view(rootfs),
                config@.disks,
            ));
        }
        let mut i: usize = 0;
        while i < config.disks.len()
            invariant
                i <= config.disks@.len(),
                config@.disks == crate::config::disk_views(config.disks@),
                role_views(roles@) == head + Seq::new(
                    i as nat,
                    |i: int| RoleView::Disk(config@.disks[i], "moruna-disk-"@ + dec(i as nat)),
                ),
            decreases config.disks@.len() - i,
        {
            let d = DiskConfig {
                path: config.disks[i].path.clone(),
                read_only: config.disks[i].read_only,
            };
            let n = dec_text(i as u64);
            let ghost before = roles@;
            roles.push(Role::Disk(d, cat2("moruna-disk-", &n)));
            i += 1;
            assert(role_views(roles@) =~= role_views(before).push(roles@.last()@));
            assert(role_views(roles@) =~= head + Seq::new(
                i as nat,
                |i: int| RoleView::Disk(config@.disks[i], "moruna-disk-"@ + dec(i as nat)),
            ));
        }
        let mut line = cmdline(arch, rootfs.is_some());
        let ghost plain = line@;
        if matches!(arch, Arch::X86_64) {
            let mut k: usize = 0;
            while k < roles.len()
                invariant
                    k <= roles@.len(),
                    roles@.len() <= crate::layout::MAX_VIRTIO_DEVICES,
                    layout.arch == arch,
                    line@ == with_params(arch, plain, k as nat),
                decreases roles@.len() - k,
            {
                let s = layout.virtio_slot(k)?;
                let p = virtio_mmio_param(&s);
                line = cat3(&line, " ", &p);
                k += 1;
            }
        }
        Ok(
            Plan {
                arch,
                layout,
                roles,
                cmdline: line,
                cpus: config.cpus,
                cpus_max: config.cpus_max,
            },
        )
    }
}

/// The windows on the MMIO bus, in the order the devices are attached: the console where it is
/// memory-mapped, the virtio devices, the CPU hot-plug controller where there is one.
pub open spec fn mmio_windows_of(arch: Arch, n: nat) -> Seq<(u64, u64)> {
    let slots = Seq::new(n, |i: int| (slot(arch, i).addr, MMIO_WINDOW));
    match arch {
        Arch::X86_64 => slots.push((x86::CPU_HOTPLUG_ADDR, cpu_hotplug::WINDOW_BYTES)),
        Arch::Aarch64 => seq![(arm::SERIAL_ADDR, 0x1000u64)] + slots,
    }
}

/// The windows on the port bus: the console, the i8042 and the ACPI registers, on x86_64.
pub open spec fn pio_windows_of(arch: Arch) -> Seq<(u64, u64)> {
    match arch {
        Arch::X86_64 => seq![
            (serial::COM1_PORT, serial::WINDOW_BYTES),
            (I8042_DATA_PORT, (I8042_COMMAND_PORT - I8042_DATA_PORT + 1) as u64),
            (ACPI_PM_PORT, ACPI_PM_BYTES),
        ],
        Arch::Aarch64 => Seq::empty(),
    }
}

/// The interrupt lines, in the order they are opened: the console's, one per virtio device, the
/// Generic Event Device's where there is one.
pub open spec fn lines_of(arch: Arch, n: nat) -> Seq<u32> {
    let slots = Seq::new(n, |i: int| slot(arch, i).gsi);
    match arch {
        Arch::X86_64 => seq![serial::COM1_IRQ] + slots + seq![x86::GED_GSI],
        Arch::Aarch64 => seq![arm::SERIAL_GSI] + slots,
    }
}

/// Every device can be attached: no two windows of a bus share an address, and no two devices
/// share an interrupt line.
pub proof fn law_devices_have_their_own_places(arch: Arch, n: nat)
    requires
        n <= crate::layout::MAX_VIRTIO_DEVICES,
    ensures
        forall|i: int, j: int|
            0 <= i < j < mmio_windows_of(arch, n).len() ==> !overlap(
                (#[trigger] mmio_windows_of(arch, n)[i]).0,
                mmio_windows_of(arch, n)[i].1,
                (#[trigger] mmio_windows_of(arch, n)[j]).0,
                mmio_windows_of(arch, n)[j].1,
            ),
        forall|i: int, j: int|
            0 <= i < j < pio_windows_of(arch).len() ==> !overlap(
                (#[trigger] pio_windows_of(arch)[i]).0,
                pio_windows_of(arch)[i].1,
                (#[trigger] pio_windows_of(arch)[j]).0,
                pio_windows_of(arch)[j].1,
            ),
        forall|i: int, j: int|
            0 <= i < j < lines_of(arch, n).len() ==> #[trigger] lines_of(arch, n)[i]
                != #[trigger] lines_of(arch, n)[j],
{
}

impl Plan {
    /// The virtio devices' places, in slot order.
    pub fn slots(&self) -> (v: Vec<Slot>)
        requires
            self.wf(),
        ensures
            v@ == Seq::new(self.roles@.len(), |i: int| slot(self.arch, i)),
    {
        let mut v: Vec<Slot> = Vec::new();
        let mut i: usize = 0;
        while i < self.roles.len()
            invariant
                i <= self.roles@.len() <= crate::layout::MAX_VIRTIO_DEVICES,
                self.layout.arch == self.arch,
                v@ == Seq::new(i as nat, |i: int| slot(self.arch, i)),
            decreases self.roles@.len() - i,
        {
            match self.layout.virtio_slot(i) {
                Ok(s) => v.push(s),
                Err(_) => {},
            }
            i += 1;
            assert(v@ =~= Seq::new(i as nat, |i: int| slot(self.arch, i)));
        }
        v
    }

    /// The windows on the MMIO bus, in the order the devices are attached.
    pub fn mmio_windows(&self) -> (v: Vec<(u64, u64)>)
        requires
            self.wf(),
        ensures
            v@ == mmio_windows_of(self.arch, self.roles@.len()),
    {
        let slots = self.slots();
        let mut v: Vec<(u64, u64)> = Vec::new();
        if matches!(self.arch, Arch::Aarch64) {
            v.push((arm::SERIAL_ADDR, 0x1000));
        }
        let ghost head = v@;
        let mut i: usize = 0;
        while i < slots.len()
            invariant
                i <= slots@.len(),
                v@ == head + Seq::new(i as nat, |i: int| (slots@[i].addr, MMIO_WINDOW)),
            decreases slots@.len() - i,
        {
            v.push((slots[i].addr, MMIO_WINDOW));
            i += 1;
            assert(v@ =~= head + Seq::new(i as nat, |i: int| (slots@[i].addr, MMIO_WINDOW)));
        }
        if matches!(self.arch, Arch::X86_64) {
            v.push((x86::CPU_HOTPLUG_ADDR, cpu_hotplug::WINDOW_BYTES));
        }
        assert(v@ =~= mmio_windows_of(self.arch, self.roles@.len()));
        v
    }

    /// The windows on the port bus.
    pub fn pio_windows(&self) -> (v: Vec<(u64, u64)>)
        ensures
            v@ == pio_windows_of(self.arch),
    {
        let mut v: Vec<(u64, u64)> = Vec::new();
        if matches!(self.arch, Arch::X86_64) {
            v.push((serial::COM1_PORT, serial::WINDOW_BYTES));
            v.push((I8042_DATA_PORT, I8042_COMMAND_PORT - I8042_DATA_PORT + 1));
            v.push((ACPI_PM_PORT, ACPI_PM_BYTES));
        }
        assert(v@ =~= pio_windows_of(self.arch));
        v
    }

    /// The interrupt lines, in the order they are opened.
    pub fn lines(&self) -> (v: Vec<u32>)
        requires
            self.wf(),
        ensures
            v@ == lines_of(self.arch, self.roles@.len()),
    {
        let slots = self.slots();
        let mut v: Vec<u32> = Vec::new();
        v.push(
            match self.arch {
                Arch::X86_64 => serial::COM1_IRQ,
                Arch::Aarch64 => arm::SERIAL_GSI,
            },
        );
        let ghost head = v@;
        let mut i: usize = 0;
        while i < slots.len()
            invariant
                i <= slots@.len(),
                v@ == head + Seq::new(i as nat, |i: int| slots@[i].gsi),
            decreases slots@.len() - i,
        {
            v.push(slots[i].gsi);
            i += 1;
            assert(v@ =~= head + Seq::new(i as nat, |i: int| slots@[i].gsi));
        }
        if matches!(self.arch, Arch::X86_64) {
            v.push(x86::GED_GSI);
        }
        assert(v@ =~= lines_of(self.arch, self.roles@.len()));
        v
    }

    /// Where an initramfs of `size` bytes goes.
    pub open spec fn initrd_at(&self, size: int) -> int {
        (self.layout.initrd_top() - size) / 4096 * 4096
    }

    /// Whether an initramfs of `size` bytes has a place that guest memory holds.
    pub open spec fn initrd_fits(&self, mem: Mem, size: int, kernel_end: u64) -> bool {
        &&& size <= self.layout.initrd_top()
        &&& self.initrd_at(size) >= kernel_end
        &&& covered(mem_ranges(mem), self.initrd_at(size) as u64, size)
    }

    /// What is written for an initramfs.
    pub open spec fn initrd_pieces(&self, initrd: Option<(&String, &Vec<u8>)>) -> Seq<
        (u64, Seq<u8>),
    > {
        match initrd {
            Some(file) => seq![(self.initrd_at(file.1@.len() as int) as u64, file.1@)],
            None => Seq::empty(),
        }
    }

    /// Put the initramfs, with the path it was read from, into guest memory above the kernel,
    /// which ends at `kernel_end`; returns its range.
    pub fn place_initrd(
        &self,
        mem: &mut Mem,
        initrd: Option<(&String, &Vec<u8>)>,
        kernel_end: u64,
    ) -> (r: Result<Option<(u64, u64)>>)
        requires
            self.wf(),
        ensures
            mem_ranges(*final(mem)) == mem_ranges(*old(mem)),
            r is Ok ==> mem_written(*final(mem)) == mem_written(*old(mem)) + self.initrd_pieces(
                initrd,
            ),
            match initrd {
                None => r == Ok::<Option<(u64, u64)>, VmmError>(None),
                Some(file) => {
                    let size = file.1@.len() as int;
                    &&& r is Ok <==> self.initrd_fits(*old(mem), size, kernel_end)
                    &&& r matches Ok(range) ==> range == Some(
                        (self.initrd_at(size) as u64, size as u64),
                    )
                    &&& r matches Err(e) ==> if size <= self.layout.initrd_top()
                        && self.initrd_at(size) >= kernel_end {
                        e@ matches VmmErrorView::Image { path, .. } && path == file.0@
                    } else {
                        e@ matches VmmErrorView::Config { field, .. } && field == "--memory"@
                    }
                },
            },
    {
        match initrd {
            Some((path, data)) => {
                let addr = self.layout.initrd_addr(data.len() as u64, kernel_end)?;
                let ghost before = mem_written(*mem);
                let size = place_file(mem, path, data, addr)?;
                assert(mem_written(*mem) =~= before + self.initrd_pieces(initrd));
                Ok(Some((addr, size)))
            },
            None => {
                assert(mem_written(*mem) =~= mem_written(*old(mem)) + self.initrd_pieces(initrd));
                Ok(None)
            },
        }
    }
}

/// Whether guest memory holds every ACPI table's place.
pub open spec fn tables_covered(mem: Mem, cpus_max: u32) -> bool {
    &&& covered(mem_ranges(mem), x86::ACPI_ADDR, 36)
    &&& covered(mem_ranges(mem), acpi::xsdt_at() as u64, 60)
    &&& covered(mem_ranges(mem), acpi::fadt_at() as u64, 276)
    &&& covered(
        mem_ranges(mem),
        acpi::dsdt_at() as u64,
        36 + acpi::dsdt_image(cpus_max).len() as int,
    )
    &&& covered(mem_ranges(mem), acpi::madt_at(cpus_max) as u64, 56 + 8 * cpus_max)
}

/// Whether guest memory holds the GDT, the IDT and the page tables.
pub open spec fn boot_words_covered(mem: Mem) -> bool {
    forall|i: int| 0 <= i < 519 ==> covered(mem_ranges(mem), (#[trigger] boot_word(i)).0, 8)
}

/// The longest command line, with the zero byte that ends it.
pub const CMDLINE_MAX: usize = 4096;

/// Whether a command line and the zero byte behind it can be written.
pub open spec fn line_fits(mem: Mem, line: Seq<char>) -> bool {
    let n = encode_utf8(line).len() + 1;
    n <= CMDLINE_MAX && covered(mem_ranges(mem), x86::CMDLINE_ADDR, n as int)
}

/// Tables as pieces of memory.
pub open spec fn table_pieces(t: Seq<acpi::Placed>) -> Seq<(u64, Seq<u8>)> {
    Seq::new(t.len(), |i: int| (t[i].0, t[i].1@))
}

/// Write the ACPI tables.
fn write_tables(mem: &mut Mem, cpus: u32, cpus_max: u32) -> (r: Result<()>)
    requires
        cpus_max <= crate::config::MAX_VCPUS,
    ensures
        mem_ranges(*final(mem)) == mem_ranges(*old(mem)),
        r is Ok <==> acpi::tables_end(cpus_max) <= x86::ACPI_ADDR + x86::ACPI_MAX
            && tables_covered(*old(mem), cpus_max),
        r is Ok ==> exists|t: Seq<acpi::Placed>| #[trigger]
            acpi::tables_placed(t, cpus, cpus_max) && mem_written(*final(mem)) == mem_written(
                *old(mem),
            ) + table_pieces(t),
        r matches Err(e) ==> if acpi::tables_end(cpus_max) > x86::ACPI_ADDR + x86::ACPI_MAX {
            e@ matches VmmErrorView::Config { field, .. } && field == "--cpus-max"@
        } else {
            e@ matches VmmErrorView::Device { device, .. } && device == "acpi"@
        },
{
    let tables = acpi::tables(cpus, cpus_max)?;
    proof {
        acpi::lemma_table_lens(tables@, cpus, cpus_max);
    }
    let mut i: usize = 0;
    assert(mem_written(*mem) =~= mem_written(*old(mem)) + table_pieces(tables@).take(0));
    while i < tables.len()
        invariant
            i <= 5,
            tables@.len() == 5,
            acpi::tables_end(cpus_max) <= x86::ACPI_ADDR + x86::ACPI_MAX,
            mem_ranges(*mem) == mem_ranges(*old(mem)),
            mem_written(*mem) == mem_written(*old(mem)) + table_pieces(tables@).take(i as int),
            forall|k: int|
                0 <= k < i ==> covered(
                    mem_ranges(*old(mem)),
                    (#[trigger] tables@[k]).0,
                    tables@[k].1@.len() as int,
                ),
            (forall|k: int|
                0 <= k < 5 ==> covered(
                    mem_ranges(*old(mem)),
                    (#[trigger] tables@[k]).0,
                    tables@[k].1@.len() as int,
                )) == tables_covered(*old(mem), cpus_max),
        decreases 5 - i,
    {
        match write_bytes(mem, tables[i].1.as_slice(), tables[i].0) {
            Ok(()) => {},
            Err(e) => {
                let why = memory_error_text(&e);
                assert(!covered(
                    mem_ranges(*old(mem)),
                    tables@[i as int].0,
                    tables@[i as int].1@.len() as int,
                ));
                return Err(VmmError::device("acpi", &why));
            },
        }
        assert(mem_written(*mem) =~= mem_written(*old(mem)) + table_pieces(tables@).take(i + 1));
        i += 1;
    }
    assert(table_pieces(tables@).take(i as int) =~= table_pieces(tables@));
    Ok(())
}

impl Plan {
    /// Whether everything an x86_64 kernel needs can be written.
    pub open spec fn x86_fits(&self, mem: Mem) -> bool {
        &&& boot_words_covered(mem)
        &&& acpi::tables_end(self.cpus_max) <= x86::ACPI_ADDR + x86::ACPI_MAX
        &&& tables_covered(mem, self.cpus_max)
        &&& line_fits(mem, self.cmdline@)
    }

    /// Whether `pieces` are what an x86_64 kernel needs: the GDT, the IDT and the page tables, the
    /// ACPI tables, and the command line with a zero byte behind it.
    pub open spec fn x86_pieces(&self, pieces: Seq<(u64, Seq<u8>)>) -> bool {
        exists|t: Seq<acpi::Placed>| #[trigger]
            acpi::tables_placed(t, self.cpus, self.cpus_max) && pieces == boot_pieces(519)
                + table_pieces(t) + seq![
                (x86::CMDLINE_ADDR, encode_utf8(self.cmdline@).push(0u8)),
            ]
    }

    fn write_x86(&self, mem: &mut Mem) -> (r: Result<()>)
        requires
            self.wf(),
        ensures
            mem_ranges(*final(mem)) == mem_ranges(*old(mem)),
            r is Ok <==> self.x86_fits(*old(mem)),
            r is Ok ==> exists|pieces: Seq<(u64, Seq<u8>)>| #[trigger]
                self.x86_pieces(pieces) && mem_written(*final(mem)) == mem_written(*old(mem))
                    + pieces,
            r matches Err(e) ==> e@ is Device || e@ is Config,
            r matches Err(e) ==> (boot_words_covered(*old(mem)) && acpi::tables_end(self.cpus_max)
                <= x86::ACPI_ADDR + x86::ACPI_MAX && tables_covered(*old(mem), self.cpus_max)
                && encode_utf8(self.cmdline@).len() + 1 > CMDLINE_MAX ==> e@ == (
            VmmErrorView::Config {
                field: "--disk"@,
                msg: "kernel command line exceeds 4 KiB"@,
            })),
    {
        write_x86_boot_tables(mem)?;
        let ghost first = mem_written(*mem);
        write_tables(mem, self.cpus, self.cpus_max)?;
        let ghost t = choose|t: Seq<acpi::Placed>| #[trigger]
            acpi::tables_placed(t, self.cpus, self.cpus_max) && mem_written(*mem) == first
                + table_pieces(t);
        let mut line: Vec<u8> = Vec::new();
        line.extend_from_slice(self.cmdline.as_str().as_bytes());
        line.push(0);
        if line.len() > CMDLINE_MAX {
            return Err(VmmError::config("--disk", "kernel command line exceeds 4 KiB"));
        }
        match write_bytes(mem, line.as_slice(), x86::CMDLINE_ADDR) {
            Ok(()) => {
                proof {
                    let last = seq![(x86::CMDLINE_ADDR, encode_utf8(self.cmdline@).push(0u8))];
                    let pieces = boot_pieces(519) + table_pieces(t) + last;
                    assert(line@ =~= encode_utf8(self.cmdline@).push(0u8));
                    assert(mem_written(*mem) =~= mem_written(*old(mem)) + pieces);
                    assert(self.x86_pieces(pieces));
                }
                Ok(())
            },
            Err(e) => {
                let why = memory_error_text(&e);
                Err(VmmError::device("cmdline", &why))
            },
        }
    }

    /// The device tree's steps.
    pub open spec fn tree(
        &self,
        gic: GicVersion,
        initrd: Option<(u64, u64)>,
    ) -> Seq<crate::fdt::Step> {
        crate::fdt::root_steps() + crate::fdt::cpus_steps(self.cpus as nat)
            + crate::fdt::each_range(self.layout.ram@) + crate::fdt::chosen_steps(
            self.cmdline@,
            initrd,
        ) + crate::fdt::gic_steps(gic, self.cpus) + crate::fdt::timer_steps()
            + crate::fdt::psci_steps() + crate::fdt::clock_steps() + crate::fdt::uart_steps()
            + crate::fdt::each_slot(Seq::new(self.roles@.len(), |i: int| slot(self.arch, i)))
            + seq![crate::fdt::Step::End]
    }

    /// Whether the device tree can be written.
    pub open spec fn tree_fits(
        &self,
        mem: Mem,
        gic: GicVersion,
        initrd: Option<(u64, u64)>,
    ) -> bool {
        let n = crate::fdt::tree_blob(self.tree(gic, initrd)).len() as int;
        n <= arm::FDT_MAX && covered(
            mem_ranges(mem),
            (self.layout.low_ram_end_spec() - arm::FDT_MAX) as u64,
            n,
        )
    }

    /// What is written for an aarch64 kernel: the device tree.
    pub open spec fn arm_pieces(&self, gic: GicVersion, initrd: Option<(u64, u64)>) -> Seq<
        (u64, Seq<u8>),
    > {
        seq![
            (
                (self.layout.low_ram_end_spec() - arm::FDT_MAX) as u64,
                crate::fdt::tree_blob(self.tree(gic, initrd)),
            ),
        ]
    }

    fn write_arm(&self, mem: &mut Mem, gic: GicVersion, initrd: Option<(u64, u64)>) -> (r: Result<
        (),
    >)
        requires
            self.wf(),
            initrd matches Some(range) ==> range.0 + range.1 <= u64::MAX,
        ensures
            mem_ranges(*final(mem)) == mem_ranges(*old(mem)),
            r is Ok ==> self.tree_fits(*old(mem), gic, initrd),
            r is Ok ==> mem_written(*final(mem)) == mem_written(*old(mem)) + self.arm_pieces(
                gic,
                initrd,
            ),
            crate::fdt::cmdline_ok(self.cmdline@) && self.tree_fits(*old(mem), gic, initrd)
                ==> r is Ok,
            r matches Err(e) ==> (crate::fdt::cmdline_ok(self.cmdline@)
                && crate::fdt::tree_blob(self.tree(gic, initrd)).len() <= u32::MAX ==> (
            e@ matches VmmErrorView::Device { device, .. } && device == "fdt"@)),
    {
        let slots = self.slots();
        let spec = FdtSpec {
            layout: &self.layout,
            cpus: self.cpus,
            gic,
            cmdline: self.cmdline.as_str(),
            initrd,
            virtio: slots.as_slice(),
        };
        assert(crate::fdt::machine_steps(spec) == self.tree(gic, initrd));
        let blob = build(&spec)?;
        match write_bytes(mem, blob.as_slice(), self.layout.fdt_addr()) {
            Ok(()) => {
                assert(mem_written(*mem) =~= mem_written(*old(mem)) + self.arm_pieces(gic, initrd));
                Ok(())
            },
            Err(e) => {
                let why = memory_error_text(&e);
                Err(VmmError::device("fdt", &why))
            },
        }
    }

    /// The range an initramfs takes.
    pub open spec fn initrd_range(&self, initrd: Option<(&String, &Vec<u8>)>) -> Option<
        (u64, u64),
    > {
        match initrd {
            Some(file) => Some(
                (self.initrd_at(file.1@.len() as int) as u64, file.1@.len() as u64),
            ),
            None => None,
        }
    }

    /// Write the initramfs (if any) and the boot tables: the ACPI tables, GDT and page tables
    /// on x86_64 (the zero page is written by the loader, which knows the kernel's header);
    /// the device tree on aarch64. `kernel_end` is the first byte after the loaded kernel.
    /// Returns the initramfs range.
    pub fn write_boot_data(
        &self,
        mem: &mut Mem,
        initrd: Option<(&String, &Vec<u8>)>,
        kernel_end: u64,
        gic: GicVersion,
    ) -> (r: Result<Option<(u64, u64)>>)
        requires
            self.wf(),
        ensures
            mem_ranges(*final(mem)) == mem_ranges(*old(mem)),
            r matches Ok(range) ==> range == self.initrd_range(initrd),
            r is Ok && self.arch is X86_64 ==> exists|pieces: Seq<(u64, Seq<u8>)>| #[trigger]
                self.x86_pieces(pieces) && mem_written(*final(mem)) == mem_written(*old(mem))
                    + self.initrd_pieces(initrd) + pieces,
            r is Ok && self.arch is Aarch64 ==> mem_written(*final(mem)) == mem_written(*old(mem))
                + self.initrd_pieces(initrd) + self.arm_pieces(gic, self.initrd_range(initrd)),
            r is Ok ==> (initrd matches Some(file) ==> self.initrd_fits(
                *old(mem),
                file.1@.len() as int,
                kernel_end,
            )),
            self.arch is X86_64 ==> (r is Ok <==> self.x86_fits(*old(mem)) && (initrd matches Some(file)
                ==> self.initrd_fits(*old(mem), file.1@.len() as int, kernel_end))),
            self.arch is Aarch64 && r is Ok ==> self.tree_fits(
                *old(mem),
                gic,
                self.initrd_range(initrd),
            ),
            self.arch is Aarch64 && crate::fdt::cmdline_ok(self.cmdline@) && self.tree_fits(
                *old(mem),
                gic,
                self.initrd_range(initrd),
            ) && (initrd matches Some(file) ==> self.initrd_fits(
                *old(mem),
                file.1@.len() as int,
                kernel_end,
            )) ==> r is Ok,
    {
        let range = self.place_initrd(mem, initrd, kernel_end)?;
        match self.arch {
            Arch::X86_64 => self.write_x86(mem)?,
            Arch::Aarch64 => self.write_arm(mem, gic, range)?,
        }
        Ok(range)
    }
}

/// Whether two pieces of memory share no byte.
pub open spec fn apart(a: (u64, Seq<u8>), b: (u64, Seq<u8>)) -> bool {
    a.0 + a.1.len() <= b.0 || b.0 + b.1.len() <= a.0
}

/// What is written for an x86_64 kernel fits together: no piece reaches into another or into
/// the zero page, and all lie below the kernel.
pub proof fn law_boot_data_do_not_overlap(
    p: Plan,
    mem: Mem,
    pieces: Seq<(u64, Seq<u8>)>,
    i: int,
    j: int,
)
    requires
        p.x86_pieces(pieces),
        p.x86_fits(mem),
        0 <= i < pieces.len(),
        0 <= j < pieces.len(),
        i != j,
    ensures
        apart(pieces[i], pieces[j]),
        pieces[i].0 + pieces[i].1.len() <= x86::ZERO_PAGE_ADDR || x86::ZERO_PAGE_ADDR
            + crate::loader::ZERO_PAGE_BYTES <= pieces[i].0,
        pieces[i].0 + pieces[i].1.len() <= x86::KERNEL_ADDR,
{
    let t = choose|t: Seq<acpi::Placed>| #[trigger]
        acpi::tables_placed(t, p.cpus, p.cpus_max) && pieces == boot_pieces(519) + table_pieces(t)
            + seq![(x86::CMDLINE_ADDR, encode_utf8(p.cmdline@).push(0u8))];
    acpi::lemma_table_lens(t, p.cpus, p.cpus_max);
    acpi::law_tables_do_not_overlap(t, p.cpus, p.cpus_max);
    lemma_boot_piece(i);
    lemma_boot_piece(j);
    if i < 519 && j < 519 {
        if i < j {
            crate::boot::law_boot_words(i, j);
        } else {
            crate::boot::law_boot_words(j, i);
        }
    }
    if 519 <= i < 524 {
        assert(pieces[i] == (t[i - 519].0, t[i - 519].1@));
    }
    if 519 <= j < 524 {
        assert(pieces[j] == (t[j - 519].0, t[j - 519].1@));
    }
}

proof fn lemma_boot_piece(i: int)
    ensures
        0 <= i < 519 ==> {
            let (at, b) = boot_pieces(519)[i];
            &&& at == boot_word(i).0
            &&& b.len() == 8
            &&& at + 8 <= x86::ZERO_PAGE_ADDR || x86::ZERO_PAGE_ADDR
                + crate::loader::ZERO_PAGE_BYTES <= at
            &&& at + 8 <= x86::CMDLINE_ADDR
        },
{
    if 0 <= i < 519 {
        crate::bytes::lemma_le_bytes_len(boot_word(i).1 as nat, 8);
    }
}

} // verus!
