//! The guest-physical memory map and interrupt assignment, per architecture, and the kernel
//! command line.
//!
//! Everything here is arithmetic over [`Arch`], so both architectures' layouts are computed and
//! checked on any host; only the code that hands them to KVM is Linux-only.

pub mod arm;
pub mod laws;
pub mod x86;

use crate::config::{HostFacts, VmConfig, VmView};
use crate::error::{Result, VmmError, VmmErrorView};
use crate::text::{cat2, cat5, dec, dec_text, hex0x, hex0x_text};
use vstd::prelude::*;
use vstd::string::*;

verus! {

/// A guest architecture.
#[derive(Clone, Copy, Debug, PartialEq, Eq, Structural)]
pub enum Arch {
    /// x86_64: bzImage or ELF kernel, ACPI, port-IO serial.
    X86_64,
    /// aarch64: `Image` kernel, device tree, GIC, MMIO serial.
    Aarch64,
}

/// Hot-plug regions start on, and are sized in, Linux's memory block size on both
/// architectures with 4 KiB pages (128 MiB), so every block the guest onlines is whole.
pub const MEMORY_BLOCK_BYTES: u64 = 134217728;

/// Size of one virtio-mmio device window.
pub const MMIO_WINDOW: u64 = 0x1000;

/// Most virtio-mmio devices: vsock, mem and the disks, with the root filesystem.
pub const MAX_VIRTIO_DEVICES: usize = 18;

/// One virtio device's place: its MMIO window and its GSI.
#[derive(Clone, Copy, Debug, PartialEq, Eq, Structural)]
pub struct Slot {
    /// Window base.
    pub addr: u64,
    /// GSI, as KVM numbers it for this architecture.
    pub gsi: u32,
}

/// Where everything is.
#[derive(Clone, Debug, PartialEq, Eq)]
pub struct Layout {
    /// The architecture.
    pub arch: Arch,
    /// Boot RAM, as `(start, len)` ranges.
    pub ram: Vec<(u64, u64)>,
    /// The virtio-mem region, `(start, len)`, when `--memory-max` exceeds `--memory`.
    pub hotplug: Option<(u64, u64)>,
}

/// The smallest multiple of `a` that is at least `v`.
pub open spec fn up(v: int, a: int) -> int {
    (v + a - 1) / a * a
}

fn align_up(v: u64, a: u64) -> (r: Option<u64>)
    requires
        a > 0,
    ensures
        match r {
            Some(x) => x == up(v as int, a as int) && v <= x && x as int % (a as int) == 0,
            None => v + a - 1 > u64::MAX,
        },
{
    match v.checked_add(a - 1) {
        None => None,
        Some(x) => {
            proof {
                let q = x as int / (a as int);
                assert(q * a <= x && x < q * a + a) by (nonlinear_arith)
                    requires
                        a > 0,
                        q == x as int / (a as int),
                ;
                assert((q * a) % (a as int) == 0) by (nonlinear_arith)
                    requires
                        a > 0,
                ;
                assert(q >= 0) by (nonlinear_arith)
                    requires
                        a > 0,
                        x >= 0,
                        q == x as int / (a as int),
                ;
            }
            Some(x / a * a)
        },
    }
}

/// Boot RAM: in one piece, but around the 32-bit MMIO hole on x86_64.
pub open spec fn boot_ram(arch: Arch, memory: u64) -> Seq<(u64, u64)> {
    match arch {
        Arch::X86_64 => if memory <= x86::MMIO_GAP_START {
            seq![(0u64, memory)]
        } else {
            seq![
                (0u64, x86::MMIO_GAP_START),
                (x86::MMIO_GAP_END, (memory - x86::MMIO_GAP_START) as u64),
            ]
        },
        Arch::Aarch64 => seq![(arm::RAM_START, memory)],
    }
}

/// Where a range ends.
pub open spec fn end_of(r: (u64, u64)) -> int {
    r.0 + r.1
}

/// The lowest address hot-plug memory may start at: above boot RAM, and above the hole.
pub open spec fn hotplug_floor(arch: Arch, memory: u64) -> int {
    let end = end_of(boot_ram(arch, memory).last());
    if arch is X86_64 && end < x86::MMIO_GAP_END {
        x86::MMIO_GAP_END as int
    } else {
        end
    }
}

/// Whether the hot-plug region fits the address space.
pub open spec fn hotplug_fits(arch: Arch, memory: u64, hotplug: u64) -> bool {
    let block = MEMORY_BLOCK_BYTES as int;
    &&& hotplug_floor(arch, memory) + block - 1 <= u64::MAX
    &&& hotplug + block - 1 <= u64::MAX
    &&& up(hotplug_floor(arch, memory), block) + up(hotplug as int, block) <= u64::MAX
}

/// The hot-plug region: whole memory blocks above the floor.
pub open spec fn hotplug_region(arch: Arch, memory: u64, hotplug: u64) -> Option<(u64, u64)> {
    if hotplug == 0 {
        None
    } else {
        Some(
            (
                up(hotplug_floor(arch, memory), MEMORY_BLOCK_BYTES as int) as u64,
                up(hotplug as int, MEMORY_BLOCK_BYTES as int) as u64,
            ),
        )
    }
}

/// Whether boot RAM of `memory` bytes ends within the address space.
pub open spec fn ram_fits(arch: Arch, memory: u64) -> bool {
    end_of(boot_ram(arch, memory).last()) <= u64::MAX
}

/// The error of a hot-plug region that does not fit.
pub open spec fn overflow_error() -> VmmErrorView {
    VmmErrorView::Config { field: "--memory-max"@, msg: "overflows the address space"@ }
}

impl Layout {
    /// Every range ends within the address space.
    pub open spec fn in_bounds(&self) -> bool {
        forall|i: int| 0 <= i < self.ram@.len() ==> end_of(#[trigger] self.ram@[i]) <= u64::MAX
    }

    /// The end of the last RAM range.
    pub open spec fn ram_end_spec(&self) -> int {
        if self.ram@.len() == 0 {
            0
        } else {
            end_of(self.ram@.last())
        }
    }

    /// The end of the first RAM range.
    pub open spec fn low_ram_end_spec(&self) -> int {
        if self.ram@.len() == 0 {
            0
        } else {
            end_of(self.ram@[0])
        }
    }

    /// Every range of guest memory: boot RAM, then the hot-plug region.
    pub open spec fn ranges(&self) -> Seq<(u64, u64)> {
        match self.hotplug {
            Some(r) => self.ram@.push(r),
            None => self.ram@,
        }
    }

    /// The layout for `memory` bytes of boot RAM and `hotplug` bytes of virtio-mem region.
    pub fn new(arch: Arch, memory: u64, hotplug: u64) -> (r: Result<Self>)
        requires
            ram_fits(arch, memory),
        ensures
            r is Ok <==> hotplug == 0 || hotplug_fits(arch, memory, hotplug),
            r matches Ok(l) ==> {
                &&& l.arch == arch
                &&& l.ram@ == boot_ram(arch, memory)
                &&& l.hotplug == hotplug_region(arch, memory, hotplug)
                &&& l.in_bounds()
            },
            r matches Err(e) ==> e@ == overflow_error(),
    {
        let mut ram: Vec<(u64, u64)> = Vec::new();
        let end: u64;
        match arch {
            Arch::X86_64 => {
                if memory <= x86::MMIO_GAP_START {
                    ram.push((0, memory));
                    end = memory;
                } else {
                    ram.push((0, x86::MMIO_GAP_START));
                    ram.push((x86::MMIO_GAP_END, memory - x86::MMIO_GAP_START));
                    end = x86::MMIO_GAP_END + (memory - x86::MMIO_GAP_START);
                }
            },
            Arch::Aarch64 => {
                ram.push((arm::RAM_START, memory));
                end = arm::RAM_START + memory;
            },
        }
        assert(ram@ =~= boot_ram(arch, memory));
        if hotplug == 0 {
            return Ok(Layout { arch, ram, hotplug: None });
        }
        let floor: u64 = match arch {
            Arch::X86_64 => if end < x86::MMIO_GAP_END {
                x86::MMIO_GAP_END
            } else {
                end
            },
            Arch::Aarch64 => end,
        };
        assert(floor == hotplug_floor(arch, memory));
        let start = align_up(floor, MEMORY_BLOCK_BYTES);
        let len = align_up(hotplug, MEMORY_BLOCK_BYTES);
        if let Some(s) = start {
            if let Some(l) = len {
                if l <= u64::MAX - s {
                    return Ok(Layout { arch, ram, hotplug: Some((s, l)) });
                }
            }
        }
        Err(VmmError::config("--memory-max", "overflows the address space"))
    }

    /// The layout for a configuration.
    pub fn for_config(arch: Arch, c: &VmConfig) -> (r: Result<Self>)
        requires
            c@.memory_bytes <= c@.memory_max_bytes,
            ram_fits(arch, c@.memory_bytes),
        ensures
            ({
                let hotplug = (c@.memory_max_bytes - c@.memory_bytes) as u64;
                &&& r is Ok <==> hotplug == 0 || hotplug_fits(arch, c@.memory_bytes, hotplug)
                &&& r matches Ok(l) ==> {
                    &&& l.arch == arch
                    &&& l.ram@ == boot_ram(arch, c@.memory_bytes)
                    &&& l.hotplug == hotplug_region(arch, c@.memory_bytes, hotplug)
                    &&& l.in_bounds()
                }
                &&& r matches Err(e) ==> e@ == overflow_error()
            }),
    {
        Layout::new(arch, c.memory_bytes, c.hotplug_bytes())
    }

    /// End of boot RAM (exclusive).
    pub fn ram_end(&self) -> (e: u64)
        requires
            self.in_bounds(),
        ensures
            e == self.ram_end_spec(),
    {
        let n = self.ram.len();
        if n == 0 {
            0
        } else {
            assert(end_of(self.ram@[n - 1]) <= u64::MAX);
            self.ram[n - 1].0 + self.ram[n - 1].1
        }
    }

    /// End of the RAM the kernel, initramfs and boot structures may use: the first RAM
    /// range (below the x86 hole; all of it on aarch64).
    pub fn low_ram_end(&self) -> (e: u64)
        requires
            self.in_bounds(),
        ensures
            e == self.low_ram_end_spec(),
    {
        if self.ram.len() == 0 {
            0
        } else {
            assert(end_of(self.ram@[0]) <= u64::MAX);
            self.ram[0].0 + self.ram[0].1
        }
    }

    /// Every range of guest memory the monitor maps: boot RAM, then the hot-plug region.
    pub fn memory_ranges(&self) -> (v: Vec<(u64, u64)>)
        ensures
            v@ == self.ranges(),
    {
        let mut v: Vec<(u64, u64)> = Vec::new();
        let mut i: usize = 0;
        while i < self.ram.len()
            invariant
                i <= self.ram@.len(),
                v@ == self.ram@.subrange(0, i as int),
            decreases self.ram@.len() - i,
        {
            v.push(self.ram[i]);
            assert(v@ =~= self.ram@.subrange(0, i + 1));
            i += 1;
        }
        assert(v@ =~= self.ram@);
        if let Some(r) = self.hotplug {
            v.push(r);
        }
        v
    }

    /// The `i`th virtio device's window and GSI.
    pub fn virtio_slot(&self, i: usize) -> (r: Result<Slot>)
        ensures
            r is Ok <==> i < MAX_VIRTIO_DEVICES,
            r matches Ok(s) ==> s == slot(self.arch, i as int),
            r matches Err(e) ==> e@ == (VmmErrorView::Config {
                field: "--disk"@,
                msg: "more than 18 virtio devices"@,
            }),
    {
        if i >= MAX_VIRTIO_DEVICES {
            return Err(VmmError::config("--disk", "more than 18 virtio devices"));
        }
        let (base, gsi): (u64, u32) = match self.arch {
            Arch::X86_64 => (x86::VIRTIO_BASE, x86::VIRTIO_GSI_BASE),
            Arch::Aarch64 => (arm::VIRTIO_BASE, arm::VIRTIO_GSI_BASE),
        };
        Ok(Slot { addr: base + i as u64 * MMIO_WINDOW, gsi: gsi + i as u32 })
    }

    /// Where the kernel is loaded.
    pub fn kernel_addr(&self) -> (a: u64)
        ensures
            a == (match self.arch {
                Arch::X86_64 => x86::KERNEL_ADDR,
                Arch::Aarch64 => arm::RAM_START,
            }),
    {
        match self.arch {
            Arch::X86_64 => x86::KERNEL_ADDR,
            Arch::Aarch64 => arm::RAM_START,
        }
    }

    /// Where the device tree goes (aarch64): the top [`arm::FDT_MAX`] of boot RAM.
    pub fn fdt_addr(&self) -> (a: u64)
        requires
            self.in_bounds(),
            self.low_ram_end_spec() >= arm::FDT_MAX,
        ensures
            a == self.low_ram_end_spec() - arm::FDT_MAX,
    {
        self.low_ram_end() - arm::FDT_MAX
    }

    /// The end of the room for an initramfs.
    pub open spec fn initrd_top(&self) -> int {
        match self.arch {
            Arch::X86_64 => self.low_ram_end_spec(),
            Arch::Aarch64 => self.low_ram_end_spec() - arm::FDT_MAX,
        }
    }

    /// Where an initramfs of `size` bytes goes: page-aligned, as high in low RAM as fits,
    /// below the device tree on aarch64. `kernel_end` is the first byte after the kernel.
    pub fn initrd_addr(&self, size: u64, kernel_end: u64) -> (r: Result<u64>)
        requires
            self.in_bounds(),
            self.arch is Aarch64 ==> self.low_ram_end_spec() >= arm::FDT_MAX,
        ensures
            r is Ok <==> size <= self.initrd_top() && (self.initrd_top() - size) / 4096 * 4096
                >= kernel_end,
            r matches Ok(a) ==> a == (self.initrd_top() - size) / 4096 * 4096,
            r matches Err(e) ==> e@ == (VmmErrorView::Config {
                field: "--memory"@,
                msg: dec(size as nat) + " bytes of initramfs do not fit below "@ + hex0x(
                    self.initrd_top() as nat,
                ) + " after the kernel"@,
            }),
    {
        let top: u64 = match self.arch {
            Arch::X86_64 => self.low_ram_end(),
            Arch::Aarch64 => self.fdt_addr(),
        };
        if size <= top {
            let addr: u64 = (top - size) / 4096 * 4096;
            if addr >= kernel_end {
                return Ok(addr);
            }
        }
        let n = dec_text(size);
        let t = hex0x_text(top);
        let msg = cat5(
            &n,
            " bytes of initramfs do not fit below ",
            &t,
            " after the kernel",
            "",
        );
        proof {
            reveal_strlit("");
            assert(msg@ =~= dec(size as nat) + " bytes of initramfs do not fit below "@ + hex0x(
                self.initrd_top() as nat,
            ) + " after the kernel"@);
        }
        Err(VmmError::config("--memory", &msg))
    }
}

/// The `i`th virtio device's place.
pub open spec fn slot(arch: Arch, i: int) -> Slot {
    match arch {
        Arch::X86_64 => Slot {
            addr: (x86::VIRTIO_BASE + i * MMIO_WINDOW) as u64,
            gsi: (x86::VIRTIO_GSI_BASE + i) as u32,
        },
        Arch::Aarch64 => Slot {
            addr: (arm::VIRTIO_BASE + i * MMIO_WINDOW) as u64,
            gsi: (arm::VIRTIO_GSI_BASE + i) as u32,
        },
    }
}

/// The words of the kernel command line.
pub open spec fn cmdline_words(arch: Arch, has_rootfs: bool) -> Seq<Seq<char>> {
    (match arch {
        Arch::X86_64 => seq![
            "console=ttyS0"@,
            "reboot=k"@,
            "pci=off"@,
            "i8042.noaux"@,
            "i8042.nomux"@,
            "i8042.dumbkbd"@,
        ],
        Arch::Aarch64 => seq![
            "console=ttyS0"@,
            "earlycon=uart,mmio,"@ + hex0x(arm::SERIAL_ADDR as nat),
        ],
    }) + seq!["panic=1"@, "memhp_default_state=online_movable"@] + (if has_rootfs {
        seq!["moruna.root=moruna-root"@]
    } else {
        seq![]
    }) + seq!["quiet"@]
}

/// Words with one space between them.
pub open spec fn spaced(words: Seq<Seq<char>>) -> Seq<char>
    decreases words.len(),
{
    if words.len() == 0 {
        Seq::empty()
    } else if words.len() == 1 {
        words[0]
    } else {
        spaced(words.drop_last()) + " "@ + words.last()
    }
}

/// Texts as character sequences.
pub open spec fn texts(v: Seq<String>) -> Seq<Seq<char>> {
    Seq::new(v.len(), |i: int| v[i]@)
}

/// Words with one space between them.
pub fn join_words(words: &Vec<String>) -> (s: String)
    ensures
        s@ == spaced(texts(words@)),
{
    let mut s = String::new();
    let ghost all = texts(words@);
    let mut i: usize = 0;
    assert(spaced(all.subrange(0, 0)) =~= Seq::<char>::empty());
    while i < words.len()
        invariant
            i <= words@.len(),
            all == texts(words@),
            s@ == spaced(all.subrange(0, i as int)),
        decreases words@.len() - i,
    {
        let ghost next = all.subrange(0, i + 1);
        assert(next.drop_last() =~= all.subrange(0, i as int));
        if i > 0 {
            s.append(" ");
        } else {
            assert(s@ =~= Seq::<char>::empty());
        }
        s.append(&words[i]);
        assert(s@ =~= spaced(next));
        i += 1;
    }
    assert(all.subrange(0, words@.len() as int) =~= all);
    s
}

/// The kernel command line: the console, reboot and panic behaviour the monitor relies on,
/// memory hot-plug onlining, and the root filesystem.
pub fn cmdline(arch: Arch, has_rootfs: bool) -> (s: String)
    ensures
        s@ == spaced(cmdline_words(arch, has_rootfs)),
{
    let mut parts: Vec<String> = Vec::new();
    match arch {
        Arch::X86_64 => {
            parts.push("console=ttyS0".to_owned());
            // reboot=k: reset through the i8042, which the monitor sees; the guest has no PCI.
            parts.push("reboot=k".to_owned());
            parts.push("pci=off".to_owned());
            parts.push("i8042.noaux".to_owned());
            parts.push("i8042.nomux".to_owned());
            parts.push("i8042.dumbkbd".to_owned());
        },
        Arch::Aarch64 => {
            parts.push("console=ttyS0".to_owned());
            let addr = hex0x_text(arm::SERIAL_ADDR);
            parts.push(cat2("earlycon=uart,mmio,", &addr));
        },
    }
    // A panic reboots after one second, which ends the run; the monitor reports it as a panic.
    parts.push("panic=1".to_owned());
    parts.push("memhp_default_state=online_movable".to_owned());
    if has_rootfs {
        parts.push("moruna.root=moruna-root".to_owned());
    }
    parts.push("quiet".to_owned());
    assert(texts(parts@) =~= cmdline_words(arch, has_rootfs));
    join_words(&parts)
}

proof fn lemma_up(v: int, a: int)
    requires
        a > 0,
    ensures
        v <= up(v, a) < v + a,
        up(v, a) % a == 0,
{
    let q = (v + a - 1) / a;
    assert(q * a <= v + a - 1 < q * a + a && (q * a) % a == 0) by (nonlinear_arith)
        requires
            a > 0,
            q == (v + a - 1) / a,
    ;
}

/// No range of guest memory overlaps another or the 32-bit MMIO hole, and the hot-plug region
/// lies above boot RAM in whole memory blocks.
pub proof fn law_ranges_are_disjoint(l: Layout, memory: u64, hotplug: u64)
    requires
        ram_fits(l.arch, memory),
        l.ram@ == boot_ram(l.arch, memory),
        l.hotplug == hotplug_region(l.arch, memory, hotplug),
        hotplug == 0 || hotplug_fits(l.arch, memory, hotplug),
    ensures
        forall|i: int, j: int|
            0 <= i < j < l.ranges().len() ==> end_of(#[trigger] l.ranges()[i]) <= (
            #[trigger] l.ranges()[j]).0,
        l.arch is X86_64 ==> forall|i: int|
            0 <= i < l.ranges().len() ==> end_of(#[trigger] l.ranges()[i]) <= x86::MMIO_GAP_START
                || l.ranges()[i].0 >= x86::MMIO_GAP_END,
        l.hotplug matches Some((s, n)) ==> {
            &&& s as int % (MEMORY_BLOCK_BYTES as int) == 0
            &&& n as int % (MEMORY_BLOCK_BYTES as int) == 0
            &&& n >= hotplug
            &&& s >= l.ram_end_spec()
        },
{
    lemma_up(hotplug_floor(l.arch, memory), MEMORY_BLOCK_BYTES as int);
    lemma_up(hotplug as int, MEMORY_BLOCK_BYTES as int);
}

/// Boot RAM holds exactly the memory asked for.
pub proof fn law_boot_ram_is_the_memory(arch: Arch, memory: u64)
    ensures
        boot_ram(arch, memory).len() == 1 ==> boot_ram(arch, memory)[0].1 == memory,
        boot_ram(arch, memory).len() == 2 ==> boot_ram(arch, memory)[0].1 + boot_ram(
            arch,
            memory,
        )[1].1 == memory,
        1 <= boot_ram(arch, memory).len() <= 2,
{
}

/// A valid configuration has a layout: nothing in it can overflow the address space.
pub proof fn law_valid_configurations_have_a_layout(arch: Arch, c: VmView, facts: HostFacts)
    requires
        c.valid(facts),
    ensures
        ram_fits(arch, c.memory_bytes),
        c.memory_max_bytes == c.memory_bytes || hotplug_fits(
            arch,
            c.memory_bytes,
            (c.memory_max_bytes - c.memory_bytes) as u64,
        ),
        end_of(boot_ram(arch, c.memory_bytes)[0]) >= arm::FDT_MAX,
{
    lemma_up(hotplug_floor(arch, c.memory_bytes), MEMORY_BLOCK_BYTES as int);
    lemma_up(c.memory_max_bytes - c.memory_bytes, MEMORY_BLOCK_BYTES as int);
}

/// The virtio windows do not overlap and their interrupts differ. On x86_64 they are IOAPIC
/// pins above the console's and below the Generic Event Device's, and the windows lie in the
/// MMIO hole below the CPU hot-plug controller; on aarch64 they lie above the console and below
/// RAM.
pub proof fn law_slots_are_distinct(arch: Arch, i: int, j: int)
    requires
        0 <= i < j < MAX_VIRTIO_DEVICES,
    ensures
        slot(arch, i).addr + MMIO_WINDOW <= slot(arch, j).addr,
        slot(arch, i).gsi != slot(arch, j).gsi,
        arch is X86_64 ==> {
            &&& 4 < slot(arch, i).gsi && slot(arch, j).gsi < x86::GED_GSI
            &&& slot(arch, i).addr >= x86::MMIO_GAP_START
            &&& slot(arch, j).addr + MMIO_WINDOW <= x86::CPU_HOTPLUG_ADDR
        },
        arch is Aarch64 ==> {
            &&& slot(arch, i).addr >= arm::SERIAL_ADDR + 0x1000
            &&& slot(arch, j).addr + MMIO_WINDOW <= arm::RAM_START
            &&& slot(arch, i).gsi > arm::SERIAL_GSI
        },
{
}

/// Where an initramfs is placed it fits: page-aligned, after the kernel, below the end of low
/// RAM (below the device tree on aarch64).
pub proof fn law_initrd_fits(l: Layout, size: u64, kernel_end: u64)
    requires
        size <= l.initrd_top(),
        (l.initrd_top() - size) / 4096 * 4096 >= kernel_end,
    ensures
        ({
            let a = (l.initrd_top() - size) / 4096 * 4096;
            &&& a % 4096 == 0
            &&& kernel_end <= a
            &&& a + size <= l.initrd_top()
            &&& l.initrd_top() - (a + size) < 4096
        }),
{
}

} // verus!
