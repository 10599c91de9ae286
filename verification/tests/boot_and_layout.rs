//! The memory map, the boot state and the kernel command line.

use moruna::boot::{
    arm64_mpidr, arm64_reg_pc, arm64_reg_pstate, arm64_reg_x, e820, gdt_entry, segment,
    write_x86_boot_tables, x86_boot_msrs, x86_patch_cpuid, x86_set_lint, X86BootRegs,
    ARM64_BOOT_PSTATE, E820_RAM, GDT,
};
use moruna::devices::queue::Mem;
use moruna::layout::{
    arm, cmdline, x86, Arch, Layout, Slot, MAX_VIRTIO_DEVICES, MEMORY_BLOCK_BYTES, MMIO_WINDOW,
};
use vm_memory::{Bytes, GuestAddress};

const MIB: u64 = 1 << 20;
const GIB: u64 = 1 << 30;

fn guest_memory(size: usize) -> Mem {
    Mem::from_ranges(&[(GuestAddress(0), size)]).unwrap()
}

#[test]
fn vm_t5_x86_layout_below_and_across_the_hole() {
    let l = Layout::new(Arch::X86_64, GIB, 0).unwrap();
    assert_eq!(l.ram, vec![(0, GIB)]);
    assert_eq!(l.hotplug, None);
    assert_eq!(l.ram_end(), GIB);
    assert_eq!(l.memory_ranges(), vec![(0, GIB)]);

    // Hot-plug memory starts above the hole even when boot RAM is small.
    let l = Layout::new(Arch::X86_64, GIB, 3 * GIB + 2 * MIB).unwrap();
    assert_eq!(l.hotplug, Some((1 << 32, 3 * GIB + MEMORY_BLOCK_BYTES)));

    // Boot RAM larger than the hole's start is split around it.
    let l = Layout::new(Arch::X86_64, 4 * GIB, GIB).unwrap();
    assert_eq!(l.ram, vec![(0, 3 * GIB), (1 << 32, GIB)]);
    assert_eq!(l.low_ram_end(), 3 * GIB);
    assert_eq!(l.ram_end(), 5 * GIB);
    assert_eq!(l.hotplug, Some((5 * GIB, GIB)));
    assert_eq!(l.memory_ranges().len(), 3);
    assert_eq!(l.kernel_addr(), x86::KERNEL_ADDR);

    // No range overlaps the MMIO hole or another range.
    let r = l.memory_ranges();
    for w in r.windows(2) {
        assert!(w[0].0 + w[0].1 <= w[1].0);
    }
    for (s, len) in r {
        assert!(s + len <= x86::MMIO_GAP_START || s >= x86::MMIO_GAP_END);
    }
}

#[test]
fn vm_t5_arm_layout() {
    let l = Layout::new(Arch::Aarch64, GIB + 2 * MIB, GIB).unwrap();
    assert_eq!(l.ram, vec![(arm::RAM_START, GIB + 2 * MIB)]);
    let (hs, hl) = l.hotplug.unwrap();
    assert_eq!(hs % MEMORY_BLOCK_BYTES, 0);
    assert!(hs >= l.ram_end());
    assert_eq!(hl, GIB);
    assert_eq!(l.kernel_addr(), arm::RAM_START);
    assert_eq!(l.fdt_addr(), l.ram_end() - arm::FDT_MAX);
    // Devices sit below RAM, above the GIC and the console.
    let last = l.virtio_slot(MAX_VIRTIO_DEVICES - 1).unwrap();
    assert!(last.addr + MMIO_WINDOW <= arm::RAM_START);
    assert!(arm::GIC_REDIST + 64 * arm::GIC_REDIST_STRIDE <= arm::SERIAL_ADDR);
    assert!(arm::SERIAL_ADDR + 0x1000 <= arm::VIRTIO_BASE);
}

#[test]
fn vm_t5_slots_are_distinct_and_bounded() {
    for arch in [Arch::X86_64, Arch::Aarch64] {
        let l = Layout::new(arch, GIB, 0).unwrap();
        let slots: Vec<Slot> = (0..MAX_VIRTIO_DEVICES)
            .map(|i| l.virtio_slot(i).unwrap())
            .collect();
        for (i, a) in slots.iter().enumerate() {
            for b in &slots[i + 1..] {
                assert!(a.addr + MMIO_WINDOW <= b.addr);
                assert_ne!(a.gsi, b.gsi);
            }
        }
        assert!(l.virtio_slot(MAX_VIRTIO_DEVICES).is_err());
        if arch == Arch::X86_64 {
            // Every virtio GSI is an IOAPIC pin below the GED's, above COM1's.
            assert!(slots.iter().all(|s| s.gsi > 4 && s.gsi < x86::GED_GSI));
            let last = slots.last().unwrap();
            assert!(last.addr + MMIO_WINDOW <= x86::CPU_HOTPLUG_ADDR);
        }
    }
}

#[test]
fn vm_t5_initrd_placement() {
    let l = Layout::new(Arch::X86_64, 512 * MIB, 0).unwrap();
    let a = l.initrd_addr(10 * MIB + 5, 20 * MIB).unwrap();
    assert_eq!(a % 4096, 0);
    assert!(a + 10 * MIB + 5 <= 512 * MIB);
    assert!(l.initrd_addr(600 * MIB, 0).is_err());
    assert!(l.initrd_addr(500 * MIB, 20 * MIB).is_err());
    let l = Layout::new(Arch::Aarch64, 512 * MIB, 0).unwrap();
    let a = l.initrd_addr(MIB, arm::RAM_START + 20 * MIB).unwrap();
    assert!(a + MIB <= l.fdt_addr());
}

#[test]
fn vm_t5_overflowing_hotplug_is_refused() {
    assert!(Layout::new(Arch::Aarch64, GIB, u64::MAX - GIB).is_err());
}

#[test]
fn vm_t6_cmdline_carries_what_the_monitor_relies_on() {
    for arch in [Arch::X86_64, Arch::Aarch64] {
        let c = cmdline(arch, true);
        for want in [
            "console=ttyS0",
            "panic=1",
            "memhp_default_state=online_movable",
            "moruna.root=moruna-root",
        ] {
            assert!(c.split(' ').any(|p| p == want), "{arch:?}: {want} in {c}");
        }
        assert!(!cmdline(arch, false).contains("moruna.root"));
        // Nothing that would bring up a network.
        assert!(!c.contains("ip=") && !c.contains("net"), "{c}");
    }
    assert!(cmdline(Arch::X86_64, false).contains("reboot=k"));
    assert!(cmdline(Arch::Aarch64, false).contains("earlycon=uart,mmio,0x9000000"));
}

#[test]
fn the_whole_command_line() {
    assert_eq!(
        cmdline(Arch::X86_64, true),
        "console=ttyS0 reboot=k pci=off i8042.noaux i8042.nomux i8042.dumbkbd panic=1 \
         memhp_default_state=online_movable moruna.root=moruna-root quiet"
    );
}

#[test]
fn initrd_refusal_names_the_limit() {
    let l = Layout::new(Arch::X86_64, 512 * MIB, 0).unwrap();
    assert_eq!(
        l.initrd_addr(600 * MIB, 0).unwrap_err().to_string(),
        "config --memory: 629145600 bytes of initramfs do not fit below 0x20000000 after the \
         kernel"
    );
}

#[test]
fn vm_t22_gdt_and_segments() {
    assert_eq!(GDT[1], 0x00af_9b00_0000_ffff);
    assert_eq!(GDT[2], 0x00cf_9300_0000_ffff);
    assert_eq!(GDT[3], 0x008f_8b00_0000_ffff);
    assert_eq!(gdt_entry(0xa09b, 0, 0xfffff), GDT[1]);
    let cs = segment(GDT[1], 1);
    assert_eq!(
        (cs.selector, cs.type_, cs.present, cs.l, cs.db, cs.s, cs.g),
        (8, 0xb, 1, 1, 0, 1, 1)
    );
    assert_eq!(cs.limit, 0xffff_ffff);
    let ds = segment(GDT[2], 2);
    assert_eq!((ds.selector, ds.type_, ds.l, ds.db), (16, 3, 0, 1));
    let tss = segment(GDT[3], 3);
    assert_eq!((tss.selector, tss.type_, tss.s), (24, 0xb, 0));
    let odd = segment(gdt_entry(0x0093, 0x1234_5678, 0xabc), 4);
    assert_eq!((odd.base, odd.limit, odd.g), (0x1234_5678, 0xabc, 0));
}

#[test]
fn vm_t22_page_tables_identity_map_the_first_gib() {
    let mut mem = guest_memory(1 << 20);
    write_x86_boot_tables(&mut mem).unwrap();
    let r = |a: u64| mem.read_obj::<u64>(GuestAddress(a)).unwrap();
    assert_eq!(r(x86::PML4_ADDR), x86::PDPTE_ADDR | 3);
    assert_eq!(r(x86::PDPTE_ADDR), x86::PDE_ADDR | 3);
    assert_eq!(r(x86::PDE_ADDR), 0x83);
    assert_eq!(r(x86::PDE_ADDR + 511 * 8), (511 << 21) | 0x83);
    assert_eq!(r(x86::GDT_ADDR + 8), GDT[1]);
    assert_eq!(r(x86::IDT_ADDR), 0);
    // Too little memory for the tables is an error, not a panic.
    let mut tiny = guest_memory(0x1000);
    assert!(write_x86_boot_tables(&mut tiny).is_err());
}

#[test]
fn vm_t22_e820_and_registers() {
    let l = Layout::new(Arch::X86_64, 4 << 30, 1 << 30).unwrap();
    let m = e820(&l);
    assert_eq!(
        m,
        vec![
            (0, x86::EBDA_START, E820_RAM),
            (x86::KERNEL_ADDR, (3 << 30) - x86::KERNEL_ADDR, E820_RAM),
            (1 << 32, 1 << 30, E820_RAM),
        ]
    );
    // Nothing overlaps the boot structures' reserved area or the hot-plug region.
    let (hs, _) = l.hotplug.unwrap();
    assert!(m.iter().all(|(s, len, _)| s + len <= hs));
    let r = X86BootRegs::new(0x100_0200);
    assert_eq!(
        (r.rsp, r.rsi, r.rflags),
        (x86::BOOT_STACK, x86::ZERO_PAGE_ADDR, 2)
    );
    assert_eq!(r.rip, 0x100_0200);
    // A layout too small for anything above 1 MiB has just the low entry.
    let small = Layout {
        arch: Arch::X86_64,
        ram: vec![(0, 0x8_0000)],
        hotplug: None,
    };
    assert_eq!(e820(&small).len(), 1);
}

#[test]
fn vm_t22_x86_cpu_state_helpers() {
    let msrs = x86_boot_msrs();
    assert!(msrs.contains(&(0x1a0, 1)));
    assert_eq!(msrs.len(), 10);
    let mut r = [0, 0x0000_0800, 0, 0];
    x86_patch_cpuid(1, 0, &mut r, 3, 8);
    assert_eq!(r[1] >> 24, 3);
    assert_eq!((r[1] >> 16) & 0xff, 8);
    assert_eq!(r[1] & 0xffff, 0x0800);
    assert_ne!(r[2] & (1 << 31), 0);
    let mut r = [9; 4];
    x86_patch_cpuid(0xb, 0, &mut r, 5, 8);
    assert_eq!(r, [0, 1, 0x100, 5]);
    x86_patch_cpuid(0xb, 1, &mut r, 5, 8);
    assert_eq!(r, [3, 8, 0x201, 5]);
    x86_patch_cpuid(0xb, 2, &mut r, 5, 8);
    assert_eq!(r, [0, 0, 2, 5]);
    let mut r = [1, 2, 3, 4];
    x86_patch_cpuid(7, 0, &mut r, 5, 8);
    assert_eq!(r, [1, 2, 3, 4]);
    let mut lapic = vec![0xffu8; 1024];
    x86_set_lint(&mut lapic);
    assert_eq!(
        u32::from_le_bytes(lapic[0x350..0x354].try_into().unwrap()) & 0x700,
        0x700
    );
    assert_eq!(
        u32::from_le_bytes(lapic[0x360..0x364].try_into().unwrap()) & 0x700,
        0x400
    );
}

#[test]
fn vm_t22_arm64_register_ids() {
    assert_eq!(arm64_mpidr(3), 3);
    assert_eq!(arm64_mpidr(17), 0x101);
    assert_eq!(arm64_reg_x(0), 0x6030_0000_0010_0000);
    assert_eq!(arm64_reg_x(1), 0x6030_0000_0010_0002);
    assert_eq!(arm64_reg_pc(), 0x6030_0000_0010_0040);
    assert_eq!(arm64_reg_pstate(), 0x6030_0000_0010_0042);
    assert_eq!(ARM64_BOOT_PSTATE & 0xf, 0x5, "EL1h");
}
