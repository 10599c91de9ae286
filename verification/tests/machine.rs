//! The machine: its tables, its plan, its kernel, its image, its controller and its session.

use std::cell::RefCell;
use std::collections::BTreeMap;
use std::rc::Rc;

use linux_loader::loader::bootparam::boot_params;
use moruna::acpi::{dsdt, fadt, lapic_entry, madt, name4, tables};
use moruna::boot::boot_words;
use moruna::config::{DiskConfig, DiskFact, HostFacts, VmConfig, VsockConfig};
use moruna::control::{Controller, Status};
use moruna::devices::cpu_hotplug::CpuHotplug;
use moruna::devices::legacy::{RESET_REGISTER, RESET_VALUE, SLEEP_CONTROL, SLEEP_STATUS};
use moruna::devices::mem::{MemBacking, VirtioMem};
use moruna::devices::mmio::MmioTransport;
use moruna::devices::queue::Mem;
use moruna::devices::serial::{ConsoleLog, COM1_PORT};
use moruna::devices::virtio::Interrupt;
use moruna::devices::{Irq, StopReason, StopSignal};
use moruna::error::{
    Result, VmmError, EXIT_CONFIG, EXIT_GUEST_PANIC, EXIT_MONITOR, EXIT_NO_CODE,
};
use moruna::fdt::{build, FdtSpec, GicVersion};
use moruna::image::{
    blob_path, choose_manifest, form_of, hex, initramfs_names, kernel_names, oci_arch,
    resolve_dir, resolve_oci, rootfs_names, verify_blob, BlobFact, Descriptor, DirFacts, FileHash,
    Form, GuestImage, Manifest, Platform, ARTIFACT_TYPE, MEDIA_INITRAMFS, MEDIA_KERNEL,
    MEDIA_ROOTFS, VERIFY_MAX_BYTES,
};
use moruna::kvm::{
    arm_boot_regs, arm_features, boot_special_regs, check_host, check_msrs, cpuid_for, gic_attrs,
    memory_slots, stop_reason, vcpu_count, CpuidLeaf, VcpuEvent,
};
use moruna::layout::{arm, x86, Arch, Layout, Slot, MMIO_WINDOW};
use moruna::loader::{
    arm_loaded, bad_kernel, load_kernel, setup_header, write_zero_page, x86_kernel, Loaded,
    SETUP_HEADER, SETUP_HEADER_BYTES,
};
use moruna::machine::controller::VmController;
use moruna::machine::{
    exit_code, finish, guest_memory, parse_status_line, place_file, virtio_mmio_param, Plan, Role,
    StatusPort, STATUS_LINE_MAX,
};
use moruna::session::{
    connect_line, connected, default_cid, give_up, read_spec, run_config, spec_message,
    unreadable_spec, Budget, ExitStatus,
};
use vm_memory::{Bytes, GuestAddress};

const MIB: u64 = 1 << 20;
const GIB: u64 = 1 << 30;

fn sum(b: &[u8]) -> u8 {
    b.iter().fold(0u8, |a, x| a.wrapping_add(*x))
}

#[test]
fn vm_t20_tables_checksum_and_link() {
    let t = tables(2, 8).unwrap();
    let sig = |b: &[u8]| String::from_utf8_lossy(&b[0..4]).to_string();
    let (rsdp_at, rsdp) = &t[0];
    assert_eq!(*rsdp_at, x86::ACPI_ADDR);
    assert_eq!(&rsdp[0..8], b"RSD PTR ");
    assert_eq!(sum(&rsdp[0..20]), 0, "RSDP v1 checksum");
    assert_eq!(sum(rsdp), 0, "RSDP extended checksum");
    let xsdt_addr = u64::from_le_bytes(rsdp[24..32].try_into().unwrap());
    assert_eq!(xsdt_addr, t[1].0);
    for (_, b) in &t[1..] {
        assert_eq!(sum(b), 0, "{} checksum", sig(b));
        let len = u32::from_le_bytes(b[4..8].try_into().unwrap()) as usize;
        assert_eq!(len, b.len(), "{} length", sig(b));
    }
    assert_eq!(
        t[1..].iter().map(|(_, b)| sig(b)).collect::<Vec<_>>(),
        vec!["XSDT", "FACP", "DSDT", "APIC"]
    );
    // The XSDT points at FADT, MADT, DSDT; the FADT at the DSDT.
    let xsdt = &t[1].1;
    let entries: Vec<u64> = xsdt[36..]
        .chunks(8)
        .map(|c| u64::from_le_bytes(c.try_into().unwrap()))
        .collect();
    assert_eq!(entries, vec![t[2].0, t[4].0, t[3].0]);
    let fadt = &t[2].1;
    assert_eq!(u64::from_le_bytes(fadt[140..148].try_into().unwrap()), t[3].0);
    // Tables do not overlap and fit the scanned area.
    for w in t.windows(2) {
        assert!(w[0].0 + w[0].1.len() as u64 <= w[1].0);
    }
    // More vCPUs than the space below 1 MiB holds are refused, not truncated.
    match tables(1, 4096) {
        Err(VmmError::Config { field, msg }) => {
            assert_eq!(field, "--cpus-max");
            assert!(msg.contains("below 1 MiB"), "{msg}");
        }
        other => panic!("{other:?}"),
    }
}

#[test]
fn vm_t20_fadt_registers() {
    let f = fadt(0x1234);
    let flags = u32::from_le_bytes(f[112..116].try_into().unwrap());
    assert_ne!(flags & (1 << 20), 0, "hardware reduced");
    assert_ne!(flags & (1 << 10), 0, "reset register supported");
    // RESET_REG: system IO at the PM block's reset register, value 1.
    assert_eq!(f[116], 1);
    assert_eq!(
        u64::from_le_bytes(f[120..128].try_into().unwrap()),
        moruna::devices::legacy::ACPI_PM_PORT + RESET_REGISTER
    );
    assert_eq!(f[128], RESET_VALUE);
    // SLEEP_CONTROL_REG and SLEEP_STATUS_REG.
    assert_eq!(
        u64::from_le_bytes(f[248..256].try_into().unwrap()),
        moruna::devices::legacy::ACPI_PM_PORT + SLEEP_CONTROL
    );
    assert_eq!(
        u64::from_le_bytes(f[260..268].try_into().unwrap()),
        moruna::devices::legacy::ACPI_PM_PORT + SLEEP_STATUS
    );
}

#[test]
fn vm_t21_madt_marks_hot_add_cpus_online_capable() {
    let m = madt(2, 4);
    // Header 44 bytes, then 4 local APICs of 8 bytes, then the IOAPIC of 12.
    assert_eq!(m.len(), 44 + 4 * 8 + 12);
    let flags: Vec<u32> = (0..4)
        .map(|i| {
            let o = 44 + i * 8;
            assert_eq!((m[o], m[o + 1], m[o + 3]), (0, 8, i as u8));
            u32::from_le_bytes(m[o + 4..o + 8].try_into().unwrap())
        })
        .collect();
    assert_eq!(flags, vec![1, 1, 2, 2]);
    assert_eq!(m[44 + 32], 1, "IOAPIC entry");
    assert_eq!(
        u32::from_le_bytes(m[36..40].try_into().unwrap()),
        x86::LAPIC_ADDR as u32
    );
}

#[test]
fn the_madt_has_an_entry_for_each_of_many_cpus() {
    let n = 5000;
    let m = madt(4999, n);
    assert_eq!(m.len(), 56 + 8 * n as usize);
    assert_eq!(u32::from_le_bytes(m[4..8].try_into().unwrap()), 56 + 8 * n);
    assert_eq!(m.iter().fold(0u8, |a, b| a.wrapping_add(*b)), 0, "the checksum");
    let last = &m[44 + 8 * 4998..44 + 8 * 5000];
    assert_eq!(u32::from_le_bytes(last[4..8].try_into().unwrap()), 1);
    assert_eq!(u32::from_le_bytes(last[12..16].try_into().unwrap()), 2);
}

#[test]
fn vm_t21_dsdt_names_every_possible_cpu_and_the_ged() {
    let d = dsdt(3);
    let has = |s: &[u8]| d.windows(s.len()).any(|w| w == s);
    for n in [
        &b"C000"[..],
        b"C001",
        b"C002",
        b"CSCN",
        b"CSTA",
        b"CTFY",
        b"GED0",
        b"ACPI0013",
        b"ACPI0007",
        b"ACPI0010",
        b"_S5_",
        b"PRST",
    ] {
        assert!(has(n), "{}", String::from_utf8_lossy(n));
    }
    assert!(!has(b"C003"));
    // The hot-plug controller's address appears as the OpRegion offset.
    assert!(has(&(x86::CPU_HOTPLUG_ADDR as u32).to_le_bytes()));
    // Too many vCPUs for the space below 1 MiB would be refused, not truncated.
    assert!(tables(1, 64).is_ok());
    assert_eq!(name4('C', 0x2a), "C02A");
    assert_eq!(lapic_entry(3), vec![0, 8, 3, 3, 1, 0, 0, 0]);
}

/// The code that the terms of a table stand for, term by term as the encoder writes them.
#[test]
fn dsdt_code_is_well_formed() {
    let d = dsdt(1);
    // _S5_: a package of one byte and three zeroes.
    let at = d.windows(4).position(|w| w == b"_S5_").expect("_S5_");
    assert_eq!(d[at - 1], 0x08, "a name");
    assert_eq!(d[at + 4], 0x12, "a package");
    // PRST: an operation region in system memory, and its fields.
    let at = d.windows(4).position(|w| w == b"PRST").expect("PRST");
    assert_eq!(&d[at - 2..at], &[0x5b, 0x80]);
    assert_eq!(d[at + 4], 0x00, "system memory");
    let fields = d.windows(2).position(|w| w == [0x5b, 0x81]).expect("a field");
    assert!(fields > at);
    // The mutex, its acquire and its release.
    for pair in [[0x5b, 0x01], [0x5b, 0x23], [0x5b, 0x27]] {
        assert!(d.windows(2).any(|w| w == pair), "{pair:x?}");
    }
}

fn node_names(blob: &[u8]) -> Vec<String> {
    let be = |o: usize| u32::from_be_bytes([blob[o], blob[o + 1], blob[o + 2], blob[o + 3]]);
    assert_eq!(be(0), 0xd00d_feed);
    let off = be(8) as usize;
    let size = be(36) as usize;
    let mut names = Vec::new();
    let mut i = off;
    while i < off + size {
        match be(i) {
            1 => {
                let start = i + 4;
                let end = start + blob[start..].iter().position(|b| *b == 0).unwrap();
                names.push(String::from_utf8(blob[start..end].to_vec()).unwrap());
                i = (end + 1).div_ceil(4) * 4;
            }
            3 => {
                let len = be(i + 4) as usize;
                i += 12 + len.div_ceil(4) * 4;
            }
            _ => i += 4,
        }
    }
    names
}

fn spec_blob(gic: GicVersion) -> Vec<u8> {
    let layout = Layout::new(Arch::Aarch64, 1 << 30, 1 << 30).unwrap();
    let slots: Vec<Slot> = (0..3).map(|i| layout.virtio_slot(i).unwrap()).collect();
    build(&FdtSpec {
        layout: &layout,
        cpus: 2,
        gic,
        cmdline: "console=ttyS0",
        initrd: Some((0x9000_0000, 4096)),
        virtio: &slots,
    })
    .unwrap()
}

#[test]
fn vm_t19_device_tree_describes_the_machine() {
    for gic in [GicVersion::V2, GicVersion::V3] {
        let blob = spec_blob(gic);
        let names = node_names(&blob);
        for want in [
            "cpus",
            "cpu@0",
            "cpu@1",
            "memory@80000000",
            "chosen",
            "intc@8000000",
            "timer",
            "psci",
            "uart@9000000",
            "virtio_mmio@a000000",
            "virtio_mmio@a002000",
        ] {
            assert!(names.iter().any(|n| n == want), "{gic:?}: {want} in {names:?}");
        }
        assert!(!names.iter().any(|n| n.contains("cpu@2")));
        // H10: nothing that could be a network device.
        assert!(!names.iter().any(|n| n.contains("eth") || n.contains("net")));
        let text = String::from_utf8_lossy(&blob);
        assert!(text.contains("console=ttyS0"));
        assert!(text.contains(match gic {
            GicVersion::V2 => "arm,cortex-a15-gic",
            GicVersion::V3 => "arm,gic-v3",
        }));
    }
    // A command line with a zero byte cannot stand in the tree.
    let layout = Layout::new(Arch::Aarch64, 1 << 30, 0).unwrap();
    let bad = build(&FdtSpec {
        layout: &layout,
        cpus: 1,
        gic: GicVersion::V3,
        cmdline: "a\0b",
        initrd: None,
        virtio: &[],
    });
    assert!(bad.is_err());
}

fn config(cpus: u32, cpus_max: u32) -> VmConfig {
    VmConfig {
        image: "/img".to_string(),
        disks: vec![DiskConfig {
            path: "/d.img".to_string(),
            read_only: false,
        }],
        memory_bytes: 256 * MIB,
        memory_max_bytes: GIB,
        cpus,
        cpus_max,
        vsock: VsockConfig {
            cid: 3,
            uds_path: "/run/v.sock".to_string(),
        },
        control_socket: "/run/c.sock".to_string(),
    }
}

fn facts() -> HostFacts {
    HostFacts {
        disks: vec![DiskFact::Usable],
        uds_dir_exists: true,
        control_dir_exists: true,
    }
}

fn plan(arch: Arch, cpus: u32, cpus_max: u32) -> Plan {
    Plan::new(arch, &config(cpus, cpus_max), &facts(), Some(&"/img/rootfs.erofs".to_string()))
        .unwrap()
}

#[test]
fn vm_t23_x86_machine_has_exactly_its_devices() {
    let p = plan(Arch::X86_64, 1, 4);
    // vsock, mem, root filesystem, one disk.
    let slots = p.slots();
    assert_eq!(slots.len(), 4);
    assert_eq!(p.roles[0], Role::Vsock);
    assert_eq!(p.roles[1], Role::Memory(1 << 32, 768 * MIB));
    assert!(
        matches!(&p.roles[2], Role::Disk(d, id) if d.read_only && id == "moruna-root"
            && d.path == "/img/rootfs.erofs")
    );
    assert!(
        matches!(&p.roles[3], Role::Disk(d, id) if !d.read_only && id == "moruna-disk-0"
            && d.path == "/d.img")
    );
    for s in &slots {
        assert!(p.cmdline.contains(&virtio_mmio_param(s)));
    }
    // Nothing else answers in the device window.
    let past = slots[3].addr + MMIO_WINDOW;
    let windows = p.mmio_windows();
    assert!(!windows.iter().any(|(base, len)| *base <= past && past < base + len));
    // The console, the stop ports and the hot-plug controller.
    let ports = p.pio_windows();
    for port in [COM1_PORT, 0x64, moruna::devices::legacy::ACPI_PM_PORT + 2] {
        assert!(ports.iter().any(|(base, len)| *base <= port && port < base + len), "{port:#x}");
    }
    assert!(windows.iter().any(|(base, _)| *base == x86::CPU_HOTPLUG_ADDR));
    // Interrupt lines: COM1, one per virtio device, the GED.
    assert_eq!(p.lines(), vec![4, 5, 6, 7, 8, x86::GED_GSI]);
    assert!(p.cmdline.contains("memhp_default_state=online_movable"));
}

#[test]
fn vm_t23_x86_boot_data() {
    let p = plan(Arch::X86_64, 2, 2);
    let mut mem = guest_memory(&p.layout).unwrap();
    let (path, data) = ("/img/initramfs.cpio".to_string(), vec![7u8; 10000]);
    let initrd = p
        .write_boot_data(&mut mem, Some((&path, &data)), 32 * MIB, GicVersion::V3)
        .unwrap()
        .unwrap();
    assert_eq!(initrd.1, 10000);
    assert!(initrd.0 + initrd.1 <= p.layout.low_ram_end());
    let mut sig = [0u8; 8];
    mem.read_slice(&mut sig, GuestAddress(x86::ACPI_ADDR)).unwrap();
    assert_eq!(&sig, b"RSD PTR ");
    let mut c = vec![0u8; p.cmdline.len() + 1];
    mem.read_slice(&mut c, GuestAddress(x86::CMDLINE_ADDR)).unwrap();
    assert_eq!(&c[..p.cmdline.len()], p.cmdline.as_bytes());
    assert_eq!(c[p.cmdline.len()], 0);
    let b: u8 = mem.read_obj(GuestAddress(initrd.0)).unwrap();
    assert_eq!(b, 7);
    // A kernel that leaves no room for the initramfs is refused.
    assert!(p
        .write_boot_data(&mut mem, Some((&path, &data)), 256 * MIB - 100, GicVersion::V3)
        .is_err());
    assert_eq!(p.write_boot_data(&mut mem, None, 32 * MIB, GicVersion::V3).unwrap(), None);
}

#[test]
fn vm_t23_arm_machine_and_device_tree() {
    let p = plan(Arch::Aarch64, 2, 2);
    assert!(p.pio_windows().is_empty());
    assert_eq!(p.mmio_windows()[0], (arm::SERIAL_ADDR, 0x1000));
    assert!(!p.cmdline.contains("virtio_mmio.device"));
    assert!(p.lines().contains(&arm::SERIAL_GSI));
    let mut mem = guest_memory(&p.layout).unwrap();
    p.write_boot_data(&mut mem, None, arm::RAM_START + 32 * MIB, GicVersion::V2).unwrap();
    let magic: u32 = mem.read_obj(GuestAddress(p.layout.fdt_addr())).unwrap();
    assert_eq!(u32::from_be(magic), 0xd00d_feed);

    // aarch64 cannot hot-add vCPUs, so a boot that asks for it is refused up front.
    let r = Plan::new(Arch::Aarch64, &config(1, 2), &facts(), None);
    assert!(matches!(r, Err(VmmError::Config { field: "--cpus-max", .. })));
}

#[test]
fn vm_t23_invalid_config_is_refused_before_anything_is_built() {
    let mut c = config(1, 1);
    c.memory_bytes = 1;
    assert!(Plan::new(Arch::X86_64, &c, &facts(), None).is_err());
}

#[test]
fn vm_t23_load_file_errors_name_the_file() {
    let mut mem = Mem::from_ranges(&[(GuestAddress(0), 4096)]).unwrap();
    assert!(matches!(
        place_file(&mut mem, "big", &vec![1u8; 8192], 0),
        Err(VmmError::Image { path, msg }) if msg.contains("does not fit") && path == "big"
    ));
    assert_eq!(place_file(&mut mem, "ok", &b"abc".to_vec(), 16).unwrap(), 3);
    let mut got = [0u8; 3];
    mem.read_slice(&mut got, GuestAddress(16)).unwrap();
    assert_eq!(&got, b"abc");
    let tiny = Layout {
        arch: Arch::X86_64,
        ram: vec![(0, u64::MAX / 2)],
        hotplug: None,
    };
    assert!(guest_memory(&tiny).is_err());
}

#[derive(Clone, Default)]
struct CountingIrq(Rc<RefCell<u32>>);

impl Irq for CountingIrq {
    fn trigger(&mut self) -> std::io::Result<()> {
        *self.0.borrow_mut() += 1;
        Ok(())
    }
}

impl CountingIrq {
    fn get(&self) -> u32 {
        *self.0.borrow()
    }
}

struct NoBacking;

impl MemBacking for NoBacking {
    fn discard(&self, _mem: &Mem, _gpa: u64, _len: u64) -> Result<()> {
        Ok(())
    }
}

#[test]
fn vm_t24_resize_through_the_controller() {
    let p = plan(Arch::X86_64, 1, 4);
    let mem = Mem::from_ranges(&[(GuestAddress(0), 4096)]).unwrap();
    let (line, ged) = (CountingIrq::default(), CountingIrq::default());
    let (addr, len) = p.layout.hotplug.unwrap();
    let dev = VirtioMem::new(addr, len, NoBacking).unwrap();
    let vmem = MmioTransport::new(dev, mem, Interrupt::new(line.clone())).unwrap();
    let mut c = VmController {
        vmem: Some(vmem),
        hotplug: Some(CpuHotplug::new(1, 4)),
        ged: Some(ged.clone()),
        boot_memory: 256 * MIB,
        memory_max: GIB,
        cpus_boot: 1,
        cpus_max: 4,
        stop: StopSignal::default(),
    };
    let s: Status = c.status();
    assert_eq!(
        (s.memory_bytes, s.memory_plugged_bytes, s.memory_max_bytes),
        (256 * MIB, 256 * MIB, GIB)
    );
    assert_eq!((s.cpus, s.cpus_max, s.stopped), (1, 4, false));

    let s = c.resize_memory(512 * MIB).unwrap();
    assert_eq!(s.memory_bytes, 512 * MIB);
    assert_eq!(c.status().memory_bytes, 512 * MIB);
    // The guest was told: the virtio-mem line was raised.
    assert_eq!(line.get(), 1);
    assert!(
        matches!(c.resize_memory(128 * MIB), Err(VmmError::Control(m)) if m.contains("boot memory"))
    );
    assert!(
        matches!(c.resize_memory(2 * GIB), Err(VmmError::Control(m)) if m.contains("--memory-max"))
    );
    assert!(c.resize_memory(512 * MIB + 4096).is_err());

    let s = c.resize_cpus(3).unwrap();
    assert_eq!(s.cpus, 3);
    assert_eq!(ged.get(), 1, "the GED announced the new vCPUs");
    c.resize_cpus(3).unwrap();
    assert_eq!(ged.get(), 1, "nothing new, no event");
    assert!(c.resize_cpus(5).is_err());

    c.stop();
    assert!(c.status().stopped);
    assert_eq!(c.stop.reason(), Some(StopReason::Killed));
}

#[test]
fn vm_t24_a_fixed_guest_refuses_resize() {
    let mut cfg = config(1, 1);
    cfg.memory_max_bytes = cfg.memory_bytes;
    let p = Plan::new(Arch::Aarch64, &cfg, &facts(), None).unwrap();
    assert!(p.layout.hotplug.is_none());
    let mut c: VmController<NoBacking, CountingIrq> = VmController {
        vmem: None,
        hotplug: None,
        ged: None,
        boot_memory: 256 * MIB,
        memory_max: 256 * MIB,
        cpus_boot: 1,
        cpus_max: 1,
        stop: StopSignal::default(),
    };
    assert!(
        matches!(c.resize_memory(256 * MIB), Err(VmmError::Control(m)) if m.contains("--memory-max equal"))
    );
    assert!(c.resize_cpus(1).is_ok());
    assert!(matches!(c.resize_cpus(2), Err(VmmError::Control(m)) if m.contains("hot-add")));
}

/// What one connection to the status port sends.
fn serve(p: &mut StatusPort, bytes: &[u8]) {
    let mut buf = Vec::new();
    let mut sent = bytes.iter().copied();
    while StatusPort::take(&mut buf, sent.next()) {}
    assert!(buf.len() <= STATUS_LINE_MAX);
    p.record(&buf);
}

#[test]
fn vm_t25_status_port_records_the_first_valid_code() {
    for (line, want) in [
        ("exit 0", Some(0)),
        ("exit 130\n", Some(130)),
        (" exit 4 ", Some(4)),
        ("exit 256", None),
        ("exit -1", None),
        ("quit 1", None),
        ("exit x", None),
    ] {
        assert_eq!(parse_status_line(line), want, "{line}");
    }
    let mut p = StatusPort::default();
    assert_eq!(p.reported(), None);
    serve(&mut p, b"exit 3\n");
    assert_eq!(p.reported(), Some(3));
    // A second report does not overwrite the first; garbage is ignored.
    serve(&mut p, b"exit 9\n");
    serve(&mut p, &[b'e'; 100]);
    assert_eq!(p.reported(), Some(3));
}

#[test]
fn vm_t26_exit_code_rule() {
    assert_eq!(exit_code(&StopReason::PowerOff, Some(0), false), 0);
    assert_eq!(exit_code(&StopReason::PowerOff, Some(4), false), 4);
    assert_eq!(exit_code(&StopReason::Reset, Some(130), false), 130);
    assert_eq!(exit_code(&StopReason::PowerOff, None, false), EXIT_NO_CODE);
    assert_eq!(exit_code(&StopReason::Killed, None, false), EXIT_NO_CODE);
    assert_eq!(exit_code(&StopReason::Reset, Some(0), true), EXIT_GUEST_PANIC);
    assert_eq!(exit_code(&StopReason::Crash, None, false), EXIT_GUEST_PANIC);
    assert_eq!(
        exit_code(&StopReason::MonitorError("x".into()), Some(0), false),
        EXIT_MONITOR
    );
}

#[test]
fn vm_t26_finish_reports_panics_with_the_console() {
    let mut log = ConsoleLog::new();
    for b in b"booting\nKernel panic - not syncing: VFS\n" {
        log.record(&[*b]);
    }
    let e = finish(Some(StopReason::Reset), None, log.panicked());
    assert_eq!(e.code, EXIT_GUEST_PANIC);
    assert!(e.console && e.message.unwrap().contains("guest kernel panic"));
    assert!(String::from_utf8_lossy(&log.tail()).contains("not syncing: VFS"));

    let e = finish(Some(StopReason::PowerOff), None, false);
    assert_eq!(e.code, EXIT_NO_CODE);
    assert!(!e.console && e.message.unwrap().contains("without reporting"));

    let e = finish(Some(StopReason::MonitorError("kvm run: EFAULT".into())), None, false);
    assert_eq!(e.code, EXIT_MONITOR);
    assert!(e.message.unwrap().contains("EFAULT"));

    let e = finish(None, None, false);
    assert_eq!(e.code, EXIT_MONITOR, "no reason recorded is a monitor fault");

    let e = finish(Some(StopReason::PowerOff), Some(0), false);
    assert_eq!((e.code, e.message, e.console), (0, None, false));
}

fn image_bytes(text_offset: u64, image_size: u64) -> Vec<u8> {
    let mut k = vec![0u8; 4096];
    k[8..16].copy_from_slice(&text_offset.to_le_bytes());
    k[16..24].copy_from_slice(&image_size.to_le_bytes());
    k[56..60].copy_from_slice(&0x644d_5241u32.to_le_bytes());
    k[100] = 0xab;
    k
}

#[test]
fn vm_t28_arm64_image_loads_at_its_text_offset() {
    // The file ends at 4096 bytes; the header counts the BSS.
    let image = image_bytes(0, 8 << 20);
    let l = arm_loaded("/img/Image", &image, arm::RAM_START, arm::RAM_START + 4096).unwrap();
    assert_eq!(l.entry, arm::RAM_START);
    assert_eq!(l.kernel_end, arm::RAM_START + (8 << 20), "BSS counted");
    assert!(!l.bzimage);
    let l = arm_loaded(
        "/img/Image",
        &image_bytes(0x1234, 0),
        arm::RAM_START + 0x80000,
        arm::RAM_START + 0x81000,
    )
    .unwrap();
    assert_eq!((l.entry, l.kernel_end), (arm::RAM_START + 0x80000, arm::RAM_START + 0x81000));
}

#[test]
fn arm64_images_without_a_usable_header_are_refused() {
    let e = arm_loaded("/img/Image", &vec![0; 23], 0, 23).unwrap_err().to_string();
    assert!(e.contains("/img/Image") && e.contains("failed to fill whole buffer"), "{e}");
    let e = arm_loaded("/img/Image", &image_bytes(0, u64::MAX), 1, 4096).unwrap_err().to_string();
    assert!(e.contains("not a loadable kernel: its size overflows"), "{e}");
}

#[test]
fn vm_t28_bad_kernels_are_refused_naming_the_file() {
    match bad_kernel("/img/Image", "no magic") {
        VmmError::Image { path, msg } => {
            assert!(path.ends_with("Image") && msg.contains("not a loadable kernel: no magic"));
        }
        other => panic!("{other:?}"),
    }
    let mem = Mem::from_ranges(&[(GuestAddress(0), 64 << 20)]).unwrap();
    for image in [b"not a kernel".to_vec(), vec![1, 2, 3], Vec::new(), vec![0; 8192]] {
        match load_kernel(&mem, "/img/vmlinux", &image) {
            Err(VmmError::Image { path, msg }) => {
                assert_eq!(path, "/img/vmlinux");
                assert!(msg.contains("not a loadable kernel: Kernel Loader"), "{msg}");
            }
            other => panic!("{other:?}"),
        }
    }
}

/// An ELF file with one segment of `code` at `at`, which takes `memory` bytes.
fn elf(at: u64, code: &[u8], memory: u64) -> Vec<u8> {
    let mut f = vec![0u8; 64 + 56];
    f[..6].copy_from_slice(&[0x7f, b'E', b'L', b'F', 2, 1]);
    f[24..32].copy_from_slice(&at.to_le_bytes());
    f[32..40].copy_from_slice(&64u64.to_le_bytes());
    f[54..56].copy_from_slice(&56u16.to_le_bytes());
    f[56..58].copy_from_slice(&1u16.to_le_bytes());
    f[64..68].copy_from_slice(&1u32.to_le_bytes());
    f[72..80].copy_from_slice(&120u64.to_le_bytes());
    f[88..96].copy_from_slice(&at.to_le_bytes());
    f[96..104].copy_from_slice(&(code.len() as u64).to_le_bytes());
    f[104..112].copy_from_slice(&memory.to_le_bytes());
    f.extend_from_slice(code);
    f
}

/// A bzImage whose one sector of code goes to `at`.
fn bzimage(at: u32) -> Vec<u8> {
    let mut f = vec![0u8; 1024 + 512];
    f[0x1f1] = 1;
    f[0x202..0x206].copy_from_slice(b"HdrS");
    f[0x206..0x208].copy_from_slice(&0x20cu16.to_le_bytes());
    f[0x211] = 1;
    f[0x214..0x218].copy_from_slice(&at.to_le_bytes());
    f[1024] = 0xcd;
    f
}

#[test]
fn kernels_are_loaded_by_their_form() {
    let mem = Mem::from_ranges(&[(GuestAddress(0), 64 << 20)]).unwrap();
    let l = load_kernel(&mem, "k", &elf(0x20_0000, &[0xab; 32], 0x5000)).unwrap();
    assert_eq!(
        l,
        Loaded {
            entry: 0x20_0000,
            kernel_end: 0x20_5000,
            bzimage: false
        }
    );
    let b: u8 = mem.read_obj(GuestAddress(0x20_0000)).unwrap();
    assert_eq!(b, 0xab);

    let l = load_kernel(&mem, "k", &bzimage(0x30_0000)).unwrap();
    assert_eq!(
        l,
        Loaded {
            entry: 0x30_0200,
            kernel_end: 0x30_0200,
            bzimage: true
        }
    );
    let b: u8 = mem.read_obj(GuestAddress(0x30_0000)).unwrap();
    assert_eq!(b, 0xcd);

    // Below the boot data, and past the memory.
    assert!(load_kernel(&mem, "k", &elf(0x1000, &[1; 8], 8)).is_err());
    assert!(load_kernel(&mem, "k", &bzimage(0x1000)).is_err());
    assert!(load_kernel(&mem, "k", &elf(64 << 20, &[1; 8], 8)).is_err());
    assert_eq!(x86_kernel(1, 2, false).entry, 1);
    assert_eq!(x86_kernel(1, 2, true).entry, 0x201);
}

#[test]
fn vm_t28_zero_page_fields() {
    let layout = Layout::new(Arch::X86_64, 256 << 20, 0).unwrap();
    let mut mem = guest_memory(&layout).unwrap();
    write_zero_page(&mut mem, &layout, None, 20, Some((0x300_0000, 0x1000))).unwrap();
    let p: boot_params = mem.read_obj(GuestAddress(x86::ZERO_PAGE_ADDR)).unwrap();
    let hdr = p.hdr;
    assert_eq!({ hdr.boot_flag }, 0xaa55);
    assert_eq!({ hdr.cmd_line_ptr }, x86::CMDLINE_ADDR as u32);
    assert_eq!({ hdr.ramdisk_image }, 0x300_0000);
    assert_eq!({ hdr.ramdisk_size }, 0x1000);
    assert_eq!({ hdr.cmdline_size }, 21);
    assert_eq!({ hdr.header }, 0x5372_6448);
    assert_eq!({ hdr.type_of_loader }, 0xff);
    assert_eq!({ hdr.kernel_alignment }, 0x100_0000);
    assert_eq!(p.e820_entries, 2);
    let map = moruna::boot::e820(&layout);
    for (i, (addr, size, kind)) in map.iter().enumerate() {
        let e = p.e820_table[i];
        assert_eq!(({ e.addr }, { e.size }), (*addr, *size));
        let at = x86::ZERO_PAGE_ADDR + 0x2d0 + 20 * i as u64 + 16;
        let word: u32 = mem.read_obj(GuestAddress(at)).unwrap();
        assert_eq!(word, *kind);
    }

    // The header a bzImage brings is kept but for what is set.
    let image = bzimage(0x30_0000);
    let header = image[SETUP_HEADER..SETUP_HEADER + SETUP_HEADER_BYTES].to_vec();
    let loaded = x86_kernel(0x20_0000, 0x30_0000, true);
    assert_eq!(setup_header("k", &image, &loaded).unwrap(), Some(header.clone()));
    assert_eq!(setup_header("k", &image, &x86_kernel(1, 2, false)).unwrap(), None);
    let short = image[..SETUP_HEADER + 5].to_vec();
    assert_eq!(
        setup_header("k", &short, &loaded).unwrap_err().to_string(),
        "image k: not a loadable kernel: failed to fill whole buffer"
    );
    write_zero_page(&mut mem, &layout, Some(&header), 0, None).unwrap();
    let p: boot_params = mem.read_obj(GuestAddress(x86::ZERO_PAGE_ADDR)).unwrap();
    let hdr = p.hdr;
    assert_eq!({ hdr.code32_start }, 0x30_0000);
    assert_eq!({ hdr.version }, 0x20c);
    assert_eq!({ hdr.ramdisk_image }, 0);

    let mut small = Mem::from_ranges(&[(GuestAddress(0), 4096)]).unwrap();
    let e = write_zero_page(&mut small, &layout, None, 0, None).unwrap_err();
    assert!(matches!(e, VmmError::Device { device: "boot", msg } if msg.starts_with("zero page: ")));
}

/// Files by path, in place of a disk.
struct Store(BTreeMap<String, Vec<u8>>);

impl Store {
    fn put(&mut self, dir: &str, media_type: &str, bytes: &[u8]) -> Descriptor {
        let mut h = FileHash::new();
        h.update(bytes);
        let digest = h.finish();
        self.0.insert(blob_path(dir, &digest).unwrap(), bytes.to_vec());
        Descriptor {
            media_type: media_type.to_string(),
            digest,
            size: bytes.len() as u64,
            platform: None,
        }
    }

    fn fact(&self, dir: &str, d: &Descriptor) -> BlobFact {
        match self.0.get(&blob_path(dir, &d.digest).unwrap()) {
            None => BlobFact::Missing("No such file".to_string()),
            Some(b) => {
                let mut h = FileHash::new();
                for piece in b.chunks(5) {
                    h.update(piece);
                }
                BlobFact::Found(b.len() as u64, Some(h.finish()))
            }
        }
    }
}

fn layout_of(store: &mut Store, dir: &str, layers: &[(&str, &[u8])]) -> Manifest {
    Manifest {
        artifact_type: Some(ARTIFACT_TYPE.to_string()),
        layers: layers.iter().map(|(mt, b)| store.put(dir, mt, b)).collect(),
    }
}

fn resolved(store: &Store, dir: &str, m: &Manifest) -> Result<GuestImage> {
    let facts = m.layers.iter().map(|d| store.fact(dir, d)).collect();
    resolve_oci(dir, "/oci/manifest", m, &facts, "sha256:feed")
}

fn image_err<T: std::fmt::Debug>(r: Result<T>) -> String {
    match r {
        Err(VmmError::Image { msg, .. }) => msg,
        other => panic!("expected an image error, got {other:?}"),
    }
}

#[test]
fn vm_t4_directory_image() {
    for arch in [Arch::X86_64, Arch::Aarch64] {
        let none = || DirFacts {
            kernels: vec![false; kernel_names(arch).len()],
            initramfs: vec![false; initramfs_names().len()],
            rootfs: vec![false; rootfs_names().len()],
        };
        assert!(image_err(resolve_dir(arch, "/img", &none())).contains("no kernel"));
        let mut f = none();
        f.kernels[0] = true;
        let img = resolve_dir(arch, "/img", &f).unwrap();
        assert_eq!(img.kernel, format!("/img/{}", kernel_names(arch)[0]));
        assert_eq!((img.initramfs.clone(), img.rootfs.clone()), (None, None));
        let at = |names: Vec<&str>, want: &str| names.iter().position(|n| *n == want).unwrap();
        f.initramfs[at(initramfs_names(), "initramfs.cpio")] = true;
        f.rootfs[at(rootfs_names(), "rootfs.erofs")] = true;
        let img = resolve_dir(arch, "/img", &f).unwrap();
        assert_eq!(img.initramfs, Some("/img/initramfs.cpio".to_string()));
        assert_eq!(img.rootfs, Some("/img/rootfs.erofs".to_string()));
        assert!(img.digest.is_none());
    }
    assert!(image_err(form_of("/absent", false, false)).contains("not a directory"));
    assert_eq!(form_of("/img", true, false).unwrap(), Form::Directory);
    assert_eq!(form_of("/img", true, true).unwrap(), Form::Oci);
}

#[test]
fn vm_t4_oci_layout_resolves_and_verifies() {
    let mut store = Store(BTreeMap::new());
    let m = layout_of(
        &mut store,
        "/oci",
        &[
            (MEDIA_KERNEL, b"kernel-bytes"),
            (MEDIA_INITRAMFS, b"initramfs-bytes"),
            (MEDIA_ROOTFS, b"rootfs-bytes"),
        ],
    );
    let img = resolved(&store, "/oci", &m).unwrap();
    assert_eq!(store.0[&img.kernel], b"kernel-bytes");
    assert_eq!(store.0[img.initramfs.as_ref().unwrap()], b"initramfs-bytes");
    assert_eq!(store.0[img.rootfs.as_ref().unwrap()], b"rootfs-bytes");
    assert!(img.digest.as_ref().unwrap().starts_with("sha256:"));

    // A tampered kernel blob of the same size is refused by digest.
    store.0.insert(img.kernel.clone(), b"KERNEL-BYTES".to_vec());
    assert!(image_err(resolved(&store, "/oci", &m)).contains("digest"));
    // A truncated one by size.
    store.0.insert(img.kernel.clone(), b"k".to_vec());
    assert!(image_err(resolved(&store, "/oci", &m)).contains("size"));
    store.0.remove(&img.kernel);
    assert!(image_err(resolved(&store, "/oci", &m)).contains("No such file"));
}

#[test]
fn vm_t4_oci_layout_refusals() {
    let entry = |arch: &str| Descriptor {
        media_type: "m".to_string(),
        digest: "sha256:00".to_string(),
        size: 1,
        platform: Some(Platform {
            architecture: arch.to_string(),
            os: "linux".to_string(),
        }),
    };
    let (here, other) = (oci_arch(Arch::X86_64), oci_arch(Arch::Aarch64));
    assert_eq!((here, other), ("amd64", "arm64"));
    let choose = |v: Vec<Descriptor>| choose_manifest("/oci", &v, Arch::X86_64);
    assert!(image_err(choose(vec![entry(other)])).contains("no manifest for linux"));
    // Two manifests for this platform are ambiguous.
    assert!(image_err(choose(vec![entry(here), entry(here)])).contains("several manifests"));
    assert_eq!(choose(vec![entry(other), entry(here)]).unwrap(), 1);
    let mut any = entry(other);
    any.platform = None;
    assert_eq!(choose(vec![any]).unwrap(), 0);

    let mut store = Store(BTreeMap::new());
    let mut refused = |layers: &[(&str, &[u8])]| {
        let m = layout_of(&mut store, "/oci", layers);
        image_err(resolved(&store, "/oci", &m))
    };
    assert!(refused(&[(MEDIA_INITRAMFS, b"i")]).contains("no kernel layer"));
    assert!(refused(&[(MEDIA_KERNEL, b"k"), (MEDIA_KERNEL, b"k2")]).contains("two layers"));
    assert!(refused(&[("application/x-net-config", b"n")]).contains("unknown layer type"));

    // A manifest that is not a Moruna guest.
    let bare = Manifest {
        artifact_type: None,
        layers: Vec::new(),
    };
    assert!(image_err(resolved(&store, "/oci", &bare)).contains("artifactType None is not"));
    let wrong = Manifest {
        artifact_type: Some("x".to_string()),
        layers: Vec::new(),
    };
    assert!(image_err(resolved(&store, "/oci", &wrong)).contains("artifactType Some(\"x\")"));

    // Malformed digests.
    assert!(image_err(blob_path("/oci", "md5:00")).contains("not sha256"));
    assert!(image_err(blob_path("/oci", "sha256:XYZ")).contains("malformed"));
}

#[test]
fn vm_t4_large_blobs_are_checked_by_size_only() {
    // A descriptor claiming a size above the hashing limit is only size-checked.
    let d = Descriptor {
        media_type: MEDIA_ROOTFS.into(),
        digest: format!("sha256:{}", "0".repeat(64)),
        size: VERIFY_MAX_BYTES + 1,
        platform: None,
    };
    let target = blob_path("/oci", &d.digest).unwrap();
    let found = BlobFact::Found(VERIFY_MAX_BYTES + 1, None);
    assert_eq!(verify_blob("/oci", &d, &found).unwrap(), target);
}

#[test]
fn digests_are_those_of_sha256() {
    let mut h = FileHash::new();
    h.update(b"ab");
    h.update(b"c");
    assert_eq!(
        h.finish(),
        "sha256:ba7816bf8f01cfea414140de5dae2223b00361a396177a9cb410ff61f20015ad"
    );
    assert_eq!(hex(&[0, 0x0f, 0xa0]), "000fa0");
}

#[test]
fn vm_t29_spec_and_budget_are_checked_first() {
    let budget = Budget {
        memory_bytes: 512 * MIB,
        memory_max_bytes: 1024 * MIB,
        cpus: 1,
        cpus_max: 2,
    };
    let e = read_spec("bad", &b"not json".to_vec()).unwrap_err();
    assert!(e.to_string().contains("config spec"), "{e:?}");
    let e = unreadable_spec("/nonexistent/spec", "No such file");
    assert!(e.to_string().contains("config spec: /nonexistent/spec: No such file"), "{e:?}");
    assert_eq!(
        read_spec("s", &b"{\"moruna_spec\": 1}".to_vec()).unwrap(),
        "{\"moruna_spec\":1}"
    );
    let ok = run_config("/img".to_string(), Vec::new(), budget, 9, "/tmp");
    let no_disks = HostFacts {
        disks: Vec::new(),
        uds_dir_exists: true,
        control_dir_exists: true,
    };
    assert!(ok.validate(&no_disks).is_ok());
    assert_eq!((ok.memory_max_bytes, ok.cpus_max, ok.vsock.cid), (1024 * MIB, 2, 9));
    let small = Budget {
        memory_bytes: MIB,
        ..budget
    };
    let c = run_config("/img".to_string(), Vec::new(), small, 9, "/tmp");
    let e = c.validate(&no_disks).unwrap_err();
    assert!(e.to_string().contains("--memory"), "{e:?}");
    assert_eq!(
        spec_message("{\"a\":1}"),
        b"{\"spec\":{\"a\":1},\"type\":\"spec\"}\n".to_vec()
    );
    assert!(default_cid(1) > 2);
}

#[test]
fn vm_t29_connect_gives_up_when_the_vm_is_gone() {
    let e = give_up("/absent.sock", 5000, false, false).unwrap();
    assert!(e.to_string().contains("did not start listening"));
    let e = give_up("/absent.sock", 5000, true, true).unwrap();
    assert!(matches!(e, VmmError::Io { .. }));
    assert!(give_up("/absent.sock", 5000, false, true).is_none());
    // A reply that is not OK is a refusal.
    assert_eq!(connect_line(5000), "CONNECT 5000\n");
    assert!(!connected("NO\n"));
    assert!(connected("OK 1073741824\n"));
    let st = ExitStatus::new(4, Some(2));
    assert_eq!(
        st,
        ExitStatus {
            code: 4,
            messages: 2
        }
    );
    assert!(!st.success());
    assert_eq!(ExitStatus::new(EXIT_NO_CODE, None).messages, 0);
    assert_eq!(VmmError::NoKvm("absent".into()).exit_code(), EXIT_CONFIG);
}

#[test]
fn the_host_is_checked_and_vcpus_are_counted() {
    assert!(check_host(12, true, true).is_ok());
    for (v, irqfd, memory) in [(11, true, true), (12, false, true), (12, true, false)] {
        assert!(matches!(check_host(v, irqfd, memory), Err(VmmError::NoKvm(_))));
    }
    assert_eq!(vcpu_count(Arch::X86_64, &config(1, 4), 8).unwrap(), 4);
    assert_eq!(vcpu_count(Arch::Aarch64, &config(1, 4), 8).unwrap(), 1);
    assert!(vcpu_count(Arch::X86_64, &config(1, 4), 3).is_err());
}

#[test]
fn vcpu_events_stop_the_machine() {
    assert_eq!(stop_reason(&VcpuEvent::Shutdown), Some(StopReason::Reset));
    for (kind, want) in [
        (1, Some(StopReason::PowerOff)),
        (2, Some(StopReason::Reset)),
        (3, Some(StopReason::Crash)),
    ] {
        assert_eq!(stop_reason(&VcpuEvent::SystemEvent(kind)), want, "{kind}");
    }
}

#[test]
fn vcpu_state_is_set_for_the_boot() {
    let slots = memory_slots(&vec![(0, 3 * GIB), (4 * GIB, GIB)]);
    assert_eq!(
        slots.iter().map(|s| (s.slot, s.guest_addr, s.size)).collect::<Vec<_>>(),
        vec![(0, 0, 3 * GIB), (1, 4 * GIB, GIB)]
    );
    let leaf = CpuidLeaf {
        function: 1,
        index: 0,
        regs: [1, 0, 0, 0],
    };
    let got = cpuid_for(&vec![leaf], 3, 4);
    assert_eq!(got.len(), 1);
    assert_eq!(got[0].regs[1] >> 24, 3, "the APIC id is the vCPU's number");
    assert!(check_msrs(5, 5).is_ok() && check_msrs(4, 5).is_err());
    let s = boot_special_regs(0, 0, 0);
    assert_ne!(s.cr0 & 1, 0, "protected mode");
    assert_ne!(s.cr0 & (1 << 31), 0, "paging");
    assert_ne!(s.cr4 & (1 << 5), 0, "physical address extension");
    assert_ne!(s.efer & (1 << 8), 0, "long mode");
    assert_eq!(gic_attrs(GicVersion::V2).len(), gic_attrs(GicVersion::V3).len());
    assert_eq!(arm_features(0, 0) & 1, 0, "the first vCPU is on");
    assert_eq!(arm_features(0, 1) & 1, 1, "the others wait");
    let regs = arm_boot_regs(0x8000_0000, 0x9000_0000);
    assert!(regs.iter().any(|(_, v)| *v == 0x8000_0000));
    assert!(regs.iter().any(|(_, v)| *v == 0x9000_0000));
}

#[test]
fn boot_data_do_not_overlap() {
    let mut pieces: Vec<(u64, u64)> = boot_words().iter().map(|(at, _)| (*at, at + 8)).collect();
    for (at, bytes) in tables(64, 64).unwrap() {
        pieces.push((at, at + bytes.len() as u64));
    }
    pieces.push((x86::CMDLINE_ADDR, x86::CMDLINE_ADDR + 4096));
    pieces.push((x86::ZERO_PAGE_ADDR, x86::ZERO_PAGE_ADDR + 4096));
    pieces.sort_unstable();
    assert!(pieces.windows(2).all(|w| w[0].1 <= w[1].0));
    assert!(pieces.iter().all(|p| p.1 <= x86::KERNEL_ADDR));
}
