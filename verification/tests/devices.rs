//! The bus, the stop latch, the legacy ports, CPU hot-plug, the console log and vsock packets.

use moruna::devices::mem::{check_one_mapping, discard_last};
use moruna::devices::cpu_hotplug::{CpuHotplug, CINS, CPEN, CSEL, STAT};
use moruna::devices::legacy::{
    AcpiPm, I8042, I8042_RESET_CMD, RESET_REGISTER, RESET_VALUE, S5_TYPE, SLEEP_CONTROL,
    SLEEP_STATUS, SLP_EN,
};
use moruna::devices::serial::{uart_register, ConsoleLog, LINE_MAX, LOG_BYTES};
use moruna::devices::virtio;
use moruna::devices::vsock::packet::{op, Header, HDR_BYTES, SHUTDOWN_SEND, TYPE_STREAM};
use moruna::devices::{Bus, Device, DeviceKind, StopReason, StopSignal};
use moruna::error::VmmError;

struct Echo {
    last: Vec<(u64, Vec<u8>)>,
}

impl Device for Echo {
    fn name(&self) -> &'static str {
        "echo"
    }
    fn read(&mut self, offset: u64, data: &mut [u8]) {
        data.fill(offset as u8);
    }
    fn write(&mut self, offset: u64, data: &[u8]) {
        self.last.push((offset, data.to_vec()));
    }
}

fn echo() -> Echo {
    Echo { last: vec![] }
}

#[test]
fn vm_t31_bus_routes_and_refuses_overlaps() {
    let mut bus: Bus<Echo> = Bus::default();
    assert!(bus.is_empty());
    bus.insert(0x1000, 0x100, echo()).unwrap();
    bus.insert(0x1100, 0x100, echo()).unwrap();
    assert!(bus.insert(0x10ff, 2, echo()).is_err());
    assert!(bus.insert(0x0f00, 0x101, echo()).is_err());
    assert!(bus.insert(0x1050, 1, echo()).is_err());
    assert!(bus.insert(0x2000, 0, echo()).is_err());
    assert!(bus.insert(u64::MAX, 2, echo()).is_err());
    assert_eq!(bus.len(), 2);

    let mut d = [0u8; 2];
    assert!(bus.read(0x1004, &mut d));
    assert_eq!(d, [4, 4]);
    assert!(bus.write(0x1101, &[9]));
    assert_eq!(bus.find(0x1100).unwrap().0.last, vec![(1, vec![9])]);
    assert!(!bus.read(0x1200, &mut d));
    assert_eq!(d, [0xff, 0xff]);
    assert!(!bus.write(0x0fff, &[1]));
    assert!(bus.find(0x10ff).is_some());
    assert!(bus.find(0x1200).is_none());
    assert_eq!(bus.find(0x1000).unwrap().0.name(), "echo");
}

#[test]
fn vm_t31_stop_signal_keeps_the_first_reason() {
    let mut s = StopSignal::default();
    assert!(!s.is_stopped());
    assert_eq!(s.reason(), None);
    assert!(s.request(StopReason::PowerOff));
    assert!(!s.request(StopReason::Reset));
    assert!(s.is_stopped());
    assert_eq!(s.reason(), Some(StopReason::PowerOff));
}

#[test]
fn vm_t2_no_network_device_kind() {
    for k in DeviceKind::ALL {
        let name = format!("{k:?}").to_ascii_lowercase();
        assert!(!name.contains("net") && !name.contains("nic"), "{name}");
        assert_ne!(
            k.virtio_id(),
            Some(virtio_bindings::virtio_ids::VIRTIO_ID_NET)
        );
    }
    let ids: Vec<u32> = DeviceKind::ALL
        .iter()
        .filter_map(|k| k.virtio_id())
        .collect();
    assert_eq!(
        ids,
        vec![virtio::ID_BLOCK, virtio::ID_VSOCK, virtio::ID_MEM]
    );
    assert_eq!(
        ids,
        vec![
            virtio_bindings::virtio_ids::VIRTIO_ID_BLOCK,
            virtio_bindings::virtio_ids::VIRTIO_ID_VSOCK,
            virtio_bindings::virtio_ids::VIRTIO_ID_MEM
        ]
    );
    assert_eq!(
        virtio::F_VERSION_1,
        1 << virtio_bindings::virtio_config::VIRTIO_F_VERSION_1
    );
}

#[test]
fn vm_t31_i8042_reset_stops_the_run() {
    let mut k = I8042::new(StopSignal::default());
    let mut b = [9u8];
    k.read(4, &mut b);
    assert_eq!(b, [0]);
    k.write(0, &[I8042_RESET_CMD]);
    k.write(4, &[0xaa]);
    assert!(!k.stop().is_stopped());
    k.write(4, &[I8042_RESET_CMD]);
    assert_eq!(k.stop().reason(), Some(StopReason::Reset));
    assert_eq!(k.name(), "i8042");
}

#[test]
fn vm_t31_acpi_sleep_and_reset() {
    let mut pm = AcpiPm::new(StopSignal::default());
    let mut b = [9u8];
    pm.read(SLEEP_STATUS, &mut b);
    assert_eq!(b, [0]);
    // S5 without SLP_EN, S3 with it, and a wide write are not a power-off.
    pm.write(SLEEP_CONTROL, &[S5_TYPE << 2]);
    pm.write(SLEEP_CONTROL, &[(3 << 2) | SLP_EN]);
    pm.write(SLEEP_CONTROL, &[(S5_TYPE << 2) | SLP_EN, 0]);
    pm.write(RESET_REGISTER, &[0x02]);
    assert!(!pm.stop().is_stopped());
    pm.write(SLEEP_CONTROL, &[(S5_TYPE << 2) | SLP_EN]);
    assert_eq!(pm.stop().reason(), Some(StopReason::PowerOff));

    let mut pm = AcpiPm::new(StopSignal::default());
    pm.write(RESET_REGISTER, &[RESET_VALUE]);
    assert_eq!(pm.stop().reason(), Some(StopReason::Reset));
    assert_eq!(pm.name(), "acpi-pm");
}

fn stat(c: &mut CpuHotplug, id: u32) -> u8 {
    c.write(CSEL, &id.to_le_bytes());
    let mut b = [0u8];
    c.read(STAT, &mut b);
    b[0]
}

#[test]
fn vm_t17_boot_cpus_are_enabled_the_rest_absent() {
    let mut c = CpuHotplug::new(2, 4);
    assert_eq!((c.enabled(), c.max()), (2, 4));
    assert_eq!(stat(&mut c, 0), CPEN);
    assert_eq!(stat(&mut c, 1), CPEN);
    assert_eq!(stat(&mut c, 2), 0);
    assert_eq!(stat(&mut c, 99), 0);
    let mut sel = [0u8; 4];
    c.read(CSEL, &mut sel);
    assert_eq!(u32::from_le_bytes(sel), 99);
    c.read(CSEL, &mut sel[..2]);
    assert_eq!(&sel[..2], &[0, 0]);
    assert_eq!(c.name(), "cpu-hotplug");
}

#[test]
fn vm_t17_hot_add_marks_inserting_until_the_guest_clears_it() {
    let mut c = CpuHotplug::new(1, 4);
    assert_eq!(c.grow_to(3).unwrap(), vec![1, 2]);
    assert_eq!(stat(&mut c, 1), CPEN | CINS);
    assert_eq!(stat(&mut c, 2), CPEN | CINS);
    // The guest's CSCN clears CINS for the selected CPU only.
    c.write(CSEL, &1u32.to_le_bytes());
    c.write(STAT, &[CINS]);
    assert_eq!(stat(&mut c, 1), CPEN);
    assert_eq!(stat(&mut c, 2), CPEN | CINS);
    // Writes that do not clear, or narrow CSEL writes, change nothing.
    c.write(STAT, &[CPEN]);
    c.write(CSEL, &[3]);
    assert_eq!(stat(&mut c, 2), CPEN | CINS);
    c.write(CSEL, &50u32.to_le_bytes());
    c.write(STAT, &[CINS]);
    // Same count again adds nothing; beyond max or below current is refused.
    assert!(c.grow_to(3).unwrap().is_empty());
    assert!(matches!(c.grow_to(5), Err(VmmError::Control(m)) if m.contains("--cpus-max")));
    assert!(matches!(c.grow_to(2), Err(VmmError::Control(m)) if m.contains("removal")));
    assert_eq!(c.enabled(), 3);
}

#[test]
fn vm_t15_panic_is_detected_and_the_log_is_bounded() {
    let mut log = ConsoleLog::new();
    log.record(&vec![b'a'; LOG_BYTES + 100]);
    assert_eq!(log.tail().len(), LOG_BYTES);
    assert!(!log.panicked());
    // Split across writes and not yet terminated.
    log.record(b"\n[ 1.0] Kernel pa");
    assert!(!log.panicked());
    log.record(b"nic - not syncing: Attempted to kill init");
    assert!(log.panicked());
    assert!(String::from_utf8_lossy(&log.tail()).ends_with("kill init"));
    // Lines are bounded; ordinary output is not a panic.
    let mut log = ConsoleLog::new();
    log.record(&vec![b'x'; LINE_MAX * 2 + 3]);
    log.record(b"\nok\n");
    assert!(!log.panicked());
}

#[test]
fn panics_are_reported_where_they_were_printed() {
    let mut log = ConsoleLog::new();
    // The marker broken by a newline is not the marker.
    log.record(b"Kernel panic\n - not syncing\n");
    assert!(!log.panicked());
    for b in b"x Kernel panic - not syncin" {
        log.record(&[*b]);
        assert!(!log.panicked());
    }
    log.record(b"g");
    assert!(log.panicked());
    // A marker that a line too long cuts in two goes unseen.
    let mut log = ConsoleLog::new();
    let mut line = vec![b'x'; LINE_MAX - 3];
    line.extend_from_slice(b"Kernel panic - not syncing");
    log.record(&line);
    assert!(!log.panicked());
}

#[test]
fn only_byte_accesses_inside_the_window_reach_the_uart() {
    assert_eq!(uart_register(5, 1), Some(5));
    assert_eq!(uart_register(8, 1), None);
    assert_eq!(uart_register(300, 1), None);
    assert_eq!(uart_register(0, 2), None);
}

#[test]
fn vm_t10_header_round_trip_and_layout() {
    let h = Header {
        src_cid: 3,
        dst_cid: 2,
        src_port: 1025,
        dst_port: 5000,
        len: 17,
        type_: TYPE_STREAM,
        op: op::RW,
        flags: SHUTDOWN_SEND,
        buf_alloc: 262_144,
        fwd_cnt: 99,
    };
    let b = h.encode();
    assert_eq!(Header::decode(&b), h);
    // Field offsets, byte-exact against the specification's struct.
    assert_eq!(&b[0..8], &3u64.to_le_bytes());
    assert_eq!(&b[16..20], &1025u32.to_le_bytes());
    assert_eq!(&b[24..28], &17u32.to_le_bytes());
    assert_eq!(&b[30..32], &op::RW.to_le_bytes());
    assert_eq!(&b[40..44], &99u32.to_le_bytes());
    assert_eq!(Header::decode(&[0; HDR_BYTES]), Header::default());
}

#[test]
fn discards_lie_in_one_mapping() {
    assert_eq!(discard_last(0x1000, 0x1000).unwrap_or_else(|_| panic!()), 0x1fff);
    assert_eq!(discard_last(7, 0).unwrap_or_else(|_| panic!()), 7);
    let e = discard_last(u64::MAX - 10, 100).err().unwrap_or_else(|| panic!());
    assert_eq!(e.to_string(), "device virtio-mem: discard range overflows");
    assert!(check_one_mapping(0x7000, 0x7fff, 0x1000).is_ok());
    assert!(check_one_mapping(0x7000, 0x8fff, 0x1000).is_err());
    assert!(check_one_mapping(0x9000, 0x7fff, 0x1000).is_err());
}
