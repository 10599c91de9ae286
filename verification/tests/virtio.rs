//! The virtio devices driven through their registers and virtqueues, as a guest driver does.

use std::cell::RefCell;
use std::rc::Rc;

use moruna::devices::mem::{
    req, resp, state, MemBacking, VirtioMem, BLOCK_BYTES, REQ_BYTES, RESP_BYTES,
};
use moruna::devices::mmio::{regs, MmioTransport, MAGIC_VALUE, VENDOR};
use moruna::devices::queue::Mem;
use moruna::devices::virtio::{
    int_status, read_config_bytes, status, Interrupt, VirtioDevice, F_VERSION_1, ID_BLOCK,
    ID_MEM, ID_VSOCK,
};
use moruna::devices::{block, Device, Irq};
use moruna::error::{Result, VmmError};
use moruna::{kvm, sys};
use virtio_bindings::{virtio_blk as vb, virtio_config as vc, virtio_ids as vi};
use virtio_queue::{Queue, QueueT};
use vm_memory::{Bytes, GuestAddress};

fn guest_memory(size: usize) -> Mem {
    Mem::from_ranges(&[(GuestAddress(0), size)]).unwrap()
}

#[derive(Clone, Default)]
struct CountingIrq(Rc<RefCell<u32>>);

impl Irq for CountingIrq {
    fn trigger(&mut self) -> std::io::Result<()> {
        *self.0.borrow_mut() += 1;
        Ok(())
    }
}

impl CountingIrq {
    fn get(&self) -> u32 {
        *self.0.borrow()
    }
}

fn rd<D: Device>(dev: &mut D, off: u64) -> u32 {
    let mut b = [0u8; 4];
    dev.read(off, &mut b);
    u32::from_le_bytes(b)
}

fn wr<D: Device>(dev: &mut D, off: u64, v: u32) {
    dev.write(off, &v.to_le_bytes());
}

const F_NEXT: u16 = 1;
const F_WRITE: u16 = 2;

struct DriverQueue {
    size: u16,
    desc: u64,
    avail: u64,
    used: u64,
    next_desc: u16,
    avail_idx: u16,
    used_seen: u16,
}

impl DriverQueue {
    fn new(base: u64, size: u16) -> Self {
        let desc = base;
        let avail = desc + 16 * size as u64;
        let used = (avail + 6 + 2 * size as u64 + 3) & !3;
        DriverQueue {
            size,
            desc,
            avail,
            used,
            next_desc: 0,
            avail_idx: 0,
            used_seen: 0,
        }
    }

    fn attach<D: Device>(&self, dev: &mut D, index: u32) {
        wr(dev, regs::QUEUE_SEL, index);
        wr(dev, regs::QUEUE_NUM, self.size as u32);
        wr(dev, regs::QUEUE_DESC_LOW, self.desc as u32);
        wr(dev, regs::QUEUE_DESC_HIGH, (self.desc >> 32) as u32);
        wr(dev, regs::QUEUE_DRIVER_LOW, self.avail as u32);
        wr(dev, regs::QUEUE_DRIVER_HIGH, (self.avail >> 32) as u32);
        wr(dev, regs::QUEUE_DEVICE_LOW, self.used as u32);
        wr(dev, regs::QUEUE_DEVICE_HIGH, (self.used >> 32) as u32);
        wr(dev, regs::QUEUE_READY, 1);
    }

    fn add(&mut self, mem: &Mem, bufs: &[(u64, u32, bool)]) -> u16 {
        let head = self.next_desc;
        for (i, (addr, len, w)) in bufs.iter().enumerate() {
            let idx = (self.next_desc + i as u16) % self.size;
            let mut flags = if *w { F_WRITE } else { 0 };
            let next = (idx + 1) % self.size;
            if i + 1 < bufs.len() {
                flags |= F_NEXT;
            }
            let at = self.desc + 16 * idx as u64;
            mem.write_obj(*addr, GuestAddress(at)).unwrap();
            mem.write_obj(*len, GuestAddress(at + 8)).unwrap();
            mem.write_obj(flags, GuestAddress(at + 12)).unwrap();
            mem.write_obj(next, GuestAddress(at + 14)).unwrap();
        }
        self.next_desc = (self.next_desc + bufs.len() as u16) % self.size;
        let slot = self.avail + 4 + 2 * (self.avail_idx % self.size) as u64;
        mem.write_obj(head, GuestAddress(slot)).unwrap();
        self.avail_idx = self.avail_idx.wrapping_add(1);
        mem.write_obj(self.avail_idx, GuestAddress(self.avail + 2))
            .unwrap();
        head
    }

    fn used(&mut self, mem: &Mem) -> Vec<(u32, u32)> {
        let idx: u16 = mem.read_obj(GuestAddress(self.used + 2)).unwrap();
        let mut out = Vec::new();
        while self.used_seen != idx {
            let at = self.used + 4 + 8 * (self.used_seen % self.size) as u64;
            let id: u32 = mem.read_obj(GuestAddress(at)).unwrap();
            let len: u32 = mem.read_obj(GuestAddress(at + 4)).unwrap();
            out.push((id, len));
            self.used_seen = self.used_seen.wrapping_add(1);
        }
        out
    }
}

fn bring_up<D: Device>(dev: &mut D, queues: &[&DriverQueue]) -> u64 {
    wr(dev, regs::STATUS, 0);
    wr(dev, regs::STATUS, status::ACKNOWLEDGE);
    wr(dev, regs::STATUS, status::ACKNOWLEDGE | status::DRIVER);
    wr(dev, regs::DEVICE_FEATURES_SEL, 0);
    let lo = rd(dev, regs::DEVICE_FEATURES);
    wr(dev, regs::DEVICE_FEATURES_SEL, 1);
    let hi = rd(dev, regs::DEVICE_FEATURES);
    wr(dev, regs::DRIVER_FEATURES_SEL, 0);
    wr(dev, regs::DRIVER_FEATURES, lo);
    wr(dev, regs::DRIVER_FEATURES_SEL, 1);
    wr(dev, regs::DRIVER_FEATURES, hi);
    let s = status::ACKNOWLEDGE | status::DRIVER | status::FEATURES_OK;
    wr(dev, regs::STATUS, s);
    assert_eq!(
        rd(dev, regs::STATUS) & status::FEATURES_OK,
        status::FEATURES_OK
    );
    for (i, q) in queues.iter().enumerate() {
        q.attach(dev, i as u32);
    }
    wr(dev, regs::STATUS, s | status::DRIVER_OK);
    ((hi as u64) << 32) | lo as u64
}

/// A device with two queues that returns every chain it is given, used length 0.
struct Loop {
    activated: Option<u64>,
    fail_activate: bool,
    fail_process: bool,
    config: [u8; 8],
    resets: u32,
}

impl Loop {
    fn new() -> Self {
        Loop {
            activated: None,
            fail_activate: false,
            fail_process: false,
            config: [1, 2, 3, 4, 5, 6, 7, 8],
            resets: 0,
        }
    }
}

impl VirtioDevice for Loop {
    fn name(&self) -> &'static str {
        "loop"
    }
    fn device_type(&self) -> u32 {
        0x42
    }
    fn features(&self) -> u64 {
        1 << 3
    }
    fn queue_max_sizes(&self) -> Vec<u16> {
        vec![16, 8]
    }
    fn read_config(&self, offset: u64, data: &mut [u8]) {
        read_config_bytes(&self.config, offset, data);
    }
    fn write_config(&mut self, offset: u64, data: &[u8]) {
        if let Some(b) = self.config.get_mut(offset as usize) {
            *b = data[0];
        }
    }
    fn activate(&mut self, acked: u64) -> Result<()> {
        if self.fail_activate {
            return Err(VmmError::device("loop", "no"));
        }
        self.activated = Some(acked);
        Ok(())
    }
    fn process_queue(&mut self, index: usize, queues: &mut Vec<Queue>, mem: &Mem) -> Result<bool> {
        if self.fail_process {
            return Err(VmmError::device("loop", "bad request"));
        }
        let q = &mut queues[index];
        let mut any = false;
        while let Some(chain) = q.pop_descriptor_chain(mem) {
            q.add_used(mem, chain.head_index(), 0).unwrap();
            any = true;
        }
        Ok(any)
    }
    fn reset(&mut self) {
        self.resets += 1;
        self.activated = None;
    }
}

fn transport() -> (MmioTransport<Loop, CountingIrq>, Mem, CountingIrq) {
    let mem = guest_memory(1 << 20);
    let irq = CountingIrq::default();
    (
        MmioTransport::new(Loop::new(), mem.clone(), Interrupt::new(irq.clone()))
            .unwrap_or_else(|_| panic!()),
        mem,
        irq,
    )
}

#[test]
fn vm_t8_interrupt_status_and_ack() {
    let c = CountingIrq::default();
    let mut i = Interrupt::new(c.clone());
    i.signal_used().unwrap();
    i.signal_config().unwrap();
    assert_eq!(i.status(), int_status::USED_RING | int_status::CONFIG_CHANGE);
    assert_eq!(c.get(), 2);
    i.ack(int_status::USED_RING);
    assert_eq!(i.status(), int_status::CONFIG_CHANGE);
    i.clear();
    assert_eq!(i.status(), 0);
}

#[test]
fn vm_t8_config_bytes_read_past_the_end_as_zero() {
    let src = [1u8, 2, 3];
    let mut d = [9u8; 4];
    read_config_bytes(&src, 1, &mut d);
    assert_eq!(d, [2, 3, 0, 0]);
    read_config_bytes(&src, u64::MAX, &mut d);
    assert_eq!(d, [0; 4]);
}

#[test]
fn vm_t8_identity_registers() {
    let (mut t, _, _) = transport();
    assert_eq!(rd(&mut t, regs::MAGIC), MAGIC_VALUE);
    assert_eq!(rd(&mut t, regs::VERSION), 2);
    assert_eq!(rd(&mut t, regs::DEVICE_ID), 0x42);
    assert_eq!(rd(&mut t, regs::VENDOR_ID), VENDOR);
    wr(&mut t, regs::DEVICE_FEATURES_SEL, 0);
    assert_eq!(rd(&mut t, regs::DEVICE_FEATURES), 1 << 3);
    wr(&mut t, regs::DEVICE_FEATURES_SEL, 1);
    assert_eq!(rd(&mut t, regs::DEVICE_FEATURES), 1);
    wr(&mut t, regs::DEVICE_FEATURES_SEL, 2);
    assert_eq!(rd(&mut t, regs::DEVICE_FEATURES), 0);
    wr(&mut t, regs::QUEUE_SEL, 1);
    assert_eq!(rd(&mut t, regs::QUEUE_NUM_MAX), 8);
    wr(&mut t, regs::QUEUE_SEL, 5);
    assert_eq!(rd(&mut t, regs::QUEUE_NUM_MAX), 0);
    assert_eq!(rd(&mut t, regs::QUEUE_READY), 0);
    assert_eq!(rd(&mut t, regs::SHM_LEN_LOW), u32::MAX);
    assert_eq!(rd(&mut t, regs::SHM_LEN_HIGH), u32::MAX);
    wr(&mut t, regs::SHM_SEL, 0);
    assert_eq!(rd(&mut t, 0x0f0), 0);
    // Registers are 32-bit: a narrower access reads zero and a narrower write is dropped.
    let mut b = [0xaa; 2];
    t.read(regs::MAGIC, &mut b);
    assert_eq!(b, [0, 0]);
    t.write(regs::STATUS, &[1]);
    assert_eq!(t.status(), 0);
    // Config space is byte-addressable.
    let mut c = [0u8; 2];
    t.read(regs::CONFIG + 2, &mut c);
    assert_eq!(c, [3, 4]);
    t.write(regs::CONFIG + 1, &[9]);
    t.read(regs::CONFIG + 1, &mut c[..1]);
    assert_eq!(c[0], 9);
    assert_eq!(t.name(), "loop");
}

#[test]
fn vm_t8_negotiation_and_activation() {
    let (mut t, mem, irq) = transport();
    let mut q0 = DriverQueue::new(0x10000, 16);
    let q1 = DriverQueue::new(0x20000, 8);
    let acked = bring_up(&mut t, &[&q0, &q1]);
    assert_eq!(acked, F_VERSION_1 | 1 << 3);
    assert!(t.is_active());
    assert_eq!(t.device().activated, Some(acked));
    assert_eq!(
        rd(&mut t, regs::STATUS) & status::DRIVER_OK,
        status::DRIVER_OK
    );

    // A notify runs the queue and raises a used-ring interrupt.
    q0.add(&mem, &[(0x30000, 16, false)]);
    wr(&mut t, regs::QUEUE_NOTIFY, 0);
    assert_eq!(q0.used(&mem), vec![(0, 0)]);
    assert_eq!(rd(&mut t, regs::INTERRUPT_STATUS), int_status::USED_RING);
    assert_eq!(irq.get(), 1);
    wr(&mut t, regs::INTERRUPT_ACK, int_status::USED_RING);
    assert_eq!(rd(&mut t, regs::INTERRUPT_STATUS), 0);
    // A notify with nothing new, or for a queue that does not exist, does nothing.
    wr(&mut t, regs::QUEUE_NOTIFY, 0);
    wr(&mut t, regs::QUEUE_NOTIFY, 7);
    assert_eq!(irq.get(), 1);

    // Queue registers are frozen after DRIVER_OK.
    wr(&mut t, regs::QUEUE_SEL, 0);
    wr(&mut t, regs::QUEUE_NUM, 4);
    assert_eq!(t.queues()[0].size(), 16);
    wr(&mut t, regs::QUEUE_READY, 0);
    assert!(t.queues()[0].ready());

    // Reset clears everything.
    wr(&mut t, regs::STATUS, 0);
    assert!(!t.is_active());
    assert_eq!(t.status(), 0);
    assert!(!t.queues()[0].ready());
    // bring_up reset the device once before negotiating.
    assert_eq!(t.device().resets, 2);
    assert_eq!(rd(&mut t, regs::INTERRUPT_STATUS), 0);
}

#[test]
fn vm_t8_features_ok_refused_for_unoffered_or_legacy() {
    let (mut t, _, _) = transport();
    wr(&mut t, regs::STATUS, status::ACKNOWLEDGE | status::DRIVER);
    // A feature the device never offered.
    wr(&mut t, regs::DRIVER_FEATURES_SEL, 0);
    wr(&mut t, regs::DRIVER_FEATURES, 1 << 5);
    wr(&mut t, regs::DRIVER_FEATURES_SEL, 1);
    wr(&mut t, regs::DRIVER_FEATURES, 1);
    let s = status::ACKNOWLEDGE | status::DRIVER | status::FEATURES_OK;
    wr(&mut t, regs::STATUS, s);
    assert_eq!(rd(&mut t, regs::STATUS) & status::FEATURES_OK, 0);
    // Without VERSION_1.
    wr(&mut t, regs::DRIVER_FEATURES_SEL, 0);
    wr(&mut t, regs::DRIVER_FEATURES, 1 << 3);
    wr(&mut t, regs::DRIVER_FEATURES_SEL, 1);
    wr(&mut t, regs::DRIVER_FEATURES, 0);
    wr(&mut t, regs::STATUS, s);
    assert_eq!(rd(&mut t, regs::STATUS) & status::FEATURES_OK, 0);
    // A third feature word is ignored; the right set is accepted.
    wr(&mut t, regs::DRIVER_FEATURES_SEL, 2);
    wr(&mut t, regs::DRIVER_FEATURES, 0xffff);
    wr(&mut t, regs::DRIVER_FEATURES_SEL, 1);
    wr(&mut t, regs::DRIVER_FEATURES, 1);
    wr(&mut t, regs::STATUS, s);
    assert_eq!(
        rd(&mut t, regs::STATUS) & status::FEATURES_OK,
        status::FEATURES_OK
    );
    // Features are frozen after FEATURES_OK.
    wr(&mut t, regs::DRIVER_FEATURES, 0);
    assert_eq!(t.driver_features(), F_VERSION_1 | 1 << 3);
    // Queue writes before FEATURES_OK are ignored (tested on a fresh device).
    let (mut t2, _, _) = transport();
    wr(&mut t2, regs::QUEUE_NUM, 4);
    wr(&mut t2, regs::QUEUE_READY, 1);
    assert_eq!(t2.queues()[0].size(), 16);
    assert!(!t2.queues()[0].ready());
}

#[test]
fn vm_t8_bad_queue_or_failing_device_needs_reset() {
    // A queue whose rings lie outside guest memory fails activation.
    let (mut t, _, irq) = transport();
    let bad = DriverQueue::new(0x7fff_0000, 16);
    bring_up(&mut t, &[&bad]);
    assert!(!t.is_active());
    assert_ne!(t.status() & status::DEVICE_NEEDS_RESET, 0);
    assert!(t.last_error().unwrap().contains("queue 0"));
    assert_eq!(rd(&mut t, regs::INTERRUPT_STATUS), int_status::CONFIG_CHANGE);
    assert_eq!(rd(&mut t, regs::CONFIG_GENERATION), 1);
    assert_eq!(irq.get(), 1);

    // A device that refuses activation.
    let (mut t, _, _) = transport();
    t.device_mut().fail_activate = true;
    bring_up(&mut t, &[&DriverQueue::new(0x10000, 16)]);
    assert!(!t.is_active());
    assert!(t.last_error().unwrap().contains("no"));

    // A device whose request processing fails is marked broken, the monitor survives.
    let (mut t, mem, _) = transport();
    let mut q = DriverQueue::new(0x10000, 16);
    bring_up(&mut t, &[&q]);
    t.device_mut().fail_process = true;
    q.add(&mem, &[(0x30000, 16, false)]);
    wr(&mut t, regs::QUEUE_NOTIFY, 0);
    assert!(!t.is_active());
    assert!(t.last_error().unwrap().contains("bad request"));
    // A broken device ignores further notifies until reset.
    wr(&mut t, regs::QUEUE_NOTIFY, 0);
    wr(&mut t, regs::STATUS, 0);
    assert!(t.last_error().is_none());
}

/// Run `f` on an active device, as a backend thread does: a failure marks the device broken.
fn with_active<R>(
    t: &mut MmioTransport<Loop, CountingIrq>,
    f: impl FnOnce(&mut Loop, &mut Vec<Queue>, &Mem) -> Result<R>,
) -> Option<R> {
    let r = match t.active_parts() {
        None => return None,
        Some((d, q, m)) => f(d, q, m),
    };
    match r {
        Ok(r) => Some(r),
        Err(e) => {
            t.fail(e.to_string());
            None
        }
    }
}

#[test]
fn vm_t8_with_active_and_config_change() {
    let (mut t, _, irq) = transport();
    assert!(with_active(&mut t, |_, _, _| Ok(1)).is_none());
    bring_up(&mut t, &[&DriverQueue::new(0x10000, 16)]);
    assert_eq!(
        with_active(&mut t, |d, q, _| Ok((d.resets, q.len()))),
        Some((1, 2))
    );
    assert!(with_active(&mut t, |_, _, _| -> Result<()> {
        Err(VmmError::device("loop", "backend"))
    })
    .is_none());
    assert!(!t.is_active());
    t.config_changed().unwrap();
    assert_eq!(rd(&mut t, regs::CONFIG_GENERATION), 2);
    assert!(irq.get() >= 2);
    assert!(std::ptr::eq(t.interrupt(), t.interrupt()));
}

// virtio-mem

const REGION: u64 = 0x40_0000; // 4 MiB into the test memory
const REQ: u64 = 0x1000;
const RESP: u64 = 0x2000;

#[derive(Clone, Default)]
struct Recorder(Rc<RefCell<Vec<(u64, u64)>>>);

impl MemBacking for Recorder {
    fn discard(&self, _mem: &Mem, gpa: u64, len: u64) -> Result<()> {
        self.0.borrow_mut().push((gpa, len));
        Ok(())
    }
}

struct MemRig {
    t: MmioTransport<VirtioMem<Recorder>, CountingIrq>,
    q: DriverQueue,
    mem: Mem,
    rec: Recorder,
}

fn mem_rig() -> MemRig {
    let mem = guest_memory(16 << 20);
    let rec = Recorder::default();
    let dev = VirtioMem::new(REGION, 8 * BLOCK_BYTES, rec.clone()).unwrap_or_else(|_| panic!());
    let mut t = MmioTransport::new(dev, mem.clone(), Interrupt::new(CountingIrq::default()))
        .unwrap_or_else(|_| panic!());
    let q = DriverQueue::new(0x10000, 16);
    bring_up(&mut t, &[&q]);
    MemRig { t, q, mem, rec }
}

fn mem_request(r: &mut MemRig, kind: u16, addr: u64, nb: u16) -> (u16, u16) {
    let mut raw = [0u8; REQ_BYTES];
    raw[0..2].copy_from_slice(&kind.to_le_bytes());
    raw[8..16].copy_from_slice(&addr.to_le_bytes());
    raw[16..18].copy_from_slice(&nb.to_le_bytes());
    r.mem.write_slice(&raw, GuestAddress(REQ)).unwrap();
    let head = r.q.add(
        &r.mem,
        &[
            (REQ, REQ_BYTES as u32, false),
            (RESP, RESP_BYTES as u32, true),
        ],
    );
    wr(&mut r.t, regs::QUEUE_NOTIFY, 0);
    assert_eq!(r.q.used(&r.mem), vec![(head as u32, RESP_BYTES as u32)]);
    let t: u16 = r.mem.read_obj(GuestAddress(RESP)).unwrap();
    let s: u16 = r.mem.read_obj(GuestAddress(RESP + 8)).unwrap();
    (t, s)
}

fn mem_cfg(t: &mut MmioTransport<VirtioMem<Recorder>, CountingIrq>, off: u64) -> u64 {
    let mut b = [0u8; 8];
    t.read(regs::CONFIG + off, &mut b);
    u64::from_le_bytes(b)
}

#[test]
fn vm_t16_config_space() {
    let mut r = mem_rig();
    assert_eq!(rd(&mut r.t, regs::DEVICE_ID), ID_MEM);
    assert_eq!(mem_cfg(&mut r.t, 0), BLOCK_BYTES);
    assert_eq!(mem_cfg(&mut r.t, 16), REGION);
    assert_eq!(mem_cfg(&mut r.t, 24), 8 * BLOCK_BYTES);
    assert_eq!(mem_cfg(&mut r.t, 32), 8 * BLOCK_BYTES);
    assert_eq!((mem_cfg(&mut r.t, 40), mem_cfg(&mut r.t, 48)), (0, 0));
    r.t.device_mut().set_requested(4 * BLOCK_BYTES).unwrap();
    r.t.config_changed().unwrap();
    assert_eq!(mem_cfg(&mut r.t, 48), 4 * BLOCK_BYTES);
    assert_eq!(r.t.device().region_size(), 8 * BLOCK_BYTES);
    r.t.write(regs::CONFIG, &[1]);
    assert_eq!(mem_cfg(&mut r.t, 0), BLOCK_BYTES);
}

#[test]
fn vm_t16_plug_unplug_state() {
    let mut r = mem_rig();
    // Nothing requested: a plug is NACKed.
    assert_eq!(mem_request(&mut r, req::PLUG, REGION, 1).0, resp::NACK);
    r.t.device_mut().set_requested(3 * BLOCK_BYTES).unwrap();
    assert_eq!(mem_request(&mut r, req::PLUG, REGION, 2).0, resp::ACK);
    assert_eq!(r.t.device().plugged_size(), 2 * BLOCK_BYTES);
    // Plugging past the request is NACKed; plugging a plugged block is an error.
    assert_eq!(
        mem_request(&mut r, req::PLUG, REGION + 2 * BLOCK_BYTES, 2).0,
        resp::NACK
    );
    assert_eq!(
        mem_request(&mut r, req::PLUG, REGION + BLOCK_BYTES, 1).0,
        resp::ERROR
    );
    assert_eq!(
        mem_request(&mut r, req::PLUG, REGION + 5 * BLOCK_BYTES, 1).0,
        resp::ACK
    );
    assert_eq!(
        mem_request(&mut r, req::STATE, REGION, 2),
        (resp::ACK, state::PLUGGED)
    );
    assert_eq!(
        mem_request(&mut r, req::STATE, REGION + 2 * BLOCK_BYTES, 3),
        (resp::ACK, state::UNPLUGGED)
    );
    assert_eq!(
        mem_request(&mut r, req::STATE, REGION + BLOCK_BYTES, 2),
        (resp::ACK, state::MIXED)
    );
    // Unplug returns memory to the host.
    assert_eq!(mem_request(&mut r, req::UNPLUG, REGION, 1).0, resp::ACK);
    assert_eq!(r.rec.0.borrow().clone(), vec![(REGION, BLOCK_BYTES)]);
    assert_eq!(r.t.device().plugged_size(), 2 * BLOCK_BYTES);
    assert_eq!(mem_request(&mut r, req::UNPLUG, REGION, 2).0, resp::ERROR);
    // Unplug-all discards every plugged run and zeroes the count.
    assert_eq!(mem_request(&mut r, req::UNPLUG_ALL, 0, 0).0, resp::ACK);
    assert_eq!(r.t.device().plugged_size(), 0);
    assert_eq!(
        r.rec.0.borrow().clone(),
        vec![
            (REGION, BLOCK_BYTES),
            (REGION + BLOCK_BYTES, BLOCK_BYTES),
            (REGION + 5 * BLOCK_BYTES, BLOCK_BYTES)
        ]
    );
}

#[test]
fn vm_t16_malformed_requests() {
    let mut r = mem_rig();
    r.t.device_mut().set_requested(8 * BLOCK_BYTES).unwrap();
    for (addr, nb) in [
        (REGION - BLOCK_BYTES, 1),     // below the region
        (REGION + 1, 1),               // not aligned
        (REGION, 0),                   // zero blocks
        (REGION + 7 * BLOCK_BYTES, 2), // past the end
        (u64::MAX - 1, 1),             // overflow
    ] {
        assert_eq!(
            mem_request(&mut r, req::PLUG, addr, nb).0,
            resp::ERROR,
            "{addr:#x} {nb}"
        );
    }
    assert_eq!(mem_request(&mut r, 77, REGION, 1).0, resp::ERROR);
    // A short request.
    r.q.add(&r.mem, &[(REQ, 4, false), (RESP, RESP_BYTES as u32, true)]);
    wr(&mut r.t, regs::QUEUE_NOTIFY, 0);
    r.q.used(&r.mem);
    assert_eq!(
        r.mem.read_obj::<u16>(GuestAddress(RESP)).unwrap(),
        resp::ERROR
    );
    // No room for a response: returned with length 0.
    r.q.add(&r.mem, &[(REQ, REQ_BYTES as u32, false)]);
    wr(&mut r.t, regs::QUEUE_NOTIFY, 0);
    assert_eq!(r.q.used(&r.mem)[0].1, 0);
    assert!(r.t.is_active());
    let mut qs: Vec<Queue> = vec![];
    assert!(r.t.device_mut().process_queue(3, &mut qs, &r.mem).is_err());
}

#[test]
fn vm_t16_resize_bounds_and_region_shape() {
    let mut d =
        VirtioMem::new(0, 4 * BLOCK_BYTES, Recorder::default()).unwrap_or_else(|_| panic!());
    assert!(d.set_requested(5 * BLOCK_BYTES).is_err());
    assert!(d.set_requested(BLOCK_BYTES + 4096).is_err());
    d.set_requested(4 * BLOCK_BYTES).unwrap();
    assert_eq!(d.requested_size(), 4 * BLOCK_BYTES);
    assert!(VirtioMem::new(4096, BLOCK_BYTES, Recorder::default()).is_err());
    assert!(VirtioMem::new(0, 0, Recorder::default()).is_err());
    assert!(VirtioMem::new(0, 4096, Recorder::default()).is_err());
}

#[test]
fn numbers_are_those_of_the_virtio_bindings() {
    assert_eq!(ID_BLOCK, vi::VIRTIO_ID_BLOCK);
    assert_eq!(ID_VSOCK, vi::VIRTIO_ID_VSOCK);
    assert_eq!(ID_MEM, vi::VIRTIO_ID_MEM);
    assert_eq!(F_VERSION_1, 1u64 << vc::VIRTIO_F_VERSION_1);
    assert_eq!(block::T_IN, vb::VIRTIO_BLK_T_IN);
    assert_eq!(block::T_OUT, vb::VIRTIO_BLK_T_OUT);
    assert_eq!(block::T_FLUSH, vb::VIRTIO_BLK_T_FLUSH);
    assert_eq!(block::T_GET_ID, vb::VIRTIO_BLK_T_GET_ID);
    assert_eq!(block::S_OK as u32, vb::VIRTIO_BLK_S_OK);
    assert_eq!(block::S_IOERR as u32, vb::VIRTIO_BLK_S_IOERR);
    assert_eq!(block::S_UNSUPP as u32, vb::VIRTIO_BLK_S_UNSUPP);
    assert_eq!(block::F_SIZE_MAX, 1u64 << vb::VIRTIO_BLK_F_SIZE_MAX);
    assert_eq!(block::F_SEG_MAX, 1u64 << vb::VIRTIO_BLK_F_SEG_MAX);
    assert_eq!(block::F_RO, 1u64 << vb::VIRTIO_BLK_F_RO);
    assert_eq!(block::F_FLUSH, 1u64 << vb::VIRTIO_BLK_F_FLUSH);
    assert_eq!(block::ID_BYTES as u32, vb::VIRTIO_BLK_ID_BYTES);
}

#[test]
fn numbers_are_those_of_the_host() {
    assert_eq!(sys::POLLIN, libc::POLLIN);
    assert_eq!(sys::POLLOUT, libc::POLLOUT);
    assert_eq!(sys::POLLERR, libc::POLLERR);
    assert_eq!(sys::POLLHUP, libc::POLLHUP);
    assert_eq!(sys::POLLNVAL, libc::POLLNVAL);
    assert_eq!(kvm::SYSTEM_EVENT_SHUTDOWN, kvm_bindings::KVM_SYSTEM_EVENT_SHUTDOWN);
    assert_eq!(kvm::SYSTEM_EVENT_RESET, kvm_bindings::KVM_SYSTEM_EVENT_RESET);
    assert_eq!(kvm::SYSTEM_EVENT_CRASH, kvm_bindings::KVM_SYSTEM_EVENT_CRASH);
    assert_eq!(kvm::KVM_API_VERSION, kvm_bindings::KVM_API_VERSION);
}

/// Takes memory back until it is asked for the blocks from `1`.
#[derive(Clone)]
struct Refuser(Rc<RefCell<Vec<(u64, u64)>>>, u64);

impl MemBacking for Refuser {
    fn discard(&self, _mem: &Mem, gpa: u64, len: u64) -> Result<()> {
        self.0.borrow_mut().push((gpa, len));
        if gpa == self.1 {
            return Err(VmmError::device("virtio-mem", "refused"));
        }
        Ok(())
    }
}

#[test]
fn a_refused_run_stops_unplugging() {
    let mem = guest_memory(16 << 20);
    let rec = Refuser(Rc::new(RefCell::new(Vec::new())), REGION + 3 * BLOCK_BYTES);
    let mut dev =
        VirtioMem::new(REGION, 8 * BLOCK_BYTES, rec.clone()).unwrap_or_else(|_| panic!());
    dev.set_requested(8 * BLOCK_BYTES).unwrap();
    let mut q = DriverQueue::new(0x10000, 16);
    let mut dq = Queue::new(q.size).unwrap();
    dq.set_desc_table_address(Some(q.desc as u32), None);
    dq.set_avail_ring_address(Some(q.avail as u32), None);
    dq.set_used_ring_address(Some(q.used as u32), None);
    dq.set_ready(true);

    // Each request is offered, and served with the buffers of its chain.
    let mut ask = |dev: &mut VirtioMem<Refuser>, kind: u16, block: u64, nb: u16| {
        let mut raw = [0u8; REQ_BYTES];
        raw[0..2].copy_from_slice(&kind.to_le_bytes());
        raw[8..16].copy_from_slice(&(REGION + block * BLOCK_BYTES).to_le_bytes());
        raw[16..18].copy_from_slice(&nb.to_le_bytes());
        mem.write_slice(&raw, GuestAddress(REQ)).unwrap();
        let head = q.add(
            &mem,
            &[
                (REQ, REQ_BYTES as u32, false),
                (RESP, RESP_BYTES as u32, true),
            ],
        );
        let c = dq.pop_descriptor_chain(&mem).unwrap();
        let mut r = c.clone().reader(&mem).ok();
        let mut w = c.writer(&mem).ok();
        dev.serve_offered(&mut dq, &mem, head, &mut r, &mut w)?;
        assert_eq!(q.used(&mem), vec![(head as u32, RESP_BYTES as u32)]);
        let t: u16 = mem.read_obj(GuestAddress(RESP)).unwrap();
        let s: u16 = mem.read_obj(GuestAddress(RESP + 8)).unwrap();
        Ok::<(u16, u16), VmmError>((t, s))
    };
    assert_eq!(ask(&mut dev, req::PLUG, 0, 2).unwrap(), (resp::ACK, 0));
    assert_eq!(ask(&mut dev, req::PLUG, 3, 1).unwrap(), (resp::ACK, 0));
    assert_eq!(ask(&mut dev, req::PLUG, 6, 2).unwrap(), (resp::ACK, 0));

    let e = ask(&mut dev, req::UNPLUG_ALL, 0, 0).unwrap_err();
    assert!(e.to_string().contains("refused"));
    assert_eq!(
        *rec.0.borrow(),
        vec![
            (REGION, 2 * BLOCK_BYTES),
            (REGION + 3 * BLOCK_BYTES, BLOCK_BYTES)
        ]
    );
    // The run it refused and the one below are unplugged, and nothing is accounted for.
    assert_eq!(dev.plugged_size(), 5 * BLOCK_BYTES);
    assert_eq!(
        ask(&mut dev, req::STATE, 0, 4).unwrap(),
        (resp::ACK, state::UNPLUGGED)
    );
    assert_eq!(
        ask(&mut dev, req::STATE, 6, 2).unwrap(),
        (resp::ACK, state::PLUGGED)
    );
}

#[test]
fn unreachable_requests_go_back_empty() {
    let mem = guest_memory(16 << 20);
    let mut dev = VirtioMem::new(REGION, 8 * BLOCK_BYTES, Recorder::default())
        .unwrap_or_else(|_| panic!());
    let mut q = DriverQueue::new(0x10000, 16);
    let mut dq = Queue::new(q.size).unwrap();
    dq.set_desc_table_address(Some(q.desc as u32), None);
    dq.set_avail_ring_address(Some(q.avail as u32), None);
    dq.set_used_ring_address(Some(q.used as u32), None);
    dq.set_ready(true);
    dev.serve_offered(&mut dq, &mem, 5, &mut None, &mut None).unwrap();
    assert_eq!(q.used(&mem), vec![(5, 0)]);
    assert!(dev.serve_offered(&mut dq, &mem, 16, &mut None, &mut None).is_err());
}

#[test]
fn a_run_of_memory_requests_ends_where_a_chain_cannot_go_back() {
    let mem = guest_memory(16 << 20);
    let mut q = DriverQueue::new(0x10000, 16);
    let mut dq = Queue::new(16).unwrap();
    dq.set_desc_table_address(Some(q.desc as u32), None);
    dq.set_avail_ring_address(Some(q.avail as u32), None);
    // There is room for one entry only.
    let end = 16u32 << 20;
    dq.set_used_ring_address(Some(end - 4 - 8), None);
    let mut dev =
        VirtioMem::new(REGION, 8 * BLOCK_BYTES, Recorder::default()).unwrap_or_else(|_| panic!());
    dev.set_requested(8 * BLOCK_BYTES).unwrap();
    let mut raw = [0u8; REQ_BYTES];
    raw[0..2].copy_from_slice(&req::PLUG.to_le_bytes());
    for i in 0..3u64 {
        raw[8..16].copy_from_slice(&(REGION + i * BLOCK_BYTES).to_le_bytes());
        raw[16..18].copy_from_slice(&1u16.to_le_bytes());
        let at = REQ + 64 * i;
        mem.write_slice(&raw, GuestAddress(at)).unwrap();
        q.add(&mem, &[(at, REQ_BYTES as u32, false), (RESP, RESP_BYTES as u32, true)]);
    }
    let mut qs = vec![dq];

    // A queue that is not ready offers nothing.
    assert!(matches!(dev.process_queue(0, &mut qs, &mem), Ok(false)));
    assert_eq!((dev.plugged_size(), qs[0].next_avail()), (0, 0));

    // The second request is carried out, but its chain stays; the third is not looked at.
    qs[0].set_ready(true);
    let e = dev.process_queue(0, &mut qs, &mem).expect_err("no room").to_string();
    assert!(e.contains("used ring: "), "{e}");
    assert_eq!(dev.plugged_size(), 2 * BLOCK_BYTES);
    assert_eq!((qs[0].next_avail(), qs[0].next_used()), (2, 1));

    // With a whole ring the rest is served.
    qs[0].set_used_ring_address(Some(q.used as u32), None);
    assert!(matches!(dev.process_queue(0, &mut qs, &mem), Ok(true)));
    assert_eq!(dev.plugged_size(), 3 * BLOCK_BYTES);
    assert_eq!((qs[0].next_avail(), qs[0].next_used()), (3, 2));
}
