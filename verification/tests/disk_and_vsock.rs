//! The disk and the vsock device, driven as a guest driver does, over a disk and host sockets
//! that are held in memory.

use std::cell::RefCell;
use std::collections::{BTreeSet, HashMap, VecDeque};
use std::rc::Rc;

use moruna::devices::block::{
    Action, Block, Todo, CHUNK_BYTES, F_RO, SECTOR_BYTES, S_IOERR, S_OK, S_UNSUPP, T_FLUSH,
    T_GET_ID, T_IN, T_OUT,
};
use moruna::devices::mmio::{regs, MmioTransport};
use moruna::devices::queue::Mem;
use moruna::devices::virtio::{
    int_status, read_config_bytes, status, Interrupt, VirtioDevice, ID_BLOCK, ID_VSOCK,
    QUEUE_MAX_SIZE,
};
use moruna::devices::vsock::muxer::{
    After, ByteOutcome, FlushStep, Key, LineStep, ReadOutcome, ReadyStep, RecvAction, Token,
    WriteOutcome,
    BUF_ALLOC, CREDIT_UPDATE_THRESHOLD, FIRST_HOST_PORT, MAX_PKT_PAYLOAD,
};
use moruna::devices::vsock::packet::{
    op, Header, HDR_BYTES, SHUTDOWN_RCV, SHUTDOWN_SEND, TYPE_STREAM,
};
use moruna::devices::vsock::{RxStep, VirtioVsock, EVQ, RXQ, TXQ};
use moruna::devices::{Device, Irq};
use moruna::error::{Result, VmmError};
use moruna::sys::Ready;
use virtio_queue::{DescriptorChain, Queue, QueueT};
use vm_memory::{Bytes, GuestAddress};

fn guest_memory(size: usize) -> Mem {
    Mem::from_ranges(&[(GuestAddress(0), size)]).unwrap()
}

#[derive(Clone, Default)]
struct CountingIrq(Rc<RefCell<u32>>);

impl Irq for CountingIrq {
    fn trigger(&mut self) -> std::io::Result<()> {
        *self.0.borrow_mut() += 1;
        Ok(())
    }
}

impl CountingIrq {
    fn get(&self) -> u32 {
        *self.0.borrow()
    }
}

fn rd<D: Device>(dev: &mut D, off: u64) -> u32 {
    let mut b = [0u8; 4];
    dev.read(off, &mut b);
    u32::from_le_bytes(b)
}

fn wr<D: Device>(dev: &mut D, off: u64, v: u32) {
    dev.write(off, &v.to_le_bytes());
}

const F_NEXT: u16 = 1;
const F_WRITE: u16 = 2;

struct DriverQueue {
    size: u16,
    desc: u64,
    avail: u64,
    used: u64,
    next_desc: u16,
    avail_idx: u16,
    used_seen: u16,
}

impl DriverQueue {
    fn new(base: u64, size: u16) -> Self {
        let desc = base;
        let avail = desc + 16 * size as u64;
        let used = (avail + 6 + 2 * size as u64 + 3) & !3;
        DriverQueue {
            size,
            desc,
            avail,
            used,
            next_desc: 0,
            avail_idx: 0,
            used_seen: 0,
        }
    }

    fn attach<D: Device>(&self, dev: &mut D, index: u32) {
        wr(dev, regs::QUEUE_SEL, index);
        wr(dev, regs::QUEUE_NUM, self.size as u32);
        wr(dev, regs::QUEUE_DESC_LOW, self.desc as u32);
        wr(dev, regs::QUEUE_DESC_HIGH, (self.desc >> 32) as u32);
        wr(dev, regs::QUEUE_DRIVER_LOW, self.avail as u32);
        wr(dev, regs::QUEUE_DRIVER_HIGH, (self.avail >> 32) as u32);
        wr(dev, regs::QUEUE_DEVICE_LOW, self.used as u32);
        wr(dev, regs::QUEUE_DEVICE_HIGH, (self.used >> 32) as u32);
        wr(dev, regs::QUEUE_READY, 1);
    }

    fn add(&mut self, mem: &Mem, bufs: &[(u64, u32, bool)]) -> u16 {
        let head = self.next_desc;
        for (i, (addr, len, w)) in bufs.iter().enumerate() {
            let idx = (self.next_desc + i as u16) % self.size;
            let mut flags = if *w { F_WRITE } else { 0 };
            let next = (idx + 1) % self.size;
            if i + 1 < bufs.len() {
                flags |= F_NEXT;
            }
            let at = self.desc + 16 * idx as u64;
            mem.write_obj(*addr, GuestAddress(at)).unwrap();
            mem.write_obj(*len, GuestAddress(at + 8)).unwrap();
            mem.write_obj(flags, GuestAddress(at + 12)).unwrap();
            mem.write_obj(next, GuestAddress(at + 14)).unwrap();
        }
        self.next_desc = (self.next_desc + bufs.len() as u16) % self.size;
        let slot = self.avail + 4 + 2 * (self.avail_idx % self.size) as u64;
        mem.write_obj(head, GuestAddress(slot)).unwrap();
        self.avail_idx = self.avail_idx.wrapping_add(1);
        mem.write_obj(self.avail_idx, GuestAddress(self.avail + 2))
            .unwrap();
        head
    }

    fn used(&mut self, mem: &Mem) -> Vec<(u32, u32)> {
        let idx: u16 = mem.read_obj(GuestAddress(self.used + 2)).unwrap();
        let mut out = Vec::new();
        while self.used_seen != idx {
            let at = self.used + 4 + 8 * (self.used_seen % self.size) as u64;
            let id: u32 = mem.read_obj(GuestAddress(at)).unwrap();
            let len: u32 = mem.read_obj(GuestAddress(at + 4)).unwrap();
            out.push((id, len));
            self.used_seen = self.used_seen.wrapping_add(1);
        }
        out
    }
}

fn bring_up<D: Device>(dev: &mut D, queues: &[&DriverQueue]) -> u64 {
    wr(dev, regs::STATUS, 0);
    wr(dev, regs::STATUS, status::ACKNOWLEDGE);
    wr(dev, regs::STATUS, status::ACKNOWLEDGE | status::DRIVER);
    wr(dev, regs::DEVICE_FEATURES_SEL, 0);
    let lo = rd(dev, regs::DEVICE_FEATURES);
    wr(dev, regs::DEVICE_FEATURES_SEL, 1);
    let hi = rd(dev, regs::DEVICE_FEATURES);
    wr(dev, regs::DRIVER_FEATURES_SEL, 0);
    wr(dev, regs::DRIVER_FEATURES, lo);
    wr(dev, regs::DRIVER_FEATURES_SEL, 1);
    wr(dev, regs::DRIVER_FEATURES, hi);
    let s = status::ACKNOWLEDGE | status::DRIVER | status::FEATURES_OK;
    wr(dev, regs::STATUS, s);
    assert_eq!(
        rd(dev, regs::STATUS) & status::FEATURES_OK,
        status::FEATURES_OK
    );
    for (i, q) in queues.iter().enumerate() {
        q.attach(dev, i as u32);
    }
    wr(dev, regs::STATUS, s | status::DRIVER_OK);
    ((hi as u64) << 32) | lo as u64
}

/// A disk whose file is held in memory.
struct Disk {
    block: Block,
    file: Rc<RefCell<Vec<u8>>>,
    fail_io: bool,
    steps: usize,
}

impl Disk {
    fn serve(&mut self, q: &mut Queue, mem: &Mem) -> Result<bool> {
        let mut any = false;
        while let Some(mut job) = self.block.next(q, mem) {
            loop {
                match job.action() {
                    Action::Read { off, n } => {
                        assert!(n <= CHUNK_BYTES);
                        self.steps += 1;
                        let file = self.file.borrow();
                        let data = &file[off as usize..off as usize + n];
                        job.on_read(if self.fail_io { None } else { Some(data) });
                    }
                    Action::Write { off, n } => {
                        self.steps += 1;
                        if let Some(data) = job.outgoing() {
                            assert_eq!(data.len(), n);
                            if self.fail_io {
                                job.write_failed();
                            } else {
                                self.file.borrow_mut()[off as usize..off as usize + n]
                                    .copy_from_slice(&data);
                            }
                        }
                    }
                    Action::Flush => job.on_flushed(!self.fail_io),
                    Action::Finish => break,
                }
            }
            job.finish(q, mem)?;
            any = true;
        }
        Ok(any)
    }
}

impl VirtioDevice for Disk {
    fn name(&self) -> &'static str {
        "virtio-blk"
    }
    fn device_type(&self) -> u32 {
        ID_BLOCK
    }
    fn features(&self) -> u64 {
        self.block.features()
    }
    fn queue_max_sizes(&self) -> Vec<u16> {
        vec![QUEUE_MAX_SIZE]
    }
    fn read_config(&self, offset: u64, data: &mut [u8]) {
        read_config_bytes(&self.block.config_space(), offset, data);
    }
    fn write_config(&mut self, _offset: u64, _data: &[u8]) {}
    fn activate(&mut self, _acked: u64) -> Result<()> {
        Ok(())
    }
    fn process_queue(&mut self, index: usize, queues: &mut Vec<Queue>, mem: &Mem) -> Result<bool> {
        match queues.get_mut(index) {
            Some(q) => self.serve(q, mem),
            None => Err(VmmError::device("virtio-blk", "no queue")),
        }
    }
    fn reset(&mut self) {}
}

const HDR: u64 = 0x40000;
const DATA: u64 = 0x50000;
const STATUS: u64 = 0x90000;

struct Rig {
    t: MmioTransport<Disk, CountingIrq>,
    q: DriverQueue,
    mem: Mem,
    file: Rc<RefCell<Vec<u8>>>,
}

fn rig(read_only: bool, sectors: u64) -> Rig {
    let content: Vec<u8> = (0..sectors * SECTOR_BYTES).map(|i| (i % 251) as u8).collect();
    let file = Rc::new(RefCell::new(content));
    let disk = Disk {
        block: Block::new(sectors * SECTOR_BYTES, read_only, "moruna-disk-3".to_string()),
        file: file.clone(),
        fail_io: false,
        steps: 0,
    };
    let mem = guest_memory(4 << 20);
    let mut t = MmioTransport::new(disk, mem.clone(), Interrupt::new(CountingIrq::default()))
        .unwrap_or_else(|_| panic!());
    let q = DriverQueue::new(0x10000, 16);
    bring_up(&mut t, &[&q]);
    Rig { t, q, mem, file }
}

fn header(mem: &Mem, kind: u32, sector: u64) {
    mem.write_obj(kind, GuestAddress(HDR)).unwrap();
    mem.write_obj(0u32, GuestAddress(HDR + 4)).unwrap();
    mem.write_obj(sector, GuestAddress(HDR + 8)).unwrap();
}

fn submit(r: &mut Rig, bufs: &[(u64, u32, bool)]) -> (u32, u8) {
    r.mem.write_obj(0xffu8, GuestAddress(STATUS)).unwrap();
    r.q.add(&r.mem, bufs);
    wr(&mut r.t, regs::QUEUE_NOTIFY, 0);
    let used = r.q.used(&r.mem);
    assert_eq!(used.len(), 1);
    (used[0].1, r.mem.read_obj(GuestAddress(STATUS)).unwrap())
}

#[test]
fn vm_t9_read_write_flush_get_id() {
    let mut r = rig(false, 16);
    assert_eq!(rd(&mut r.t, regs::DEVICE_ID), ID_BLOCK);
    let mut cap = [0u8; 8];
    r.t.read(regs::CONFIG, &mut cap);
    assert_eq!(u64::from_le_bytes(cap), 16);
    assert!(!r.t.device().block.read_only());
    assert_eq!(r.t.device().block.capacity_sectors(), 16);

    // Read sectors 2..4 into a buffer split over two descriptors.
    header(&r.mem, T_IN, 2);
    let (len, st) = submit(
        &mut r,
        &[
            (HDR, 16, false),
            (DATA, 512, true),
            (DATA + 0x1000, 512, true),
            (STATUS, 1, true),
        ],
    );
    assert_eq!((len, st), (1025, S_OK));
    let mut got = vec![0u8; 512];
    r.mem.read_slice(&mut got, GuestAddress(DATA + 0x1000)).unwrap();
    let want: Vec<u8> = (3 * 512..4 * 512).map(|i| (i % 251) as u8).collect();
    assert_eq!(got, want);
    assert_eq!(
        rd(&mut r.t, regs::INTERRUPT_STATUS) & int_status::USED_RING,
        int_status::USED_RING
    );

    // Write sector 5, then read it back from the file.
    r.mem.write_slice(&[7u8; 512], GuestAddress(DATA)).unwrap();
    header(&r.mem, T_OUT, 5);
    let (len, st) = submit(&mut r, &[(HDR, 16, false), (DATA, 512, false), (STATUS, 1, true)]);
    assert_eq!((len, st), (1, S_OK));
    assert_eq!(&r.file.borrow()[5 * 512..6 * 512], &[7u8; 512][..]);

    header(&r.mem, T_FLUSH, 0);
    assert_eq!(submit(&mut r, &[(HDR, 16, false), (STATUS, 1, true)]), (1, S_OK));

    header(&r.mem, T_GET_ID, 0);
    let (len, st) = submit(&mut r, &[(HDR, 16, false), (DATA, 20, true), (STATUS, 1, true)]);
    assert_eq!((len, st), (21, S_OK));
    let mut id = [0u8; 13];
    r.mem.read_slice(&mut id, GuestAddress(DATA)).unwrap();
    assert_eq!(&id, b"moruna-disk-3");
}

#[test]
fn vm_t9_large_requests_are_chunked() {
    let mut r = rig(false, 2048); // 1 MiB disk
    let len = 1u32 << 20;
    header(&r.mem, T_IN, 0);
    let (used, st) = submit(
        &mut r,
        &[(HDR, 16, false), (0x100000, len, true), (STATUS, 1, true)],
    );
    assert_eq!((used, st), (len + 1, S_OK));
    assert_eq!(r.t.device().steps, 4);
    let mut got = vec![0u8; len as usize];
    r.mem.read_slice(&mut got, GuestAddress(0x100000)).unwrap();
    assert!(got.iter().enumerate().all(|(i, b)| *b == (i % 251) as u8));
    r.mem.write_slice(&vec![3u8; len as usize], GuestAddress(0x100000)).unwrap();
    header(&r.mem, T_OUT, 0);
    let (_, st) = submit(
        &mut r,
        &[(HDR, 16, false), (0x100000, len, false), (STATUS, 1, true)],
    );
    assert_eq!(st, S_OK);
    assert!(r.file.borrow().iter().all(|b| *b == 3));
}

#[test]
fn vm_t9_read_only_disk_refuses_writes() {
    let mut r = rig(true, 8);
    wr(&mut r.t, regs::DEVICE_FEATURES_SEL, 0);
    let f = rd(&mut r.t, regs::DEVICE_FEATURES);
    assert_ne!(f as u64 & F_RO, 0);
    let before = r.file.borrow().clone();
    r.mem.write_slice(&[9u8; 512], GuestAddress(DATA)).unwrap();
    header(&r.mem, T_OUT, 0);
    let (_, st) = submit(&mut r, &[(HDR, 16, false), (DATA, 512, false), (STATUS, 1, true)]);
    assert_eq!(st, S_IOERR);
    assert_eq!(*r.file.borrow(), before);
    header(&r.mem, T_FLUSH, 0);
    assert_eq!(submit(&mut r, &[(HDR, 16, false), (STATUS, 1, true)]).1, 0);
}

#[test]
fn vm_t9_bad_requests_get_a_status() {
    let mut r = rig(false, 8);
    let read = [(HDR, 16, false), (DATA, 512, true), (STATUS, 1, true)];
    let write = [(HDR, 16, false), (DATA, 512, false), (STATUS, 1, true)];
    // Past the end.
    header(&r.mem, T_IN, 8);
    assert_eq!(submit(&mut r, &read).1, S_IOERR);
    header(&r.mem, T_OUT, u64::MAX);
    assert_eq!(submit(&mut r, &write).1, S_IOERR);
    // Not a whole number of sectors.
    header(&r.mem, T_IN, 0);
    assert_eq!(
        submit(&mut r, &[(HDR, 16, false), (DATA, 100, true), (STATUS, 1, true)]).1,
        S_IOERR
    );
    // Unknown type.
    header(&r.mem, 99, 0);
    assert_eq!(submit(&mut r, &[(HDR, 16, false), (STATUS, 1, true)]), (1, S_UNSUPP));
    // A short header.
    assert_eq!(submit(&mut r, &[(HDR, 8, false), (STATUS, 1, true)]).1, S_IOERR);
    // No writable byte for the status: returned with length 0, nothing written.
    header(&r.mem, T_IN, 0);
    r.q.add(&r.mem, &[(HDR, 16, false)]);
    wr(&mut r.t, regs::QUEUE_NOTIFY, 0);
    assert_eq!(r.q.used(&r.mem)[0].1, 0);
    // A buffer outside guest memory: length 0, and the device keeps working.
    r.q.add(
        &r.mem,
        &[(HDR, 16, false), (0xffff_0000, 512, true), (STATUS, 1, true)],
    );
    wr(&mut r.t, regs::QUEUE_NOTIFY, 0);
    assert_eq!(r.q.used(&r.mem)[0].1, 0);
    assert!(r.t.is_active());
    // A short GET_ID buffer gets as many bytes as fit.
    header(&r.mem, T_GET_ID, 0);
    assert_eq!(
        submit(&mut r, &[(HDR, 16, false), (DATA, 4, true), (STATUS, 1, true)]),
        (5, S_OK)
    );
    // No such queue.
    let mut qs: Vec<Queue> = vec![];
    let mem = r.mem.clone();
    assert!(r.t.device_mut().process_queue(1, &mut qs, &mem).is_err());
    // The file fails.
    r.t.device_mut().fail_io = true;
    header(&r.mem, T_IN, 0);
    assert_eq!(submit(&mut r, &read).1, S_IOERR);
    header(&r.mem, T_OUT, 0);
    assert_eq!(submit(&mut r, &write).1, S_IOERR);
    header(&r.mem, T_FLUSH, 0);
    assert_eq!(submit(&mut r, &[(HDR, 16, false), (STATUS, 1, true)]).1, S_IOERR);
}

#[test]
fn transfers_stay_on_the_disk() {
    let b = Block::new(8 * SECTOR_BYTES + 100, false, "d".to_string());
    assert_eq!(b.capacity_sectors(), 8, "a part of a sector is not there");
    assert_eq!(b.range(7, 512), Some(7 * 512));
    assert_eq!(b.range(7, 513), None);
    assert_eq!(b.range(8, 512), None);
    assert_eq!(b.range(u64::MAX, 512), None);
    assert_eq!(
        b.todo(T_IN, 1, 1024, 0),
        Todo::Read { start: 512, len: 1024, done: 0 }
    );
    assert!(matches!(b.todo(T_IN, 8, 512, 0), Todo::Finished { status: S_IOERR, .. }));
}

/// A host stream as the device holds it.
#[derive(Default)]
struct Stream {
    to_host: Vec<u8>,
    to_device: VecDeque<u8>,
    host_closed: bool,
    write_shut: bool,
    closed: bool,
}

/// The host side: its streams by descriptor, those that wait to be accepted, and the ports that
/// are listened on.
#[derive(Default)]
struct Host {
    streams: HashMap<i32, Stream>,
    backlog: VecDeque<i32>,
    listening: BTreeSet<u32>,
    accepted: Vec<(u32, i32)>,
    next_fd: i32,
    room: usize,
}

impl Host {
    fn open(&mut self) -> i32 {
        self.next_fd += 1;
        self.streams.insert(100 + self.next_fd, Stream::default());
        100 + self.next_fd
    }

    fn write(&mut self, fd: i32, bytes: &[u8]) -> WriteOutcome {
        let s = self.streams.get_mut(&fd).unwrap();
        let n = self.room.saturating_sub(s.to_host.len()).min(bytes.len());
        if s.host_closed {
            WriteOutcome::Failed
        } else if n == 0 {
            WriteOutcome::WouldBlock
        } else {
            s.to_host.extend_from_slice(&bytes[..n]);
            WriteOutcome::Wrote(n)
        }
    }

    fn read(&mut self, fd: i32, n: usize) -> (ReadOutcome, Vec<u8>) {
        let s = self.streams.get_mut(&fd).unwrap();
        let n = n.min(s.to_device.len());
        if n > 0 {
            let v: Vec<u8> = s.to_device.drain(..n).collect();
            (ReadOutcome::Data(n), v)
        } else if s.host_closed {
            (ReadOutcome::Eof, Vec::new())
        } else {
            (ReadOutcome::NotNow, Vec::new())
        }
    }

    fn close(&mut self, fd: i32) {
        if let Some(s) = self.streams.get_mut(&fd) {
            s.closed = true;
        }
    }
}

const LISTENER: i32 = 4;
const WAKE: i32 = 5;

/// The vsock device over those streams.
struct Vsock {
    dev: VirtioVsock,
    host: Rc<RefCell<Host>>,
    fds: HashMap<Key, i32>,
}

impl Vsock {
    /// Write what is pending for a connection; false when its stream failed.
    fn flush(&mut self, key: Key) -> bool {
        let fd = self.fds[&key];
        loop {
            let bytes = match self.dev.muxer.pending(key) {
                Some(b) if !b.is_empty() => b.clone(),
                _ => break,
            };
            let outcome = self.host.borrow_mut().write(fd, &bytes);
            match self.dev.muxer.on_written(key, outcome) {
                FlushStep::Again => {}
                FlushStep::Blocked => return true,
                FlushStep::Failed => return false,
            }
        }
        if self.dev.muxer.drained(key) {
            self.host.borrow_mut().streams.get_mut(&fd).unwrap().write_shut = true;
        }
        true
    }

    fn flush_and(&mut self, key: Key, after: After) {
        let ok = self.flush(key);
        if let Some(fd) = self.dev.muxer.after_flush(key, ok, after) {
            self.host.borrow_mut().close(fd);
        }
    }

    fn recv(&mut self, h: &Header, payload: &[u8]) {
        match self.dev.muxer.recv(h, payload) {
            RecvAction::Done => {}
            RecvAction::Connect(key) => {
                let opened = {
                    let mut host = self.host.borrow_mut();
                    if host.listening.contains(&key.host_port) {
                        let fd = host.open();
                        host.accepted.push((key.host_port, fd));
                        Some(fd)
                    } else {
                        None
                    }
                };
                if let Some(fd) = opened {
                    self.fds.insert(key, fd);
                }
                self.dev.muxer.guest_connect(key, h, opened);
            }
            RecvAction::Flush(key, after) => self.flush_and(key, after),
            RecvAction::Close(fd) => self.host.borrow_mut().close(fd),
        }
    }

    fn process_tx(&mut self, q: &mut Queue, mem: &Mem) -> Result<bool> {
        let mut any = false;
        while let Some(p) = VirtioVsock::next_packet(q, mem) {
            if let Some((h, payload)) = &p.packet {
                self.recv(h, payload);
            }
            VirtioVsock::finish_packet(q, mem, p.head)?;
            any = true;
        }
        Ok(any)
    }

    fn flush_all(&mut self) {
        for key in self.dev.muxer.live() {
            self.flush_and(key, After::Poll);
        }
    }

    fn fill_rx(&mut self, queues: &mut Vec<Queue>, mem: &Mem) -> Result<bool> {
        if !VirtioVsock::rx_ready(queues) {
            return Ok(false);
        }
        let q = &mut queues[RXQ];
        let mut any = false;
        loop {
            match self.dev.rx_step(q, mem)? {
                RxStep::Done => return Ok(any),
                RxStep::Again => any = true,
                RxStep::Read(mut job) => {
                    let fd = self.fds[&job.key];
                    let (outcome, data) = self.host.borrow_mut().read(fd, job.n);
                    let f = self.dev.rx_finish(q, mem, &mut job, outcome, &data)?;
                    any |= f.used;
                    if let Some(fd) = f.close {
                        self.host.borrow_mut().close(fd);
                    }
                }
            }
        }
    }

    /// Serve the host side; true when something may be sent to the guest.
    fn on_ready(&mut self) -> bool {
        let mut done = Vec::new();
        for (p, token) in self.dev.muxer.poll_set() {
            let (readable, writable) = {
                let host = self.host.borrow();
                match host.streams.get(&p.fd) {
                    Some(s) => (
                        !s.to_device.is_empty() || s.host_closed,
                        s.to_host.len() < host.room || s.host_closed,
                    ),
                    None => (p.fd == LISTENER && !host.backlog.is_empty(), false),
                }
            };
            let ready = Ready {
                read: p.read && readable,
                write: p.write && writable,
                error: false,
            };
            match self.dev.muxer.on_ready(token, ready) {
                ReadyStep::Nothing | ReadyStep::Drain => {}
                ReadyStep::Accept => {
                    let waiting: Vec<i32> = self.host.borrow_mut().backlog.drain(..).collect();
                    for fd in waiting {
                        if !self.dev.muxer.accept(fd, true) {
                            self.host.borrow_mut().close(fd);
                        }
                    }
                }
                ReadyStep::ReadLine(i) => {
                    if self.read_line(i, p.fd) {
                        done.push(i);
                    }
                }
                ReadyStep::Flush(key) => self.flush_and(key, After::Poll),
            }
        }
        for i in done.into_iter().rev() {
            let fd = self.dev.muxer.drop_accepting(i);
            if !self.fds.values().any(|f| *f == fd) {
                self.host.borrow_mut().close(fd);
            }
        }
        self.dev.muxer.has_rx()
    }

    fn read_line(&mut self, i: usize, fd: i32) -> bool {
        loop {
            let (outcome, data) = self.host.borrow_mut().read(fd, 1);
            let got = match outcome {
                ReadOutcome::Data(_) => ByteOutcome::Byte(data[0]),
                ReadOutcome::Eof => ByteOutcome::Eof,
                ReadOutcome::NotNow => ByteOutcome::WouldBlock,
                ReadOutcome::Failed => ByteOutcome::Failed,
            };
            match self.dev.muxer.connect_byte(i, got) {
                LineStep::More => {}
                LineStep::Wait => return false,
                LineStep::Refused => return true,
                LineStep::Connect(port) => {
                    if let Ok(key) = self.dev.muxer.connect_to_guest(fd, port) {
                        self.fds.insert(key, fd);
                    }
                    return true;
                }
            }
        }
    }
}

impl VirtioDevice for Vsock {
    fn name(&self) -> &'static str {
        "virtio-vsock"
    }
    fn device_type(&self) -> u32 {
        self.dev.device_type()
    }
    fn features(&self) -> u64 {
        0
    }
    fn queue_max_sizes(&self) -> Vec<u16> {
        self.dev.queue_max_sizes()
    }
    fn read_config(&self, offset: u64, data: &mut [u8]) {
        read_config_bytes(&self.dev.config_space(), offset, data);
    }
    fn write_config(&mut self, _offset: u64, _data: &[u8]) {}
    fn activate(&mut self, _acked: u64) -> Result<()> {
        Ok(())
    }
    fn process_queue(&mut self, index: usize, queues: &mut Vec<Queue>, mem: &Mem) -> Result<bool> {
        match index {
            TXQ => {
                let tx = self.process_tx(&mut queues[TXQ], mem)?;
                self.flush_all();
                Ok(tx | self.fill_rx(queues, mem)?)
            }
            RXQ => self.fill_rx(queues, mem),
            _ => Ok(false),
        }
    }
    fn reset(&mut self) {}
}

const CID: u32 = 3;
const TX_AREA: u64 = 0x100000;
const RX_AREA: u64 = 0x200000;
const RX_BUF: u32 = (HDR_BYTES + 4096) as u32;

struct Guest {
    t: MmioTransport<Vsock, CountingIrq>,
    mem: Mem,
    rxq: DriverQueue,
    txq: DriverQueue,
    rx_addr: HashMap<u16, u64>,
    rx_slot: u64,
    tx_slot: u64,
    host: Rc<RefCell<Host>>,
}

impl Guest {
    fn new() -> Self {
        let host = Rc::new(RefCell::new(Host {
            room: 1 << 20,
            ..Host::default()
        }));
        let dev = Vsock {
            dev: VirtioVsock::new(CID, LISTENER, WAKE),
            host: host.clone(),
            fds: HashMap::new(),
        };
        let mem = guest_memory(8 << 20);
        let mut t = MmioTransport::new(dev, mem.clone(), Interrupt::new(CountingIrq::default()))
            .unwrap_or_else(|_| panic!());
        let rxq = DriverQueue::new(0x10000, 64);
        let txq = DriverQueue::new(0x20000, 64);
        let evq = DriverQueue::new(0x30000, 16);
        bring_up(&mut t, &[&rxq, &txq, &evq]);
        Guest {
            t,
            mem,
            rxq,
            txq,
            rx_addr: HashMap::new(),
            rx_slot: 0,
            tx_slot: 0,
            host,
        }
    }

    fn hdr(&self, op_: u16, src_port: u32, dst_port: u32) -> Header {
        Header {
            src_cid: CID as u64,
            dst_cid: 2,
            src_port,
            dst_port,
            len: 0,
            type_: TYPE_STREAM,
            op: op_,
            flags: 0,
            buf_alloc: 1 << 20,
            fwd_cnt: 0,
        }
    }

    /// Put a packet on the transmit queue and notify it.
    fn send(&mut self, mut h: Header, payload: &[u8]) {
        h.len = payload.len() as u32;
        let base = TX_AREA + (self.tx_slot % 4) * 0x20000;
        self.tx_slot += 1;
        self.mem.write_slice(&h.encode(), GuestAddress(base)).unwrap();
        if payload.is_empty() {
            self.txq.add(&self.mem, &[(base, HDR_BYTES as u32, false)]);
        } else {
            self.mem.write_slice(payload, GuestAddress(base + 0x100)).unwrap();
            self.txq.add(
                &self.mem,
                &[
                    (base, HDR_BYTES as u32, false),
                    (base + 0x100, payload.len() as u32, false),
                ],
            );
        }
        wr(&mut self.t, regs::QUEUE_NOTIFY, TXQ as u32);
        self.txq.used(&self.mem);
    }

    /// Offer `n` receive buffers.
    fn post_rx(&mut self, n: usize) {
        for _ in 0..n {
            let addr = RX_AREA + (self.rx_slot % 48) * 0x2000;
            self.rx_slot += 1;
            let head = self.rxq.add(&self.mem, &[(addr, RX_BUF, true)]);
            self.rx_addr.insert(head, addr);
        }
        wr(&mut self.t, regs::QUEUE_NOTIFY, RXQ as u32);
    }

    /// Packets the device returned on the receive queue.
    fn recv(&mut self) -> Vec<(Header, Vec<u8>)> {
        let mut out = Vec::new();
        for (head, len) in self.rxq.used(&self.mem) {
            if len == 0 {
                continue;
            }
            let addr = self.rx_addr[&(head as u16)];
            let mut raw = [0u8; HDR_BYTES];
            self.mem.read_slice(&mut raw, GuestAddress(addr)).unwrap();
            let h = Header::decode(&raw);
            let mut data = vec![0u8; len as usize - HDR_BYTES];
            self.mem
                .read_slice(&mut data, GuestAddress(addr + HDR_BYTES as u64))
                .unwrap();
            assert_eq!(h.len as usize, data.len());
            out.push((h, data));
        }
        out
    }

    /// One backend iteration: look at the host side and serve it.
    fn pump(&mut self) {
        for _ in 0..3 {
            let (d, queues, mem) = self.t.active_parts().unwrap();
            if d.on_ready() {
                d.fill_rx(queues, mem).unwrap();
            }
        }
    }

    /// Pump until a packet arrives on the receive queue.
    fn recv_one(&mut self) -> (Header, Vec<u8>) {
        for _ in 0..50 {
            let mut got = self.recv();
            if !got.is_empty() {
                assert_eq!(got.len(), 1, "{got:?}");
                return got.remove(0);
            }
            self.pump();
        }
        panic!("no packet arrived");
    }

    fn connections(&self) -> usize {
        self.t.device().dev.muxer.connections()
    }

    /// A host process connects and writes `line`.
    fn dial(&mut self, line: &[u8]) -> i32 {
        let mut host = self.host.borrow_mut();
        let fd = host.open();
        host.backlog.push_back(fd);
        host.streams.get_mut(&fd).unwrap().to_device.extend(line);
        fd
    }

    /// What reached the host on a stream.
    fn heard(&self, fd: i32) -> Vec<u8> {
        std::mem::take(&mut self.host.borrow_mut().streams.get_mut(&fd).unwrap().to_host)
    }

    fn say(&self, fd: i32, bytes: &[u8]) {
        let mut host = self.host.borrow_mut();
        host.streams.get_mut(&fd).unwrap().to_device.extend(bytes);
    }

    fn hang_up(&self, fd: i32) {
        self.host.borrow_mut().streams.get_mut(&fd).unwrap().host_closed = true;
    }

    fn is_closed(&self, fd: i32) -> bool {
        self.host.borrow().streams[&fd].closed
    }

    /// Host connects in and the guest accepts on `port`; returns the host stream and the host
    /// port the device chose.
    fn host_connects(&mut self, port: u32) -> (i32, u32) {
        let s = self.dial(format!("CONNECT {port}\n").as_bytes());
        self.post_rx(8);
        let (h, _) = self.recv_one();
        assert_eq!(
            (h.op, h.dst_port, h.src_cid, h.dst_cid),
            (op::REQUEST, port, 2, CID as u64)
        );
        assert!(h.src_port >= FIRST_HOST_PORT);
        self.send(self.hdr(op::RESPONSE, port, h.src_port), &[]);
        assert_eq!(
            String::from_utf8(self.heard(s)).unwrap(),
            format!("OK {}\n", h.src_port)
        );
        (s, h.src_port)
    }
}

#[test]
fn vm_t11_identity_and_config() {
    let mut g = Guest::new();
    assert_eq!(rd(&mut g.t, regs::DEVICE_ID), ID_VSOCK);
    let mut cid = [0u8; 8];
    g.t.read(regs::CONFIG, &mut cid);
    assert_eq!(u64::from_le_bytes(cid), CID as u64);
    assert_eq!(g.t.device().dev.cid(), CID);
    // An event-queue notify does nothing.
    wr(&mut g.t, regs::QUEUE_NOTIFY, EVQ as u32);
    assert!(g.t.is_active());
}

#[test]
fn vm_t11_host_initiated_connection_carries_data_both_ways() {
    let mut g = Guest::new();
    let (host, hp) = g.host_connects(5000);
    assert_eq!(g.connections(), 1);

    // Guest to host.
    g.send(g.hdr(op::RW, 5000, hp), b"hello from the guest");
    assert_eq!(g.heard(host), b"hello from the guest");

    // Host to guest.
    g.say(host, b"spec");
    g.post_rx(4);
    let (h, data) = g.recv_one();
    assert_eq!((h.op, h.src_port, h.dst_port), (op::RW, hp, 5000));
    assert_eq!(data, b"spec");
    assert_eq!(h.buf_alloc, BUF_ALLOC);
    assert_eq!(h.fwd_cnt, 20, "every packet carries the host's consumption");
}

#[test]
fn vm_t12_guest_initiated_connections() {
    let mut g = Guest::new();
    g.post_rx(8);
    // A host listener on port 5001.
    g.host.borrow_mut().listening.insert(5001);
    g.send(g.hdr(op::REQUEST, 1234, 5001), &[]);
    let got = g.recv();
    assert_eq!(got.len(), 1);
    assert_eq!(
        (got[0].0.op, got[0].0.src_port, got[0].0.dst_port),
        (op::RESPONSE, 5001, 1234)
    );
    let host = g.host.borrow().accepted[0].1;
    g.send(g.hdr(op::RW, 1234, 5001), b"exit 0\n");
    assert_eq!(g.heard(host), b"exit 0\n");
    g.say(host, b"ack");
    let (h, data) = g.recv_one();
    assert_eq!((h.op, data.as_slice()), (op::RW, &b"ack"[..]));

    // No listener: refused.
    g.send(g.hdr(op::REQUEST, 1235, 6000), &[]);
    let got = g.recv();
    assert_eq!(got[0].0.op, op::RST);

    // A duplicate REQUEST for a live connection is refused too.
    g.send(g.hdr(op::REQUEST, 1234, 5001), &[]);
    assert_eq!(g.recv()[0].0.op, op::RST);
}

#[test]
fn vm_t12_monitor_connects_to_a_guest_port() {
    let mut g = Guest::new();
    let mine = g.host.borrow_mut().open();
    let key = g.t.device_mut().dev.muxer.connect_to_guest(mine, 5002).unwrap();
    g.t.device_mut().fds.insert(key, mine);
    g.post_rx(4);
    let (h, _) = g.recv_one();
    assert_eq!((h.op, h.dst_port), (op::REQUEST, 5002));
    g.send(g.hdr(op::RESPONSE, 5002, h.src_port), &[]);
    assert!(g.heard(mine).starts_with(b"OK "));
}

#[test]
fn vm_t13_host_to_guest_respects_guest_credit() {
    let mut g = Guest::new();
    let (host, hp) = g.host_connects(5000);
    // The guest advertises an 8-byte buffer.
    let mut credit = g.hdr(op::CREDIT_UPDATE, 5000, hp);
    credit.buf_alloc = 8;
    g.send(credit, &[]);
    g.say(host, &[7u8; 20]);
    g.post_rx(8);
    let (_, data) = g.recv_one();
    assert_eq!(data.len(), 8);
    g.pump();
    assert!(g.recv().is_empty(), "no credit, no data");
    // The guest consumed 8: 8 more may come.
    credit.fwd_cnt = 8;
    g.send(credit, &[]);
    let (_, data) = g.recv_one();
    assert_eq!(data.len(), 8);
    // A credit request is answered.
    g.send(g.hdr(op::CREDIT_REQUEST, 5000, hp), &[]);
    let got = g.recv();
    assert_eq!(got[0].0.op, op::CREDIT_UPDATE);
}

#[test]
fn vm_t13_guest_to_host_credit_updates_and_overrun() {
    let mut g = Guest::new();
    g.post_rx(16);
    let (host, hp) = g.host_connects(5000);
    // Enough data to pass the update threshold: an update comes back once it reached the host.
    let chunk = vec![1u8; MAX_PKT_PAYLOAD];
    let total = (CREDIT_UPDATE_THRESHOLD as usize / MAX_PKT_PAYLOAD) + 1;
    let mut n = 0;
    for _ in 0..total {
        g.send(g.hdr(op::RW, 5000, hp), &chunk);
        g.pump();
        n += g.heard(host).len();
    }
    assert_eq!(n, total * MAX_PKT_PAYLOAD);
    g.pump();
    let updates: Vec<_> = g
        .recv()
        .into_iter()
        .filter(|(h, _)| h.op == op::CREDIT_UPDATE)
        .collect();
    assert!(!updates.is_empty());
    assert!(updates.last().unwrap().0.fwd_cnt >= CREDIT_UPDATE_THRESHOLD);

    // A guest that sends past its credit to a host that is not reading is reset.
    let mut g = Guest::new();
    g.host.borrow_mut().room = 100;
    let (_host, hp) = g.host_connects(5000);
    g.post_rx(8);
    let mut sent = 0;
    while g.connections() == 1 && sent < 64 {
        g.send(g.hdr(op::RW, 5000, hp), &chunk);
        sent += 1;
    }
    assert_eq!(g.connections(), 0);
    assert!(sent as u64 * MAX_PKT_PAYLOAD as u64 > BUF_ALLOC as u64);
    assert!(g.recv().iter().any(|(h, _)| h.op == op::RST));
}

#[test]
fn vm_t14_shutdown_and_reset_lifecycle() {
    // Host closes: the guest is told the host sends no more.
    let mut g = Guest::new();
    let (host, hp) = g.host_connects(5000);
    g.hang_up(host);
    g.post_rx(4);
    let (h, _) = g.recv_one();
    assert_eq!((h.op, h.flags), (op::SHUTDOWN, SHUTDOWN_SEND));
    // The guest closes both ways: the device answers RST and forgets the connection.
    let mut s = g.hdr(op::SHUTDOWN, 5000, hp);
    s.flags = SHUTDOWN_SEND | SHUTDOWN_RCV;
    g.send(s, &[]);
    assert_eq!(g.recv()[0].0.op, op::RST);
    assert_eq!(g.connections(), 0);

    // The guest half-closes: data already sent still reaches the host, then EOF.
    let mut g = Guest::new();
    let (host, hp) = g.host_connects(5000);
    g.send(g.hdr(op::RW, 5000, hp), b"report");
    let mut s = g.hdr(op::SHUTDOWN, 5000, hp);
    s.flags = SHUTDOWN_SEND;
    g.send(s, &[]);
    assert_eq!(g.heard(host), b"report");
    assert!(g.host.borrow().streams[&host].write_shut);
    assert_eq!(g.connections(), 1);

    // The guest resets: gone.
    g.send(g.hdr(op::RST, 5000, hp), &[]);
    assert_eq!(g.connections(), 0);
    assert!(g.is_closed(host));
}

#[test]
fn vm_t14_invalid_packets() {
    let mut g = Guest::new();
    g.post_rx(16);
    // Data for a connection that does not exist: RST.
    g.send(g.hdr(op::RW, 1, 2), b"x");
    assert_eq!(g.recv()[0].0.op, op::RST);
    // An RST for one: silence.
    g.send(g.hdr(op::RST, 1, 2), &[]);
    // A spoofed source CID or a packet not for the host: dropped without a reply.
    let mut h = g.hdr(op::REQUEST, 1, 2);
    h.src_cid = 99;
    g.send(h, &[]);
    let mut h = g.hdr(op::REQUEST, 1, 2);
    h.dst_cid = 7;
    g.send(h, &[]);
    assert!(g.recv().is_empty());
    // Not a stream socket: RST (but not in answer to an RST).
    let mut h = g.hdr(op::REQUEST, 1, 2);
    h.type_ = 2;
    g.send(h, &[]);
    assert_eq!(g.recv()[0].0.op, op::RST);
    h.op = op::RST;
    g.send(h, &[]);
    assert!(g.recv().is_empty());
    // A packet claiming more payload than it carries is dropped.
    let mut h = g.hdr(op::RW, 1, 2);
    h.len = 100;
    let base = TX_AREA;
    g.mem.write_slice(&h.encode(), GuestAddress(base)).unwrap();
    g.txq.add(&g.mem, &[(base, HDR_BYTES as u32, false)]);
    wr(&mut g.t, regs::QUEUE_NOTIFY, TXQ as u32);
    assert!(g.recv().is_empty());
    // A short header too.
    g.txq.add(&g.mem, &[(base, 10, false)]);
    wr(&mut g.t, regs::QUEUE_NOTIFY, TXQ as u32);
    assert!(g.recv().is_empty());

    // An unknown operation or a RESPONSE to an established connection tears it down.
    let (_host, hp) = g.host_connects(5000);
    g.send(g.hdr(op::RESPONSE, 5000, hp), &[]);
    assert_eq!(g.recv()[0].0.op, op::RST);
    assert_eq!(g.connections(), 0);
    let (_host, hp) = g.host_connects(5000);
    g.send(g.hdr(42, 5000, hp), &[]);
    assert_eq!(g.recv()[0].0.op, op::RST);
    // The guest refuses a host connection: the host stream closes.
    let s = g.dial(b"CONNECT 9\n");
    let (h, _) = g.recv_one();
    g.send(g.hdr(op::RST, 9, h.src_port), &[]);
    assert!(g.is_closed(s));
    assert!(g.heard(s).is_empty());
    assert_eq!(g.t.device().dev.muxer.pending_control(), 0);
}

#[test]
fn vm_t14_bad_connect_lines_are_closed() {
    let mut g = Guest::new();
    for line in [&b"HELLO 5\n"[..], b"CONNECT x\n", &[b'C'; 40][..]] {
        let s = g.dial(line);
        g.pump();
        assert!(g.is_closed(s));
        assert!(g.heard(s).is_empty());
    }
    // A host that connects and hangs up before its line.
    let s = g.dial(b"");
    g.hang_up(s);
    g.pump();
    assert_eq!(g.connections(), 0);
    // A CONNECT line with a carriage return is accepted.
    g.dial(b"CONNECT 5000\r\n");
    g.post_rx(2);
    assert_eq!(g.recv_one().0.op, op::REQUEST);
    // Receive buffers too small for a header are returned empty and skipped.
    g.rxq.add(&g.mem, &[(RX_AREA, 8, true)]);
    wr(&mut g.t, regs::QUEUE_NOTIFY, RXQ as u32);
}

#[test]
fn ready_entries_ask_for_the_right_step() {
    let mut v = VirtioVsock::new(CID, LISTENER, WAKE);
    let read = Ready { read: true, write: false, error: false };
    let write = Ready { read: false, write: true, error: false };
    let error = Ready { read: false, write: false, error: true };
    assert_eq!(v.muxer.on_ready(Token::Wake, read), ReadyStep::Drain);
    assert_eq!(v.muxer.on_ready(Token::Wake, error), ReadyStep::Nothing);
    assert_eq!(v.muxer.on_ready(Token::Listener, read), ReadyStep::Accept);
    assert_eq!(v.muxer.on_ready(Token::Listener, write), ReadyStep::Nothing);
    assert_eq!(v.muxer.on_ready(Token::Accepting(3), read), ReadyStep::ReadLine(3));
    assert_eq!(v.muxer.on_ready(Token::Accepting(3), error), ReadyStep::ReadLine(3));
    assert_eq!(v.muxer.on_ready(Token::Accepting(3), write), ReadyStep::Nothing);
    let key = v.muxer.connect_to_guest(9, 5000).unwrap_or_else(|_| panic!());
    assert_eq!(v.muxer.on_ready(Token::Conn(key), write), ReadyStep::Flush(key));
    assert_eq!(v.muxer.on_ready(Token::Conn(key), read), ReadyStep::Nothing);
    assert_eq!(v.muxer.on_ready(Token::Conn(key), error), ReadyStep::Flush(key));
    let gone = Key { host_port: 1, guest_port: 2 };
    assert_eq!(v.muxer.on_ready(Token::Conn(gone), error), ReadyStep::Nothing);
}

#[test]
fn backend_outcomes_reach_the_driver() {
    let mut r = rig(false, 8);
    assert_eq!(rd(&mut r.t, regs::INTERRUPT_STATUS), 0);
    assert!(r.t.backend_ran(Ok(false)).is_ok());
    assert_eq!(rd(&mut r.t, regs::INTERRUPT_STATUS), 0);
    assert!(r.t.backend_ran(Ok(true)).is_ok());
    assert_eq!(rd(&mut r.t, regs::INTERRUPT_STATUS), int_status::USED_RING);
    assert!(r.t.last_error().is_none());
    assert!(r.t.backend_ran(Err(VmmError::device("virtio-blk", "gone"))).is_ok());
    assert_eq!(r.t.last_error().map(|s| s.as_str()), Some("device virtio-blk: gone"));
    assert_ne!(rd(&mut r.t, regs::STATUS) & status::DEVICE_NEEDS_RESET, 0);
}

/// A queue of the device's side over the rings of `q`.
fn device_queue(q: &DriverQueue, ready: bool) -> Queue {
    let mut dq = Queue::new(q.size).unwrap();
    dq.set_desc_table_address(Some(q.desc as u32), None);
    dq.set_avail_ring_address(Some(q.avail as u32), None);
    dq.set_used_ring_address(Some(q.used as u32), None);
    dq.set_ready(ready);
    dq
}

fn popped<'a>(dq: &mut Queue, mem: &'a Mem) -> DescriptorChain<&'a Mem> {
    dq.pop_descriptor_chain(mem).unwrap()
}

#[test]
fn disk_requests_begin_as_their_buffers_say() {
    let mem = guest_memory(4 << 20);
    let disk = Block::new(8 * SECTOR_BYTES, false, "id".to_string());
    let mut q = DriverQueue::new(0x10000, 16);
    let mut dq = device_queue(&q, true);

    // A read of two sectors.
    header(&mem, T_IN, 1);
    let head = q.add(&mem, &[(HDR, 16, false), (DATA, 1024, true), (STATUS, 1, true)]);
    let c = popped(&mut dq, &mem);
    let job = disk.begin(head, c.clone().reader(&mem).ok(), c.writer(&mem).ok());
    assert!(job.action() == Action::Read { off: 512, n: 1024 });

    // Without its buffers a request is over, and its chain goes back empty.
    let mut job = disk.begin(head, None, None);
    assert!(job.action() == Action::Finish);
    job.finish(&mut dq, &mem).unwrap();
    assert_eq!(q.used(&mem), vec![(head as u32, 0)]);

    // Half a header gets a status and nothing else.
    let head = q.add(&mem, &[(HDR, 8, false), (STATUS, 1, true)]);
    let c = popped(&mut dq, &mem);
    let mut job = disk.begin(head, c.clone().reader(&mem).ok(), c.writer(&mem).ok());
    assert!(job.action() == Action::Finish);
    job.finish(&mut dq, &mem).unwrap();
    assert_eq!(q.used(&mem), vec![(head as u32, 1)]);
    assert_eq!(mem.read_obj::<u8>(GuestAddress(STATUS)).unwrap(), S_IOERR);
}

#[test]
fn queues_that_are_not_ready_offer_nothing() {
    let mem = guest_memory(4 << 20);
    let mut q = DriverQueue::new(0x10000, 16);
    q.add(&mem, &[(HDR, 16, false), (STATUS, 1, true)]);
    let mut dq = device_queue(&q, false);
    let disk = Block::new(8 * SECTOR_BYTES, false, "id".to_string());
    assert!(disk.next(&mut dq, &mem).is_none());
    assert!(VirtioVsock::next_packet(&mut dq, &mem).is_none());
    let mut v = VirtioVsock::new(3, 10, 11);
    v.muxer.connect_to_guest(12, 5002).unwrap();
    assert!(matches!(v.rx_step(&mut dq, &mem), Ok(RxStep::Done)));
}

#[test]
fn guest_packets_are_taken_from_their_buffers() {
    let mem = guest_memory(4 << 20);
    let mut q = DriverQueue::new(0x10000, 16);
    let mut dq = device_queue(&q, true);
    let h = Header {
        len: 3,
        op: op::RW,
        ..Header::default()
    };
    mem.write_slice(&h.encode(), GuestAddress(HDR)).unwrap();
    mem.write_slice(b"abc", GuestAddress(DATA)).unwrap();

    let head = q.add(&mem, &[(HDR, HDR_BYTES as u32, false), (DATA, 3, false)]);
    let mut r = popped(&mut dq, &mem).reader(&mem).ok();
    let p = VirtioVsock::packet_in(head, &mut r);
    assert_eq!((p.head, p.packet), (head, Some((h, b"abc".to_vec()))));

    // The header claims more than there is.
    let head = q.add(&mem, &[(HDR, HDR_BYTES as u32, false), (DATA, 2, false)]);
    let mut r = popped(&mut dq, &mem).reader(&mem).ok();
    let p = VirtioVsock::packet_in(head, &mut r);
    assert_eq!((p.head, p.packet), (head, None));

    let p = VirtioVsock::packet_in(9, &mut None);
    assert_eq!((p.head, p.packet), (9, None));
}

#[test]
fn receive_buffers_take_control_packets_first() {
    let mem = guest_memory(4 << 20);
    let mut q = DriverQueue::new(0x10000, 16);
    let mut dq = device_queue(&q, true);
    let mut v = VirtioVsock::new(3, 10, 11);
    v.muxer.connect_to_guest(12, 5002).unwrap();

    // A buffer that cannot be reached, then one that is too small: the packet waits.
    assert!(matches!(v.rx_into(&mut dq, &mem, 4, &mut None), Ok(RxStep::Again)));
    assert_eq!(q.used(&mem), vec![(4, 0)]);
    let head = q.add(&mem, &[(DATA, HDR_BYTES as u32 - 1, true)]);
    let mut w = popped(&mut dq, &mem).writer(&mem).ok();
    assert!(matches!(v.rx_into(&mut dq, &mem, head, &mut w), Ok(RxStep::Again)));
    assert_eq!(q.used(&mem), vec![(head as u32, 0)]);

    let head = q.add(&mem, &[(DATA, HDR_BYTES as u32, true)]);
    let mut w = popped(&mut dq, &mem).writer(&mem).ok();
    assert!(matches!(v.rx_into(&mut dq, &mem, head, &mut w), Ok(RxStep::Again)));
    assert_eq!(q.used(&mem), vec![(head as u32, HDR_BYTES as u32)]);
    let mut b = [0u8; HDR_BYTES];
    mem.read_slice(&mut b, GuestAddress(DATA)).unwrap();
    let h = Header::decode(&b);
    assert_eq!((h.op, h.dst_port), (op::REQUEST, 5002));

    // Nothing waits any more.
    q.add(&mem, &[(DATA, HDR_BYTES as u32, true)]);
    assert!(matches!(v.rx_step(&mut dq, &mem), Ok(RxStep::Done)));
}

#[test]
fn the_chain_that_goes_back_is_the_chain_that_was_taken() {
    let mem = guest_memory(4 << 20);
    let mut q = DriverQueue::new(0x10000, 16);
    let mut dq = device_queue(&q, true);
    let disk = Block::new(8 * SECTOR_BYTES, false, "id".to_string());
    header(&mem, T_IN, 1);
    let first = q.add(&mem, &[(HDR, 16, false), (DATA, 512, true), (STATUS, 1, true)]);
    let second = q.add(&mem, &[(HDR, 16, false), (DATA, 1024, true), (STATUS, 1, true)]);
    assert_eq!((first, second), (0, 3));
    let mut a = disk.next(&mut dq, &mem).expect("the first request");
    let mut b = disk.next(&mut dq, &mem).expect("the second request");
    assert!(b.action() == Action::Read { off: 512, n: 1024 });
    b.on_read(Some(&[7; 1024]));
    b.finish(&mut dq, &mem).unwrap();
    a.on_read(Some(&[7; 512]));
    a.finish(&mut dq, &mem).unwrap();
    assert_eq!(q.used(&mem), vec![(second as u32, 1025), (first as u32, 513)]);

    let h = Header {
        len: 3,
        op: op::RW,
        ..Header::default()
    };
    mem.write_slice(&h.encode(), GuestAddress(HDR)).unwrap();
    mem.write_slice(b"abc", GuestAddress(DATA)).unwrap();
    let head = q.add(&mem, &[(HDR, HDR_BYTES as u32, false), (DATA, 3, false)]);
    let p = VirtioVsock::next_packet(&mut dq, &mem).expect("a packet");
    assert_eq!((p.head, p.packet), (head, Some((h, b"abc".to_vec()))));

    let mut v = VirtioVsock::new(3, 10, 11);
    v.muxer.connect_to_guest(12, 5002).unwrap();
    let head = q.add(&mem, &[(DATA, HDR_BYTES as u32, true)]);
    assert!(matches!(v.rx_step(&mut dq, &mem), Ok(RxStep::Again)));
    assert_eq!(q.used(&mem), vec![(head as u32, HDR_BYTES as u32)]);
}

#[test]
fn a_used_ring_takes_back_what_lies_in_memory() {
    // The ring ends one entry behind the end of memory: the second return finds no room.
    let mem = guest_memory(0x20000);
    let mut dq = Queue::new(4).unwrap();
    dq.set_used_ring_address(Some(0x20000 - 4 - 8), None);
    VirtioVsock::finish_packet(&mut dq, &mem, 3).expect("one fits");
    assert_eq!(mem.read_obj::<u32>(GuestAddress(0x20000 - 8)).unwrap(), 3);
    let e = VirtioVsock::finish_packet(&mut dq, &mem, 2).expect_err("no room").to_string();
    assert!(e.contains("used ring: "), "{e}");
    assert_eq!(dq.next_used(), 1);

    // A whole ring takes every chain, round and round, and no head the queue does not have.
    dq.set_used_ring_address(Some(0x20000 - 4 - 8 * 4), None);
    for head in [0, 1, 2, 3, 3, 2] {
        VirtioVsock::finish_packet(&mut dq, &mem, head).expect("a whole ring");
    }
    assert_eq!(dq.next_used(), 7);
    assert!(VirtioVsock::finish_packet(&mut dq, &mem, 4).is_err());
    assert_eq!(dq.next_used(), 7);

    // The index cannot be stored at an odd distance from the start of its region; the entry is
    // written before that shows.
    let odd = Mem::from_ranges(&[(GuestAddress(0x1001), 0x1000)]).unwrap();
    let mut dq = Queue::new(4).unwrap();
    dq.set_used_ring_address(Some(0x1100), None);
    assert!(VirtioVsock::finish_packet(&mut dq, &odd, 0).is_err());
    assert_eq!(dq.next_used(), 1);

    // The entry may lie in two regions that touch, the index may not.
    let two = Mem::from_ranges(&[
        (GuestAddress(0), 0x1008),
        (GuestAddress(0x1008), 0x1000),
    ])
    .unwrap();
    let mut dq = Queue::new(4).unwrap();
    dq.set_used_ring_address(Some(0x1000), None);
    VirtioVsock::finish_packet(&mut dq, &two, 1).expect("across");
    let split = Mem::from_ranges(&[
        (GuestAddress(0), 0x1003),
        (GuestAddress(0x1003), 0x1000),
    ])
    .unwrap();
    assert!(VirtioVsock::finish_packet(&mut dq, &split, 1).is_err());
}

#[test]
fn a_packet_whose_buffer_cannot_be_returned_is_an_error() {
    let mem = guest_memory(4 << 20);
    let mut q = DriverQueue::new(0x10000, 16);
    let mut dq = device_queue(&q, true);
    dq.set_used_ring_address(Some(0x800_0000), None);
    let mut v = VirtioVsock::new(3, 10, 11);
    v.muxer.connect_to_guest(12, 5002).unwrap();
    q.add(&mem, &[(DATA, HDR_BYTES as u32, true)]);
    let e = match v.rx_step(&mut dq, &mem) {
        Err(e) => e.to_string(),
        Ok(_) => panic!("there is no used ring"),
    };
    assert!(e.contains("used ring: "), "{e}");
    // The packet is gone with its buffer.
    dq.set_used_ring_address(Some(q.used as u32), None);
    q.add(&mem, &[(DATA, HDR_BYTES as u32, true)]);
    assert!(matches!(v.rx_step(&mut dq, &mem), Ok(RxStep::Done)));
}
