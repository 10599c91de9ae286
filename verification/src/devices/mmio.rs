//! The `virtio-mmio` transport, version 2 (virtio 1.2, 4.2): the register state machine a
//! guest driver programs, wrapped around any [`VirtioDevice`].
//!
//! The rules the state machine keeps:
//! - features are negotiated only between ACKNOWLEDGE|DRIVER and FEATURES_OK, and FEATURES_OK
//!   is refused (not latched) when the driver accepted a feature the device did not offer or
//!   did not accept `VIRTIO_F_VERSION_1`;
//! - queue registers are writable only after FEATURES_OK and before DRIVER_OK, and only for a
//!   queue that is not ready;
//! - DRIVER_OK activates the device only if every ready queue is valid in guest memory; if
//!   activation or a later request fails, the device sets DEVICE_NEEDS_RESET and raises a
//!   configuration interrupt instead of taking the monitor down;
//! - writing 0 to Status resets the device and every queue.

pub mod laws;
pub mod regs;

use super::queue::{all_words, halves, mem_ranges, queue_error_text, queue_is_valid, queue_max_size,
    queue_new, queue_ready, queue_reset, queue_set_avail, queue_set_desc, queue_set_ready,
    queue_set_size, queue_set_used, queue_words, rings_covered, size_ok, Mem};
use super::virtio::{config_read, int_status, raise_came_to, raise_failed, raise_may, raise_tried, status, Interrupt, VirtioDevice,
    F_VERSION_1};
use super::{zero_fill, Device, Irq};
use crate::bytes::{le_at, le_bytes, lemma_le_bytes_len, push_le, u32_at};
use crate::error::{Result, VmmError, VmmErrorView};
use crate::text::{cat2, cat3, dec, dec_text};
use vstd::prelude::*;

verus! {

/// "virt", little-endian.
pub const MAGIC_VALUE: u32 = 0x7472_6976;

/// Vendor id reported by every Moruna device: "MRNA".
pub const VENDOR: u32 = 0x414e_524d;

/// Size of one device's MMIO window.
pub const WINDOW_BYTES: u64 = 0x1000;

/// The registers of a transport.
#[verifier::ext_equal]
pub struct RegsView {
    /// What each queue was programmed with.
    pub queues: Seq<Seq<u64>>,
    pub queue_sel: u32,
    pub device_features_sel: u32,
    pub driver_features_sel: u32,
    pub driver_features: u64,
    pub status: u32,
    pub config_generation: u32,
    pub active: bool,
    /// The failure that set DEVICE_NEEDS_RESET.
    pub last_error: Option<Seq<char>>,
    /// The pending interrupt reasons.
    pub pending: u32,
}

/// A queue as it is after a reset.
pub open spec fn fresh_queue(w: Seq<u64>) -> Seq<u64> {
    seq![w[0], w[0], 0, 0, 0, 0]
}

/// A queue after its address at position `at` was written, which must be a multiple of `align`.
pub open spec fn address_set(
    w: Seq<u64>,
    at: int,
    align: int,
    low: Option<u32>,
    high: Option<u32>,
) -> Seq<u64> {
    if halves(w[at], low, high) as int % align == 0 {
        w.update(at, halves(w[at], low, high))
    } else {
        w
    }
}

impl RegsView {
    pub open spec fn features_ok(self) -> bool {
        self.status & status::FEATURES_OK != 0
    }

    pub open spec fn driver_ok(self) -> bool {
        self.status & status::DRIVER_OK != 0
    }

    /// Whether the queue registers may be written.
    pub open spec fn queue_writable(self) -> bool {
        &&& self.features_ok()
        &&& !self.driver_ok()
        &&& self.queue_sel < self.queues.len()
        &&& self.queues[self.queue_sel as int][2] != 1
    }

    /// Whether the driver features may be written.
    pub open spec fn feature_phase(self) -> bool {
        self.status & status::DRIVER != 0 && !self.features_ok()
    }

    /// The selected queue set to `w`.
    pub open spec fn with_queue(self, w: Seq<u64>) -> RegsView {
        RegsView { queues: self.queues.update(self.queue_sel as int, w), ..self }
    }

    /// The selected queue.
    pub open spec fn queue(self) -> Seq<u64> {
        self.queues[self.queue_sel as int]
    }

    /// The registers after `v` was written at `offset`, for every register but Status and
    /// QueueNotify.
    pub open spec fn written(self, offset: u64, v: u32) -> RegsView {
        if offset == regs::DEVICE_FEATURES_SEL {
            RegsView { device_features_sel: v, ..self }
        } else if offset == regs::DRIVER_FEATURES_SEL {
            RegsView { driver_features_sel: v, ..self }
        } else if offset == regs::DRIVER_FEATURES {
            if self.feature_phase() && self.driver_features_sel == 0 {
                RegsView { driver_features: halves(self.driver_features, Some(v), None), ..self }
            } else if self.feature_phase() && self.driver_features_sel == 1 {
                RegsView { driver_features: halves(self.driver_features, None, Some(v)), ..self }
            } else {
                self
            }
        } else if offset == regs::QUEUE_SEL {
            RegsView { queue_sel: v, ..self }
        } else if offset == regs::QUEUE_READY {
            if self.features_ok() && !self.driver_ok() && self.queue_sel < self.queues.len() {
                self.with_queue(self.queue().update(2, if v == 1 { 1u64 } else { 0u64 }))
            } else {
                self
            }
        } else if offset == regs::INTERRUPT_ACK {
            RegsView { pending: self.pending & !v, ..self }
        } else if !self.queue_writable() {
            self
        } else if offset == regs::QUEUE_NUM {
            let n = (v % 0x1_0000) as u16;
            if size_ok(n, self.queue()[0]) {
                self.with_queue(self.queue().update(1, n as u64))
            } else {
                self
            }
        } else if offset == regs::QUEUE_DESC_LOW {
            self.with_queue(address_set(self.queue(), 3, 16, Some(v), None))
        } else if offset == regs::QUEUE_DESC_HIGH {
            self.with_queue(address_set(self.queue(), 3, 16, None, Some(v)))
        } else if offset == regs::QUEUE_DRIVER_LOW {
            self.with_queue(address_set(self.queue(), 4, 2, Some(v), None))
        } else if offset == regs::QUEUE_DRIVER_HIGH {
            self.with_queue(address_set(self.queue(), 4, 2, None, Some(v)))
        } else if offset == regs::QUEUE_DEVICE_LOW {
            self.with_queue(address_set(self.queue(), 5, 4, Some(v), None))
        } else if offset == regs::QUEUE_DEVICE_HIGH {
            self.with_queue(address_set(self.queue(), 5, 4, None, Some(v)))
        } else {
            self
        }
    }

    /// The registers after a reset; the configuration generation goes on counting.
    pub open spec fn after_reset(self) -> RegsView {
        RegsView {
            queues: Seq::new(self.queues.len(), |i: int| fresh_queue(self.queues[i])),
            queue_sel: 0,
            device_features_sel: 0,
            driver_features_sel: 0,
            driver_features: 0,
            status: 0,
            config_generation: self.config_generation,
            active: false,
            last_error: None,
            pending: 0,
        }
    }

    /// The registers after the configuration changed.
    pub open spec fn config_changed(self) -> RegsView {
        RegsView {
            config_generation: ((self.config_generation + 1) % 0x1_0000_0000) as u32,
            pending: self.pending | int_status::CONFIG_CHANGE,
            ..self
        }
    }

    /// The registers after the device broke.
    pub open spec fn failed(self, msg: Seq<char>) -> RegsView {
        RegsView {
            last_error: Some(msg),
            status: self.status | status::DEVICE_NEEDS_RESET,
            active: false,
            ..self
        }.config_changed()
    }

    /// Whether the accepted features let FEATURES_OK latch: all of them offered, the modern
    /// interface among them.
    pub open spec fn features_accepted(self, offered: u64) -> bool {
        self.driver_features & !offered == 0 && self.driver_features & F_VERSION_1 != 0
    }

    /// Whether writing `v` to Status asks for features that cannot be accepted.
    pub open spec fn features_refused(self, offered: u64, v: u32) -> bool {
        v & !self.status & status::FEATURES_OK != 0 && !self.features_accepted(offered)
    }

    /// Whether writing `v` to Status activates the device.
    pub open spec fn activates(self, offered: u64, v: u32) -> bool {
        !self.features_refused(offered, v) && v & !self.status & status::DRIVER_OK != 0 && v
            & status::FEATURES_OK != 0
    }

    /// The registers after `v`, not 0, was written to Status, before any activation.
    pub open spec fn status_written(self, offered: u64, v: u32) -> RegsView {
        if self.features_refused(offered, v) {
            RegsView { status: v & !status::FEATURES_OK, ..self }
        } else {
            RegsView { status: v, ..self }
        }
    }

    /// Whether queue `i` keeps the device from being activated: ready but not in guest memory.
    pub open spec fn broken_queue(self, ranges: Seq<(u64, u64)>, i: int) -> bool {
        self.queues[i][2] == 1 && !rings_covered(self.queues[i], ranges)
    }

    /// Whether some queue is broken.
    pub open spec fn any_broken(self, ranges: Seq<(u64, u64)>) -> bool {
        exists|i: int| 0 <= i < self.queues.len() && #[trigger] self.broken_queue(ranges, i)
    }

    /// Whether `i` is the first broken queue.
    pub open spec fn first_broken(self, ranges: Seq<(u64, u64)>, i: int) -> bool {
        &&& 0 <= i < self.queues.len()
        &&& self.broken_queue(ranges, i)
        &&& forall|j: int| 0 <= j < i ==> !#[trigger] self.broken_queue(ranges, j)
    }

    /// Whether a notification of queue `i` reaches the device: an active one, for a queue that
    /// is ready.
    pub open spec fn takes_notice(self, i: u32) -> bool {
        self.active && i < self.queues.len() && self.queues[i as int][2] == 1
    }

    /// The registers with a used-buffer interrupt pending.
    pub open spec fn told(self) -> RegsView {
        RegsView { pending: self.pending | int_status::USED_RING, ..self }
    }

    /// What reading the register at `offset` gives.
    pub open spec fn read(self, id: u32, offered: u64, offset: u64) -> u32 {
        let there = self.queue_sel < self.queues.len();
        if offset == regs::MAGIC {
            MAGIC_VALUE
        } else if offset == regs::VERSION {
            2
        } else if offset == regs::DEVICE_ID {
            id
        } else if offset == regs::VENDOR_ID {
            VENDOR
        } else if offset == regs::DEVICE_FEATURES {
            if self.device_features_sel == 0 {
                (offered % 0x1_0000_0000) as u32
            } else if self.device_features_sel == 1 {
                (offered / 0x1_0000_0000) as u32
            } else {
                0
            }
        } else if offset == regs::QUEUE_NUM_MAX {
            if there {
                self.queue()[0] as u32
            } else {
                0
            }
        } else if offset == regs::QUEUE_READY {
            if there && self.queue()[2] == 1 {
                1
            } else {
                0
            }
        } else if offset == regs::INTERRUPT_STATUS {
            self.pending
        } else if offset == regs::STATUS {
            self.status
        } else if offset == regs::SHM_LEN_LOW || offset == regs::SHM_LEN_HIGH {
            0xffff_ffff
        } else if offset == regs::CONFIG_GENERATION {
            self.config_generation
        } else {
            0
        }
    }
}

/// A virtio device on the `virtio-mmio` transport.
pub struct MmioTransport<D: VirtioDevice, I: Irq> {
    device: D,
    mem: Mem,
    interrupt: Interrupt<I>,
    queues: Vec<virtio_queue::Queue>,
    queue_sel: u32,
    device_features_sel: u32,
    driver_features_sel: u32,
    driver_features: u64,
    status: u32,
    config_generation: u32,
    active: bool,
    last_error: Option<String>,
}

/// The text of an error that may be there.
pub open spec fn text_view(s: Option<String>) -> Option<Seq<char>> {
    match s {
        Some(t) => Some(t@),
        None => None,
    }
}

impl<D: VirtioDevice, I: Irq> MmioTransport<D, I> {
    /// The registers.
    pub closed spec fn regs(&self) -> RegsView {
        RegsView {
            queues: all_words(self.queues@),
            queue_sel: self.queue_sel,
            device_features_sel: self.device_features_sel,
            driver_features_sel: self.driver_features_sel,
            driver_features: self.driver_features,
            status: self.status,
            config_generation: self.config_generation,
            active: self.active,
            last_error: text_view(self.last_error),
            pending: self.interrupt.pending(),
        }
    }

    /// The device behind the transport.
    pub closed spec fn dev(&self) -> D {
        self.device
    }

    /// The queues themselves.
    pub closed spec fn rings(&self) -> Seq<virtio_queue::Queue> {
        self.queues@
    }

    /// Guest memory.
    pub closed spec fn memory(&self) -> Mem {
        self.mem
    }

    /// The regions of guest memory.
    pub open spec fn ranges(&self) -> Seq<(u64, u64)> {
        mem_ranges(self.memory())
    }

    /// The interrupt line.
    pub closed spec fn line(&self) -> I {
        self.interrupt.line()
    }

    /// The device is consistent.
    pub closed spec fn ok(&self) -> bool {
        self.device.wf()
    }

    /// The features the transport offers.
    pub open spec fn offered_features(&self) -> u64 {
        self.dev().offers() | F_VERSION_1
    }

    /// Wrap `device`, which will read and write `mem` and interrupt through `interrupt`.
    pub fn new(device: D, mem: Mem, interrupt: Interrupt<I>) -> (r: Result<Self>)
        requires
            device.wf(),
        ensures
            r is Ok <==> forall|i: int|
                0 <= i < device.queue_sizes().len() ==> size_ok(
                    #[trigger] device.queue_sizes()[i],
                    32768,
                ),
            r matches Ok(t) ==> {
                &&& t.ok()
                &&& t.dev() == device
                &&& t.line() == interrupt.line()
                &&& t.memory() == mem
                &&& t.regs() == (RegsView {
                    queues: Seq::new(
                        device.queue_sizes().len(),
                        |i: int|
                            seq![
                                device.queue_sizes()[i] as u64,
                                device.queue_sizes()[i] as u64,
                                0,
                                0,
                                0,
                                0,
                            ],
                    ),
                    queue_sel: 0,
                    device_features_sel: 0,
                    driver_features_sel: 0,
                    driver_features: 0,
                    status: 0,
                    config_generation: 0,
                    active: false,
                    last_error: None,
                    pending: interrupt.pending(),
                })
            },
            r matches Err(e) ==> exists|why: Seq<char>|
                e@ == (VmmErrorView::Device {
                    device: device.label(),
                    msg: #[trigger] ("queue: "@ + why),
                }),
    {
        let sizes = device.queue_max_sizes();
        let ghost want: Seq<Seq<u64>> = Seq::new(
            device.queue_sizes().len(),
            |i: int| seq![sizes@[i] as u64, sizes@[i] as u64, 0, 0, 0, 0],
        );
        let mut queues: Vec<virtio_queue::Queue> = Vec::new();
        let mut i: usize = 0;
        while i < sizes.len()
            invariant
                i <= sizes@.len(),
                sizes@ == device.queue_sizes(),
                want == Seq::new(
                    device.queue_sizes().len(),
                    |i: int| seq![sizes@[i] as u64, sizes@[i] as u64, 0, 0, 0, 0],
                ),
                queues@.len() == i,
                forall|j: int| 0 <= j < i ==> size_ok(#[trigger] sizes@[j], 32768),
                forall|j: int| 0 <= j < i ==> queue_words(#[trigger] queues@[j]) == want[j],
            decreases sizes@.len() - i,
        {
            match queue_new(sizes[i]) {
                Ok(q) => {
                    queues.push(q);
                },
                Err(e) => {
                    assert(!size_ok(device.queue_sizes()[i as int], 32768));
                    let why = queue_error_text(&e);
                    let msg = cat2("queue: ", &why);
                    assert(msg@ == "queue: "@ + why@);
                    return Err(VmmError::device(device.name(), &msg));
                },
            }
            i += 1;
        }
        assert(all_words(queues@) =~= want);
        Ok(
            MmioTransport {
                device,
                mem,
                interrupt,
                queues,
                queue_sel: 0,
                device_features_sel: 0,
                driver_features_sel: 0,
                driver_features: 0,
                status: 0,
                config_generation: 0,
                active: false,
                last_error: None,
            },
        )
    }

    /// The wrapped device.
    pub fn device(&self) -> (d: &D)
        ensures
            *d == self.dev(),
    {
        &self.device
    }

    /// Mutable access to the device outside the queue path (resize requests).
    pub fn device_mut(&mut self) -> (d: &mut D)
        ensures
            *d == old(self).dev(),
            final(self).dev() == *final(d),
            final(self).line() == old(self).line(),
            final(self).rings() == old(self).rings(),
            final(self).regs() == old(self).regs(),
            final(self).memory() == old(self).memory(),
            final(self).ok() == final(d).wf(),
    {
        &mut self.device
    }

    /// The device status register.
    pub fn status(&self) -> (s: u32)
        ensures
            s == self.regs().status,
    {
        self.status
    }

    /// True between a successful DRIVER_OK and the next reset.
    pub fn is_active(&self) -> (r: bool)
        ensures
            r == self.regs().active,
    {
        self.active
    }

    /// The failure that set DEVICE_NEEDS_RESET, if any.
    pub fn last_error(&self) -> (r: Option<&String>)
        ensures
            r matches Some(s) ==> self.regs().last_error == Some(s@),
            r is None ==> self.regs().last_error is None,
    {
        match &self.last_error {
            Some(s) => Some(s),
            None => None,
        }
    }

    /// The device's interrupt.
    pub fn interrupt(&self) -> (i: &Interrupt<I>)
        ensures
            i.pending() == self.regs().pending,
            i.line() == self.line(),
    {
        &self.interrupt
    }

    /// The queues.
    pub fn queues(&self) -> (q: &Vec<virtio_queue::Queue>)
        ensures
            q@ == self.rings(),
            all_words(q@) == self.regs().queues,
    {
        &self.queues
    }

    /// The features the driver accepted so far.
    pub fn driver_features(&self) -> (f: u64)
        ensures
            f == self.regs().driver_features,
    {
        self.driver_features
    }

    /// The configuration space changed underneath the guest: bump the generation and raise
    /// a configuration interrupt.
    pub fn config_changed(&mut self) -> (r: Result<()>)
        ensures
            final(self).regs() == old(self).regs().config_changed(),
            raise_came_to(old(self).line(), final(self).line(), r),
            final(self).dev() == old(self).dev(),
            final(self).rings() == old(self).rings(),
            final(self).memory() == old(self).memory(),
            final(self).ok() == old(self).ok(),
            r matches Err(e) ==> raise_failed(e@),
    {
        self.config_generation = self.config_generation.wrapping_add(1);
        self.interrupt.signal_config()
    }

    /// A backend thread worked on the device, and `outcome` is what came of it: where it returned
    /// used buffers the guest is interrupted, and a failure marks the device broken, as a failed
    /// request does.
    pub fn backend_ran(&mut self, outcome: Result<bool>) -> (r: Result<()>)
        ensures
            final(self).dev() == old(self).dev(),
            final(self).rings() == old(self).rings(),
            final(self).memory() == old(self).memory(),
            final(self).ok() == old(self).ok(),
            final(self).regs() == (match outcome {
                Ok(true) => RegsView {
                    pending: old(self).regs().pending | int_status::USED_RING,
                    ..old(self).regs()
                },
                Ok(false) => old(self).regs(),
                Err(e) => old(self).regs().failed(e@.text()),
            }),
            r is Err ==> outcome == Ok::<bool, VmmError>(true),
            match outcome {
                Ok(true) => raise_came_to(old(self).line(), final(self).line(), r),
                Ok(false) => final(self).line() == old(self).line(),
                Err(_) => raise_tried(old(self).line(), final(self).line()),
            },
            r matches Err(e) ==> raise_failed(e@),
    {
        match outcome {
            Ok(true) => self.interrupt.signal_used(),
            Ok(false) => Ok(()),
            Err(e) => {
                let msg = e.to_string();
                self.fail(msg);
                Ok(())
            },
        }
    }

    /// Mark the device broken. The guest learns of the failure through the configuration
    /// interrupt; if that cannot be raised either there is nothing further to tell it.
    pub fn fail(&mut self, msg: String)
        ensures
            final(self).regs() == old(self).regs().failed(msg@),
            final(self).dev() == old(self).dev(),
            raise_tried(old(self).line(), final(self).line()),
            final(self).rings() == old(self).rings(),
            final(self).memory() == old(self).memory(),
            final(self).ok() == old(self).ok(),
    {
        self.last_error = Some(msg);
        self.status = self.status | status::DEVICE_NEEDS_RESET;
        self.active = false;
        let _ = self.config_changed();
    }

    fn reset(&mut self)
        requires
            old(self).ok(),
        ensures
            final(self).ok(),
            final(self).regs() == old(self).regs().after_reset(),
            old(self).dev().resets(&final(self).dev()),
            final(self).line() == old(self).line(),
            final(self).memory() == old(self).memory(),
    {
        let ghost before = self.regs();
        self.device.reset();
        let n = self.queues.len();
        let mut i: usize = 0;
        while i < n
            invariant
                i <= n,
                n == self.queues@.len(),
                n == before.queues.len(),
                self.device.wf(),
                old(self).dev().resets(&self.device),
                self.interrupt == old(self).interrupt,
                self.mem == old(self).mem,
                self.config_generation == before.config_generation,
                forall|j: int|
                    0 <= j < i ==> queue_words(#[trigger] self.queues@[j]) == fresh_queue(
                        before.queues[j],
                    ),
                forall|j: int|
                    i <= j < n ==> queue_words(#[trigger] self.queues@[j]) == before.queues[j],
            decreases n - i,
        {
            queue_reset(&mut self.queues[i]);
            i += 1;
        }
        self.queue_sel = 0;
        self.device_features_sel = 0;
        self.driver_features_sel = 0;
        self.driver_features = 0;
        self.status = 0;
        self.active = false;
        self.last_error = None;
        self.interrupt.clear();
        assert(self.regs() =~= before.after_reset());
    }

    fn offered(&self) -> (f: u64)
        ensures
            f == self.offered_features(),
    {
        self.device.features() | F_VERSION_1
    }

    fn queue_writable(&self) -> (r: bool)
        ensures
            r == self.regs().queue_writable(),
    {
        let i = self.queue_sel as usize;
        self.status & status::FEATURES_OK != 0 && self.status & status::DRIVER_OK == 0 && i
            < self.queues.len() && !queue_ready(&self.queues[i])
    }

    fn set_status(&mut self, v: u32)
        requires
            old(self).ok(),
        ensures
            final(self).ok(),
            final(self).memory() == old(self).memory(),
            status_reached(old(self), v, final(self)),
    {
        if v == 0 {
            self.reset();
            return;
        }
        let ghost before = self.regs();
        let ghost ranges = self.ranges();
        let added: u32 = v & !self.status;
        if added & status::FEATURES_OK != 0 {
            let offered = self.offered();
            if self.driver_features & !offered != 0 || self.driver_features & F_VERSION_1 == 0 {
                // Refused: FEATURES_OK is not latched and the driver sees it missing.
                self.status = v & !status::FEATURES_OK;
                return;
            }
        }
        self.status = v;
        if added & status::DRIVER_OK != 0 && self.status & status::FEATURES_OK != 0 {
            proof {
                let now = self.regs();
                assert forall|i: int|
                    #![trigger now.broken_queue(ranges, i)]
                    #![trigger before.broken_queue(ranges, i)]
                    now.broken_queue(ranges, i) == before.broken_queue(ranges, i) by {}
                assert(now.any_broken(ranges) == before.any_broken(ranges));
            }
            self.activate();
        }
    }

    fn activate(&mut self)
        requires
            old(self).ok(),
        ensures
            final(self).ok(),
            final(self).memory() == old(self).memory(),
            started(old(self), old(self).regs(), final(self)),
    {
        let ghost before = self.regs();
        let ghost ranges = self.ranges();
        let n = self.queues.len();
        let mut i: usize = 0;
        while i < n
            invariant
                i <= n,
                n == self.queues@.len(),
                *self == *old(self),
                before == self.regs(),
                ranges == self.ranges(),
                forall|j: int| 0 <= j < i ==> !#[trigger] before.broken_queue(ranges, j),
                self.ok(),
            decreases n - i,
        {
            if queue_ready(&self.queues[i]) && !queue_is_valid(&self.queues[i], &self.mem) {
                assert(before.broken_queue(ranges, i as int));
                let number = dec_text(i as u64);
                let msg = cat3("queue ", &number, " is not valid in guest memory");
                self.fail(msg);
                assert(before.first_broken(ranges, i as int));
                return;
            }
            assert(!before.broken_queue(ranges, i as int));
            i += 1;
        }
        assert(!before.any_broken(ranges));
        let outcome = self.device.activate(self.driver_features);
        match outcome {
            Ok(()) => {
                self.active = true;
            },
            Err(e) => {
                let msg = e.to_string();
                self.fail(msg);
            },
        }
        assert(old(self).dev().starts(&self.dev(), before.driver_features, outcome));
    }

    fn notify(&mut self, index: u32)
        requires
            old(self).ok(),
        ensures
            final(self).ok(),
            final(self).memory() == old(self).memory(),
            notify_reached(old(self), index, final(self)),
    {
        if !self.active {
            return;
        }
        let i = index as usize;
        if i >= self.queues.len() || !queue_ready(&self.queues[i]) {
            return;
        }
        let outcome = self.device.process_queue(i, &mut self.queues, &self.mem);
        let ghost before = *old(self);
        assert(self.regs() == before.regs() && self.line() == before.line());
        match outcome {
            Ok(true) => {
                match self.interrupt.signal_used() {
                    Ok(()) => {
                        assert(self.regs() == before.regs().told());
                    },
                    Err(e) => {
                        let ghost mid = self.line();
                        assert(signal_failed(before.line(), mid, e@));
                        assert(self.regs() == before.regs().told());
                        let msg = e.to_string();
                        self.fail(msg);
                    },
                }
            },
            Ok(false) => {},
            Err(e) => {
                let msg = e.to_string();
                self.fail(msg);
            },
        }
        assert(before.dev().serves(
            &self.dev(),
            before.memory(),
            i,
            before.rings(),
            self.rings(),
            outcome,
        ));
    }

    fn write_reg(&mut self, offset: u64, v: u32)
        requires
            old(self).ok(),
        ensures
            final(self).ok(),
            final(self).memory() == old(self).memory(),
            reg_write(old(self), offset, v, final(self)),
    {
        let ghost before = self.regs();
        let i = self.queue_sel as usize;
        if offset == regs::DEVICE_FEATURES_SEL {
            self.device_features_sel = v;
        } else if offset == regs::DRIVER_FEATURES_SEL {
            self.driver_features_sel = v;
        } else if offset == regs::DRIVER_FEATURES {
            let feature_phase = self.status & status::DRIVER != 0 && self.status
                & status::FEATURES_OK == 0;
            if feature_phase {
                if self.driver_features_sel == 0 {
                    self.driver_features = self.driver_features / 0x1_0000_0000 * 0x1_0000_0000
                        + v as u64;
                } else if self.driver_features_sel == 1 {
                    self.driver_features = v as u64 * 0x1_0000_0000 + self.driver_features
                        % 0x1_0000_0000;
                }
            }
        } else if offset == regs::QUEUE_SEL {
            self.queue_sel = v;
        } else if offset == regs::QUEUE_READY {
            let fo = self.status & status::FEATURES_OK != 0;
            let dok = self.status & status::DRIVER_OK != 0;
            if i < self.queues.len() && fo && !dok {
                queue_set_ready(&mut self.queues[i], v == 1);
            }
        } else if offset == regs::QUEUE_NOTIFY {
            self.notify(v);
            return;
        } else if offset == regs::INTERRUPT_ACK {
            self.interrupt.ack(v);
        } else if offset == regs::STATUS {
            self.set_status(v);
            return;
        } else if self.queue_writable() {
            // Writes to read-only registers, and queue writes outside their phase, are ignored
            // as the specification requires of a device.
            if offset == regs::QUEUE_NUM {
                queue_set_size(&mut self.queues[i], (v % 0x1_0000) as u16);
            } else if offset == regs::QUEUE_DESC_LOW {
                queue_set_desc(&mut self.queues[i], Some(v), None);
            } else if offset == regs::QUEUE_DESC_HIGH {
                queue_set_desc(&mut self.queues[i], None, Some(v));
            } else if offset == regs::QUEUE_DRIVER_LOW {
                queue_set_avail(&mut self.queues[i], Some(v), None);
            } else if offset == regs::QUEUE_DRIVER_HIGH {
                queue_set_avail(&mut self.queues[i], None, Some(v));
            } else if offset == regs::QUEUE_DEVICE_LOW {
                queue_set_used(&mut self.queues[i], Some(v), None);
            } else if offset == regs::QUEUE_DEVICE_HIGH {
                queue_set_used(&mut self.queues[i], None, Some(v));
            }
        }
        assert(self.regs() =~= before.written(offset, v));
    }

    fn read_reg(&self, offset: u64) -> (v: u32)
        ensures
            v == self.regs().read(self.dev().id(), self.offered_features(), offset),
    {
        let i = self.queue_sel as usize;
        if offset == regs::MAGIC {
            MAGIC_VALUE
        } else if offset == regs::VERSION {
            2
        } else if offset == regs::DEVICE_ID {
            self.device.device_type()
        } else if offset == regs::VENDOR_ID {
            VENDOR
        } else if offset == regs::DEVICE_FEATURES {
            let offered = self.offered();
            if self.device_features_sel == 0 {
                (offered % 0x1_0000_0000) as u32
            } else if self.device_features_sel == 1 {
                (offered / 0x1_0000_0000) as u32
            } else {
                0
            }
        } else if offset == regs::QUEUE_NUM_MAX {
            if i < self.queues.len() {
                queue_max_size(&self.queues[i]) as u32
            } else {
                0
            }
        } else if offset == regs::QUEUE_READY {
            if i < self.queues.len() && queue_ready(&self.queues[i]) {
                1
            } else {
                0
            }
        } else if offset == regs::INTERRUPT_STATUS {
            self.interrupt.status()
        } else if offset == regs::STATUS {
            self.status
        } else if offset == regs::SHM_LEN_LOW || offset == regs::SHM_LEN_HIGH {
            0xffff_ffff
        } else if offset == regs::CONFIG_GENERATION {
            self.config_generation
        } else {
            0
        }
    }

    /// The device with its queues and memory, for a backend thread; a device that is not active
    /// is not touched.
    pub fn active_parts(&mut self) -> (r: Option<(&mut D, &mut Vec<virtio_queue::Queue>, &Mem)>)
        ensures
            r is Some <==> old(self).regs().active,
            r is None ==> *final(self) == *old(self),
            r matches Some((d, q, m)) ==> {
                &&& *d == old(self).dev()
                &&& q@ == old(self).rings()
                &&& all_words(q@) == old(self).regs().queues
                &&& *m == old(self).memory()
                &&& final(self).dev() == *final(d)
                &&& final(self).rings() == final(q)@
                &&& final(self).line() == old(self).line()
                &&& final(self).memory() == old(self).memory()
                &&& final(self).ok() == final(d).wf()
                &&& final(self).regs() == (RegsView {
                    queues: all_words(final(q)@),
                    ..old(self).regs()
                })
            },
    {
        if !self.active {
            return None;
        }
        Some((&mut self.device, &mut self.queues, &self.mem))
    }
}

/// Whether signalling used buffers may have failed with `e`, leaving `after`.
pub open spec fn signal_failed<I: Irq>(line: I, after: I, e: VmmErrorView) -> bool {
    raise_failed(e) && raise_may(line, after, false)
}

/// What starting the device may come to, once Status is written and the registers are `written`:
/// the first broken queue fails it, then the device decides. A failure says why, and the line is
/// raised for it once.
pub open spec fn started<D: VirtioDevice, I: Irq>(
    before: &MmioTransport<D, I>,
    written: RegsView,
    after: &MmioTransport<D, I>,
) -> bool {
    &&& after.rings() == before.rings()
    &&& if written.any_broken(before.ranges()) {
        &&& exists|i: int| #[trigger]
            written.first_broken(before.ranges(), i) && after.regs() == written.failed(
                "queue "@ + dec(i as nat) + " is not valid in guest memory"@,
            )
        &&& after.dev() == before.dev()
        &&& raise_tried(before.line(), after.line())
    } else {
        exists|r: Result<()>| #[trigger]
            before.dev().starts(&after.dev(), written.driver_features, r) && match r {
                Ok(_) => after.regs() == (RegsView { active: true, ..written }) && after.line()
                    == before.line(),
                Err(e) => after.regs() == written.failed(e@.text()) && raise_tried(
                    before.line(),
                    after.line(),
                ),
            }
    }
}

/// What writing `v` to Status may do: 0 resets the device, and DRIVER_OK starts it with the
/// features the driver accepted; anything else leaves it alone.
pub open spec fn status_reached<D: VirtioDevice, I: Irq>(
    before: &MmioTransport<D, I>,
    v: u32,
    after: &MmioTransport<D, I>,
) -> bool {
    if v == 0 {
        &&& after.regs() == before.regs().after_reset()
        &&& before.dev().resets(&after.dev())
        &&& after.line() == before.line()
    } else if before.regs().activates(before.offered_features(), v) {
        started(before, before.regs().status_written(before.offered_features(), v), after)
    } else {
        &&& after.regs() == before.regs().status_written(before.offered_features(), v)
        &&& after.dev() == before.dev()
        &&& after.line() == before.line()
        &&& after.rings() == before.rings()
    }
}

/// What a notification of queue `i` may do: the device works on its queues, and where it
/// returned buffers the line is raised once. A failure of either says why, and the line is
/// raised once for that.
pub open spec fn notify_reached<D: VirtioDevice, I: Irq>(
    before: &MmioTransport<D, I>,
    i: u32,
    after: &MmioTransport<D, I>,
) -> bool {
    if before.regs().takes_notice(i) {
        exists|r: Result<bool>| #[trigger]
            before.dev().serves(
                &after.dev(),
                before.memory(),
                i as usize,
                before.rings(),
                after.rings(),
                r,
            ) && match r {
                Ok(false) => after.regs() == before.regs() && after.line() == before.line(),
                Ok(true) => {
                    ||| after.regs() == before.regs().told() && raise_may(
                        before.line(),
                        after.line(),
                        true,
                    )
                    ||| exists|mid: I, e: VmmErrorView| #[trigger]
                        signal_failed(before.line(), mid, e) && after.regs()
                            == before.regs().told().failed(e.text()) && raise_tried(
                            mid,
                            after.line(),
                        )
                },
                Err(e) => after.regs() == before.regs().failed(e@.text()) && raise_tried(
                    before.line(),
                    after.line(),
                ),
            }
    } else {
        &&& after.regs() == before.regs()
        &&& after.dev() == before.dev()
        &&& after.line() == before.line()
        &&& after.rings() == before.rings()
    }
}

/// Whether a register programs the selected queue.
pub open spec fn programs(offset: u64) -> bool {
    ||| offset == regs::QUEUE_NUM
    ||| offset == regs::QUEUE_READY
    ||| offset == regs::QUEUE_DESC_LOW
    ||| offset == regs::QUEUE_DESC_HIGH
    ||| offset == regs::QUEUE_DRIVER_LOW
    ||| offset == regs::QUEUE_DRIVER_HIGH
    ||| offset == regs::QUEUE_DEVICE_LOW
    ||| offset == regs::QUEUE_DEVICE_HIGH
}

/// What writing `v` to the register at `offset` may do.
pub open spec fn reg_write<D: VirtioDevice, I: Irq>(
    before: &MmioTransport<D, I>,
    offset: u64,
    v: u32,
    after: &MmioTransport<D, I>,
) -> bool {
    if offset == regs::STATUS {
        status_reached(before, v, after)
    } else if offset == regs::QUEUE_NOTIFY {
        notify_reached(before, v, after)
    } else {
        &&& after.regs() == before.regs().written(offset, v)
        &&& after.dev() == before.dev()
        &&& after.line() == before.line()
        &&& after.rings().len() == before.rings().len()
        &&& forall|i: int|
            0 <= i < before.rings().len() && !(programs(offset) && i == before.regs().queue_sel)
                ==> #[trigger] after.rings()[i] == before.rings()[i]
    }
}

impl<D: VirtioDevice, I: Irq> Device for MmioTransport<D, I> {
    open spec fn wf(&self) -> bool {
        self.ok()
    }

    /// The configuration space reads as the device says; a register reads as 4 bytes, and a
    /// narrower or wider access of one as zeros.
    open spec fn reads(&self, after: &Self, offset: u64, before: Seq<u8>, data: Seq<u8>) -> bool {
        &&& *after == *self
        &&& if offset >= regs::CONFIG {
            config_read(
                self.dev().config_image(),
                (offset - regs::CONFIG) as u64,
                before,
                data,
            )
        } else if before.len() == 4 {
            data == le_bytes(
                self.regs().read(self.dev().id(), self.offered_features(), offset) as nat,
                4,
            )
        } else {
            data == Seq::new(before.len(), |i: int| 0u8)
        }
    }

    /// A write to the configuration space goes to the device; a register takes 4 bytes, and a
    /// narrower or wider write of one is dropped.
    open spec fn writes(&self, after: &Self, offset: u64, data: Seq<u8>) -> bool {
        if offset >= regs::CONFIG {
            &&& after.regs() == self.regs()
            &&& after.line() == self.line()
            &&& after.rings() == self.rings()
            &&& self.dev().configures(&after.dev(), (offset - regs::CONFIG) as u64, data)
        } else if data.len() == 4 {
            reg_write(self, offset, le_at(data, 0, 4) as u32, after)
        } else {
            *after == *self
        }
    }

    open spec fn label(&self) -> Seq<char> {
        self.dev().label()
    }

    fn name(&self) -> &'static str {
        self.device.name()
    }

    fn read(&mut self, offset: u64, data: &mut [u8]) {
        if offset >= regs::CONFIG {
            self.device.read_config(offset - regs::CONFIG, data);
            return;
        }
        let n = data.len();
        if n != 4 {
            zero_fill(data);
            return;
        }
        let v = self.read_reg(offset);
        let mut b: Vec<u8> = Vec::new();
        push_le(&mut b, v as u64, 4);
        proof {
            lemma_le_bytes_len(v as nat, 4);
        }
        assert(b@ =~= le_bytes(v as nat, 4));
        data[0] = b[0];
        data[1] = b[1];
        data[2] = b[2];
        data[3] = b[3];
        assert(data@ =~= b@);
    }

    fn write(&mut self, offset: u64, data: &[u8]) {
        if offset >= regs::CONFIG {
            self.device.write_config(offset - regs::CONFIG, data);
            return;
        }
        if data.len() != 4 {
            return;
        }
        let v = u32_at(data, 0);
        self.write_reg(offset, v);
    }
}

/// A driver that accepts a feature the device never offered, or not the modern interface,
/// never sees FEATURES_OK latched.
pub proof fn law_unoffered_features_never_latch(r: RegsView, offered: u64, v: u32)
    requires
        !r.features_ok(),
        !r.features_accepted(offered),
        v != 0,
    ensures
        !r.status_written(offered, v).features_ok(),
        !r.activates(offered, v),
{
    let s = r.status;
    assert(s & 8 == 0 ==> v & !s & 8 == v & 8) by (bit_vector);
    assert((v & !8u32) & 8 == 0) by (bit_vector);
}

/// Once FEATURES_OK is set, no register write but one of Status changes the driver's features.
pub proof fn law_features_are_frozen(r: RegsView, offset: u64, v: u32)
    requires
        r.features_ok(),
    ensures
        r.written(offset, v).driver_features == r.driver_features,
{
}

/// Before FEATURES_OK and after DRIVER_OK no register write but one of Status changes a queue.
pub proof fn law_queues_are_frozen(r: RegsView, offset: u64, v: u32)
    requires
        !r.features_ok() || r.driver_ok(),
    ensures
        r.written(offset, v).queues == r.queues,
{
}

/// A reset leaves what a fresh transport shows, save the configuration generation, and a
/// second reset changes nothing more.
pub proof fn law_reset_is_idempotent(r: RegsView)
    requires
        forall|i: int| 0 <= i < r.queues.len() ==> (#[trigger] r.queues[i]).len() == 6,
    ensures
        r.after_reset().status == 0,
        !r.after_reset().active,
        r.after_reset().pending == 0,
        forall|i: int|
            0 <= i < r.queues.len() ==> (#[trigger] r.after_reset().queues[i])[2] == 0,
        r.after_reset().after_reset() == r.after_reset(),
{
    assert(r.after_reset().after_reset().queues =~= r.after_reset().queues);
}

/// A failure is visible to the driver: the device needs a reset, a configuration interrupt is
/// pending, and no notification reaches the device until then.
pub proof fn law_failure_is_reported(r: RegsView, msg: Seq<char>, i: u32)
    ensures
        r.failed(msg).status & status::DEVICE_NEEDS_RESET != 0,
        r.failed(msg).pending & int_status::CONFIG_CHANGE != 0,
        !r.failed(msg).active,
        !r.failed(msg).takes_notice(i),
{
    let s = r.status;
    let p = r.pending;
    assert((s | 64) & 64 != 0) by (bit_vector);
    assert((p | 2) & 2 != 0) by (bit_vector);
}

} // verus!
