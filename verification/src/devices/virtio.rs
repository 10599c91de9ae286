//! What a virtio device is to the transport: its id, features, config space and queues,
//! independent of how the guest reaches it. `virtio-mmio` ([`super::mmio`]) is the only
//! transport today; a PCI transport later would drive the same trait.

pub mod int_status;
pub mod status;

use super::queue::{all_words, Mem};
use super::Irq;
use crate::error::{Result, VmmError, VmmErrorView};
use vstd::prelude::*;

verus! {

/// `virtio-blk`.
pub const ID_BLOCK: u32 = 2;

/// `virtio-vsock`.
pub const ID_VSOCK: u32 = 19;

/// `virtio-mem`.
pub const ID_MEM: u32 = 24;

/// The feature every device offers and every driver must accept: the modern (1.x) interface.
pub const F_VERSION_1: u64 = 0x1_0000_0000;

/// Queue size the block and vsock devices offer.
pub const QUEUE_MAX_SIZE: u16 = 256;

/// A device's interrupt: the status the guest reads and acknowledges, and the line it is
/// raised on.
pub struct Interrupt<I: Irq> {
    status: u32,
    irq: I,
}

impl<I: Irq> Interrupt<I> {
    /// The pending status bits.
    pub closed spec fn pending(&self) -> u32 {
        self.status
    }

    /// The line.
    pub closed spec fn line(&self) -> I {
        self.irq
    }

    /// An interrupt raised on `irq`.
    pub fn new(irq: I) -> (i: Self)
        ensures
            i.pending() == 0,
            i.line() == irq,
    {
        Interrupt { status: 0, irq }
    }

    /// Record that used buffers were returned and raise the line.
    pub fn signal_used(&mut self) -> (r: Result<()>)
        ensures
            final(self).pending() == old(self).pending() | int_status::USED_RING,
            raise_came_to(old(self).line(), final(self).line(), r),
            r matches Err(e) ==> raise_failed(e@),
    {
        self.signal(int_status::USED_RING)
    }

    /// Record that the configuration changed and raise the line.
    pub fn signal_config(&mut self) -> (r: Result<()>)
        ensures
            final(self).pending() == old(self).pending() | int_status::CONFIG_CHANGE,
            raise_came_to(old(self).line(), final(self).line(), r),
            r matches Err(e) ==> raise_failed(e@),
    {
        self.signal(int_status::CONFIG_CHANGE)
    }

    fn signal(&mut self, bit: u32) -> (r: Result<()>)
        ensures
            final(self).pending() == old(self).pending() | bit,
            raise_came_to(old(self).line(), final(self).line(), r),
            r matches Err(e) ==> raise_failed(e@),
    {
        self.status = self.status | bit;
        let raised = self.irq.trigger();
        raise_outcome(raised)
    }

    /// The pending status bits.
    pub fn status(&self) -> (s: u32)
        ensures
            s == self.pending(),
    {
        self.status
    }

    /// The guest acknowledged `bits`.
    pub fn ack(&mut self, bits: u32)
        ensures
            final(self).pending() == old(self).pending() & !bits,
            final(self).line() == old(self).line(),
    {
        self.status = self.status & !bits;
    }

    /// Clear everything (device reset).
    pub fn clear(&mut self)
        ensures
            final(self).pending() == 0,
            final(self).line() == old(self).line(),
    {
        self.status = 0;
    }
}

/// Whether raising `line` once may have come to `r` and left `after`: a success where the line
/// was raised, an error where it could not be.
pub open spec fn raise_came_to<I: Irq, T>(line: I, after: I, r: Result<T>) -> bool {
    raise_may(line, after, r is Ok)
}

/// Whether raising `line` once may succeed, or fail, as `ok` says, and leave `after`.
pub open spec fn raise_may<I: Irq>(line: I, after: I, ok: bool) -> bool {
    exists|o: std::io::Result<()>| #[trigger] line.raised(&after, o) && (o is Ok <==> ok)
}

/// Whether raising `line` once may leave `after`, whatever it comes to.
pub open spec fn raise_tried<I: Irq>(line: I, after: I) -> bool {
    exists|o: std::io::Result<()>| #[trigger] line.raised(&after, o)
}

/// Whether `e` says that an interrupt line could not be raised.
pub open spec fn raise_failed(e: VmmErrorView) -> bool {
    e matches VmmErrorView::Io { op, target, .. } && op == "irq"@ && target == "trigger"@
}

/// What raising a line came to.
pub fn raise_outcome(raised: std::io::Result<()>) -> (r: Result<()>)
    ensures
        raised is Ok <==> r is Ok,
        r matches Err(e) ==> raise_failed(e@),
{
    match raised {
        Ok(()) => Ok(()),
        Err(e) => Err(VmmError::io("irq", "trigger", &e)),
    }
}

/// A virtio device behind a transport.
pub trait VirtioDevice: Sized {
    /// The virtio device id; a device that does not say leaves it open, here and below.
    open spec fn id(&self) -> u32 {
        arbitrary()
    }

    /// The features offered, without [`F_VERSION_1`].
    open spec fn offers(&self) -> u64 {
        arbitrary()
    }

    /// The most elements of each queue.
    open spec fn queue_sizes(&self) -> Seq<u16> {
        arbitrary()
    }

    /// The configuration space.
    open spec fn config_image(&self) -> Seq<u8> {
        arbitrary()
    }

    /// The device's name in diagnostics.
    open spec fn label(&self) -> Seq<char> {
        arbitrary()
    }

    /// Whether a write of `data` at `offset` of the configuration space may leave `after`. A
    /// device that does not say promises nothing.
    open spec fn configures(&self, after: &Self, offset: u64, data: Seq<u8>) -> bool {
        true
    }

    /// Whether activation with the features `acked` may come to `r` and leave `after`.
    open spec fn starts(&self, after: &Self, acked: u64, r: Result<()>) -> bool {
        true
    }

    /// Whether a notification of queue `index`, whose rings lie in `mem`, may come to `r`, leave
    /// `after` and take the queues from `had` to `have`.
    open spec fn serves(
        &self,
        after: &Self,
        mem: Mem,
        index: usize,
        had: Seq<virtio_queue::Queue>,
        have: Seq<virtio_queue::Queue>,
        r: Result<bool>,
    ) -> bool {
        true
    }

    /// Whether a reset may leave `after`.
    open spec fn resets(&self, after: &Self) -> bool {
        true
    }

    /// The device's own consistency; a device may have none to speak of.
    open spec fn wf(&self) -> bool {
        true
    }

    /// A short name for diagnostics.
    fn name(&self) -> (r: &'static str)
        ensures
            r@ == self.label(),
    ;

    /// The virtio device id.
    fn device_type(&self) -> (r: u32)
        ensures
            r == self.id(),
    ;

    /// The features offered; [`F_VERSION_1`] is added by the transport.
    fn features(&self) -> (r: u64)
        ensures
            r == self.offers(),
    ;

    /// The number of queues and each one's maximum size.
    fn queue_max_sizes(&self) -> (r: Vec<u16>)
        ensures
            r@ == self.queue_sizes(),
    ;

    /// Read the device configuration space; past its end it reads as 0.
    fn read_config(&self, offset: u64, data: &mut [u8])
        ensures
            config_read(self.config_image(), offset, old(data)@, final(data)@),
    ;

    /// Write the device configuration space (most devices ignore writes).
    fn write_config(&mut self, offset: u64, data: &[u8])
        requires
            old(self).wf(),
        ensures
            final(self).wf(),
            old(self).configures(final(self), offset, data@),
    ;

    /// The driver set DRIVER_OK with `acked` features; the queues are valid.
    fn activate(&mut self, acked: u64) -> (r: Result<()>)
        requires
            old(self).wf(),
        ensures
            final(self).wf(),
            old(self).starts(final(self), acked, r),
    ;

    /// The driver notified queue `index`. Returns true when used buffers were returned and
    /// the guest should be interrupted. The queues keep what the driver programmed.
    fn process_queue(
        &mut self,
        index: usize,
        queues: &mut Vec<virtio_queue::Queue>,
        mem: &Mem,
    ) -> (r: Result<bool>)
        requires
            old(self).wf(),
        ensures
            final(self).wf(),
            all_words(final(queues)@) == all_words(old(queues)@),
            old(self).serves(final(self), *mem, index, old(queues)@, final(queues)@, r),
    ;

    /// Back to the state before activation.
    fn reset(&mut self)
        requires
            old(self).wf(),
        ensures
            final(self).wf(),
            old(self).resets(final(self)),
    ;
}

/// The byte of a configuration space at `at`; past its end it reads as 0.
pub open spec fn config_byte(src: Seq<u8>, at: int) -> u8 {
    if at < src.len() {
        src[at]
    } else {
        0
    }
}

/// What reading `data` at `offset` of a configuration space gives.
pub open spec fn config_read(src: Seq<u8>, offset: u64, before: Seq<u8>, data: Seq<u8>) -> bool {
    &&& data.len() == before.len()
    &&& forall|i: int|
        0 <= i < data.len() ==> #[trigger] data[i] == config_byte(src, offset + i)
}

/// Copy `src` (a config space image) into `data` at `offset`; out-of-range bytes read as 0.
pub fn read_config_bytes(src: &[u8], offset: u64, data: &mut [u8])
    ensures
        config_read(src@, offset, old(data)@, final(data)@),
{
    let n = data.len();
    let mut i: usize = 0;
    while i < n
        invariant
            i <= n,
            n == data@.len(),
            data@.len() == old(data)@.len(),
            forall|j: int| 0 <= j < i ==> #[trigger] data@[j] == config_byte(src@, offset + j),
        decreases n - i,
    {
        let b: u8 = match offset.checked_add(i as u64) {
            Some(at) => if at < src.len() as u64 {
                src[at as usize]
            } else {
                0
            },
            None => 0,
        };
        assert(b == config_byte(src@, offset + i)) by {
            assert(src@.len() == src.len());
        }
        data[i] = b;
        i += 1;
    }
}

} // verus!
