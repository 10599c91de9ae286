//! The virtqueues and the guest memory they lie in, both of the rust-vmm crates, with what the
//! transport relies on of them.

use vstd::prelude::*;

verus! {

/// A virtqueue's device side.
#[verifier::external_type_specification]
#[verifier::external_body]
pub struct ExQueue(virtio_queue::Queue);

/// Why a virtqueue operation was refused.
#[verifier::external_type_specification]
#[verifier::external_body]
pub struct ExQueueError(virtio_queue::Error);

/// A sorted set of guest memory regions.
#[verifier::external_type_specification]
#[verifier::external_body]
#[verifier::reject_recursive_types(R)]
pub struct ExGuestRegionCollection<R>(vm_memory::GuestRegionCollection<R>);

/// One mapped guest memory region.
#[verifier::external_type_specification]
#[verifier::external_body]
#[verifier::reject_recursive_types(B)]
pub struct ExGuestRegionMmap<B>(vm_memory::GuestRegionMmap<B>);

/// Guest memory.
pub type Mem = vm_memory::GuestRegionCollection<vm_memory::GuestRegionMmap<()>>;

/// What a queue was programmed with, by position: the most elements the device offers, the
/// elements the driver selected, whether it is ready (1 or 0), and the addresses of the
/// descriptor table, the available ring and the used ring.
pub uninterp spec fn queue_words(q: virtio_queue::Queue) -> Seq<u64>;

/// How many chains a queue has put into its used ring, modulo 2^16; it says where the next one
/// goes.
pub uninterp spec fn queue_used_index(q: virtio_queue::Queue) -> u16;

/// The regions of guest memory as `(start, length)`.
pub uninterp spec fn mem_ranges(m: Mem) -> Seq<(u64, u64)>;

/// The pieces that `vm_memory::Bytes::write_slice` put into guest memory through a handle, in
/// order, each with its address; what a kernel loader or a device writes is not among them.
pub uninterp spec fn mem_written(m: Mem) -> Seq<(u64, Seq<u8>)>;

/// What each of some queues was programmed with.
pub open spec fn all_words(qs: Seq<virtio_queue::Queue>) -> Seq<Seq<u64>> {
    Seq::new(qs.len(), |i: int| queue_words(qs[i]))
}

/// Whether a queue may have `n` elements when it may have at most `max`: a power of two.
pub open spec fn size_ok(n: u16, max: u64) -> bool {
    n <= max && n != 0 && n & ((n - 1) as u16) == 0
}

/// `addr` with its low or high half replaced.
pub open spec fn halves(addr: u64, low: Option<u32>, high: Option<u32>) -> u64 {
    let lo = match low {
        Some(v) => v as u64,
        None => addr % 0x1_0000_0000,
    };
    let hi = match high {
        Some(v) => v as u64,
        None => addr / 0x1_0000_0000,
    };
    (hi * 0x1_0000_0000 + lo) as u64
}

/// Whether the byte at `a` lies in one of the regions.
pub open spec fn mapped(ranges: Seq<(u64, u64)>, a: int) -> bool {
    exists|i: int|
        0 <= i < ranges.len() && (#[trigger] ranges[i]).0 <= a < ranges[i].0 + ranges[i].1
}

/// Whether every byte of `[base, base + len)` lies in one of the regions.
pub open spec fn covered(ranges: Seq<(u64, u64)>, base: u64, len: int) -> bool {
    forall|a: int| base <= a < base + len ==> #[trigger] mapped(ranges, a)
}

/// Whether a word of two bytes at `a` lies in one region, at an even distance from its start.
pub open spec fn word_reached(ranges: Seq<(u64, u64)>, a: int) -> bool {
    exists|i: int|
        0 <= i < ranges.len() && (#[trigger] ranges[i]).0 <= a && a + 2 <= ranges[i].0
            + ranges[i].1 && (a - ranges[i].0) % 2 == 0
}

/// Whether a queue is ready and its rings lie in guest memory.
pub open spec fn rings_covered(w: Seq<u64>, ranges: Seq<(u64, u64)>) -> bool {
    &&& w[2] == 1
    &&& covered(ranges, w[3], 16 * w[1])
    &&& covered(ranges, w[4], 6 + 2 * w[1])
    &&& covered(ranges, w[5], 6 + 8 * w[1])
}

/// `virtio_queue::Queue::new`: a queue of at most `max_size` elements, which must be a power
/// of two up to 32768. It starts at that size, not ready, with all addresses zero.
#[verifier::external_body]
pub(crate) fn queue_new(max_size: u16) -> (r: std::result::Result<
    virtio_queue::Queue,
    virtio_queue::Error,
>)
    ensures
        r is Ok <==> size_ok(max_size, 32768),
        r matches Ok(q) ==> queue_words(q) == seq![max_size as u64, max_size as u64, 0, 0, 0, 0],
        r matches Ok(q) ==> queue_used_index(q) == 0,
{
    virtio_queue::QueueT::new(max_size)
}

/// What `virtio_queue::Error` prints. Nothing is claimed of the text.
#[verifier::external_body]
pub(crate) fn queue_error_text(e: &virtio_queue::Error) -> String {
    e.to_string()
}

/// `virtio_queue::Queue::ready`.
#[verifier::external_body]
pub(crate) fn queue_ready(q: &virtio_queue::Queue) -> (r: bool)
    ensures
        r == (queue_words(*q)[2] == 1),
{
    virtio_queue::QueueT::ready(q)
}

/// `virtio_queue::Queue::max_size`.
#[verifier::external_body]
pub(crate) fn queue_max_size(q: &virtio_queue::Queue) -> (r: u16)
    ensures
        r == queue_words(*q)[0],
{
    virtio_queue::QueueT::max_size(q)
}

/// `virtio_queue::Queue::set_size`: a size that is zero, no power of two or above the most
/// the device offers is ignored.
#[verifier::external_body]
pub(crate) fn queue_set_size(q: &mut virtio_queue::Queue, size: u16)
    ensures
        queue_words(*final(q)) == (if size_ok(size, queue_words(*old(q))[0]) {
            queue_words(*old(q)).update(1, size as u64)
        } else {
            queue_words(*old(q))
        }),
        queue_used_index(*final(q)) == queue_used_index(*old(q)),
{
    virtio_queue::QueueT::set_size(q, size)
}

/// `virtio_queue::Queue::set_ready`.
#[verifier::external_body]
pub(crate) fn queue_set_ready(q: &mut virtio_queue::Queue, ready: bool)
    ensures
        queue_words(*final(q)) == queue_words(*old(q)).update(2, if ready { 1u64 } else { 0u64 }),
        queue_used_index(*final(q)) == queue_used_index(*old(q)),
{
    virtio_queue::QueueT::set_ready(q, ready)
}

/// `virtio_queue::Queue::set_desc_table_address`: an address that is no multiple of 16 is
/// ignored.
#[verifier::external_body]
pub(crate) fn queue_set_desc(q: &mut virtio_queue::Queue, low: Option<u32>, high: Option<u32>)
    ensures
        queue_words(*final(q)) == (if halves(queue_words(*old(q))[3], low, high) % 16 == 0 {
            queue_words(*old(q)).update(3, halves(queue_words(*old(q))[3], low, high))
        } else {
            queue_words(*old(q))
        }),
        queue_used_index(*final(q)) == queue_used_index(*old(q)),
{
    virtio_queue::QueueT::set_desc_table_address(q, low, high)
}

/// `virtio_queue::Queue::set_avail_ring_address`: an odd address is ignored.
#[verifier::external_body]
pub(crate) fn queue_set_avail(q: &mut virtio_queue::Queue, low: Option<u32>, high: Option<u32>)
    ensures
        queue_words(*final(q)) == (if halves(queue_words(*old(q))[4], low, high) % 2 == 0 {
            queue_words(*old(q)).update(4, halves(queue_words(*old(q))[4], low, high))
        } else {
            queue_words(*old(q))
        }),
        queue_used_index(*final(q)) == queue_used_index(*old(q)),
{
    virtio_queue::QueueT::set_avail_ring_address(q, low, high)
}

/// `virtio_queue::Queue::set_used_ring_address`: an address that is no multiple of 4 is
/// ignored.
#[verifier::external_body]
pub(crate) fn queue_set_used(q: &mut virtio_queue::Queue, low: Option<u32>, high: Option<u32>)
    ensures
        queue_words(*final(q)) == (if halves(queue_words(*old(q))[5], low, high) % 4 == 0 {
            queue_words(*old(q)).update(5, halves(queue_words(*old(q))[5], low, high))
        } else {
            queue_words(*old(q))
        }),
        queue_used_index(*final(q)) == queue_used_index(*old(q)),
{
    virtio_queue::QueueT::set_used_ring_address(q, low, high)
}

/// `virtio_queue::Queue::reset`: back to the state [`queue_new`] gave it.
#[verifier::external_body]
pub(crate) fn queue_reset(q: &mut virtio_queue::Queue)
    ensures
        queue_words(*final(q)) == seq![
            queue_words(*old(q))[0],
            queue_words(*old(q))[0],
            0,
            0,
            0,
            0,
        ],
        queue_used_index(*final(q)) == 0,
{
    virtio_queue::QueueT::reset(q)
}

/// `virtio_queue::Queue::is_valid`: whether the queue is ready and its descriptor table and
/// rings lie in guest memory. A region never reaches past the last address, so a range that
/// would wrap round is not in memory.
#[verifier::external_body]
pub(crate) fn queue_is_valid(q: &virtio_queue::Queue, mem: &Mem) -> (r: bool)
    ensures
        r == rings_covered(queue_words(*q), mem_ranges(*mem)),
{
    virtio_queue::QueueT::is_valid(q, mem)
}

} // verus!
