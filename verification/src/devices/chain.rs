//! Descriptor chains: what a driver hands a device through a virtqueue.

use super::queue::{
    covered, mapped, mem_ranges, queue_error_text, queue_used_index, queue_words, word_reached, Mem,
};
use crate::error::{Result, VmmError, VmmErrorView};
use crate::text::cat2;
use vstd::prelude::*;

verus! {

/// A chain of buffers.
#[verifier::external_type_specification]
#[verifier::external_body]
#[verifier::reject_recursive_types(M)]
pub struct ExDescriptorChain<M>(virtio_queue::DescriptorChain<M>);

/// The buffers of a chain the device reads.
#[verifier::external_type_specification]
#[verifier::external_body]
#[verifier::reject_recursive_types(B)]
pub struct ExReader<'a, B>(virtio_queue::Reader<'a, B>);

/// The buffers of a chain the device writes.
#[verifier::external_type_specification]
#[verifier::external_body]
#[verifier::reject_recursive_types(B)]
pub struct ExWriter<'a, B>(virtio_queue::Writer<'a, B>);

/// Bytes a reader has not handed out yet.
pub uninterp spec fn reader_left(r: virtio_queue::Reader<'_, ()>) -> nat;

/// Bytes a writer has still room for.
pub uninterp spec fn writer_room(w: virtio_queue::Writer<'_, ()>) -> nat;

/// The bytes a reader has handed out, from the beginning of its chain on.
pub uninterp spec fn reader_given(r: virtio_queue::Reader<'_, ()>) -> Seq<u8>;

/// The bytes that went into a chain through a writer.
pub uninterp spec fn writer_sent(w: virtio_queue::Writer<'_, ()>) -> Seq<u8>;

/// How far a queue is in the ring of chains the driver offers.
pub uninterp spec fn queue_position(q: virtio_queue::Queue) -> u16;

/// The chains a queue has returned to the driver, each with the bytes said to be written to it;
/// one whose return failed is not among them.
pub uninterp spec fn queue_returned(q: virtio_queue::Queue) -> Seq<(u16, u32)>;

/// The index the driver knows a chain by: that of its first descriptor.
pub uninterp spec fn chain_index(c: virtio_queue::DescriptorChain<&Mem>) -> u16;

/// The chains a queue has handed out, by their indices, in order; one that was put back stays.
pub uninterp spec fn queue_taken(q: virtio_queue::Queue) -> Seq<u16>;

/// Whether one chain more was taken from a queue.
pub open spec fn took_one(before: virtio_queue::Queue, after: virtio_queue::Queue) -> bool {
    queue_taken(after).len() > 0 && queue_taken(after) == queue_taken(before).push(
        queue_taken(after).last(),
    )
}

/// A position in the ring `n` further.
pub open spec fn position_after(p: u16, n: int) -> u16 {
    ((p + n) % 0x1_0000) as u16
}

/// Whether a queue programmed so can offer chains at all: it is ready and has an available ring.
pub open spec fn may_offer(words: Seq<u64>) -> bool {
    words[2] == 1 && words[4] != 0
}

/// `virtio_queue::Queue::pop_descriptor_chain`: the next chain the driver offered, if any, which
/// moves the queue on by one. A queue that is not ready or has no available ring gives none;
/// otherwise what the driver put into guest memory decides. The queue's programming does not
/// change.
#[verifier::external_body]
pub(crate) fn pop_chain<'a>(q: &mut virtio_queue::Queue, mem: &'a Mem) -> (r: Option<
    virtio_queue::DescriptorChain<&'a Mem>,
>)
    ensures
        r is Some ==> may_offer(queue_words(*old(q))),
        queue_words(*final(q)) == queue_words(*old(q)),
        queue_used_index(*final(q)) == queue_used_index(*old(q)),
        queue_returned(*final(q)) == queue_returned(*old(q)),
        queue_taken(*final(q)) == (match r {
            Some(c) => queue_taken(*old(q)).push(chain_index(c)),
            None => queue_taken(*old(q)),
        }),
        queue_position(*final(q)) == position_after(
            queue_position(*old(q)),
            if r is Some {
                1
            } else {
                0
            },
        ),
{
    virtio_queue::QueueT::pop_descriptor_chain(q, mem)
}

/// `virtio_queue::DescriptorChain::head_index`: the index the driver knows the chain by, which
/// it chose.
#[verifier::external_body]
pub(crate) fn chain_head(c: &virtio_queue::DescriptorChain<&Mem>) -> (n: u16)
    ensures
        n == chain_index(*c),
{
    c.head_index()
}

/// `virtio_queue::DescriptorChain::reader`: the buffers of a chain the device reads, unless one
/// lies outside guest memory. A chain holds less than 2^32 bytes in all.
#[verifier::external_body]
pub(crate) fn chain_reader<'a>(c: &virtio_queue::DescriptorChain<&'a Mem>, mem: &'a Mem) -> (r:
    Option<virtio_queue::Reader<'a, ()>>)
    ensures
        r matches Some(x) ==> reader_left(x) <= u32::MAX && reader_given(x) == Seq::<u8>::empty(),
{
    c.clone().reader(mem).ok()
}

/// `virtio_queue::DescriptorChain::writer`: the buffers of a chain the device writes, unless
/// one lies outside guest memory. A chain holds less than 2^32 bytes in all.
#[verifier::external_body]
pub(crate) fn chain_writer<'a>(c: &virtio_queue::DescriptorChain<&'a Mem>, mem: &'a Mem) -> (r:
    Option<virtio_queue::Writer<'a, ()>>)
    ensures
        r matches Some(x) ==> writer_room(x) <= u32::MAX && writer_sent(x) == Seq::<u8>::empty(),
{
    c.clone().writer(mem).ok()
}

/// `virtio_queue::Reader::available_bytes`.
#[verifier::external_body]
pub(crate) fn reader_available(r: &virtio_queue::Reader<'_, ()>) -> (n: usize)
    ensures
        n == reader_left(*r),
{
    r.available_bytes()
}

/// `virtio_queue::Writer::available_bytes`.
#[verifier::external_body]
pub(crate) fn writer_available(w: &virtio_queue::Writer<'_, ()>) -> (n: usize)
    ensures
        n == writer_room(*w),
{
    w.available_bytes()
}

/// `std::io::Read::read_exact` of a `virtio_queue::Reader`: the next `n` bytes, if the chain
/// has that many left. What they are is the guest's to say.
#[verifier::external_body]
pub(crate) fn read_exact(r: &mut virtio_queue::Reader<'_, ()>, n: usize) -> (b: Option<Vec<u8>>)
    ensures
        b is Some <==> n <= reader_left(*old(r)),
        b matches Some(v) ==> v@.len() == n && reader_left(*final(r)) == reader_left(*old(r)) - n
            && reader_given(*final(r)) == reader_given(*old(r)) + v@,
{
    let mut v = vec![0u8; n];
    std::io::Read::read_exact(r, &mut v).ok().map(|_| v)
}

/// `std::io::Write::write_all` of a `virtio_queue::Writer`: copies `data` into the chain if it
/// has room for it. Nothing is claimed of what the guest finds there later: it shares the memory.
#[verifier::external_body]
pub(crate) fn write_all(w: &mut virtio_queue::Writer<'_, ()>, data: &[u8]) -> (ok: bool)
    ensures
        ok <==> data@.len() <= writer_room(*old(w)),
        ok ==> writer_room(*final(w)) == writer_room(*old(w)) - data@.len(),
        ok ==> writer_sent(*final(w)) == writer_sent(*old(w)) + data@,
{
    std::io::Write::write_all(w, data).is_ok()
}

/// `virtio_queue::Writer::split_at`: splits off what follows the first `at` bytes of room.
#[verifier::external_body]
pub(crate) fn split_writer<'a>(w: &mut virtio_queue::Writer<'a, ()>, at: usize) -> (r: Option<
    virtio_queue::Writer<'a, ()>,
>)
    ensures
        r is Some <==> at <= writer_room(*old(w)),
        r matches Some(x) ==> writer_room(*final(w)) == at && writer_room(x) == writer_room(
            *old(w),
        ) - at,
        r matches Some(x) ==> writer_sent(*final(w)) == writer_sent(*old(w)) && writer_sent(x)
            == Seq::<u8>::empty(),
{
    w.split_at(at).ok()
}

/// Where the entry of the next chain goes in the used ring of a queue that was programmed with
/// `words` and has put `next` chains there.
pub open spec fn used_entry(words: Seq<u64>, next: u16) -> int {
    words[5] + 4 + 8 * (next as int % words[1] as int)
}

/// Whether the entry of the chain `head` can be written into the used ring: the queue has such a
/// chain, and the eight bytes of the entry lie in guest memory.
pub open spec fn entry_written(
    words: Seq<u64>,
    next: u16,
    ranges: Seq<(u64, u64)>,
    head: u16,
) -> bool {
    head < words[1] && forall|a: int|
        used_entry(words, next) <= a < used_entry(words, next) + 8 ==> #[trigger] mapped(ranges, a)
}

/// Whether a queue programmed with `words` that has put `next` chains into its used ring can give
/// the chain `head` back: the entry can be written, and then the ring's index, a word that has to
/// lie in one region.
pub open spec fn returnable(words: Seq<u64>, next: u16, ranges: Seq<(u64, u64)>, head: u16) -> bool {
    entry_written(words, next, ranges, head) && word_reached(ranges, words[5] + 2)
}

/// Whether the chain `head` can be given back to the driver of `q` now.
pub open spec fn takes_back(q: virtio_queue::Queue, mem: Mem, head: u16) -> bool {
    returnable(queue_words(q), queue_used_index(q), mem_ranges(mem), head)
}

/// How many chains `q` has put into its used ring when giving back `head` was tried.
pub open spec fn used_index_after(q: virtio_queue::Queue, mem: Mem, head: u16) -> u16 {
    if entry_written(queue_words(q), queue_used_index(q), mem_ranges(mem), head) {
        position_after(queue_used_index(q), 1)
    } else {
        queue_used_index(q)
    }
}

/// A queue whose used ring lies in guest memory, with its index in one region at an even distance
/// from the start, takes every chain it has back, however many it took before.
pub proof fn law_a_ring_in_memory_takes_every_chain(
    words: Seq<u64>,
    next: u16,
    ranges: Seq<(u64, u64)>,
    head: u16,
)
    requires
        head < words[1],
        covered(ranges, words[5], 4 + 8 * words[1]),
        word_reached(ranges, words[5] + 2),
    ensures
        returnable(words, next, ranges, head),
{
    vstd::arithmetic::div_mod::lemma_mod_bound(next as int, words[1] as int);
}

/// `virtio_queue::Queue::add_used`: returns the chain `head` to the driver with `len` bytes
/// written. It fails for a head beyond the queue, where the entry does not lie in guest memory,
/// and where the ring's index does not lie in one region or is not aligned; a region is mapped at
/// a page, so that the distance from its start decides. The entry is written before the index, and
/// counts from then on. The queue's programming does not change.
#[verifier::external_body]
fn queue_add_used(q: &mut virtio_queue::Queue, mem: &Mem, head: u16, len: u32) -> (r:
    std::result::Result<(), virtio_queue::Error>)
    ensures
        queue_words(*final(q)) == queue_words(*old(q)),
        queue_position(*final(q)) == queue_position(*old(q)),
        queue_taken(*final(q)) == queue_taken(*old(q)),
        queue_used_index(*final(q)) == used_index_after(*old(q), *mem, head),
        r is Ok <==> takes_back(*old(q), *mem, head),
        queue_returned(*final(q)) == (if r is Ok {
            queue_returned(*old(q)).push((head, len))
        } else {
            queue_returned(*old(q))
        }),
{
    virtio_queue::QueueT::add_used(q, mem, head, len)
}

/// `virtio_queue::Queue::go_to_previous_position`: the queue moves back by one, so the chain
/// popped last is popped again next time. The queue's programming does not change.
#[verifier::external_body]
pub(crate) fn unpop_chain(q: &mut virtio_queue::Queue)
    ensures
        queue_words(*final(q)) == queue_words(*old(q)),
        queue_used_index(*final(q)) == queue_used_index(*old(q)),
        queue_returned(*final(q)) == queue_returned(*old(q)),
        queue_taken(*final(q)) == queue_taken(*old(q)),
        queue_position(*final(q)) == position_after(queue_position(*old(q)), -1),
{
    virtio_queue::QueueOwnedT::go_to_previous_position(q)
}

/// Whether `e` says that `device` could not write its used ring.
pub open spec fn used_ring_failed(e: VmmErrorView, device: Seq<char>) -> bool {
    e matches VmmErrorView::Device { device: d, msg } && d == device && exists|why: Seq<char>|
        msg == "used ring: "@ + why
}

/// Return the chain `head` to the driver with `len` bytes written, on behalf of `device`.
pub fn add_used(
    device: &'static str,
    q: &mut virtio_queue::Queue,
    mem: &Mem,
    head: u16,
    len: u32,
) -> (r: Result<()>)
    ensures
        queue_words(*final(q)) == queue_words(*old(q)),
        queue_position(*final(q)) == queue_position(*old(q)),
        queue_taken(*final(q)) == queue_taken(*old(q)),
        queue_used_index(*final(q)) == used_index_after(*old(q), *mem, head),
        r is Ok <==> takes_back(*old(q), *mem, head),
        queue_returned(*final(q)) == (if r is Ok {
            queue_returned(*old(q)).push((head, len))
        } else {
            queue_returned(*old(q))
        }),
        r matches Err(e) ==> used_ring_failed(e@, device@),
{
    match queue_add_used(q, mem, head, len) {
        Ok(()) => Ok(()),
        Err(e) => {
            let why = queue_error_text(&e);
            let msg = cat2("used ring: ", &why);
            Err(VmmError::device(device, &msg))
        },
    }
}

} // verus!
