//! `virtio-vsock`: the guest's only channel to the world.
//!
//! Queue 0 carries packets to the guest, queue 1 packets from it, queue 2 events (the device
//! sends none: there is no migration to announce). The device takes packets off the transmit
//! queue and puts packets into the receive queue; what the packets mean is the muxer's to say,
//! and reading and writing host streams is left to the caller, one step at a time.

use super::chain::{
    add_used, chain_head, chain_reader, chain_writer, may_offer, pop_chain, position_after,
    queue_position, queue_returned, queue_taken, read_exact, reader_available, reader_given,
    reader_left, takes_back, took_one, unpop_chain, used_index_after, used_ring_failed, write_all,
    writer_available, writer_room, writer_sent,
};
use super::queue::{queue_ready, queue_used_index, queue_words, Mem};
use super::virtio::{ID_VSOCK, QUEUE_MAX_SIZE};
use crate::bytes::{le_bytes, lemma_le_at_same, push_le};
use crate::error::{Result, VmmError};
use muxer::{Key, Muxer, MuxerView, ReadOutcome, RxAction, RxNext, MAX_PKT_PAYLOAD};
use packet::{Header, HDR_BYTES};
use vstd::prelude::*;

pub mod laws;
pub mod muxer;
pub mod packet;

verus! {

/// Receive queue index.
pub const RXQ: usize = 0;

/// Transmit queue index.
pub const TXQ: usize = 1;

/// Event queue index.
pub const EVQ: usize = 2;

/// The device.
pub struct VirtioVsock {
    /// The guest's context id.
    pub cid: u32,
    /// What the packets mean.
    pub muxer: Muxer,
}

/// A packet the guest sent.
pub struct TxPacket {
    /// The chain it came in, to be returned by [`VirtioVsock::finish_packet`].
    pub head: u16,
    /// The header and the payload; nothing where the packet is dropped.
    pub packet: Option<(Header, Vec<u8>)>,
}

/// Whether a packet with `left` bytes behind its header is served: one that claims more payload
/// than it carries, or more than a packet may, is dropped.
pub open spec fn carried(h: Header, left: int) -> bool {
    h.len <= MAX_PKT_PAYLOAD && h.len <= left
}

/// Whether `p` is the packet in buffers of `left` bytes, of which `given` was read: none where
/// there is no whole header, or where the header's payload is not carried.
pub open spec fn taken(left: nat, given: Seq<u8>, p: Option<(Header, Vec<u8>)>) -> bool {
    if left < HDR_BYTES {
        p is None
    } else {
        &&& given.len() >= HDR_BYTES
        &&& p is None ==> forall|h: Header| #[trigger]
            h.read_from(given) ==> !carried(h, left - HDR_BYTES)
        &&& p matches Some(hp) ==> {
            &&& hp.0.read_from(given)
            &&& carried(hp.0, left - HDR_BYTES)
            &&& hp.1@.len() == hp.0.len
            &&& given == hp.0.wire() + hp.1@
        }
    }
}

/// A receive buffer taken for data of a connection, whose host stream is to be read.
pub struct RxJob<'a> {
    /// The head of the buffer's chain.
    pub head: u16,
    /// The room in the buffer.
    pub writer: virtio_queue::Writer<'a, ()>,
    /// The connection.
    pub key: Key,
    /// The most bytes to read.
    pub n: usize,
}

impl<'a> RxJob<'a> {
    /// There is room for a header and the bytes.
    pub open spec fn wf(&self) -> bool {
        &&& 0 < self.n <= MAX_PKT_PAYLOAD
        &&& self.n + HDR_BYTES <= writer_room(self.writer)
        &&& writer_sent(self.writer) == Seq::<u8>::empty()
    }
}

/// What filling the receive queue has come to.
pub enum RxStep<'a> {
    /// Nothing to send, or no buffer to send it in.
    Done,
    /// A buffer was returned to the driver; go on.
    Again,
    /// Read the host stream of this connection and hand the outcome to
    /// [`VirtioVsock::rx_finish`].
    Read(RxJob<'a>),
}

/// What became of a receive buffer taken for data.
#[derive(Clone, Copy, Debug, PartialEq, Eq, Structural)]
pub struct RxFinished {
    /// The buffer was returned to the driver.
    pub used: bool,
    /// The connection is gone: close this descriptor.
    pub close: Option<i32>,
}

impl VirtioVsock {
    /// The vsock device of guest `cid`, once its listener and its wake pipe are open.
    pub fn new(cid: u32, listener_fd: i32, wake_fd: i32) -> (v: Self)
        ensures
            v.cid == cid,
            v.muxer.wf(),
            v.muxer@ == (MuxerView {
                guest_cid: cid as u64,
                listener_fd,
                wake_fd,
                accepting: Seq::empty(),
                conns: Map::empty(),
                control: Seq::empty(),
                next_port: muxer::FIRST_HOST_PORT,
                last_served: None,
            }),
    {
        VirtioVsock { cid, muxer: Muxer::new(cid, listener_fd, wake_fd) }
    }

    /// The guest's context id.
    pub fn cid(&self) -> (c: u32)
        ensures
            c == self.cid,
    {
        self.cid
    }

    /// The virtio device id.
    pub fn device_type(&self) -> (t: u32)
        ensures
            t == ID_VSOCK,
    {
        ID_VSOCK
    }

    /// The most elements of each queue.
    pub fn queue_max_sizes(&self) -> (v: Vec<u16>)
        ensures
            v@ == seq![QUEUE_MAX_SIZE, QUEUE_MAX_SIZE, QUEUE_MAX_SIZE],
    {
        let v = vec![QUEUE_MAX_SIZE, QUEUE_MAX_SIZE, QUEUE_MAX_SIZE];
        assert(v@ =~= seq![QUEUE_MAX_SIZE, QUEUE_MAX_SIZE, QUEUE_MAX_SIZE]);
        v
    }

    /// The configuration space: the context id as a 64-bit number.
    pub fn config_space(&self) -> (v: Vec<u8>)
        ensures
            v@ == le_bytes(self.cid as nat, 8),
    {
        let mut v: Vec<u8> = Vec::new();
        push_le(&mut v, self.cid as u64, 8);
        assert(v@ =~= le_bytes(self.cid as nat, 8));
        v
    }

    /// The packet in the buffers of a chain: a header, then as many bytes as it says. A packet
    /// that claims more payload than it carries, or more than a packet may, is dropped, and so is
    /// one without a whole header.
    pub fn take_packet(r: &mut virtio_queue::Reader<'_, ()>) -> (p: Option<(Header, Vec<u8>)>)
        requires
            reader_given(*old(r)) == Seq::<u8>::empty(),
        ensures
            taken(reader_left(*old(r)), reader_given(*final(r)), p),
    {
        let raw = match read_exact(r, HDR_BYTES) {
            Some(raw) => raw,
            None => {
                return None;
            },
        };
        assert(reader_given(*r) =~= raw@);
        let h = Header::decode_slice(raw.as_slice());
        let left = reader_available(r);
        if !is_carried(&h, left) {
            return None;
        }
        let ghost before = reader_given(*r);
        let payload = read_exact(r, h.len as usize);
        proof {
            assert(raw@.subrange(0, 44) =~= raw@);
            if payload is Some {
                lemma_read_from_prefix(h, before, payload->Some_0@);
            }
        }
        match payload {
            Some(payload) => Some((h, payload)),
            None => None,
        }
    }

    /// The packet in the chain `head`, whose buffers are `reader` where they can be reached; where
    /// they cannot, it is dropped.
    pub fn packet_in(head: u16, reader: &mut Option<virtio_queue::Reader<'_, ()>>) -> (p: TxPacket)
        requires
            *old(reader) matches Some(r) ==> reader_given(r) == Seq::<u8>::empty(),
        ensures
            p.head == head,
            *final(reader) is Some <==> *old(reader) is Some,
            match *old(reader) {
                Some(r) => taken(reader_left(r), reader_given(final(reader)->Some_0), p.packet),
                None => p.packet is None,
            },
    {
        let packet = match reader {
            Some(r) => VirtioVsock::take_packet(r),
            None => None,
        };
        TxPacket { head, packet }
    }

    /// The next packet the guest sent, if any; [`VirtioVsock::packet_in`] says what becomes of
    /// it. Which chains are offered, and whether their buffers can be reached, rests with the
    /// guest.
    pub fn next_packet(q: &mut virtio_queue::Queue, mem: &Mem) -> (r: Option<TxPacket>)
        ensures
            queue_words(*final(q)) == queue_words(*old(q)),
            queue_used_index(*final(q)) == queue_used_index(*old(q)),
            queue_returned(*final(q)) == queue_returned(*old(q)),
            queue_position(*final(q)) == position_after(
                queue_position(*old(q)),
                if r is Some {
                    1
                } else {
                    0
                },
            ),
            !may_offer(queue_words(*old(q))) ==> r is None,
            match r {
                Some(p) => took_one(*old(q), *final(q)) && p.head == queue_taken(*final(q)).last(),
                None => queue_taken(*final(q)) == queue_taken(*old(q)),
            },
            r matches Some(p) ==> (p.packet matches Some(hp) ==> hp.1@.len() == hp.0.len
                && hp.0.len <= MAX_PKT_PAYLOAD),
    {
        let chain = match pop_chain(q, mem) {
            Some(c) => c,
            None => {
                return None;
            },
        };
        let head = chain_head(&chain);
        let mut reader = chain_reader(&chain, mem);
        Some(VirtioVsock::packet_in(head, &mut reader))
    }

    /// Return the chain of a packet to the driver.
    pub fn finish_packet(q: &mut virtio_queue::Queue, mem: &Mem, head: u16) -> (r: Result<()>)
        ensures
            queue_words(*final(q)) == queue_words(*old(q)),
            queue_position(*final(q)) == queue_position(*old(q)),
            queue_taken(*final(q)) == queue_taken(*old(q)),
            queue_used_index(*final(q)) == used_index_after(*old(q), *mem, head),
            r is Ok <==> takes_back(*old(q), *mem, head),
            queue_returned(*final(q)) == (if r is Ok {
                queue_returned(*old(q)).push((head, 0u32))
            } else {
                queue_returned(*old(q))
            }),
            r matches Err(e) ==> used_ring_failed(e@, "virtio-vsock"@),
    {
        add_used("virtio-vsock", q, mem, head, 0)
    }

    /// Whether the receive queue may be filled: the driver has set it up.
    pub fn rx_ready(queues: &Vec<virtio_queue::Queue>) -> (r: bool)
        ensures
            r == (queues@.len() > RXQ && queue_words(queues@[RXQ as int])[2] == 1),
    {
        queues.len() > RXQ && queue_ready(&queues[RXQ])
    }

    /// Put a packet into a receive buffer; how many bytes of it are used. A buffer without room
    /// for the header stays empty.
    pub fn put_packet(w: &mut virtio_queue::Writer<'_, ()>, h: &Header, data: &[u8]) -> (used: u32)
        requires
            data@.len() <= MAX_PKT_PAYLOAD,
        ensures
            if HDR_BYTES + data@.len() <= writer_room(*old(w)) {
                &&& used == HDR_BYTES + data@.len()
                &&& writer_sent(*final(w)) == writer_sent(*old(w)) + (h.wire() + data@)
            } else {
                used == 0
            },
    {
        let raw = h.encode_vec();
        let ghost before = writer_sent(*w);
        let ok = write_all(w, raw.as_slice()) && write_all(w, data);
        if ok {
            assert(writer_sent(*w) =~= before + (h.wire() + data@));
            HDR_BYTES as u32 + data.len() as u32
        } else {
            0
        }
    }

    /// Send the control packet that waits first in a receive buffer; how many bytes of it are
    /// used. Where there is no room for it the packet waits for the next buffer.
    pub fn send_control(&mut self, w: &mut virtio_queue::Writer<'_, ()>) -> (used: u32)
        requires
            old(self).muxer.wf(),
            old(self).muxer@.control.len() > 0,
        ensures
            final(self).muxer.wf(),
            final(self).cid == old(self).cid,
            if HDR_BYTES <= writer_room(*old(w)) {
                &&& used == HDR_BYTES
                &&& writer_sent(*final(w)) == writer_sent(*old(w)) + old(
                    self,
                ).muxer@.control[0].wire()
                &&& final(self).muxer@ == old(self).muxer@.control_sent()
            } else {
                used == 0 && final(self).muxer@ == old(self).muxer@
            },
    {
        match self.muxer.rx_next() {
            RxNext::Control(h) => {
                let avail = writer_available(w);
                let none: Vec<u8> = Vec::new();
                let used = VirtioVsock::put_packet(w, &h, none.as_slice());
                assert(h.wire() + none@ =~= h.wire());
                self.muxer.control_used(avail, used > 0)
            },
            _ => 0,
        }
    }

    /// Use the receive buffer in the chain `head`, whose room is `writer` where it can be reached:
    /// for the first control packet, or for data of the next host stream where none waits. A
    /// buffer without room is returned empty.
    pub fn rx_into<'a>(
        &mut self,
        q: &mut virtio_queue::Queue,
        mem: &Mem,
        head: u16,
        writer: &mut Option<virtio_queue::Writer<'a, ()>>,
    ) -> (r: Result<RxStep<'a>>)
        requires
            old(self).muxer.wf(),
            old(self).muxer@.has_rx(),
            *old(writer) matches Some(w) ==> writer_sent(w) == Seq::<u8>::empty(),
        ensures
            final(self).muxer.wf(),
            final(self).cid == old(self).cid,
            queue_words(*final(q)) == queue_words(*old(q)),
            queue_position(*final(q)) == queue_position(*old(q)),
            queue_taken(*final(q)) == queue_taken(*old(q)),
            if old(self).muxer@.control.len() > 0 {
                &&& if HDR_BYTES <= room_of(*old(writer)) {
                    &&& final(self).muxer@ == old(self).muxer@.control_sent()
                    &&& *final(writer) matches Some(w) && writer_sent(w) == old(
                        self,
                    ).muxer@.control[0].wire()
                } else {
                    final(self).muxer@ == old(self).muxer@
                }
                &&& gave_back(
                    r,
                    *mem,
                    *old(q),
                    *final(q),
                    head,
                    if HDR_BYTES <= room_of(*old(writer)) {
                        HDR_BYTES as u32
                    } else {
                        0
                    },
                )
            } else if room_of(*old(writer)) <= HDR_BYTES {
                &&& final(self).muxer@ == old(self).muxer@
                &&& gave_back(r, *mem, *old(q), *final(q), head, 0)
            } else {
                &&& *final(q) == *old(q)
                &&& r matches Ok(RxStep::Read(job)) && {
                    &&& job.wf()
                    &&& job.head == head
                    &&& job.writer == old(writer)->Some_0
                    &&& old(self).muxer@.is_next(job.key)
                    &&& job.n == old(self).muxer@.room_for(job.key, room_of(*old(writer)))
                    &&& final(self).muxer@ == (MuxerView {
                        last_served: Some(job.key),
                        ..old(self).muxer@
                    })
                }
            },
    {
        let mut used: u32 = 0;
        match self.muxer.rx_next() {
            RxNext::Idle => {},
            RxNext::Control(_) => {
                if let Some(w) = writer {
                    used = self.send_control(w);
                }
            },
            RxNext::Data(key) => {
                if let Some(w) = writer.take() {
                    let avail = writer_available(&w);
                    if let Some(n) = self.muxer.data_room(key, avail) {
                        return Ok(RxStep::Read(RxJob { head, writer: w, key, n }));
                    }
                }
            },
        }
        match add_used("virtio-vsock", q, mem, head, used) {
            Ok(()) => Ok(RxStep::Again),
            Err(e) => Err(e),
        }
    }

    /// One step of filling the receive queue: control packets first, then data from host
    /// streams, round-robin. [`VirtioVsock::rx_into`] says what becomes of the buffer; which
    /// chains are offered, and whether their buffers can be reached, rests with the guest.
    pub fn rx_step<'a>(&mut self, q: &mut virtio_queue::Queue, mem: &'a Mem) -> (r: Result<
        RxStep<'a>,
    >)
        requires
            old(self).muxer.wf(),
        ensures
            final(self).muxer.wf(),
            final(self).cid == old(self).cid,
            queue_words(*final(q)) == queue_words(*old(q)),
            !old(self).muxer@.has_rx() || !may_offer(queue_words(*old(q))) ==> r matches Ok(
                RxStep::Done,
            ),
            match r {
                Ok(RxStep::Done) => {
                    &&& final(self).muxer@ == old(self).muxer@
                    &&& queue_position(*final(q)) == queue_position(*old(q))
                    &&& queue_returned(*final(q)) == queue_returned(*old(q))
                    &&& queue_used_index(*final(q)) == queue_used_index(*old(q))
                    &&& queue_taken(*final(q)) == queue_taken(*old(q))
                },
                Ok(RxStep::Again) => {
                    &&& took_one(*old(q), *final(q))
                    &&& takes_back(*old(q), *mem, queue_taken(*final(q)).last())
                    &&& queue_used_index(*final(q)) == position_after(queue_used_index(*old(q)), 1)
                    &&& queue_position(*final(q)) == position_after(queue_position(*old(q)), 1)
                    &&& ({
                        ||| final(self).muxer@ == old(self).muxer@ && returned_one(
                            *old(q),
                            *final(q),
                            0,
                        )
                        ||| old(self).muxer@.control.len() > 0 && final(self).muxer@ == old(
                            self,
                        ).muxer@.control_sent() && returned_one(
                            *old(q),
                            *final(q),
                            HDR_BYTES as u32,
                        )
                    })
                },
                Ok(RxStep::Read(job)) => {
                    &&& job.wf()
                    &&& took_one(*old(q), *final(q))
                    &&& job.head == queue_taken(*final(q)).last()
                    &&& old(self).muxer@.control.len() == 0
                    &&& old(self).muxer@.is_next(job.key)
                    &&& job.n == old(self).muxer@.room_for(job.key, writer_room(job.writer))
                    &&& final(self).muxer@ == (MuxerView {
                        last_served: Some(job.key),
                        ..old(self).muxer@
                    })
                    &&& queue_position(*final(q)) == position_after(queue_position(*old(q)), 1)
                    &&& queue_returned(*final(q)) == queue_returned(*old(q))
                    &&& queue_used_index(*final(q)) == queue_used_index(*old(q))
                },
                Err(e) => {
                    &&& used_ring_failed(e@, "virtio-vsock"@)
                    &&& took_one(*old(q), *final(q))
                    &&& !takes_back(*old(q), *mem, queue_taken(*final(q)).last())
                    &&& queue_used_index(*final(q)) == used_index_after(
                        *old(q),
                        *mem,
                        queue_taken(*final(q)).last(),
                    )
                    &&& queue_position(*final(q)) == position_after(queue_position(*old(q)), 1)
                    &&& queue_returned(*final(q)) == queue_returned(*old(q))
                    &&& final(self).muxer@ == old(self).muxer@ || (old(self).muxer@.control.len()
                        > 0 && final(self).muxer@ == old(self).muxer@.control_sent())
                },
            },
    {
        if let RxNext::Idle = self.muxer.rx_next() {
            return Ok(RxStep::Done);
        }
        let chain = match pop_chain(q, mem) {
            Some(c) => c,
            None => {
                return Ok(RxStep::Done);
            },
        };
        let head = chain_head(&chain);
        let mut writer = chain_writer(&chain, mem);
        self.rx_into(q, mem, head, &mut writer)
    }

    /// The host stream of `job` was read: `data` is what it gave, where it gave some. A packet
    /// goes to the guest, or the buffer back to the queue.
    pub fn rx_finish(
        &mut self,
        q: &mut virtio_queue::Queue,
        mem: &Mem,
        job: &mut RxJob<'_>,
        outcome: ReadOutcome,
        data: &[u8],
    ) -> (r: Result<RxFinished>)
        requires
            old(self).muxer.wf(),
            old(job).wf(),
            old(self).muxer@.has(old(job).key),
            outcome matches ReadOutcome::Data(k) ==> k == data@.len() && k <= old(job).n,
        ensures
            final(self).muxer.wf(),
            final(self).cid == old(self).cid,
            queue_words(*final(q)) == queue_words(*old(q)),
            queue_taken(*final(q)) == queue_taken(*old(q)),
            final(self).muxer@ == old(self).muxer@.read(old(job).key, outcome).0,
            match old(self).muxer@.read(old(job).key, outcome).1 {
                RxAction::Rewind => {
                    &&& r == Ok::<RxFinished, VmmError>(RxFinished { used: false, close: None })
                    &&& queue_position(*final(q)) == position_after(queue_position(*old(q)), -1)
                    &&& queue_used_index(*final(q)) == queue_used_index(*old(q))
                    &&& queue_returned(*final(q)) == queue_returned(*old(q))
                },
                RxAction::RewindClose(fd) => {
                    &&& r == Ok::<RxFinished, VmmError>(RxFinished { used: false, close: Some(fd) })
                    &&& queue_position(*final(q)) == position_after(queue_position(*old(q)), -1)
                    &&& queue_used_index(*final(q)) == queue_used_index(*old(q))
                    &&& queue_returned(*final(q)) == queue_returned(*old(q))
                },
                RxAction::Packet(h) => {
                    &&& writer_sent(final(job).writer) == h.wire() + data@
                    &&& queue_position(*final(q)) == queue_position(*old(q))
                    &&& queue_used_index(*final(q)) == used_index_after(
                        *old(q),
                        *mem,
                        old(job).head,
                    )
                    &&& r is Ok <==> takes_back(*old(q), *mem, old(job).head)
                    &&& match r {
                        Ok(f) => f == (RxFinished { used: true, close: None }) && queue_returned(
                            *final(q),
                        ) == queue_returned(*old(q)).push(
                            (old(job).head, (HDR_BYTES + data@.len()) as u32),
                        ),
                        Err(e) => used_ring_failed(e@, "virtio-vsock"@) && queue_returned(*final(q))
                            == queue_returned(*old(q)),
                    }
                },
            },
    {
        match self.muxer.on_read(job.key, outcome) {
            RxAction::Rewind => {
                unpop_chain(q);
                Ok(RxFinished { used: false, close: None })
            },
            RxAction::RewindClose(fd) => {
                unpop_chain(q);
                Ok(RxFinished { used: false, close: Some(fd) })
            },
            RxAction::Packet(h) => {
                let used = VirtioVsock::put_packet(&mut job.writer, &h, data);
                assert(writer_sent(job.writer) =~= h.wire() + data@);
                add_used("virtio-vsock", q, mem, job.head, used)?;
                Ok(RxFinished { used: true, close: None })
            },
        }
    }
}

/// The bytes a buffer has room for; none where it cannot be reached.
pub open spec fn room_of(w: Option<virtio_queue::Writer<'_, ()>>) -> nat {
    match w {
        Some(w) => writer_room(w),
        None => 0,
    }
}

/// Whether the chain `head` was returned to the driver with `used` bytes written, where the queue
/// takes it back, and `r` says so; or whether `r` says that it could not be.
pub open spec fn gave_back(
    r: Result<RxStep<'_>>,
    mem: Mem,
    before: virtio_queue::Queue,
    after: virtio_queue::Queue,
    head: u16,
    used: u32,
) -> bool {
    &&& queue_used_index(after) == used_index_after(before, mem, head)
    &&& r is Ok <==> takes_back(before, mem, head)
    &&& match r {
        Ok(step) => step is Again && queue_returned(after) == queue_returned(before).push(
            (head, used),
        ),
        Err(e) => used_ring_failed(e@, "virtio-vsock"@) && queue_returned(after) == queue_returned(
            before,
        ),
    }
}

/// Whether the chain that was taken last was returned to the driver, with `used` bytes written.
pub open spec fn returned_one(
    before: virtio_queue::Queue,
    after: virtio_queue::Queue,
    used: u32,
) -> bool {
    queue_returned(after) == queue_returned(before).push((queue_taken(after).last(), used))
}

/// A header read from some bytes is read from them whatever follows.
proof fn lemma_read_from_prefix(h: Header, b: Seq<u8>, tail: Seq<u8>)
    requires
        b.len() == HDR_BYTES,
        h.read_from(b),
    ensures
        h.read_from(b + tail),
{
    let t = b + tail;
    assert(b.subrange(0, 8) =~= t.subrange(0, 8));
    lemma_le_at_same(b, t, 0, 8);
    assert(b.subrange(8, 16) =~= t.subrange(8, 16));
    lemma_le_at_same(b, t, 8, 8);
    assert(b.subrange(16, 20) =~= t.subrange(16, 20));
    lemma_le_at_same(b, t, 16, 4);
    assert(b.subrange(20, 24) =~= t.subrange(20, 24));
    lemma_le_at_same(b, t, 20, 4);
    assert(b.subrange(24, 28) =~= t.subrange(24, 28));
    lemma_le_at_same(b, t, 24, 4);
    assert(b.subrange(28, 30) =~= t.subrange(28, 30));
    lemma_le_at_same(b, t, 28, 2);
    assert(b.subrange(30, 32) =~= t.subrange(30, 32));
    lemma_le_at_same(b, t, 30, 2);
    assert(b.subrange(32, 36) =~= t.subrange(32, 36));
    lemma_le_at_same(b, t, 32, 4);
    assert(b.subrange(36, 40) =~= t.subrange(36, 40));
    lemma_le_at_same(b, t, 36, 4);
    assert(b.subrange(40, 44) =~= t.subrange(40, 44));
    lemma_le_at_same(b, t, 40, 4);
}

fn is_carried(h: &Header, left: usize) -> (r: bool)
    ensures
        r == carried(*h, left as int),
{
    h.len as usize <= MAX_PKT_PAYLOAD && h.len as usize <= left
}

} // verus!
