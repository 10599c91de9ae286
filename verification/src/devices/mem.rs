//! `virtio-mem` (virtio 1.2, 5.15): memory the host can add to and take from the running
//! guest, within the `--memory-max` given at boot.
//!
//! The device owns one region of guest-physical address space, above boot memory, whose host
//! mapping is reserved at boot and never touched until the guest plugs a block, so an unplugged
//! block costs the host nothing. A resize sets `requested_size` and raises a configuration
//! interrupt; the guest's driver then plugs or unplugs blocks until `plugged_size` matches.
//! Unplugged blocks are discarded on the host, which returns their memory to it.
//!
//! The device refuses, with the specification's status codes, every request outside the
//! region, not block-aligned, of zero blocks, plugging past `requested_size`, or plugging a
//! plugged block or unplugging an unplugged one.

pub mod laws;
pub mod req;
pub mod resp;
pub mod state;

use super::chain::{
    add_used, chain_head, chain_reader, chain_writer, may_offer, pop_chain, position_after,
    entry_written, queue_position, queue_returned, queue_taken, read_exact, reader_given,
    reader_left, returnable, takes_back, took_one, used_index_after, used_ring_failed, write_all,
    writer_room, writer_sent,
};
use super::queue::{all_words, mem_ranges, queue_used_index, queue_words, Mem};
use super::virtio::{read_config_bytes, VirtioDevice, ID_MEM};
use crate::bytes::{le_at, le_bytes, lemma_le_bytes_len, push_le, u16_at, u64_at};
use crate::error::{Result, VmmError, VmmErrorView};
use crate::text::{cat2, cat4, cat5, dec, dec_text, hex0x, hex0x_text};
use vstd::prelude::*;

verus! {

/// Block size: 2 MiB, the x86_64 and 4 KiB-page aarch64 pageblock, so the guest can plug in
/// sub-blocks of a Linux memory block.
pub const BLOCK_BYTES: u64 = 2097152;

/// Queue size of the one request queue: the driver sends one request at a time.
pub const QUEUE_SIZE: u16 = 128;

/// Feature: the driver must not touch unplugged memory.
pub const F_UNPLUGGED_INACCESSIBLE: u64 = 2;

/// Size of a request.
pub const REQ_BYTES: usize = 24;

/// Size of a response.
pub const RESP_BYTES: usize = 16;

/// Returns unplugged memory to the host.
pub trait MemBacking {
    /// Whether dropping the host pages behind `[gpa, gpa + len)` may come to `r`. A backing that
    /// does not say promises nothing.
    open spec fn discarded(&self, mem: Mem, gpa: u64, len: u64, r: Result<()>) -> bool {
        true
    }

    /// Drop the host pages behind guest-physical `[gpa, gpa + len)`.
    fn discard(&self, mem: &Mem, gpa: u64, len: u64) -> (r: Result<()>)
        ensures
            self.discarded(*mem, gpa, len, r),
    ;
}

/// The last address of the range `[gpa, gpa + len)` that is to be discarded.
pub fn discard_last(gpa: u64, len: u64) -> (r: Result<u64>)
    ensures
        r is Ok <==> len == 0 || gpa + len - 1 <= u64::MAX,
        r matches Ok(last) ==> last == (if len == 0 {
            gpa as int
        } else {
            gpa + len - 1
        }),
        r matches Err(e) ==> e@ == (VmmErrorView::Device {
            device: "virtio-mem"@,
            msg: "discard range overflows"@,
        }),
{
    let rest: u64 = if len == 0 {
        0
    } else {
        len - 1
    };
    match gpa.checked_add(rest) {
        Some(last) => Ok(last),
        None => Err(VmmError::device("virtio-mem", "discard range overflows")),
    }
}

/// Whether a range of `len` bytes, whose first byte lies at `host` and whose last one at
/// `host_last`, is one mapping.
pub fn check_one_mapping(host: u64, host_last: u64, len: u64) -> (r: Result<()>)
    requires
        len > 0,
    ensures
        r is Ok <==> host_last - host == len - 1,
        r matches Err(e) ==> e@ == (VmmErrorView::Device {
            device: "virtio-mem"@,
            msg: "discard range spans two mappings"@,
        }),
{
    if host_last < host || host_last - host != len - 1 {
        return Err(VmmError::device("virtio-mem", "discard range spans two mappings"));
    }
    Ok(())
}

/// The state of a device.
#[verifier::ext_equal]
pub struct MemView {
    pub addr: u64,
    pub region_size: u64,
    /// Which blocks are plugged.
    pub plugged: Seq<bool>,
    pub plugged_size: u64,
    pub requested_size: u64,
}

/// How many of `s` are set.
pub open spec fn count(s: Seq<bool>) -> nat
    decreases s.len(),
{
    if s.len() == 0 {
        0
    } else {
        count(s.drop_last()) + if s.last() {
            1nat
        } else {
            0nat
        }
    }
}

/// `s` with `[first, first + n)` set to `on`.
pub open spec fn filled(s: Seq<bool>, first: int, n: int, on: bool) -> Seq<bool> {
    Seq::new(
        s.len(),
        |i: int| if first <= i < first + n {
            on
        } else {
            s[i]
        },
    )
}

/// What to do about one request.
#[derive(Clone, Copy, Debug, PartialEq, Eq, Structural)]
pub enum Step {
    /// Answer with this response type and state; nothing changes.
    Reply(u16, u16),
    /// Plug these blocks and acknowledge.
    Plug(u64, u64),
    /// Discard these blocks' memory, unplug them and acknowledge.
    Unplug(u64, u64),
    /// Discard and unplug every plugged run and acknowledge.
    UnplugAll,
}

impl MemView {
    /// What every operation keeps: as many blocks as the region holds, and at least the plugged
    /// blocks accounted for, within the region.
    pub open spec fn wf(self) -> bool {
        &&& self.addr as int % (BLOCK_BYTES as int) == 0
        &&& self.addr + self.region_size <= u64::MAX + 1
        &&& self.region_size == self.plugged.len() * BLOCK_BYTES
        &&& self.plugged.len() > 0
        &&& count(self.plugged) * BLOCK_BYTES <= self.plugged_size <= self.region_size
        &&& self.requested_size <= self.region_size
        &&& self.requested_size as int % (BLOCK_BYTES as int) == 0
    }

    /// Whether the plugged blocks are accounted for exactly.
    pub open spec fn exact(self) -> bool {
        self.plugged_size == count(self.plugged) * BLOCK_BYTES
    }

    /// The first block and the block count of a request, if it lies in the region.
    pub open spec fn blocks(self, addr: u64, nb: u16) -> Option<(u64, u64)> {
        let off = addr - self.addr;
        if nb > 0 && off >= 0 && off % (BLOCK_BYTES as int) == 0 && off + nb * BLOCK_BYTES
            <= self.region_size {
            Some(((off / (BLOCK_BYTES as int)) as u64, nb as u64))
        } else {
            None
        }
    }

    /// How many of `n` blocks from `first` are plugged.
    pub open spec fn plugged_in(self, first: u64, n: u64) -> nat {
        count(self.plugged.subrange(first as int, first + n))
    }

    /// What to do about a request.
    pub open spec fn step(self, kind: u16, addr: u64, nb: u16) -> Step {
        if kind == req::UNPLUG_ALL {
            Step::UnplugAll
        } else if kind != req::PLUG && kind != req::UNPLUG && kind != req::STATE {
            Step::Reply(resp::ERROR, 0)
        } else {
            match self.blocks(addr, nb) {
                None => Step::Reply(resp::ERROR, 0),
                Some((first, n)) => {
                    let p = self.plugged_in(first, n);
                    if kind == req::STATE {
                        Step::Reply(
                            resp::ACK,
                            if p == n {
                                state::PLUGGED
                            } else if p == 0 {
                                state::UNPLUGGED
                            } else {
                                state::MIXED
                            },
                        )
                    } else if kind == req::PLUG {
                        if p != 0 {
                            Step::Reply(resp::ERROR, 0)
                        } else if self.plugged_size + n * BLOCK_BYTES > self.requested_size {
                            Step::Reply(resp::NACK, 0)
                        } else {
                            Step::Plug(first, n)
                        }
                    } else if p != n {
                        Step::Reply(resp::ERROR, 0)
                    } else {
                        Step::Unplug(first, n)
                    }
                },
            }
        }
    }

    /// The state after `n` blocks from `first` were plugged.
    pub open spec fn plug(self, first: u64, n: u64) -> MemView {
        MemView {
            plugged: filled(self.plugged, first as int, n as int, true),
            plugged_size: (self.plugged_size + n * BLOCK_BYTES) as u64,
            ..self
        }
    }

    /// The state after `n` blocks from `first` were unplugged.
    pub open spec fn unplug(self, first: u64, n: u64) -> MemView {
        MemView {
            plugged: filled(self.plugged, first as int, n as int, false),
            plugged_size: (self.plugged_size - n * BLOCK_BYTES) as u64,
            ..self
        }
    }

    /// Whether the blocks `[first, end)` are plugged and those beside them are not.
    pub open spec fn run(self, first: int, end: int) -> bool {
        &&& 0 <= first < end <= self.plugged.len()
        &&& forall|i: int| first <= i < end ==> #[trigger] self.plugged[i]
        &&& first > 0 ==> !self.plugged[first - 1]
        &&& end < self.plugged.len() ==> !self.plugged[end]
    }

    /// The state with nothing plugged.
    pub open spec fn cleared(self) -> MemView {
        MemView {
            plugged: Seq::new(self.plugged.len(), |i: int| false),
            plugged_size: 0,
            ..self
        }
    }

    /// The configuration space: the block size, the node, the region, what may be used of it,
    /// what is plugged and what is requested.
    pub open spec fn config(self) -> Seq<u8> {
        le_bytes(BLOCK_BYTES as nat, 8) + le_bytes(0, 8) + le_bytes(self.addr as nat, 8) + le_bytes(
            self.region_size as nat,
            8,
        ) + le_bytes(self.region_size as nat, 8) + le_bytes(self.plugged_size as nat, 8) + le_bytes(
            self.requested_size as nat,
            8,
        )
    }
}

proof fn lemma_count_bounds(s: Seq<bool>)
    ensures
        count(s) <= s.len(),
        count(s) == 0 <==> forall|i: int| 0 <= i < s.len() ==> !#[trigger] s[i],
        count(s) == s.len() <==> forall|i: int| 0 <= i < s.len() ==> #[trigger] s[i],
    decreases s.len(),
{
    if s.len() > 0 {
        lemma_count_bounds(s.drop_last());
        assert forall|i: int| 0 <= i < s.len() - 1 implies s[i] == s.drop_last()[i] by {}
        if count(s) == 0 {
            assert forall|i: int| 0 <= i < s.len() implies !#[trigger] s[i] by {
                if i < s.len() - 1 {
                    assert(!s.drop_last()[i]);
                }
            }
        }
        if count(s) == s.len() {
            assert forall|i: int| 0 <= i < s.len() implies #[trigger] s[i] by {
                if i < s.len() - 1 {
                    assert(s.drop_last()[i]);
                }
            }
        }
        if forall|i: int| 0 <= i < s.len() ==> !#[trigger] s[i] {
            assert forall|i: int| 0 <= i < s.len() - 1 implies !#[trigger] s.drop_last()[i] by {
                assert(!s[i]);
            }
        }
        if forall|i: int| 0 <= i < s.len() ==> #[trigger] s[i] {
            assert forall|i: int| 0 <= i < s.len() - 1 implies #[trigger] s.drop_last()[i] by {
                assert(s[i]);
            }
        }
    }
}

proof fn lemma_count_split(s: Seq<bool>, at: int)
    requires
        0 <= at <= s.len(),
    ensures
        count(s) == count(s.subrange(0, at)) + count(s.subrange(at, s.len() as int)),
    decreases s.len(),
{
    if at == s.len() {
        assert(s.subrange(0, at) =~= s);
        assert(s.subrange(at, at).len() == 0);
    } else {
        lemma_count_split(s.drop_last(), at);
        assert(s.drop_last().subrange(0, at) =~= s.subrange(0, at));
        assert(s.drop_last().subrange(at, s.len() - 1) =~= s.subrange(
            at,
            s.len() as int,
        ).drop_last());
    }
}

/// Filling a range accounts for what was in it.
proof fn lemma_count_filled(s: Seq<bool>, first: int, n: int, on: bool)
    requires
        0 <= first,
        0 <= n,
        first + n <= s.len(),
    ensures
        count(filled(s, first, n, on)) == count(s) - count(s.subrange(first, first + n)) + if on {
            n
        } else {
            0
        },
{
    let t = filled(s, first, n, on);
    lemma_count_split(s, first);
    lemma_count_split(s.subrange(first, s.len() as int), n);
    assert(s.subrange(first, s.len() as int).subrange(0, n) =~= s.subrange(first, first + n));
    assert(s.subrange(first, s.len() as int).subrange(n, s.len() - first) =~= s.subrange(
        first + n,
        s.len() as int,
    ));
    lemma_count_split(t, first);
    lemma_count_split(t.subrange(first, t.len() as int), n);
    assert(t.subrange(first, t.len() as int).subrange(0, n) =~= t.subrange(first, first + n));
    assert(t.subrange(first, t.len() as int).subrange(n, t.len() - first) =~= t.subrange(
        first + n,
        t.len() as int,
    ));
    assert(t.subrange(0, first) =~= s.subrange(0, first));
    assert(t.subrange(first + n, t.len() as int) =~= s.subrange(first + n, s.len() as int));
    lemma_count_bounds(t.subrange(first, first + n));
}

/// A request that plugs or unplugs names blocks of the region, and leaves the state in order.
pub proof fn lemma_step(m: MemView, kind: u16, addr: u64, nb: u16)
    requires
        m.wf(),
    ensures
        match m.step(kind, addr, nb) {
            Step::Plug(first, n) => {
                &&& n == nb
                &&& first + n <= m.plugged.len()
                &&& addr == m.addr + first * BLOCK_BYTES
                &&& count(m.plug(first, n).plugged) == count(m.plugged) + n
                &&& m.plug(first, n).wf()
                &&& m.exact() ==> m.plug(first, n).exact()
            },
            Step::Unplug(first, n) => {
                &&& n == nb
                &&& first + n <= m.plugged.len()
                &&& addr == m.addr + first * BLOCK_BYTES
                &&& n * BLOCK_BYTES <= m.plugged_size
                &&& count(m.unplug(first, n).plugged) == count(m.plugged) - n
                &&& m.unplug(first, n).wf()
                &&& m.exact() ==> m.unplug(first, n).exact()
            },
            _ => true,
        },
{
    if let Some((first, n)) = m.blocks(addr, nb) {
        let off = addr - m.addr;
        assert(off == first * BLOCK_BYTES && first + n <= m.plugged.len()) by (nonlinear_arith)
            requires
                off % (BLOCK_BYTES as int) == 0,
                off >= 0,
                first == off / (BLOCK_BYTES as int),
                n == nb,
                off + nb * BLOCK_BYTES <= m.region_size,
                m.region_size == m.plugged.len() * BLOCK_BYTES,
                BLOCK_BYTES == 2097152,
        ;
        lemma_count_filled(m.plugged, first as int, n as int, true);
        lemma_count_filled(m.plugged, first as int, n as int, false);
        lemma_count_split(m.plugged, first as int);
        let rest = m.plugged.subrange(first as int, m.plugged.len() as int);
        lemma_count_split(rest, n as int);
        assert(rest.subrange(0, n as int) =~= m.plugged.subrange(first as int, first + n));
    }
}

/// The device.
pub struct VirtioMem<B: MemBacking> {
    addr: u64,
    region_size: u64,
    plugged: Vec<bool>,
    plugged_size: u64,
    requested_size: u64,
    backing: B,
}

impl<B: MemBacking> View for VirtioMem<B> {
    type V = MemView;

    closed spec fn view(&self) -> MemView {
        MemView {
            addr: self.addr,
            region_size: self.region_size,
            plugged: self.plugged@,
            plugged_size: self.plugged_size,
            requested_size: self.requested_size,
        }
    }
}

impl<B: MemBacking> VirtioMem<B> {
    /// What returns unplugged memory to the host.
    pub closed spec fn backing(&self) -> B {
        self.backing
    }

    /// Whether returning the memory of the blocks `[first, end)` to the host may have come to
    /// `r`.
    pub open spec fn returning(&self, mem: Mem, first: int, end: int, r: Result<()>) -> bool {
        self.backing().discarded(
            mem,
            (self@.addr + first * BLOCK_BYTES) as u64,
            ((end - first) * BLOCK_BYTES) as u64,
            r,
        )
    }

    /// Whether the memory of the blocks `[first, end)` was returned to the host.
    pub open spec fn gave_back(&self, mem: Mem, first: int, end: int) -> bool {
        exists|r: Result<()>| r is Ok && #[trigger] self.returning(mem, first, end, r)
    }

    /// Whether the memory of every run of plugged blocks that ends at `upto` or below was
    /// returned to the host, each run at once.
    pub open spec fn gave_runs_back(&self, mem: Mem, upto: int) -> bool {
        forall|first: int, end: int| #[trigger]
            self@.run(first, end) && end <= upto ==> self.gave_back(mem, first, end)
    }

    /// Whether the memory of every run of plugged blocks was returned to the host.
    pub open spec fn gave_all_back(&self, mem: Mem) -> bool {
        self.gave_runs_back(mem, self@.plugged.len() as int)
    }

    /// Whether a request, of which `given` was read from buffers of `left` bytes and for which
    /// `sent` was written to buffers of `room` bytes, was answered and left `after`. A response
    /// there is no room for is lost.
    pub open spec fn served(
        &self,
        mem: Mem,
        left: nat,
        given: Seq<u8>,
        room: nat,
        sent: Seq<u8>,
        after: MemView,
    ) -> bool {
        &&& self.gave_back_for(mem, request_of(left, given))
        &&& if RESP_BYTES <= room {
            self@.answered(request_of(left, given), sent, after)
        } else {
            exists|out: Seq<u8>| #[trigger] self@.answered(request_of(left, given), out, after)
        }
    }

    /// Whether unplugging everything may have failed with `e` and left `after`: the host refused
    /// the memory of one run of plugged blocks with that error, having taken the runs below it.
    /// That run and those below it are unplugged, but none of it is accounted for.
    pub open spec fn stopped(&self, mem: Mem, e: VmmError, after: MemView) -> bool {
        exists|first: int, end: int| #[trigger]
            self@.run(first, end) && self.returning(mem, first, end, Err(e)) && self.gave_runs_back(
                mem,
                first,
            ) && after == (MemView { plugged: filled(self@.plugged, 0, end, false), ..self@ })
    }

    /// Whether the request in these bytes may have failed with `e` and left `after`: it takes
    /// memory from the guest, and the host refused it.
    pub open spec fn refused_for(&self, mem: Mem, b: Seq<u8>, e: VmmError, after: MemView) -> bool {
        match self@.asked(b) {
            Step::Unplug(first, n) => after == self@ && self.returning(
                mem,
                first as int,
                first + n,
                Err(e),
            ),
            Step::UnplugAll => self.stopped(mem, e, after),
            _ => false,
        }
    }

    /// Whether serving one request may leave `after`: it is answered, having given the host what
    /// it takes from the guest, or its buffers cannot be reached and nothing is done.
    pub open spec fn serves_one(&self, mem: Mem, after: &Self) -> bool {
        &&& after.backing() == self.backing()
        &&& after@ == self@ || exists|raw: Option<Seq<u8>>, out: Seq<u8>| #[trigger]
            self@.answered(raw, out, after@) && self.gave_back_for(mem, raw)
    }

    /// Whether serving `n` requests, one after another, may leave `after`.
    pub open spec fn serves_many(&self, mem: Mem, n: nat, after: &Self) -> bool
        decreases n,
    {
        if n == 0 {
            after@ == self@ && after.backing() == self.backing()
        } else {
            exists|mid: Self|
                self.serves_many(mem, (n - 1) as nat, &mid) && #[trigger] mid.serves_one(mem, after)
        }
    }

    /// Whether some request may have failed with `e`, which the host refused, and left `after`.
    pub open spec fn refuses_one(&self, mem: Mem, e: VmmError, after: &Self) -> bool {
        &&& after.backing() == self.backing()
        &&& exists|b: Seq<u8>| #[trigger] self.refused_for(mem, b, e, after@)
    }

    /// Whether a run over a queue, which took it from `before` to `after` and left the device
    /// `left`, ended with `e` once `n` requests were served: the chain of the next one cannot be
    /// returned, or the host refused it.
    pub open spec fn ended(
        &self,
        mem: Mem,
        n: nat,
        e: VmmError,
        left: &Self,
        before: virtio_queue::Queue,
        after: virtio_queue::Queue,
    ) -> bool {
        let index = position_after(queue_used_index(before), n as int);
        let head = queue_taken(after).last();
        &&& returned_more(before, after, n, n + 1)
        &&& {
            ||| {
                &&& used_ring_failed(e@, "virtio-mem"@)
                &&& self.serves_one(mem, left)
                &&& !returnable(queue_words(before), index, mem_ranges(mem), head)
                &&& queue_used_index(after) == if entry_written(
                    queue_words(before),
                    index,
                    mem_ranges(mem),
                    head,
                ) {
                    position_after(index, 1)
                } else {
                    index
                }
            }
            ||| self.refuses_one(mem, e, left) && queue_used_index(after) == index
        }
    }

    /// Whether the host was given back what the request in these bytes takes from the guest.
    pub open spec fn gave_back_for(&self, mem: Mem, raw: Option<Seq<u8>>) -> bool {
        match raw {
            None => true,
            Some(b) => match self@.asked(b) {
                Step::Unplug(first, n) => self.gave_back(mem, first as int, first + n),
                Step::UnplugAll => self.gave_all_back(mem),
                _ => true,
            },
        }
    }

    /// A device owning guest-physical `[addr, addr + region_size)`; both block-aligned.
    pub fn new(addr: u64, region_size: u64, backing: B) -> (r: Result<Self>)
        requires
            addr + region_size <= u64::MAX + 1,
            region_size / BLOCK_BYTES <= usize::MAX,
        ensures
            r is Ok <==> addr % BLOCK_BYTES == 0 && region_size % BLOCK_BYTES == 0 && region_size
                != 0,
            r matches Ok(d) ==> {
                &&& d@.wf()
                &&& d.backing() == backing
                &&& d@.exact()
                &&& d@ == (MemView {
                    addr,
                    region_size,
                    plugged: Seq::new((region_size / BLOCK_BYTES) as nat, |i: int| false),
                    plugged_size: 0,
                    requested_size: 0,
                })
            },
            r matches Err(e) ==> e@ == (VmmErrorView::Device {
                device: "virtio-mem"@,
                msg: "region "@ + hex0x(addr as nat) + "+"@ + hex0x(region_size as nat)
                    + " is not a whole number of blocks"@,
            }),
    {
        if addr % BLOCK_BYTES != 0 || region_size % BLOCK_BYTES != 0 || region_size == 0 {
            let a = hex0x_text(addr);
            let l = hex0x_text(region_size);
            let msg = cat5("region ", &a, "+", &l, " is not a whole number of blocks");
            return Err(VmmError::device("virtio-mem", &msg));
        }
        let blocks: u64 = region_size / BLOCK_BYTES;
        let mut plugged: Vec<bool> = Vec::new();
        let mut i: u64 = 0;
        while i < blocks
            invariant
                i <= blocks,
                blocks <= usize::MAX,
                plugged@.len() == i,
                forall|j: int| 0 <= j < i ==> !#[trigger] plugged@[j],
            decreases blocks - i,
        {
            plugged.push(false);
            i += 1;
        }
        proof {
            lemma_count_bounds(plugged@);
        }
        assert(plugged@ =~= Seq::new((region_size / BLOCK_BYTES) as nat, |i: int| false));
        Ok(
            VirtioMem {
                addr,
                region_size,
                plugged,
                plugged_size: 0,
                requested_size: 0,
                backing,
            },
        )
    }

    /// Bytes the guest has plugged.
    pub fn plugged_size(&self) -> (n: u64)
        ensures
            n == self@.plugged_size,
    {
        self.plugged_size
    }

    /// Bytes the host has asked for.
    pub fn requested_size(&self) -> (n: u64)
        ensures
            n == self@.requested_size,
    {
        self.requested_size
    }

    /// The region's size.
    pub fn region_size(&self) -> (n: u64)
        ensures
            n == self@.region_size,
    {
        self.region_size
    }

    /// Ask the guest to hold `bytes` of hot-plugged memory. Refused beyond the region and
    /// when not a whole number of blocks, so what the host asked is exactly what the guest
    /// sees.
    pub fn set_requested(&mut self, bytes: u64) -> (r: Result<()>)
        requires
            old(self)@.wf(),
        ensures
            final(self)@.wf(),
            old(self)@.exact() ==> final(self)@.exact(),
            r is Ok <==> bytes <= old(self)@.region_size && bytes % BLOCK_BYTES == 0,
            r is Ok ==> final(self)@ == (MemView { requested_size: bytes, ..old(self)@ }),
            r is Err ==> final(self)@ == old(self)@,
            final(self).backing() == old(self).backing(),
            r matches Err(e) ==> e@ == VmmErrorView::Control(
                if bytes > old(self)@.region_size {
                    dec(bytes as nat) + " bytes of hot-plug memory exceeds the "@ + dec(
                        old(self)@.region_size as nat,
                    ) + " reserved at boot"@
                } else {
                    dec(bytes as nat) + " is not a multiple of the 2097152-byte block"@
                },
            ),
    {
        if bytes > self.region_size {
            let a = dec_text(bytes);
            let b = dec_text(self.region_size);
            return Err(
                VmmError::Control(
                    cat4(&a, " bytes of hot-plug memory exceeds the ", &b, " reserved at boot"),
                ),
            );
        }
        if bytes % BLOCK_BYTES != 0 {
            let a = dec_text(bytes);
            return Err(
                VmmError::Control(cat2(&a, " is not a multiple of the 2097152-byte block")),
            );
        }
        self.requested_size = bytes;
        Ok(())
    }

    fn config_space(&self) -> (c: Vec<u8>)
        ensures
            c@ == self@.config(),
    {
        let mut c: Vec<u8> = Vec::new();
        push_le(&mut c, BLOCK_BYTES, 8);
        push_le(&mut c, 0, 8);
        push_le(&mut c, self.addr, 8);
        push_le(&mut c, self.region_size, 8);
        push_le(&mut c, self.region_size, 8);
        push_le(&mut c, self.plugged_size, 8);
        push_le(&mut c, self.requested_size, 8);
        assert(c@ =~= self@.config());
        c
    }

    /// The first block and block count of a request, if it lies in the region.
    fn blocks(&self, addr: u64, nb: u16) -> (r: Option<(u64, u64)>)
        requires
            self@.wf(),
        ensures
            r == self@.blocks(addr, nb),
    {
        if nb == 0 || addr < self.addr {
            return None;
        }
        let off: u64 = addr - self.addr;
        let len: u64 = nb as u64 * BLOCK_BYTES;
        if off % BLOCK_BYTES != 0 || off > self.region_size || len > self.region_size - off {
            return None;
        }
        Some((off / BLOCK_BYTES, nb as u64))
    }

    /// How many of `n` blocks from `first` are plugged.
    fn plugged_in(&self, first: u64, n: u64) -> (p: u64)
        requires
            first + n <= self@.plugged.len(),
        ensures
            p == self@.plugged_in(first, n),
            p <= n,
    {
        let mut p: u64 = 0;
        let mut i: u64 = 0;
        assert(self.plugged@.subrange(first as int, first as int).len() == 0);
        while i < n
            invariant
                i <= n,
                first + n <= self.plugged@.len(),
                p <= i,
                p == count(self.plugged@.subrange(first as int, first + i)),
            decreases n - i,
        {
            assert(self.plugged.len() == self.plugged@.len());
            assert(self.plugged@.subrange(first as int, first + i + 1).drop_last()
                =~= self.plugged@.subrange(first as int, first + i));
            if self.plugged[(first + i) as usize] {
                p += 1;
            }
            i += 1;
        }
        p
    }

    /// What to do about a request.
    pub fn step(&self, kind: u16, addr: u64, nb: u16) -> (s: Step)
        requires
            self@.wf(),
        ensures
            s == self@.step(kind, addr, nb),
    {
        if kind == req::UNPLUG_ALL {
            return Step::UnplugAll;
        }
        if kind != req::PLUG && kind != req::UNPLUG && kind != req::STATE {
            return Step::Reply(resp::ERROR, 0);
        }
        let (first, n) = match self.blocks(addr, nb) {
            None => {
                return Step::Reply(resp::ERROR, 0);
            },
            Some(b) => b,
        };
        proof {
            let off = addr - self.addr;
            assert(first + n <= self@.plugged.len()) by (nonlinear_arith)
                requires
                    off % (BLOCK_BYTES as int) == 0,
                    off >= 0,
                    first == off / (BLOCK_BYTES as int),
                    n == nb,
                    off + nb * BLOCK_BYTES <= self@.region_size,
                    self@.region_size == self@.plugged.len() * BLOCK_BYTES,
                    BLOCK_BYTES == 2097152,
            ;
        }
        let p = self.plugged_in(first, n);
        if kind == req::STATE {
            let s: u16 = if p == n {
                state::PLUGGED
            } else if p == 0 {
                state::UNPLUGGED
            } else {
                state::MIXED
            };
            return Step::Reply(resp::ACK, s);
        }
        if kind == req::PLUG {
            if p != 0 {
                return Step::Reply(resp::ERROR, 0);
            }
            if self.plugged_size > self.requested_size || n * BLOCK_BYTES > self.requested_size
                - self.plugged_size {
                return Step::Reply(resp::NACK, 0);
            }
            return Step::Plug(first, n);
        }
        if p != n {
            return Step::Reply(resp::ERROR, 0);
        }
        Step::Unplug(first, n)
    }

    /// Set `n` blocks from `first`.
    fn set_plugged(&mut self, first: u64, n: u64, on: bool)
        requires
            first + n <= old(self)@.plugged.len(),
        ensures
            final(self)@ == (MemView {
                plugged: filled(old(self)@.plugged, first as int, n as int, on),
                ..old(self)@
            }),
            final(self).backing() == old(self).backing(),
    {
        let ghost before = self@;
        let mut i: u64 = 0;
        assert(self@.plugged =~= filled(before.plugged, first as int, 0, on));
        while i < n
            invariant
                i <= n,
                first + n <= self.plugged@.len(),
                self.backing() == old(self).backing(),
                self@ == (MemView {
                    plugged: filled(before.plugged, first as int, i as int, on),
                    ..before
                }),
            decreases n - i,
        {
            assert(self.plugged.len() == self.plugged@.len());
            let ghost was = self@;
            self.plugged.set((first + i) as usize, on);
            assert(self@.plugged =~= filled(before.plugged, first as int, i + 1, on));
            i += 1;
        }
    }

    /// Handle one request; returns the response type and, for STATE, the state. The host may
    /// refuse to discard unplugged memory: then the request fails.
    fn handle(&mut self, mem: &Mem, kind: u16, addr: u64, nb: u16) -> (r: Result<(u16, u16)>)
        requires
            old(self)@.wf(),
        ensures
            final(self)@.wf(),
            final(self)@.addr == old(self)@.addr,
            final(self)@.region_size == old(self)@.region_size,
            final(self)@.requested_size == old(self)@.requested_size,
            final(self).backing() == old(self).backing(),
            match old(self)@.step(kind, addr, nb) {
                Step::Reply(t, s) => r == Ok::<(u16, u16), VmmError>((t, s)) && final(self)@
                    == old(self)@,
                Step::Plug(first, n) => r == Ok::<(u16, u16), VmmError>((resp::ACK, 0))
                    && final(self)@ == old(self)@.plug(first, n),
                Step::Unplug(first, n) => {
                    &&& r is Ok ==> r == Ok::<(u16, u16), VmmError>((resp::ACK, 0))
                        && final(self)@ == old(self)@.unplug(first, n) && old(self).gave_back(
                        *mem,
                        first as int,
                        first + n,
                    )
                    &&& r matches Err(e) ==> final(self)@ == old(self)@ && old(self).returning(
                        *mem,
                        first as int,
                        first + n,
                        Err(e),
                    )
                },
                Step::UnplugAll => {
                    &&& r is Ok ==> r == Ok::<(u16, u16), VmmError>((resp::ACK, 0))
                        && final(self)@ == old(self)@.cleared() && old(self).gave_all_back(*mem)
                    &&& r matches Err(e) ==> old(self).stopped(*mem, e, final(self)@)
                },
            },
    {
        proof {
            lemma_step(self@, kind, addr, nb);
        }
        match self.step(kind, addr, nb) {
            Step::Reply(t, s) => Ok((t, s)),
            Step::Plug(first, n) => {
                self.set_plugged(first, n, true);
                self.plugged_size = self.plugged_size + n * BLOCK_BYTES;
                Ok((resp::ACK, 0))
            },
            Step::Unplug(first, n) => {
                let done = self.backing.discard(
                    mem,
                    self.addr + first * BLOCK_BYTES,
                    n * BLOCK_BYTES,
                );
                assert(self.returning(*mem, first as int, first + n, done));
                match done {
                    Ok(()) => {
                        assert(self.gave_back(*mem, first as int, first + n));
                    },
                    Err(e) => {
                        return Err(e);
                    },
                }
                self.set_plugged(first, n, false);
                self.plugged_size = self.plugged_size - n * BLOCK_BYTES;
                Ok((resp::ACK, 0))
            },
            Step::UnplugAll => {
                match self.unplug_all(mem) {
                    Ok(()) => Ok((resp::ACK, 0)),
                    Err(e) => Err(e),
                }
            },
        }
    }

    /// Discard and unplug every run of plugged blocks, from the bottom up.
    fn unplug_all(&mut self, mem: &Mem) -> (r: Result<()>)
        requires
            old(self)@.wf(),
        ensures
            final(self)@.wf(),
            final(self)@.addr == old(self)@.addr,
            final(self)@.region_size == old(self)@.region_size,
            final(self)@.requested_size == old(self)@.requested_size,
            final(self).backing() == old(self).backing(),
            r is Ok ==> final(self)@ == old(self)@.cleared() && old(self).gave_all_back(*mem),
            r matches Err(e) ==> old(self).stopped(*mem, e, final(self)@),
    {
        let ghost before = self@;
        let blocks: u64 = self.region_size / BLOCK_BYTES;
        assert(blocks == self@.plugged.len() && self.plugged.len() == self@.plugged.len());
        let mut b: u64 = 0;
        while b < blocks
            invariant
                b <= blocks,
                blocks <= usize::MAX,
                blocks == self.plugged@.len(),
                before == old(self)@,
                before.wf(),
                before.plugged.len() == blocks,
                self@ == (MemView { plugged: self@.plugged, ..before }),
                self.backing() == old(self).backing(),
                only_cleared(before.plugged, self@.plugged),
                forall|i: int| 0 <= i < b ==> !#[trigger] self@.plugged[i],
                forall|i: int| b <= i < blocks ==> #[trigger] self@.plugged[i] == before.plugged[i],
                0 < b < blocks ==> !before.plugged[b - 1] || !before.plugged[b as int],
                old(self).gave_runs_back(*mem, b as int),
            decreases blocks - b,
        {
            assert(self.plugged.len() == self.plugged@.len());
            if !self.plugged[b as usize] {
                b += 1;
                continue;
            }
            let start: u64 = b;
            assert(before.plugged[start as int]);
            while b < blocks && self.plugged[b as usize]
                invariant
                    start <= b <= blocks,
                    blocks <= usize::MAX,
                    blocks == self.plugged@.len(),
                    before.wf(),
                    before.plugged.len() == blocks,
                    self@ == (MemView { plugged: self@.plugged, ..before }),
                    self.backing() == old(self).backing(),
                    only_cleared(before.plugged, self@.plugged),
                    forall|i: int| 0 <= i < b ==> !#[trigger] self@.plugged[i],
                    forall|i: int|
                        b <= i < blocks ==> #[trigger] self@.plugged[i] == before.plugged[i],
                    forall|i: int| start <= i < b ==> #[trigger] before.plugged[i],
                    b == start ==> b < blocks && self@.plugged[b as int],
                decreases blocks - b,
            {
                self.plugged.set(b as usize, false);
                b += 1;
            }
            assert(self@ =~= (MemView { plugged: self@.plugged, ..before }));
            let done = self.backing.discard(
                mem,
                self.addr + start * BLOCK_BYTES,
                (b - start) * BLOCK_BYTES,
            );
            assert(old(self).returning(*mem, start as int, b as int, done));
            assert(before.run(start as int, b as int));
            match done {
                Ok(()) => {
                    assert(old(self).gave_back(*mem, start as int, b as int));
                    assert forall|first: int, end: int| #[trigger]
                        before.run(first, end) && end <= b implies old(self).gave_back(
                        *mem,
                        first,
                        end,
                    ) by {
                        if end > start {
                            lemma_runs_are_apart(before, first, end, start as int, b as int);
                        }
                    }
                },
                Err(e) => {
                    proof {
                        lemma_only_cleared(before.plugged, self@.plugged);
                        assert(self@.plugged =~= filled(before.plugged, 0, b as int, false));
                    }
                    return Err(e);
                },
            }
        }
        self.plugged_size = 0;
        proof {
            lemma_count_bounds(self@.plugged);
        }
        assert(self@ =~= before.cleared());
        Ok(())
    }

    /// The answer to one request: what the driver asked, or an error for a request too short
    /// to read.
    fn answer(&mut self, mem: &Mem, raw: Option<Vec<u8>>) -> (r: Result<Vec<u8>>)
        requires
            old(self)@.wf(),
            raw matches Some(b) ==> b@.len() == REQ_BYTES,
        ensures
            final(self)@.wf(),
            final(self)@.addr == old(self)@.addr,
            final(self)@.region_size == old(self)@.region_size,
            final(self)@.requested_size == old(self)@.requested_size,
            final(self).backing() == old(self).backing(),
            r matches Ok(out) ==> out@.len() == RESP_BYTES && old(self)@.answered(
                match raw {
                    Some(b) => Some(b@),
                    None => None,
                },
                out@,
                final(self)@,
            ),
            r is Ok ==> old(self).gave_back_for(
                *mem,
                match raw {
                    Some(b) => Some(b@),
                    None => None,
                },
            ),
            r matches Err(e) ==> (raw matches Some(b) && old(self).refused_for(
                *mem,
                b@,
                e,
                final(self)@,
            )),
    {
        let (kind, st) = match raw {
            Some(b) => {
                let kind = u16_at(b.as_slice(), 0);
                let addr = u64_at(b.as_slice(), 8);
                let nb = u16_at(b.as_slice(), 16);
                match self.handle(mem, kind, addr, nb) {
                    Ok(a) => a,
                    Err(e) => {
                        return Err(e);
                    },
                }
            },
            None => (resp::ERROR, 0u16),
        };
        let mut out: Vec<u8> = Vec::new();
        push_le(&mut out, kind as u64, 8);
        push_le(&mut out, st as u64, 8);
        proof {
            lemma_le_bytes_len(kind as nat, 8);
            lemma_le_bytes_len(st as nat, 8);
        }
        assert(out@ =~= response(kind, st));
        Ok(out)
    }

    /// Serve the request in the buffers of a chain: read it, carry it out, write the response. A
    /// request too short to read is answered with an error; how many bytes were written.
    pub fn serve_chain(
        &mut self,
        mem: &Mem,
        r: &mut virtio_queue::Reader<'_, ()>,
        w: &mut virtio_queue::Writer<'_, ()>,
    ) -> (n: Result<u32>)
        requires
            old(self)@.wf(),
            reader_given(*old(r)) == Seq::<u8>::empty(),
            writer_sent(*old(w)) == Seq::<u8>::empty(),
        ensures
            final(self)@.wf(),
            final(self)@.addr == old(self)@.addr,
            final(self)@.region_size == old(self)@.region_size,
            final(self)@.requested_size == old(self)@.requested_size,
            final(self).backing() == old(self).backing(),
            n matches Ok(used) ==> used == (if RESP_BYTES <= writer_room(*old(w)) {
                RESP_BYTES
            } else {
                0
            }),
            n is Ok && RESP_BYTES <= writer_room(*old(w)) ==> old(self)@.answered(
                request_of(reader_left(*old(r)), reader_given(*final(r))),
                writer_sent(*final(w)),
                final(self)@,
            ),
            n is Ok && RESP_BYTES > writer_room(*old(w)) ==> exists|out: Seq<u8>| #[trigger]
                old(self)@.answered(
                    request_of(reader_left(*old(r)), reader_given(*final(r))),
                    out,
                    final(self)@,
                ),
            n is Ok ==> old(self).gave_back_for(
                *mem,
                request_of(reader_left(*old(r)), reader_given(*final(r))),
            ),
            n matches Err(e) ==> REQ_BYTES <= reader_left(*old(r)) && old(self).refused_for(
                *mem,
                reader_given(*final(r)),
                e,
                final(self)@,
            ),
    {
        let raw = read_exact(r, REQ_BYTES);
        proof {
            if raw is Some {
                assert(reader_given(*r) =~= raw->Some_0@);
            }
        }
        let out = match self.answer(mem, raw) {
            Ok(out) => out,
            Err(e) => {
                return Err(e);
            },
        };
        let copied = write_all(w, out.as_slice());
        if copied {
            assert(writer_sent(*w) =~= out@);
            Ok(RESP_BYTES as u32)
        } else {
            Ok(0)
        }
    }

    /// Serve the request in the chain `head`, whose buffers are `r` and `w` where they can be
    /// reached, and return the chain to the driver. Where they cannot, nothing is done and the
    /// chain goes back empty.
    pub fn serve_offered(
        &mut self,
        q: &mut virtio_queue::Queue,
        mem: &Mem,
        head: u16,
        r: &mut Option<virtio_queue::Reader<'_, ()>>,
        w: &mut Option<virtio_queue::Writer<'_, ()>>,
    ) -> (done: Result<()>)
        requires
            old(self)@.wf(),
            *old(r) matches Some(x) ==> reader_given(x) == Seq::<u8>::empty(),
            *old(w) matches Some(x) ==> writer_sent(x) == Seq::<u8>::empty(),
        ensures
            final(self)@.wf(),
            final(self)@.addr == old(self)@.addr,
            final(self)@.region_size == old(self)@.region_size,
            final(self)@.requested_size == old(self)@.requested_size,
            final(self).backing() == old(self).backing(),
            queue_words(*final(q)) == queue_words(*old(q)),
            queue_position(*final(q)) == queue_position(*old(q)),
            queue_taken(*final(q)) == queue_taken(*old(q)),
            *final(r) is Some <==> *old(r) is Some,
            *final(w) is Some <==> *old(w) is Some,
            if *old(r) is Some && *old(w) is Some {
                let left = reader_left(old(r)->Some_0);
                let room = writer_room(old(w)->Some_0);
                let given = reader_given(final(r)->Some_0);
                let sent = writer_sent(final(w)->Some_0);
                let used: u32 = if RESP_BYTES <= room {
                    RESP_BYTES as u32
                } else {
                    0
                };
                match done {
                    Ok(()) => {
                        &&& old(self).served(*mem, left, given, room, sent, final(self)@)
                        &&& takes_back(*old(q), *mem, head)
                        &&& queue_used_index(*final(q)) == used_index_after(*old(q), *mem, head)
                        &&& queue_returned(*final(q)) == queue_returned(*old(q)).push((head, used))
                    },
                    Err(e) => {
                        ||| REQ_BYTES <= left && old(self).refused_for(
                            *mem,
                            given,
                            e,
                            final(self)@,
                        ) && *final(q) == *old(q)
                        ||| {
                            &&& used_ring_failed(e@, "virtio-mem"@)
                            &&& old(self).served(*mem, left, given, room, sent, final(self)@)
                            &&& !takes_back(*old(q), *mem, head)
                            &&& queue_used_index(*final(q)) == used_index_after(
                                *old(q),
                                *mem,
                                head,
                            )
                            &&& queue_returned(*final(q)) == queue_returned(*old(q))
                        }
                    },
                }
            } else {
                &&& *final(self) == *old(self)
                &&& *final(r) == *old(r)
                &&& *final(w) == *old(w)
                &&& queue_used_index(*final(q)) == used_index_after(*old(q), *mem, head)
                &&& done is Ok <==> takes_back(*old(q), *mem, head)
                &&& match done {
                    Ok(()) => queue_returned(*final(q)) == queue_returned(*old(q)).push(
                        (head, 0u32),
                    ),
                    Err(e) => used_ring_failed(e@, "virtio-mem"@) && queue_returned(*final(q))
                        == queue_returned(*old(q)),
                }
            },
    {
        let mut used: u32 = 0;
        if let Some(r) = r {
            if let Some(w) = w {
                used = match self.serve_chain(mem, r, w) {
                    Ok(n) => n,
                    Err(e) => {
                        return Err(e);
                    },
                };
            }
        }
        add_used("virtio-mem", q, mem, head, used)
    }

    /// Serve the next request of `q`, if there is one; false when there is none. Which chains
    /// are offered, and whether their buffers can be reached, rests with the guest.
    fn serve_next(&mut self, q: &mut virtio_queue::Queue, mem: &Mem) -> (r: Result<bool>)
        requires
            old(self)@.wf(),
        ensures
            final(self)@.wf(),
            final(self)@.addr == old(self)@.addr,
            final(self)@.region_size == old(self)@.region_size,
            final(self)@.requested_size == old(self)@.requested_size,
            final(self).backing() == old(self).backing(),
            queue_words(*final(q)) == queue_words(*old(q)),
            !may_offer(queue_words(*old(q))) ==> r == Ok::<bool, VmmError>(false),
            queue_position(*final(q)) == position_after(
                queue_position(*old(q)),
                if r == Ok::<bool, VmmError>(false) {
                    0
                } else {
                    1
                },
            ),
            r == Ok::<bool, VmmError>(false) ==> final(self)@ == old(self)@ && queue_returned(
                *final(q),
            ) == queue_returned(*old(q)) && queue_taken(*final(q)) == queue_taken(*old(q))
                && queue_used_index(*final(q)) == queue_used_index(*old(q)),
            r != Ok::<bool, VmmError>(false) ==> took_one(*old(q), *final(q)),
            r == Ok::<bool, VmmError>(true) ==> old(self).serves_one(*mem, final(self)) && takes_back(
                *old(q),
                *mem,
                queue_taken(*final(q)).last(),
            ) && queue_used_index(*final(q)) == position_after(queue_used_index(*old(q)), 1),
            r matches Err(e) ==> queue_returned(*final(q)) == queue_returned(*old(q)) && {
                ||| {
                    &&& used_ring_failed(e@, "virtio-mem"@)
                    &&& old(self).serves_one(*mem, final(self))
                    &&& !takes_back(*old(q), *mem, queue_taken(*final(q)).last())
                    &&& queue_used_index(*final(q)) == used_index_after(
                        *old(q),
                        *mem,
                        queue_taken(*final(q)).last(),
                    )
                }
                ||| old(self).refuses_one(*mem, e, final(self)) && queue_used_index(*final(q))
                    == queue_used_index(*old(q))
            },
            r == Ok::<bool, VmmError>(true) ==> exists|used: u32|
                (used == 0 || used == RESP_BYTES) && queue_returned(*final(q))
                    == #[trigger] queue_returned(*old(q)).push(
                    (queue_taken(*final(q)).last(), used),
                ),
    {
        let chain = match pop_chain(q, mem) {
            Some(c) => c,
            None => {
                return Ok(false);
            },
        };
        let head = chain_head(&chain);
        let mut reader = chain_reader(&chain, mem);
        let mut writer = chain_writer(&chain, mem);
        match self.serve_offered(q, mem, head, &mut reader, &mut writer) {
            Ok(()) => {
                proof {
                    let entry = queue_returned(*q).last();
                    assert(queue_taken(*q).last() == head);
                    assert(queue_returned(*q) == queue_returned(*old(q)).push(
                        (queue_taken(*q).last(), entry.1),
                    ));
                }
                Ok(true)
            },
            Err(e) => {
                assert(queue_taken(*q).last() == head);
                Err(e)
            },
        }
    }
}

impl MemView {
    /// Whether a request, of which these bytes could be read, may be answered with `out` and
    /// leave `after`.
    pub open spec fn answered(self, raw: Option<Seq<u8>>, out: Seq<u8>, after: MemView) -> bool {
        match raw {
            None => out == response(resp::ERROR, 0) && after == self,
            Some(b) => match self.asked(b) {
                Step::Reply(t, s) => out == response(t, s) && after == self,
                Step::Plug(first, n) => out == response(resp::ACK, 0) && after == self.plug(
                    first,
                    n,
                ),
                Step::Unplug(first, n) => out == response(resp::ACK, 0) && after == self.unplug(
                    first,
                    n,
                ),
                Step::UnplugAll => out == response(resp::ACK, 0) && after == self.cleared(),
            },
        }
    }

    /// What is to be done for the request in these bytes.
    pub open spec fn asked(self, b: Seq<u8>) -> Step {
        self.step(le_at(b, 0, 2) as u16, le_at(b, 8, 8) as u64, le_at(b, 16, 2) as u16)
    }
}

/// Whether `m` chains were taken from a queue, and the first `n` of them returned to the driver, in
/// that order, each with a response or nothing.
pub open spec fn returned_more(
    before: virtio_queue::Queue,
    after: virtio_queue::Queue,
    n: nat,
    m: nat,
) -> bool {
    let had = queue_returned(before);
    let have = queue_returned(after);
    let earlier = queue_taken(before);
    let taken = queue_taken(after);
    &&& have.len() == had.len() + n
    &&& have.subrange(0, had.len() as int) == had
    &&& taken.len() == earlier.len() + m
    &&& queue_position(after) == position_after(queue_position(before), m as int)
    &&& taken.subrange(0, earlier.len() as int) == earlier
    &&& forall|i: int|
        0 <= i < n ==> (#[trigger] have[had.len() + i]).0 == taken[earlier.len() + i] && (have[had.len()
            + i].1 == 0 || have[had.len() + i].1 == RESP_BYTES)
}

/// What serving requests left is all that counts of a device.
proof fn lemma_serves_same<B: MemBacking>(
    start: VirtioMem<B>,
    mem: Mem,
    n: nat,
    one: VirtioMem<B>,
    other: VirtioMem<B>,
)
    requires
        start.serves_many(mem, n, &one),
        other@ == one@,
        other.backing() == one.backing(),
    ensures
        start.serves_many(mem, n, &other),
{
    if n > 0 {
        let mid = choose|mid: VirtioMem<B>|
            start.serves_many(mem, (n - 1) as nat, &mid) && #[trigger] mid.serves_one(mem, &one);
        assert(mid.serves_one(mem, &other));
    }
}

/// Nothing was taken and returned yet.
proof fn lemma_returned_none(q: virtio_queue::Queue)
    ensures
        returned_more(q, q, 0, 0),
{
    let r = queue_returned(q);
    let t = queue_taken(q);
    assert(r.subrange(0, r.len() as int) =~= r);
    assert(t.subrange(0, t.len() as int) =~= t);
}

/// One chain more was taken, which has not come back.
proof fn lemma_taken_one(
    before: virtio_queue::Queue,
    mid: virtio_queue::Queue,
    after: virtio_queue::Queue,
    n: nat,
)
    requires
        returned_more(before, mid, n, n),
        took_one(mid, after),
        queue_position(after) == position_after(queue_position(mid), 1),
        queue_returned(after) == queue_returned(mid),
    ensures
        returned_more(before, after, n, n + 1),
{
    let earlier = queue_taken(before);
    let met = queue_taken(mid);
    let taken = queue_taken(after);
    let had = queue_returned(before);
    let have = queue_returned(after);
    assert(taken.subrange(0, earlier.len() as int) =~= met.subrange(0, earlier.len() as int));
    assert forall|i: int| 0 <= i < n implies (#[trigger] have[had.len() + i]).0
        == taken[earlier.len() + i] && (have[had.len() + i].1 == 0 || have[had.len() + i].1
        == RESP_BYTES) by {
        assert(taken[earlier.len() + i] == met[earlier.len() + i]);
    }
}

/// One chain more was taken and returned.
proof fn lemma_returned_one(
    before: virtio_queue::Queue,
    mid: virtio_queue::Queue,
    after: virtio_queue::Queue,
    n: nat,
    used: u32,
)
    requires
        returned_more(before, mid, n, n),
        took_one(mid, after),
        queue_position(after) == position_after(queue_position(mid), 1),
        used == 0 || used == RESP_BYTES,
        queue_returned(after) == queue_returned(mid).push((queue_taken(after).last(), used)),
    ensures
        returned_more(before, after, n + 1, n + 1),
{
    let had = queue_returned(before);
    let some = queue_returned(mid);
    let have = queue_returned(after);
    let earlier = queue_taken(before);
    let met = queue_taken(mid);
    let taken = queue_taken(after);
    assert(have.subrange(0, had.len() as int) =~= some.subrange(0, had.len() as int));
    assert(taken.subrange(0, earlier.len() as int) =~= met.subrange(0, earlier.len() as int));
    assert forall|i: int| 0 <= i < n + 1 implies (#[trigger] have[had.len() + i]).0
        == taken[earlier.len() + i] && (have[had.len() + i].1 == 0 || have[had.len() + i].1
        == RESP_BYTES) by {
        if i < n {
            assert(have[had.len() + i] == some[had.len() + i]);
            assert(taken[earlier.len() + i] == met[earlier.len() + i]);
        }
    }
}

/// The bytes of a request whose buffers hold `left` bytes, where it is whole.
pub open spec fn request_of(left: nat, given: Seq<u8>) -> Option<Seq<u8>> {
    if REQ_BYTES <= left {
        Some(given)
    } else {
        None
    }
}

/// Whether `after` is `before` with some blocks unplugged.
pub open spec fn only_cleared(before: Seq<bool>, after: Seq<bool>) -> bool {
    &&& after.len() == before.len()
    &&& forall|i: int| 0 <= i < after.len() && #[trigger] after[i] ==> before[i]
}

/// A run that ends in another is the other.
proof fn lemma_runs_are_apart(m: MemView, first: int, end: int, start: int, stop: int)
    requires
        m.run(first, end),
        m.run(start, stop),
        start < end <= stop,
    ensures
        first == start,
        end == stop,
{
    if end < stop {
        assert(m.plugged[end]);
    }
    if first < start {
        assert(m.plugged[start - 1]);
    }
    if first > start {
        assert(m.plugged[first - 1]);
    }
}

proof fn lemma_only_cleared(before: Seq<bool>, after: Seq<bool>)
    requires
        only_cleared(before, after),
    ensures
        count(after) <= count(before),
    decreases before.len(),
{
    if before.len() > 0 {
        assert forall|i: int| 0 <= i < after.len() - 1 && #[trigger] after.drop_last()[i] implies before.drop_last()[i] by {
            assert(after[i]);
        }
        lemma_only_cleared(before.drop_last(), after.drop_last());
        if after.last() {
            assert(after[after.len() - 1]);
        }
    }
}

/// The wire form of a response: the type, padding, the state, padding.
pub open spec fn response(kind: u16, st: u16) -> Seq<u8> {
    le_bytes(kind as nat, 8) + le_bytes(st as nat, 8)
}

impl<B: MemBacking> VirtioDevice for VirtioMem<B> {
    open spec fn id(&self) -> u32 {
        ID_MEM
    }

    open spec fn offers(&self) -> u64 {
        F_UNPLUGGED_INACCESSIBLE
    }

    open spec fn queue_sizes(&self) -> Seq<u16> {
        seq![QUEUE_SIZE]
    }

    open spec fn config_image(&self) -> Seq<u8> {
        self@.config()
    }

    open spec fn wf(&self) -> bool {
        self@.wf()
    }

    open spec fn label(&self) -> Seq<char> {
        "virtio-mem"@
    }

    /// The configuration space is not the driver's to write.
    open spec fn configures(&self, after: &Self, offset: u64, data: Seq<u8>) -> bool {
        *after == *self
    }

    /// There is nothing to start.
    open spec fn starts(&self, after: &Self, acked: u64, r: Result<()>) -> bool {
        r is Ok && *after == *self
    }

    /// The requests of the notified queue are served one after another, each returned to the
    /// driver with its response or, where that cannot be written, with nothing. The other queues
    /// are left alone, and so is everything where there is no such queue or it cannot offer
    /// anything. It ends early with the request whose chain cannot be returned, once that is
    /// served, and with one for which the host refuses to take memory back.
    open spec fn serves(
        &self,
        after: &Self,
        mem: Mem,
        index: usize,
        had: Seq<virtio_queue::Queue>,
        have: Seq<virtio_queue::Queue>,
        r: Result<bool>,
    ) -> bool {
        if index >= had.len() {
            *after == *self && have == had && (r matches Err(e) && e@ == (VmmErrorView::Device {
                device: "virtio-mem"@,
                msg: "no queue "@ + dec(index as nat),
            }))
        } else {
            &&& after@.addr == self@.addr
            &&& after@.region_size == self@.region_size
            &&& after@.requested_size == self@.requested_size
            &&& after.backing() == self.backing()
            &&& have == had.update(index as int, have[index as int])
            &&& !may_offer(queue_words(had[index as int])) ==> (r matches Ok(any) && !any) && after@
                == self@
            &&& match r {
                Ok(any) => exists|n: nat| #[trigger]
                    self.serves_many(mem, n, after) && any == (n > 0) && returned_more(
                        had[index as int],
                        have[index as int],
                        n,
                        n,
                    ) && queue_used_index(have[index as int]) == position_after(
                        queue_used_index(had[index as int]),
                        n as int,
                    ),
                Err(e) => exists|n: nat, mid: Self| #[trigger]
                    self.serves_many(mem, n, &mid) && mid.ended(
                        mem,
                        n,
                        e,
                        after,
                        had[index as int],
                        have[index as int],
                    ),
            }
        }
    }

    /// What is plugged stays plugged.
    open spec fn resets(&self, after: &Self) -> bool {
        *after == *self
    }

    fn name(&self) -> &'static str {
        "virtio-mem"
    }

    fn device_type(&self) -> u32 {
        ID_MEM
    }

    fn features(&self) -> u64 {
        F_UNPLUGGED_INACCESSIBLE
    }

    fn queue_max_sizes(&self) -> Vec<u16> {
        let v = vec![QUEUE_SIZE];
        assert(v@ =~= self.queue_sizes());
        v
    }

    fn read_config(&self, offset: u64, data: &mut [u8]) {
        let c = self.config_space();
        read_config_bytes(c.as_slice(), offset, data);
    }

    fn write_config(&mut self, offset: u64, data: &[u8])
        ensures
            *final(self) == *old(self),
    {
    }

    fn activate(&mut self, acked: u64) -> (r: Result<()>)
        ensures
            r is Ok,
            *final(self) == *old(self),
    {
        Ok(())
    }

    #[verifier::rlimit(60)]
    fn process_queue(
        &mut self,
        index: usize,
        queues: &mut Vec<virtio_queue::Queue>,
        mem: &Mem,
    ) -> (r: Result<bool>) {
        if index >= queues.len() {
            let n = dec_text(index as u64);
            let msg = cat2("no queue ", &n);
            return Err(VmmError::device("virtio-mem", &msg));
        }
        let ghost words = all_words(queues@);
        let ghost mut n: nat = 0;
        proof {
            lemma_returned_none(queues@[index as int]);
        }
        let mut any = false;
        // The driver may add requests as fast as they are served; no run reaches the bound.
        let mut left: u64 = u64::MAX;
        while left > 0
            invariant
                index < queues@.len(),
                index < old(queues)@.len(),
                self@.wf(),
                self@.addr == old(self)@.addr,
                self@.region_size == old(self)@.region_size,
                self@.requested_size == old(self)@.requested_size,
                self.backing() == old(self).backing(),
                words == all_words(old(queues)@),
                all_words(queues@) == words,
                queues@ == old(queues)@.update(index as int, queues@[index as int]),
                old(self).serves_many(*mem, n, self),
                any == (n > 0),
                n == u64::MAX - left,
                !may_offer(words[index as int]) ==> n == 0,
                queue_used_index(queues@[index as int]) == position_after(
                    queue_used_index(old(queues)@[index as int]),
                    n as int,
                ),
                returned_more(old(queues)@[index as int], queues@[index as int], n, n),
            decreases left,
        {
            let ghost was = queues@;
            let ghost mid = *self;
            assert(words[index as int] == queue_words(was[index as int]));
            let served = self.serve_next(&mut queues[index], mem);
            assert(all_words(queues@) =~= all_words(was));
            assert(queues@ =~= old(queues)@.update(index as int, queues@[index as int]));
            match served {
                Ok(true) => {
                    any = true;
                    proof {
                        assert(mid.serves_one(*mem, self));
                        let used = queue_returned(queues@[index as int]).last().1;
                        lemma_returned_one(
                            old(queues)@[index as int],
                            was[index as int],
                            queues@[index as int],
                            n,
                            used,
                        );
                        n = n + 1;
                        assert(old(self).serves_many(*mem, n, self));
                    }
                },
                Ok(false) => {
                    proof {
                        lemma_serves_same(*old(self), *mem, n, mid, *self);
                    }
                    return Ok(any);
                },
                Err(e) => {
                    proof {
                        lemma_taken_one(
                            old(queues)@[index as int],
                            was[index as int],
                            queues@[index as int],
                            n,
                        );
                        assert(old(self).serves_many(*mem, n, &mid));
                    }
                    return Err(e);
                },
            }
            left -= 1;
        }
        Ok(any)
    }

    fn reset(&mut self)
        ensures
            *final(self) == *old(self),
    {
    }
}

/// Plugging free blocks and unplugging the same blocks gives back the state before.
pub proof fn law_unplug_undoes_plug(m: MemView, addr: u64, nb: u16)
    requires
        m.wf(),
        m.step(req::PLUG, addr, nb) is Plug,
    ensures
        ({
            let first = m.step(req::PLUG, addr, nb)->Plug_0;
            let plugged = m.plug(first, nb as u64);
            &&& plugged.step(req::UNPLUG, addr, nb) == Step::Unplug(first, nb as u64)
            &&& plugged.unplug(first, nb as u64) == m
        }),
{
    lemma_step(m, req::PLUG, addr, nb);
    let first = m.step(req::PLUG, addr, nb)->Plug_0;
    let n = nb as u64;
    let p = m.plug(first, n);
    lemma_count_bounds(m.plugged.subrange(first as int, first + n));
    lemma_count_bounds(p.plugged.subrange(first as int, first + n));
    assert forall|i: int| first <= i < first + n implies !#[trigger] m.plugged[i] by {
        assert(!m.plugged.subrange(first as int, first + n)[i - first]);
    }
    assert(p.unplug(first, n).plugged =~= m.plugged);
}

/// The guest never holds more than the host asked for: a plug that succeeds leaves at most
/// `requested_size` plugged.
pub proof fn law_plug_respects_the_request(m: MemView, addr: u64, nb: u16)
    requires
        m.wf(),
        m.step(req::PLUG, addr, nb) is Plug,
    ensures
        m.plug(m.step(req::PLUG, addr, nb)->Plug_0, nb as u64).plugged_size <= m.requested_size,
{
    lemma_step(m, req::PLUG, addr, nb);
}

} // verus!
