//! `virtio-blk` over a file: one device per disk the host names, read-only or read-write per
//! device.
//!
//! A request is served in steps of at most [`CHUNK_BYTES`], so it never needs more memory than
//! one chunk however large the guest makes it: [`Block::next`] takes the next request off the
//! queue, [`Job::action`] says what to do with the file, the outcome is handed back, and
//! [`Job::finish`] answers the driver. A request the device cannot serve is answered with a
//! status ([`S_IOERR`], [`S_UNSUPP`]), never with a monitor failure; a chain too malformed to
//! carry a status byte is returned with length 0. A read-only disk offers [`F_RO`] and answers
//! every write with [`S_IOERR`]: no step of it writes the file.

use super::chain::{
    add_used, chain_head, chain_reader, chain_writer, may_offer, pop_chain, position_after,
    queue_position, queue_returned, queue_taken, read_exact, reader_available, reader_given,
    reader_left, split_writer, takes_back, took_one, used_index_after, used_ring_failed, write_all,
    writer_available, writer_room, writer_sent,
};
use super::queue::{queue_used_index, queue_words, Mem};
use crate::bytes::{le_at, le_bytes, push_le, u32_at, u64_at};
use crate::error::Result;
use vstd::prelude::*;
use vstd::utf8::*;

verus! {

/// Sector size, fixed by the virtio specification.
pub const SECTOR_BYTES: u64 = 512;

/// Bytes copied between the file and guest memory per step: bounds the monitor's buffer.
pub const CHUNK_BYTES: usize = 262144;

/// Largest segment the driver may use (`size_max`): 1 MiB, Linux's default request ceiling.
pub const SIZE_MAX: u32 = 1048576;

/// Most data segments per request (`seg_max`): the queue size less the header and status.
pub const SEG_MAX: u32 = 254;

/// Bytes of a request's header.
pub const HEADER_BYTES: usize = 16;

/// Bytes of a device id.
pub const ID_BYTES: usize = 20;

/// Request type: read.
pub const T_IN: u32 = 0;

/// Request type: write.
pub const T_OUT: u32 = 1;

/// Request type: flush.
pub const T_FLUSH: u32 = 4;

/// Request type: get the device id.
pub const T_GET_ID: u32 = 8;

/// Status: done.
pub const S_OK: u8 = 0;

/// Status: it failed.
pub const S_IOERR: u8 = 1;

/// Status: no such request.
pub const S_UNSUPP: u8 = 2;

/// Feature: segments have a largest size (bit 1).
pub const F_SIZE_MAX: u64 = 2;

/// Feature: requests have a most number of segments (bit 2).
pub const F_SEG_MAX: u64 = 4;

/// Feature: the disk is read-only (bit 5).
pub const F_RO: u64 = 32;

/// Feature: flush requests are served (bit 9).
pub const F_FLUSH: u64 = 512;

/// One disk, apart from its file.
pub struct Block {
    read_only: bool,
    capacity_sectors: u64,
    id: String,
}

/// The state of a disk.
#[verifier::ext_equal]
pub struct BlockView {
    pub read_only: bool,
    pub capacity_sectors: u64,
    pub id: Seq<char>,
}

impl View for Block {
    type V = BlockView;

    closed spec fn view(&self) -> BlockView {
        BlockView {
            read_only: self.read_only,
            capacity_sectors: self.capacity_sectors,
            id: self.id@,
        }
    }
}

/// What is to be done for a request.
#[derive(Clone, Copy, Debug, PartialEq, Eq, Structural)]
pub enum Todo {
    /// Read `len` bytes from `start` on; `done` of them are in guest memory.
    Read { start: u64, len: usize, done: usize },
    /// Write `len` bytes from `start` on; `done` of them are in the file.
    Write { start: u64, len: usize, done: usize },
    /// Make the file durable.
    Flush,
    /// Nothing: the request has this status, and this many bytes of data were written for the
    /// guest.
    Finished { status: u8, written: usize },
}

impl BlockView {
    /// The disk holds whole sectors.
    pub open spec fn wf(self) -> bool {
        self.capacity_sectors * SECTOR_BYTES <= u64::MAX
    }

    /// Whether `len` bytes from `sector` on are whole sectors on the disk.
    pub open spec fn holds(self, sector: u64, len: int) -> bool {
        len % (SECTOR_BYTES as int) == 0 && sector * SECTOR_BYTES + len <= self.capacity_sectors
            * SECTOR_BYTES
    }

    /// The id as the guest reads it: cut or filled up with zeros to its size.
    pub open spec fn id_bytes(self) -> Seq<u8> {
        let src = encode_utf8(self.id);
        Seq::new(ID_BYTES as nat, |i: int| if i < src.len() { src[i] } else { 0u8 })
    }

    /// What is to be done for a request of `kind` on `sector`, with room for `room` bytes of
    /// data for the guest and `left` bytes of data from it.
    pub open spec fn todo(self, kind: u32, sector: u64, room: nat, left: nat) -> Todo {
        if kind == T_IN {
            if !self.holds(sector, room as int) {
                Todo::Finished { status: S_IOERR, written: 0 }
            } else {
                Todo::Read {
                    start: (sector * SECTOR_BYTES) as u64,
                    len: room as usize,
                    done: 0,
                }
            }
        } else if kind == T_OUT {
            if self.read_only || !self.holds(sector, left as int) {
                Todo::Finished { status: S_IOERR, written: 0 }
            } else {
                Todo::Write {
                    start: (sector * SECTOR_BYTES) as u64,
                    len: left as usize,
                    done: 0,
                }
            }
        } else if kind == T_FLUSH {
            if self.read_only {
                Todo::Finished { status: S_OK, written: 0 }
            } else {
                Todo::Flush
            }
        } else if kind == T_GET_ID {
            Todo::Finished {
                status: S_OK,
                written: if room <= ID_BYTES {
                    room as usize
                } else {
                    ID_BYTES
                },
            }
        } else {
            Todo::Finished { status: S_UNSUPP, written: 0 }
        }
    }
}

impl Todo {
    /// A transfer with nothing left to do is done.
    pub open spec fn settled(self) -> Todo {
        match self {
            Todo::Read { start, len, done } => if done >= len {
                Todo::Finished { status: S_OK, written: done }
            } else {
                self
            },
            Todo::Write { start, len, done } => if done >= len {
                Todo::Finished { status: S_OK, written: 0 }
            } else {
                self
            },
            _ => self,
        }
    }

    /// Whether the data still to be moved lies on a disk of `capacity` bytes.
    pub open spec fn inside(self, capacity: int) -> bool {
        match self {
            Todo::Read { start, len, done } => done <= len && start + len <= capacity,
            Todo::Write { start, len, done } => done <= len && start + len <= capacity,
            _ => true,
        }
    }
}

/// What to do with the file next.
#[derive(Clone, Copy, Debug, PartialEq, Eq, Structural)]
pub enum Action {
    /// Read `n` bytes at `off`.
    Read { off: u64, n: usize },
    /// Write the bytes of [`Job::outgoing`], `n` of them, at `off`.
    Write { off: u64, n: usize },
    /// Make it durable.
    Flush,
    /// Nothing: finish the request.
    Finish,
}

/// The smaller of a chunk and what is left.
pub open spec fn chunk(left: int) -> int {
    if left <= CHUNK_BYTES {
        left
    } else {
        CHUNK_BYTES as int
    }
}

impl Todo {
    /// What to do with the file next.
    pub open spec fn action(self) -> Action {
        match self {
            Todo::Read { start, len, done } => Action::Read {
                off: (start + done) as u64,
                n: chunk(len - done) as usize,
            },
            Todo::Write { start, len, done } => Action::Write {
                off: (start + done) as u64,
                n: chunk(len - done) as usize,
            },
            Todo::Flush => Action::Flush,
            Todo::Finished { .. } => Action::Finish,
        }
    }

    /// What is to be done after the next step succeeded or failed.
    pub open spec fn after(self, ok: bool) -> Todo {
        match self {
            Todo::Read { start, len, done } => if ok {
                (Todo::Read { start, len, done: (done + chunk(len - done)) as usize }).settled()
            } else {
                Todo::Finished { status: S_IOERR, written: done }
            },
            Todo::Write { start, len, done } => if ok {
                (Todo::Write { start, len, done: (done + chunk(len - done)) as usize }).settled()
            } else {
                Todo::Finished { status: S_IOERR, written: 0 }
            },
            Todo::Flush => Todo::Finished {
                status: if ok {
                    S_OK
                } else {
                    S_IOERR
                },
                written: 0,
            },
            Todo::Finished { .. } => self,
        }
    }
}

/// A read-only disk is never written and need never be made durable.
pub proof fn law_read_only_disks_are_not_written(
    b: BlockView,
    kind: u32,
    sector: u64,
    room: nat,
    left: nat,
)
    requires
        b.read_only,
    ensures
        !(b.todo(kind, sector, room, left) is Write),
        !(b.todo(kind, sector, room, left) is Flush),
        !(b.todo(kind, sector, room, left).settled() is Write),
        !(b.todo(kind, sector, room, left).settled() is Flush),
        kind == T_OUT ==> b.todo(kind, sector, room, left) == (Todo::Finished {
            status: S_IOERR,
            written: 0,
        }),
{
}

/// Whatever a request reads or writes lies on the disk, from the sector on that it names.
pub proof fn law_transfers_stay_on_the_disk(
    b: BlockView,
    kind: u32,
    sector: u64,
    room: nat,
    left: nat,
)
    requires
        b.wf(),
        room <= u32::MAX,
        left <= u32::MAX,
    ensures
        b.todo(kind, sector, room, left).settled().inside(b.capacity_sectors * SECTOR_BYTES),
        b.todo(kind, sector, room, left) matches Todo::Read { start, len, .. } ==> start == sector
            * SECTOR_BYTES && len == room,
        b.todo(kind, sector, room, left) matches Todo::Write { start, len, .. } ==> start == sector
            * SECTOR_BYTES && len == left,
{
}

/// A step keeps the transfer on the disk, and moves at least one byte and at most one chunk.
pub proof fn law_steps_make_progress(t: Todo, capacity: int, ok: bool)
    requires
        t.inside(capacity),
        capacity <= u64::MAX,
        t.settled() == t,
        !(t is Finished),
    ensures
        t.after(ok).inside(capacity),
        t.after(ok).settled() == t.after(ok),
        t matches Todo::Read { start, len, done } ==> {
            &&& t.action() == (Action::Read { off: (start + done) as u64, n: chunk(len - done) as usize })
            &&& 0 < chunk(len - done) <= CHUNK_BYTES
            &&& start + done + chunk(len - done) <= capacity
        },
        t matches Todo::Write { start, len, done } ==> {
            &&& t.action() == (Action::Write { off: (start + done) as u64, n: chunk(len - done) as usize })
            &&& 0 < chunk(len - done) <= CHUNK_BYTES
            &&& start + done + chunk(len - done) <= capacity
        },
{
}

impl Block {
    /// A disk whose file is `len` bytes long.
    pub fn new(len: u64, read_only: bool, id: String) -> (b: Self)
        ensures
            b@.wf(),
            b@ == (BlockView { read_only, capacity_sectors: len / SECTOR_BYTES, id: id@ }),
    {
        Block { read_only, capacity_sectors: len / SECTOR_BYTES, id }
    }

    /// The disk's size in sectors, as the guest sees it.
    pub fn capacity_sectors(&self) -> (n: u64)
        ensures
            n == self@.capacity_sectors,
    {
        self.capacity_sectors
    }

    /// True when the guest may not write the disk.
    pub fn read_only(&self) -> (r: bool)
        ensures
            r == self@.read_only,
    {
        self.read_only
    }

    /// The features offered.
    pub fn features(&self) -> (f: u64)
        ensures
            f == F_FLUSH + F_SIZE_MAX + F_SEG_MAX + (if self@.read_only {
                F_RO as int
            } else {
                0
            }),
    {
        let f = F_FLUSH + F_SIZE_MAX + F_SEG_MAX;
        if self.read_only {
            f + F_RO
        } else {
            f
        }
    }

    /// The configuration space: the capacity, the largest segment, the most segments.
    pub fn config_space(&self) -> (c: Vec<u8>)
        ensures
            c@ == le_bytes(self@.capacity_sectors as nat, 8) + le_bytes(SIZE_MAX as nat, 4)
                + le_bytes(SEG_MAX as nat, 4),
    {
        let mut c: Vec<u8> = Vec::new();
        push_le(&mut c, self.capacity_sectors, 8);
        push_le(&mut c, SIZE_MAX as u64, 4);
        push_le(&mut c, SEG_MAX as u64, 4);
        assert(c@ =~= le_bytes(self@.capacity_sectors as nat, 8) + le_bytes(SIZE_MAX as nat, 4)
            + le_bytes(SEG_MAX as nat, 4));
        c
    }

    /// The byte offset of `sector` if `[sector, sector + len)` lies on the disk.
    pub fn range(&self, sector: u64, len: usize) -> (r: Option<u64>)
        requires
            self@.wf(),
        ensures
            r is Some <==> self@.holds(sector, len as int),
            r matches Some(start) ==> start == sector * SECTOR_BYTES,
    {
        let start = match sector.checked_mul(SECTOR_BYTES) {
            Some(s) => s,
            None => {
                return None;
            },
        };
        let end = match start.checked_add(len as u64) {
            Some(e) => e,
            None => {
                return None;
            },
        };
        if len as u64 % SECTOR_BYTES == 0 && end <= self.capacity_sectors * SECTOR_BYTES {
            Some(start)
        } else {
            None
        }
    }

    /// What is to be done for a request.
    pub fn todo(&self, kind: u32, sector: u64, room: usize, left: usize) -> (t: Todo)
        requires
            self@.wf(),
        ensures
            t == self@.todo(kind, sector, room as nat, left as nat),
    {
        if kind == T_IN {
            match self.range(sector, room) {
                Some(start) => Todo::Read { start, len: room, done: 0 },
                None => Todo::Finished { status: S_IOERR, written: 0 },
            }
        } else if kind == T_OUT {
            if self.read_only {
                return Todo::Finished { status: S_IOERR, written: 0 };
            }
            match self.range(sector, left) {
                Some(start) => Todo::Write { start, len: left, done: 0 },
                None => Todo::Finished { status: S_IOERR, written: 0 },
            }
        } else if kind == T_FLUSH {
            if self.read_only {
                Todo::Finished { status: S_OK, written: 0 }
            } else {
                Todo::Flush
            }
        } else if kind == T_GET_ID {
            let n: usize = if room <= ID_BYTES {
                room
            } else {
                ID_BYTES
            };
            Todo::Finished { status: S_OK, written: n }
        } else {
            Todo::Finished { status: S_UNSUPP, written: 0 }
        }
    }

    /// The id as the guest reads it.
    pub fn id_bytes(&self) -> (v: Vec<u8>)
        ensures
            v@ == self@.id_bytes(),
    {
        let src = self.id.as_str().as_bytes();
        let mut v: Vec<u8> = Vec::new();
        let mut i: usize = 0;
        while i < ID_BYTES
            invariant
                i <= ID_BYTES,
                src@ == encode_utf8(self@.id),
                v@ == self@.id_bytes().take(i as int),
            decreases ID_BYTES - i,
        {
            let ghost before = v@;
            v.push(
                if i < src.len() {
                    src[i]
                } else {
                    0
                },
            );
            assert(v@ =~= self@.id_bytes().take(i + 1));
            i += 1;
        }
        assert(v@ =~= self@.id_bytes());
        v
    }

    /// The request in the chain `head`, whose buffers are `reader` and `writer` where they can be
    /// reached. The last byte of room is for the status. Without the buffers, or without room for
    /// a status, nothing can be reported to the driver; a header that is not whole is an error.
    pub fn begin<'a>(
        &self,
        head: u16,
        reader: Option<virtio_queue::Reader<'a, ()>>,
        writer: Option<virtio_queue::Writer<'a, ()>>,
    ) -> (job: Job<'a>)
        requires
            self@.wf(),
            reader matches Some(r) ==> reader_left(r) <= u32::MAX && reader_given(r) == Seq::<
                u8,
            >::empty(),
            writer matches Some(w) ==> writer_room(w) <= u32::MAX && writer_sent(w) == Seq::<
                u8,
            >::empty(),
        ensures
            job.wf(),
            job.head() == head,
            job.todo().inside(self@.capacity_sectors * SECTOR_BYTES),
            self@.read_only ==> !(job.todo() is Write) && !(job.todo() is Flush),
            job.begins(self@),
            job.answerable() <==> reader is Some && writer is Some && writer_room(writer->Some_0) > 0,
            job.asked() is Some <==> job.answerable() && HEADER_BYTES <= reader_left(
                reader->Some_0,
            ),
            job.asked() matches Some(a) ==> a.room == writer_room(writer->Some_0) - 1 && a.left
                == reader_left(reader->Some_0) - HEADER_BYTES,
    {
        let silent = Job {
            head,
            parts: None,
            todo: Todo::Finished { status: S_IOERR, written: 0 },
            asked: Ghost(None),
        };
        let mut reader = match reader {
            Some(r) => r,
            None => {
                return silent;
            },
        };
        let mut writer = match writer {
            Some(w) => w,
            None => {
                return silent;
            },
        };
        let writable = writer_available(&writer);
        if writable == 0 {
            return silent;
        }
        let status = match split_writer(&mut writer, writable - 1) {
            Some(s) => s,
            None => {
                return silent;
            },
        };
        let room = writable - 1;
        let mut todo = Todo::Finished { status: S_IOERR, written: 0 };
        let mut asked: Ghost<Option<Asked>> = Ghost(None);
        match read_exact(&mut reader, HEADER_BYTES) {
            Some(header) => {
                let kind = u32_at(header.as_slice(), 0);
                let sector = u64_at(header.as_slice(), 8);
                let left = reader_available(&reader);
                todo = self.todo(kind, sector, room, left);
                proof {
                    asked@ = Some(
                        Asked { header: header@, room: room as nat, left: left as nat },
                    );
                    assert(reader_given(reader) =~= header@);
                    law_transfers_stay_on_the_disk(
                        self@,
                        kind,
                        sector,
                        room as nat,
                        left as nat,
                    );
                    if self@.read_only {
                        law_read_only_disks_are_not_written(
                            self@,
                            kind,
                            sector,
                            room as nat,
                            left as nat,
                        );
                    }
                }
                if kind == T_GET_ID {
                    let mut id = self.id_bytes();
                    let n: usize = if room <= ID_BYTES {
                        room
                    } else {
                        ID_BYTES
                    };
                    id.truncate(n);
                    if !write_all(&mut writer, id.as_slice()) {
                        todo = Todo::Finished { status: S_IOERR, written: 0 };
                    }
                }
                todo = settle(todo);
            },
            None => {},
        }
        Job { head, parts: Some(Parts { reader, writer, status }), todo, asked }
    }

    /// The next request the driver offered, if any; [`Block::begin`] says what becomes of it.
    /// Which chains are offered, and whether their buffers can be reached, rests with the guest.
    pub fn next<'a>(&self, q: &mut virtio_queue::Queue, mem: &'a Mem) -> (r: Option<Job<'a>>)
        requires
            self@.wf(),
        ensures
            queue_words(*final(q)) == queue_words(*old(q)),
            !may_offer(queue_words(*old(q))) ==> r is None,
            r matches Some(job) ==> {
                &&& job.wf()
                &&& job.todo().inside(self@.capacity_sectors * SECTOR_BYTES)
                &&& self@.read_only ==> !(job.todo() is Write) && !(job.todo() is Flush)
                &&& job.begins(self@)
                &&& took_one(*old(q), *final(q))
                &&& job.head() == queue_taken(*final(q)).last()
            },
            r is None ==> queue_taken(*final(q)) == queue_taken(*old(q)),
            queue_used_index(*final(q)) == queue_used_index(*old(q)),
            queue_returned(*final(q)) == queue_returned(*old(q)),
            queue_position(*final(q)) == position_after(
                queue_position(*old(q)),
                if r is Some {
                    1
                } else {
                    0
                },
            ),
    {
        let chain = match pop_chain(q, mem) {
            Some(c) => c,
            None => {
                return None;
            },
        };
        let head = chain_head(&chain);
        let reader = chain_reader(&chain, mem);
        let writer = chain_writer(&chain, mem);
        Some(self.begin(head, reader, writer))
    }
}

fn settle(t: Todo) -> (r: Todo)
    ensures
        r == t.settled(),
{
    match t {
        Todo::Read { start, len, done } => {
            if done >= len {
                Todo::Finished { status: S_OK, written: done }
            } else {
                t
            }
        },
        Todo::Write { start, len, done } => {
            if done >= len {
                Todo::Finished { status: S_OK, written: 0 }
            } else {
                t
            }
        },
        _ => t,
    }
}

/// The buffers of a request: the data from the guest, the room for data for it, the room for
/// the status.
struct Parts<'a> {
    reader: virtio_queue::Reader<'a, ()>,
    writer: virtio_queue::Writer<'a, ()>,
    status: virtio_queue::Writer<'a, ()>,
}

/// What a driver asked: the header of a request, the room for data for the guest and the bytes
/// of data from it.
#[verifier::ext_equal]
pub struct Asked {
    pub header: Seq<u8>,
    pub room: nat,
    pub left: nat,
}

impl Asked {
    /// The type of the request.
    pub open spec fn kind(self) -> u32 {
        le_at(self.header, 0, 4) as u32
    }

    /// The first sector of the request.
    pub open spec fn sector(self) -> u64 {
        le_at(self.header, 8, 8) as u64
    }
}

/// A request being served.
pub struct Job<'a> {
    head: u16,
    parts: Option<Parts<'a>>,
    todo: Todo,
    asked: Ghost<Option<Asked>>,
}

impl<'a> Job<'a> {
    /// What the driver asked, where its header could be read.
    pub closed spec fn asked(&self) -> Option<Asked> {
        self.asked@
    }

    /// The bytes read from the driver's buffers: the header, then data.
    pub closed spec fn given(&self) -> Seq<u8> {
        match self.parts {
            Some(p) => reader_given(p.reader),
            None => Seq::empty(),
        }
    }

    /// The data written for the guest.
    pub closed spec fn sent(&self) -> Seq<u8> {
        match self.parts {
            Some(p) => writer_sent(p.writer),
            None => Seq::empty(),
        }
    }

    /// The status written for the guest.
    pub closed spec fn status_sent(&self) -> Seq<u8> {
        match self.parts {
            Some(p) => writer_sent(p.status),
            None => Seq::empty(),
        }
    }

    /// A request as it was taken off the queue: what is to be done is what its header asks of
    /// the disk `b`. Only an id is written for the guest at once.
    pub open spec fn begins(&self, b: BlockView) -> bool {
        &&& self.status_sent().len() == 0
        &&& match self.asked() {
            None => self.todo() == (Todo::Finished { status: S_IOERR, written: 0 })
                && self.sent().len() == 0,
            Some(a) => {
                &&& self.answerable()
                &&& a.header.len() == HEADER_BYTES
                &&& self.given() == a.header
                &&& self.todo() == b.todo(a.kind(), a.sector(), a.room, a.left).settled()
                &&& self.sent() == if a.kind() == T_GET_ID {
                    b.id_bytes().take(self.todo()->written as int)
                } else {
                    Seq::empty()
                }
            },
        }
    }

    /// What is to be done.
    pub closed spec fn todo(&self) -> Todo {
        self.todo
    }

    /// Whether the driver gave room for a status.
    pub closed spec fn answerable(&self) -> bool {
        self.parts is Some
    }

    /// The head of the request's chain.
    pub closed spec fn head(&self) -> u16 {
        self.head
    }

    /// The buffers hold what is still to be moved, and one byte for the status.
    pub closed spec fn wf(&self) -> bool {
        &&& self.todo.settled() == self.todo
        &&& match self.parts {
            None => self.todo is Finished,
            Some(p) => {
                &&& writer_room(p.status) == 1
                &&& writer_sent(p.status).len() == 0
                &&& match self.todo {
                    Todo::Read { start, len, done } => done < len && start + len <= u64::MAX && len
                        < u32::MAX && writer_room(p.writer) == len - done && writer_sent(
                        p.writer,
                    ).len() == done,
                    Todo::Write { start, len, done } => done < len && start + len <= u64::MAX
                        && len <= u32::MAX && reader_left(p.reader) == len - done && writer_sent(
                        p.writer,
                    ).len() == 0,
                    Todo::Flush => writer_sent(p.writer).len() == 0,
                    Todo::Finished { status, written } => written <= u32::MAX - 1 && writer_sent(
                        p.writer,
                    ).len() == written,
                }
            },
        }
    }

    /// What to do with the file next.
    pub fn action(&self) -> (a: Action)
        requires
            self.wf(),
        ensures
            a == self.todo().action(),
    {
        match self.todo {
            Todo::Read { start, len, done } => {
                let left = len - done;
                Action::Read {
                    off: start + done as u64,
                    n: if left <= CHUNK_BYTES {
                        left
                    } else {
                        CHUNK_BYTES
                    },
                }
            },
            Todo::Write { start, len, done } => {
                let left = len - done;
                Action::Write {
                    off: start + done as u64,
                    n: if left <= CHUNK_BYTES {
                        left
                    } else {
                        CHUNK_BYTES
                    },
                }
            },
            Todo::Flush => Action::Flush,
            Todo::Finished { .. } => Action::Finish,
        }
    }
}

impl<'a> Job<'a> {
    /// The file was read: the bytes, or nothing where it failed.
    pub fn on_read(&mut self, data: Option<&[u8]>)
        requires
            old(self).wf(),
            old(self).todo() is Read,
            data matches Some(d) ==> old(self).todo().action() matches Action::Read { n, .. }
                && d@.len() == n,
        ensures
            final(self).wf(),
            final(self).todo() == old(self).todo().after(data is Some),
            final(self).head() == old(self).head(),
            final(self).answerable() == old(self).answerable(),
            final(self).asked() == old(self).asked(),
            final(self).given() == old(self).given(),
            final(self).status_sent() == old(self).status_sent(),
            final(self).sent() == (match data {
                Some(d) => old(self).sent() + d@,
                None => old(self).sent(),
            }),
    {
        if let Todo::Read { start, len, done } = self.todo {
            let mut copied: usize = 0;
            let mut ok = false;
            match data {
                Some(d) => {
                    match &mut self.parts {
                        Some(p) => {
                            ok = write_all(&mut p.writer, d);
                        },
                        None => {},
                    }
                    copied = d.len();
                },
                None => {},
            }
            if ok {
                self.todo = settle(Todo::Read { start, len, done: done + copied });
            } else {
                self.todo = Todo::Finished { status: S_IOERR, written: done };
            }
        }
    }

    /// The next bytes to write to the file, which the chain holds.
    pub fn outgoing(&mut self) -> (r: Option<Vec<u8>>)
        requires
            old(self).wf(),
            old(self).todo() is Write,
        ensures
            final(self).wf(),
            r is Some,
            final(self).todo() == old(self).todo().after(true),
            old(self).todo().action() matches Action::Write { n, .. } && r->Some_0@.len() == n,
            final(self).head() == old(self).head(),
            final(self).answerable() == old(self).answerable(),
            final(self).asked() == old(self).asked(),
            final(self).sent() == old(self).sent(),
            final(self).sent().len() == 0,
            final(self).status_sent() == old(self).status_sent(),
            final(self).given() == old(self).given() + r->Some_0@,
    {
        if let Todo::Write { start, len, done } = self.todo {
            let left = len - done;
            let n: usize = if left <= CHUNK_BYTES {
                left
            } else {
                CHUNK_BYTES
            };
            let taken = match &mut self.parts {
                Some(p) => read_exact(&mut p.reader, n),
                None => None,
            };
            match taken {
                Some(v) => {
                    self.todo = settle(Todo::Write { start, len, done: done + n });
                    return Some(v);
                },
                None => {
                    self.todo = Todo::Finished { status: S_IOERR, written: 0 };
                },
            }
        }
        None
    }

    /// The file could not be written.
    pub fn write_failed(&mut self)
        requires
            old(self).wf(),
            old(self).sent().len() == 0,
        ensures
            final(self).wf(),
            final(self).todo() == (Todo::Finished { status: S_IOERR, written: 0 }),
            final(self).head() == old(self).head(),
            final(self).answerable() == old(self).answerable(),
            final(self).asked() == old(self).asked(),
            final(self).given() == old(self).given(),
            final(self).sent() == old(self).sent(),
            final(self).status_sent() == old(self).status_sent(),
    {
        self.todo = Todo::Finished { status: S_IOERR, written: 0 };
    }

    /// The file was made durable, or not.
    pub fn on_flushed(&mut self, ok: bool)
        requires
            old(self).wf(),
            old(self).todo() is Flush,
        ensures
            final(self).wf(),
            final(self).todo() == old(self).todo().after(ok),
            final(self).head() == old(self).head(),
            final(self).answerable() == old(self).answerable(),
            final(self).asked() == old(self).asked(),
            final(self).given() == old(self).given(),
            final(self).sent() == old(self).sent(),
            final(self).status_sent() == old(self).status_sent(),
    {
        self.todo = Todo::Finished {
            status: if ok {
                S_OK
            } else {
                S_IOERR
            },
            written: 0,
        };
    }

    /// How many bytes were written for the guest: the data and the status, or nothing where
    /// there was no room for a status.
    pub open spec fn used(&self) -> nat {
        if self.answerable() {
            self.sent().len() + 1
        } else {
            0
        }
    }

    /// Write the status, if there is room for one; how many bytes were written in all.
    fn answer(&mut self) -> (n: u32)
        requires
            old(self).wf(),
            old(self).todo() is Finished,
        ensures
            n == old(self).used(),
            final(self).head() == old(self).head(),
            final(self).asked() == old(self).asked(),
            final(self).given() == old(self).given(),
            final(self).sent() == old(self).sent(),
            old(self).answerable() ==> final(self).status_sent() == seq![
                old(self).todo()->status,
            ],
    {
        match self.todo {
            Todo::Finished { status, written } => match &mut self.parts {
                Some(p) => {
                    let mut b: Vec<u8> = Vec::new();
                    b.push(status);
                    let ok = write_all(&mut p.status, b.as_slice());
                    assert(writer_sent(p.status) =~= seq![status]);
                    if ok {
                        (written + 1) as u32
                    } else {
                        0
                    }
                },
                None => 0,
            },
            _ => 0,
        }
    }

    /// Answer the driver: the status goes into the chain, and the chain back to the driver with
    /// the number of bytes written for the guest.
    pub fn finish(&mut self, q: &mut virtio_queue::Queue, mem: &Mem) -> (r: Result<()>)
        requires
            old(self).wf(),
            old(self).todo() is Finished,
        ensures
            final(self).head() == old(self).head(),
            final(self).asked() == old(self).asked(),
            final(self).given() == old(self).given(),
            final(self).sent() == old(self).sent(),
            old(self).answerable() ==> final(self).status_sent() == seq![
                old(self).todo()->status,
            ],
            queue_words(*final(q)) == queue_words(*old(q)),
            queue_position(*final(q)) == queue_position(*old(q)),
            queue_taken(*final(q)) == queue_taken(*old(q)),
            queue_used_index(*final(q)) == used_index_after(*old(q), *mem, old(self).head()),
            r is Ok <==> takes_back(*old(q), *mem, old(self).head()),
            queue_returned(*final(q)) == (if r is Ok {
                queue_returned(*old(q)).push((old(self).head(), old(self).used() as u32))
            } else {
                queue_returned(*old(q))
            }),
            r matches Err(e) ==> used_ring_failed(e@, "virtio-blk"@),
    {
        let n = self.answer();
        add_used("virtio-blk", q, mem, self.head, n)
    }
}

} // verus!
