//! The host side of the vsock device: connections between guest ports and host Unix sockets,
//! Firecracker's convention.
//!
//! - **Host to guest.** A host process connects to the Unix socket at `uds_path` and writes
//!   `CONNECT <port>\n`; the muxer sends the guest a `REQUEST` from a fresh host port, and when
//!   the guest accepts, writes `OK <host port>\n` back. From then on the stream is the
//!   connection.
//! - **Guest to host.** A guest connecting to host port `P` reaches the Unix socket
//!   `<uds_path>_P`, or an in-process endpoint the monitor registered for `P`. No listener there
//!   is a refusal (`RST`).
//!
//! Flow control is virtio's credit scheme: the guest never has more than [`BUF_ALLOC`] bytes in
//! flight towards a host stream, the muxer never sends more than the guest's advertised buffer,
//! and a guest that exceeds its credit is reset rather than buffered without bound.
//!
//! The muxer decides; it performs no IO. Host streams are known by their descriptor numbers. A
//! step that needs the host (connect, write, read) is returned as an action, and its outcome is
//! handed back to the step that continues from it.

use super::packet::op;
use super::packet::{Header, HDR_BYTES, SHUTDOWN_RCV, SHUTDOWN_SEND, TYPE_STREAM};
use crate::config::HOST_CID;
use crate::error::{Result, VmmError, VmmErrorView};
use crate::sorted_map::SortedMap;
use crate::sys::{PollFd, Ready};
use crate::text::{cat3, chars_of, dec, dec_text, lossy_text, parse_number, parsed, trim, trimmed,
    utf8_lossy};
use vstd::prelude::*;
use vstd::slice::slice_to_vec;
use vstd::string::*;
use vstd::utf8::*;

verus! {

/// Receive buffer the host side advertises per connection.
pub const BUF_ALLOC: u32 = 262144;

/// Unreported consumption that triggers a `CREDIT_UPDATE`: a quarter of the buffer, so the
/// guest never stalls waiting for credit the host already has.
pub const CREDIT_UPDATE_THRESHOLD: u32 = BUF_ALLOC / 4;

/// Largest payload in one packet: Linux's `VIRTIO_VSOCK_MAX_PKT_BUF_SIZE`.
pub const MAX_PKT_PAYLOAD: usize = 65536;

/// Longest `CONNECT <port>\n` line accepted.
pub const CONNECT_LINE_MAX: usize = 32;

/// Most connections at once; a guest opening more is refused (`RST`).
pub const MAX_CONNECTIONS: usize = 256;

/// Most host connections waiting to send their `CONNECT` line.
pub const MAX_ACCEPTING: usize = 64;

/// Most control packets queued for a guest that posts no receive buffers; beyond this the
/// oldest are dropped (they are best-effort resets and credit updates).
pub const MAX_PENDING_CONTROL: usize = 4096;

/// The first host port handed to a host-initiated connection; high, so it never collides
/// with a well-known port a guest might connect to.
pub const FIRST_HOST_PORT: u32 = 1073741824;

/// How many host ports there are from [`FIRST_HOST_PORT`] up.
pub const HOST_PORTS: u32 = 3221225472;

/// A connection's key: the host port and the guest port.
#[derive(Clone, Copy, Debug, PartialEq, Eq, PartialOrd, Ord, Hash, Structural)]
pub struct Key {
    /// The host side's port.
    pub host_port: u32,
    /// The guest side's port.
    pub guest_port: u32,
}

impl Key {
    /// The key as one number; numbers order as keys do.
    pub open spec fn code(self) -> u64 {
        (self.host_port * 0x1_0000_0000 + self.guest_port) as u64
    }

    /// The key a number stands for.
    pub open spec fn of_code(c: u64) -> Key {
        Key { host_port: (c / 0x1_0000_0000) as u32, guest_port: (c % 0x1_0000_0000) as u32 }
    }

    /// The key as one number.
    pub fn to_code(&self) -> (c: u64)
        ensures
            c == self.code(),
            Key::of_code(c) == *self,
    {
        self.host_port as u64 * 0x1_0000_0000 + self.guest_port as u64
    }

    /// The key a number stands for.
    pub fn from_code(c: u64) -> (k: Key)
        ensures
            k == Key::of_code(c),
            k.code() == c,
    {
        Key { host_port: (c / 0x1_0000_0000) as u32, guest_port: (c % 0x1_0000_0000) as u32 }
    }
}

/// How far a connection has come.
#[derive(Clone, Copy, Debug, PartialEq, Eq, Structural)]
pub enum State {
    /// Host-initiated, `REQUEST` sent, waiting for the guest.
    Connecting,
    /// Data flows.
    Established,
}

/// One connection.
pub struct Conn {
    /// The host stream.
    pub fd: i32,
    /// How far it has come.
    pub state: State,
    /// Bytes for the host stream: the `OK` line, then guest data.
    pub out: Vec<u8>,
    /// Of `out`, how many leading bytes are the `OK` line (not guest data, not credited).
    pub reply_len: usize,
    /// Guest bytes that reached the host stream, ever.
    pub fwd_cnt: u32,
    /// The consumption last reported to the guest.
    pub fwd_reported: u32,
    /// The guest's receive buffer.
    pub peer_buf_alloc: u32,
    /// The guest's consumption, as it last reported.
    pub peer_fwd_cnt: u32,
    /// Bytes sent to the guest, ever.
    pub rx_cnt: u32,
    /// The host stream may have something to read.
    pub readable: bool,
    /// The host stream ended.
    pub host_eof: bool,
    /// The guest will send no more.
    pub guest_shut_send: bool,
    /// The guest will receive no more.
    pub guest_shut_rcv: bool,
    /// The host stream's write side was shut.
    pub write_shut: bool,
}

/// A [`Conn`] with its pending bytes as a sequence.
#[verifier::ext_equal]
pub struct ConnView {
    pub fd: i32,
    pub state: State,
    pub out: Seq<u8>,
    pub reply_len: int,
    pub fwd_cnt: u32,
    pub fwd_reported: u32,
    pub peer_buf_alloc: u32,
    pub peer_fwd_cnt: u32,
    pub rx_cnt: u32,
    pub readable: bool,
    pub host_eof: bool,
    pub guest_shut_send: bool,
    pub guest_shut_rcv: bool,
    pub write_shut: bool,
}

impl View for Conn {
    type V = ConnView;

    open spec fn view(&self) -> ConnView {
        ConnView {
            fd: self.fd,
            state: self.state,
            out: self.out@,
            reply_len: self.reply_len as int,
            fwd_cnt: self.fwd_cnt,
            fwd_reported: self.fwd_reported,
            peer_buf_alloc: self.peer_buf_alloc,
            peer_fwd_cnt: self.peer_fwd_cnt,
            rx_cnt: self.rx_cnt,
            readable: self.readable,
            host_eof: self.host_eof,
            guest_shut_send: self.guest_shut_send,
            guest_shut_rcv: self.guest_shut_rcv,
            write_shut: self.write_shut,
        }
    }
}

/// `a - b` modulo 2^32.
pub open spec fn sub32(a: u32, b: u32) -> u32 {
    if a >= b {
        (a - b) as u32
    } else {
        (a - b + 0x1_0000_0000) as u32
    }
}

/// `a + b` modulo 2^32.
pub open spec fn add32(a: u32, b: int) -> u32 {
    ((a + b) % 0x1_0000_0000) as u32
}

/// The bytes of the line that tells a host process its connection is open.
pub open spec fn ok_line(port: u32) -> Seq<u8> {
    encode_utf8("OK "@ + dec(port as nat) + "\n"@)
}

impl ConnView {
    /// A connection as it starts.
    pub open spec fn fresh(fd: i32, state: State) -> ConnView {
        ConnView {
            fd,
            state,
            out: Seq::empty(),
            reply_len: 0,
            fwd_cnt: 0,
            fwd_reported: 0,
            peer_buf_alloc: 0,
            peer_fwd_cnt: 0,
            rx_cnt: 0,
            readable: state == State::Established,
            host_eof: false,
            guest_shut_send: false,
            guest_shut_rcv: false,
            write_shut: false,
        }
    }

    /// Guest bytes waiting for the host stream.
    pub open spec fn guest_bytes(self) -> int {
        self.out.len() - self.reply_len
    }

    /// What holds of every connection: the reply is part of what is pending, the guest bytes
    /// pending never exceed the buffer the guest was promised, and nothing is pending before
    /// the guest accepted.
    pub open spec fn wf(self) -> bool {
        &&& 0 <= self.reply_len <= self.out.len()
        &&& self.guest_bytes() <= BUF_ALLOC
        &&& self.state == State::Connecting ==> self.out.len() == 0
    }

    /// Bytes sent to the guest that it has not reported consumed.
    pub open spec fn in_flight(self) -> u32 {
        sub32(self.rx_cnt, self.peer_fwd_cnt)
    }

    /// Bytes the guest can still take.
    pub open spec fn peer_credit(self) -> int {
        if self.peer_buf_alloc >= self.in_flight() {
            self.peer_buf_alloc - self.in_flight()
        } else {
            0
        }
    }

    /// Whether there is any use in reading the host stream.
    pub open spec fn wants_read(self) -> bool {
        self.state == State::Established && !self.host_eof && !self.guest_shut_rcv
            && self.peer_credit() > 0
    }

    /// Whether the next packet to the guest may come from here.
    pub open spec fn ready(self) -> bool {
        self.readable && self.wants_read()
    }

    /// The guest's credit as packet `h` reports it.
    pub open spec fn credited(self, h: Header) -> ConnView {
        ConnView { peer_buf_alloc: h.buf_alloc, peer_fwd_cnt: h.fwd_cnt, ..self }
    }

    /// The guest accepted: the host process is owed its `OK` line.
    pub open spec fn accepted(self, port: u32) -> ConnView {
        ConnView {
            state: State::Established,
            readable: true,
            reply_len: ok_line(port).len() as int,
            out: self.out + ok_line(port),
            ..self
        }
    }

    /// After `n` of the pending bytes were written: the reply goes first and is not credited.
    pub open spec fn wrote(self, n: int) -> ConnView {
        let reply = if n < self.reply_len { n } else { self.reply_len };
        ConnView {
            out: self.out.subrange(n, self.out.len() as int),
            reply_len: self.reply_len - reply,
            fwd_cnt: add32(self.fwd_cnt, n - reply),
            ..self
        }
    }

    /// The guest shut what `flags` say.
    pub open spec fn shut(self, flags: u32) -> ConnView {
        ConnView {
            guest_shut_send: self.guest_shut_send || flags & SHUTDOWN_SEND != 0,
            guest_shut_rcv: self.guest_shut_rcv || flags & SHUTDOWN_RCV != 0,
            ..self
        }
    }
}

impl Conn {
    /// A connection as it starts.
    pub fn new(fd: i32, state: State) -> (c: Self)
        ensures
            c@ == ConnView::fresh(fd, state),
    {
        let c = Conn {
            fd,
            state,
            out: Vec::new(),
            reply_len: 0,
            fwd_cnt: 0,
            fwd_reported: 0,
            peer_buf_alloc: 0,
            peer_fwd_cnt: 0,
            rx_cnt: 0,
            readable: state == State::Established,
            host_eof: false,
            guest_shut_send: false,
            guest_shut_rcv: false,
            write_shut: false,
        };
        assert(c@ =~= ConnView::fresh(fd, state));
        c
    }

    /// Bytes the guest can still take.
    pub fn peer_credit(&self) -> (n: u32)
        ensures
            n == self@.peer_credit(),
    {
        self.peer_buf_alloc.saturating_sub(self.rx_cnt.wrapping_sub(self.peer_fwd_cnt))
    }

    /// Whether there is any use in reading the host stream.
    pub fn wants_read(&self) -> (r: bool)
        ensures
            r == self@.wants_read(),
    {
        self.state == State::Established && !self.host_eof && !self.guest_shut_rcv
            && self.peer_credit() > 0
    }

    /// Take `n` written bytes off the front of what is pending.
    fn wrote(&mut self, n: usize)
        requires
            n <= old(self)@.out.len(),
            old(self)@.wf(),
        ensures
            final(self)@ == old(self)@.wrote(n as int),
            final(self)@.wf(),
    {
        let ghost before = self@;
        let tail = self.out.split_off(n);
        self.out = tail;
        let reply: usize = if n < self.reply_len {
            n
        } else {
            self.reply_len
        };
        self.reply_len = self.reply_len - reply;
        assert(n - reply <= before.guest_bytes());
        self.fwd_cnt = self.fwd_cnt.wrapping_add((n - reply) as u32);
        assert(self@ =~= before.wrote(n as int));
    }
}

/// A host connection still sending its `CONNECT` line.
pub struct Accepting {
    /// The host stream.
    pub fd: i32,
    /// What it sent so far.
    pub line: Vec<u8>,
}

/// An [`Accepting`] with its line as a sequence.
#[verifier::ext_equal]
pub struct AcceptingView {
    pub fd: i32,
    pub line: Seq<u8>,
}

impl View for Accepting {
    type V = AcceptingView;

    open spec fn view(&self) -> AcceptingView {
        AcceptingView { fd: self.fd, line: self.line@ }
    }
}

/// What a poll entry refers to.
#[derive(Clone, Copy, Debug, PartialEq, Eq, Structural)]
pub enum Token {
    /// The wake pipe.
    Wake,
    /// The host listener.
    Listener,
    /// A host connection still sending its `CONNECT` line.
    Accepting(usize),
    /// A connection.
    Conn(Key),
}

/// What a ready poll entry asks of the host side.
#[derive(Clone, Copy, Debug, PartialEq, Eq, Structural)]
pub enum ReadyStep {
    /// Nothing.
    Nothing,
    /// Empty the wake pipe.
    Drain,
    /// Accept every host connection that waits, and hand each to [`Muxer::accept`].
    Accept,
    /// Read the `CONNECT` line of this entry, a byte at a time, for [`Muxer::connect_byte`].
    ReadLine(usize),
    /// Write what is pending for this connection.
    Flush(Key),
}

/// Why pending bytes are being written to a host stream, which decides what follows.
#[derive(Clone, Copy, Debug, PartialEq, Eq, Structural)]
pub enum After {
    /// The guest accepted the connection.
    Response,
    /// The guest sent data.
    Data,
    /// The guest shut a direction.
    Shutdown,
    /// The host stream became writable, or every stream is being served.
    Poll,
}

/// What a packet from the guest asks of the host side.
#[derive(Clone, Copy, Debug, PartialEq, Eq, Structural)]
pub enum RecvAction {
    /// Nothing more.
    Done,
    /// Open the host end of this connection, then call [`Muxer::guest_connect`].
    Connect(Key),
    /// Write what is pending, then call [`Muxer::after_flush`] with the reason.
    Flush(Key, After),
    /// The connection is gone: close this descriptor.
    Close(i32),
}

/// What one write to a host stream did.
#[derive(Clone, Copy, Debug, PartialEq, Eq, Structural)]
pub enum WriteOutcome {
    /// It took this many bytes.
    Wrote(usize),
    /// It can take none now.
    WouldBlock,
    /// A signal came first.
    Interrupted,
    /// It failed.
    Failed,
}

/// What to do after one write.
#[derive(Clone, Copy, Debug, PartialEq, Eq, Structural)]
pub enum FlushStep {
    /// Go on writing while anything is pending.
    Again,
    /// Stop: the stream takes no more now.
    Blocked,
    /// Stop: the stream failed.
    Failed,
}

/// What one read of a host stream gave.
#[derive(Clone, Copy, Debug, PartialEq, Eq, Structural)]
pub enum ReadOutcome {
    /// The stream ended.
    Eof,
    /// This many bytes.
    Data(usize),
    /// Nothing now, or a signal came first.
    NotNow,
    /// It failed.
    Failed,
}

/// What the guest's next receive buffer is for.
#[derive(Clone, Copy, Debug, PartialEq, Eq, Structural)]
pub enum RxNext {
    /// Nothing to send.
    Idle,
    /// This control packet.
    Control(Header),
    /// Data from this connection.
    Data(Key),
}

/// What becomes of a receive buffer taken for data.
#[derive(Clone, Copy, Debug, PartialEq, Eq, Structural)]
pub enum RxAction {
    /// Nothing was sent: put the buffer back.
    Rewind,
    /// Nothing was sent and the connection is gone: put the buffer back, close the descriptor.
    RewindClose(i32),
    /// Write this header and the bytes that were read.
    Packet(Header),
}

/// What reading a `CONNECT` line has come to.
#[derive(Clone, Copy, Debug, PartialEq, Eq, Structural)]
pub enum LineStep {
    /// Read the next byte.
    More,
    /// Wait until there is one.
    Wait,
    /// This entry is finished and its stream is closed.
    Refused,
    /// This entry is finished and asks for this guest port.
    Connect(u32),
}

/// What one byte read of a `CONNECT` line gave.
#[derive(Clone, Copy, Debug, PartialEq, Eq, Structural)]
pub enum ByteOutcome {
    /// The stream ended.
    Eof,
    /// This byte.
    Byte(u8),
    /// Nothing now.
    WouldBlock,
    /// A signal came first.
    Interrupted,
    /// It failed.
    Failed,
}

/// The muxer.
pub struct Muxer {
    guest_cid: u64,
    listener_fd: i32,
    wake_fd: i32,
    accepting: Vec<Accepting>,
    conns: SortedMap<Conn>,
    control: Vec<Header>,
    next_port: u32,
    last_served: Option<Key>,
}

/// The muxer's state.
#[verifier::ext_equal]
pub struct MuxerView {
    pub guest_cid: u64,
    pub listener_fd: i32,
    pub wake_fd: i32,
    pub accepting: Seq<AcceptingView>,
    pub conns: Map<u64, ConnView>,
    pub control: Seq<Header>,
    pub next_port: u32,
    pub last_served: Option<Key>,
}

/// The connections with their views.
pub open spec fn conn_views(m: Map<u64, Conn>) -> Map<u64, ConnView> {
    Map::new(|k: u64| m.dom().contains(k), |k: u64| m[k]@)
}

/// The entries with their views.
pub open spec fn accepting_views(s: Seq<Accepting>) -> Seq<AcceptingView> {
    Seq::new(s.len(), |i: int| s[i]@)
}

impl View for Muxer {
    type V = MuxerView;

    closed spec fn view(&self) -> MuxerView {
        MuxerView {
            guest_cid: self.guest_cid,
            listener_fd: self.listener_fd,
            wake_fd: self.wake_fd,
            accepting: accepting_views(self.accepting@),
            conns: conn_views(self.conns@),
            control: self.control@,
            next_port: self.next_port,
            last_served: self.last_served,
        }
    }
}

/// The `i`th host port in the cyclic order that starts at `start`.
pub open spec fn port_after(start: u32, i: int) -> u32 {
    (FIRST_HOST_PORT + (start - FIRST_HOST_PORT + i) % (HOST_PORTS as int)) as u32
}

impl MuxerView {
    /// What every operation keeps: the bounds on connections and queued control packets, and
    /// what holds of each connection.
    pub open spec fn wf(self) -> bool {
        &&& self.conns.dom().finite()
        &&& self.conns.dom().len() <= MAX_CONNECTIONS
        &&& self.control.len() <= MAX_PENDING_CONTROL
        &&& self.next_port >= FIRST_HOST_PORT
        &&& self.accepting.len() <= MAX_ACCEPTING
        &&& forall|k: u64| #[trigger] self.conns.dom().contains(k) ==> self.conns[k].wf()
    }

    pub open spec fn has(self, key: Key) -> bool {
        self.conns.dom().contains(key.code())
    }

    pub open spec fn conn(self, key: Key) -> ConnView {
        self.conns[key.code()]
    }

    /// Set a connection.
    pub open spec fn put(self, key: Key, c: ConnView) -> MuxerView {
        MuxerView { conns: self.conns.insert(key.code(), c), ..self }
    }

    /// Forget a connection.
    pub open spec fn forget(self, key: Key) -> MuxerView {
        MuxerView { conns: self.conns.remove(key.code()), ..self }
    }

    /// A packet header from the host side of `key`.
    pub open spec fn header(self, key: Key, op_: u16, flags: u32, len: u32, fwd_cnt: u32) -> Header {
        Header {
            src_cid: HOST_CID as u64,
            dst_cid: self.guest_cid,
            src_port: key.host_port,
            dst_port: key.guest_port,
            len,
            type_: TYPE_STREAM,
            op: op_,
            flags,
            buf_alloc: BUF_ALLOC,
            fwd_cnt,
        }
    }

    /// The consumption a packet of `key` reports.
    pub open spec fn fwd(self, key: Key) -> u32 {
        if self.has(key) {
            self.conn(key).fwd_cnt
        } else {
            0
        }
    }

    /// Queue a control packet, dropping the oldest of a full queue. It reports the consumption.
    pub open spec fn pushed(self, key: Key, op_: u16, flags: u32) -> MuxerView {
        let h = self.header(key, op_, flags, 0, self.fwd(key));
        let kept = if self.control.len() >= MAX_PENDING_CONTROL {
            self.control.subrange(1, self.control.len() as int)
        } else {
            self.control
        };
        let reported = if self.has(key) {
            self.put(key, ConnView { fwd_reported: self.conn(key).fwd_cnt, ..self.conn(key) })
        } else {
            self
        };
        MuxerView { control: kept.push(h), ..reported }
    }

    /// Forget the connection and tell the guest.
    pub open spec fn reset(self, key: Key) -> MuxerView {
        self.forget(key).pushed(key, op::RST, 0)
    }

    /// Tell the guest what was consumed, once a quarter of the buffer is unreported.
    pub open spec fn credit_updated(self, key: Key) -> MuxerView {
        if self.has(key) && sub32(self.conn(key).fwd_cnt, self.conn(key).fwd_reported)
            >= CREDIT_UPDATE_THRESHOLD {
            self.pushed(key, op::CREDIT_UPDATE, 0)
        } else {
            self
        }
    }

    /// Whether the guest shut both directions and every byte reached the host.
    pub open spec fn closed(self, key: Key) -> bool {
        self.has(key) && self.conn(key).guest_shut_send && self.conn(key).guest_shut_rcv
            && self.conn(key).out.len() == 0
    }

    /// The state and the action after the guest sent `h` with `payload`.
    pub open spec fn received(self, h: Header, payload: Seq<u8>) -> (MuxerView, RecvAction) {
        let key = Key { host_port: h.dst_port, guest_port: h.src_port };
        let refused = if h.op != op::RST {
            self.pushed(key, op::RST, 0)
        } else {
            self
        };
        if h.dst_cid != HOST_CID || h.src_cid != self.guest_cid {
            (self, RecvAction::Done)
        } else if h.type_ != TYPE_STREAM {
            (refused, RecvAction::Done)
        } else if h.op == op::REQUEST {
            if self.has(key) || self.conns.dom().len() >= MAX_CONNECTIONS {
                (self.pushed(key, op::RST, 0), RecvAction::Done)
            } else {
                (self, RecvAction::Connect(key))
            }
        } else if !self.has(key) {
            (refused, RecvAction::Done)
        } else {
            let c = self.conn(key).credited(h);
            let m = self.put(key, c);
            if h.op == op::RESPONSE && c.state == State::Connecting {
                (
                    m.put(key, c.accepted(key.host_port)),
                    RecvAction::Flush(key, After::Response),
                )
            } else if h.op == op::RW && c.state == State::Established {
                if c.guest_bytes() + payload.len() > BUF_ALLOC {
                    (m.reset(key), RecvAction::Close(c.fd))
                } else {
                    (
                        m.put(key, ConnView { out: c.out + payload, ..c }),
                        RecvAction::Flush(key, After::Data),
                    )
                }
            } else if h.op == op::CREDIT_UPDATE {
                (m, RecvAction::Done)
            } else if h.op == op::CREDIT_REQUEST {
                (m.pushed(key, op::CREDIT_UPDATE, 0), RecvAction::Done)
            } else if h.op == op::SHUTDOWN {
                (m.put(key, c.shut(h.flags)), RecvAction::Flush(key, After::Shutdown))
            } else if h.op == op::RST {
                (m.forget(key), RecvAction::Close(c.fd))
            } else {
                (m.reset(key), RecvAction::Close(c.fd))
            }
        }
    }

    /// The state after the host end of a guest's `REQUEST` was opened, or could not be.
    pub open spec fn guest_connected(self, key: Key, h: Header, opened: Option<i32>) -> MuxerView {
        if self.has(key) || self.conns.dom().len() >= MAX_CONNECTIONS || opened is None {
            self.pushed(key, op::RST, 0)
        } else {
            self.put(key, ConnView::fresh(opened->0, State::Established).credited(h)).pushed(
                key,
                op::RESPONSE,
                0,
            )
        }
    }

    /// The state after pending bytes were written as far as they could be.
    pub open spec fn flushed(self, key: Key, ok: bool, after: After) -> MuxerView {
        if !self.has(key) {
            self
        } else if !ok {
            self.reset(key)
        } else {
            let credited = if after == After::Data || after == After::Poll {
                self.credit_updated(key)
            } else {
                self
            };
            if (after == After::Shutdown || after == After::Poll) && credited.closed(key) {
                credited.reset(key)
            } else {
                credited
            }
        }
    }

    /// Whether anything may be sent to the guest.
    pub open spec fn has_rx(self) -> bool {
        self.control.len() > 0 || exists|k: u64| #[trigger]
            self.conns.dom().contains(k) && self.conns[k].ready()
    }

    /// Whether `key` is the next connection to read: the first ready one after the last
    /// served, or the first ready one when none comes after it.
    pub open spec fn is_next(self, key: Key) -> bool {
        let after = |k: u64| self.last_served matches Some(l) && k > l.code();
        &&& self.has(key)
        &&& self.conn(key).ready()
        &&& if exists|k: u64| #[trigger]
            self.conns.dom().contains(k) && self.conns[k].ready() && after(k) {
            &&& after(key.code())
            &&& forall|k: u64| #[trigger]
                self.conns.dom().contains(k) && self.conns[k].ready() && after(k) ==> key.code()
                    <= k
        } else {
            forall|k: u64| #[trigger]
                self.conns.dom().contains(k) && self.conns[k].ready() ==> key.code() <= k
        }
    }

    /// The state once the control packet that waited first was sent.
    pub open spec fn control_sent(self) -> MuxerView {
        MuxerView { control: self.control.subrange(1, self.control.len() as int), ..self }
    }

    /// How many bytes of the host stream of `key` go into a buffer of `avail` bytes: as many as
    /// fit behind a header, as the guest has credit for, and as a packet may carry.
    pub open spec fn room_for(self, key: Key, avail: nat) -> int {
        let fits = avail - HDR_BYTES;
        let credit = self.conn(key).peer_credit() as int;
        let least = if credit < fits {
            credit
        } else {
            fits
        };
        if MAX_PKT_PAYLOAD < least {
            MAX_PKT_PAYLOAD as int
        } else {
            least
        }
    }

    /// The state and the action after reading the host stream of `key`.
    pub open spec fn read(self, key: Key, outcome: ReadOutcome) -> (MuxerView, RxAction) {
        let c = self.conn(key);
        match outcome {
            ReadOutcome::Eof => (
                self.put(key, ConnView { host_eof: true, readable: false, ..c }).pushed(
                    key,
                    op::SHUTDOWN,
                    SHUTDOWN_SEND,
                ),
                RxAction::Rewind,
            ),
            ReadOutcome::Data(k) => (
                self.put(
                    key,
                    ConnView { rx_cnt: add32(c.rx_cnt, k as int), fwd_reported: c.fwd_cnt, ..c },
                ),
                RxAction::Packet(self.header(key, op::RW, 0, k as u32, c.fwd_cnt)),
            ),
            ReadOutcome::NotNow => (
                self.put(key, ConnView { readable: false, ..c }),
                RxAction::Rewind,
            ),
            ReadOutcome::Failed => (self.reset(key), RxAction::RewindClose(c.fd)),
        }
    }
}

proof fn lemma_conn_views_insert(m: Map<u64, Conn>, k: u64, c: Conn)
    ensures
        conn_views(m.insert(k, c)) == conn_views(m).insert(k, c@),
{
    assert(conn_views(m.insert(k, c)) =~= conn_views(m).insert(k, c@));
}

proof fn lemma_conn_views_remove(m: Map<u64, Conn>, k: u64)
    ensures
        conn_views(m.remove(k)) == conn_views(m).remove(k),
{
    assert(conn_views(m.remove(k)) =~= conn_views(m).remove(k));
}

impl Muxer {
    /// The representation is in order.
    pub closed spec fn wf(&self) -> bool {
        self.conns.wf() && self@.wf()
    }

    /// The connection keys, ascending.
    pub closed spec fn keys(&self) -> Seq<u64> {
        self.conns.keys()
    }

    /// A muxer for the guest `guest_cid`, once its listener and its wake pipe are open.
    pub fn new(guest_cid: u32, listener_fd: i32, wake_fd: i32) -> (m: Self)
        ensures
            m.wf(),
            m@ == (MuxerView {
                guest_cid: guest_cid as u64,
                listener_fd,
                wake_fd,
                accepting: Seq::empty(),
                conns: Map::empty(),
                control: Seq::empty(),
                next_port: FIRST_HOST_PORT,
                last_served: None,
            }),
    {
        let m = Muxer {
            guest_cid: guest_cid as u64,
            listener_fd,
            wake_fd,
            accepting: Vec::new(),
            conns: SortedMap::new(),
            control: Vec::new(),
            next_port: FIRST_HOST_PORT,
            last_served: None,
        };
        assert(m@.conns =~= Map::<u64, ConnView>::empty());
        assert(m@.accepting =~= Seq::<AcceptingView>::empty());
        assert(m@.control =~= Seq::<Header>::empty());
        m
    }

    /// Live connections.
    pub fn connections(&self) -> (n: usize)
        requires
            self.wf(),
        ensures
            n == self@.conns.dom().len(),
            n <= MAX_CONNECTIONS,
    {
        assert(self@.conns.dom() =~= self.conns@.dom());
        self.conns.len()
    }

    /// Control packets waiting for guest receive buffers.
    pub fn pending_control(&self) -> (n: usize)
        requires
            self.wf(),
        ensures
            n == self@.control.len(),
            n <= MAX_PENDING_CONTROL,
    {
        self.control.len()
    }

    /// Whether `key` is a live connection.
    pub fn has(&self, key: Key) -> (r: bool)
        requires
            self.wf(),
        ensures
            r == self@.has(key),
    {
        self.conns.contains(key.to_code())
    }

    /// Set a connection that exists.
    fn put(&mut self, key: Key, c: Conn)
        requires
            old(self).conns.wf(),
            c@.wf(),
        ensures
            final(self).conns.wf(),
            final(self)@ == old(self)@.put(key, c@),
    {
        proof {
            lemma_conn_views_insert(self.conns@, key.code(), c);
        }
        self.conns.insert(key.to_code(), c);
    }

    /// Take a connection out.
    fn take(&mut self, key: Key) -> (c: Conn)
        requires
            old(self).conns.wf(),
            old(self)@.has(key),
        ensures
            final(self).conns.wf(),
            final(self)@ == old(self)@.forget(key),
            c@ == old(self)@.conn(key),
            old(self)@.forget(key).conns.insert(key.code(), c@) == old(self)@.conns,
    {
        proof {
            lemma_conn_views_remove(self.conns@, key.code());
        }
        let ghost before = self@;
        let r = self.conns.remove(key.to_code());
        let c = match r {
            Some(c) => c,
            None => Conn::new(0, State::Connecting),
        };
        assert(before.forget(key).conns.insert(key.code(), c@) =~= before.conns);
        c
    }

    fn header(&self, key: Key, op_: u16, flags: u32, len: u32, fwd_cnt: u32) -> (h: Header)
        ensures
            h == self@.header(key, op_, flags, len, fwd_cnt),
    {
        Header {
            src_cid: HOST_CID as u64,
            dst_cid: self.guest_cid,
            src_port: key.host_port,
            dst_port: key.guest_port,
            len,
            type_: TYPE_STREAM,
            op: op_,
            flags,
            buf_alloc: BUF_ALLOC,
            fwd_cnt,
        }
    }

    fn push_control(&mut self, key: Key, op_: u16, flags: u32)
        requires
            old(self).wf(),
        ensures
            final(self).wf(),
            final(self)@ == old(self)@.pushed(key, op_, flags),
    {
        let ghost before = self@;
        let mut fwd: u32 = 0;
        if self.conns.contains(key.to_code()) {
            let mut c = self.take(key);
            fwd = c.fwd_cnt;
            c.fwd_reported = c.fwd_cnt;
            assert(before.conns.dom().contains(key.code()));
            self.put(key, c);
            assert(self@.conns =~= before.conns.insert(key.code(), c@));
            assert(self@.conns.dom() =~= before.conns.dom());
        }
        let h = self.header(key, op_, flags, 0, fwd);
        if self.control.len() >= MAX_PENDING_CONTROL {
            let _ = self.control.remove(0);
            assert(self.control@ =~= before.control.subrange(1, before.control.len() as int));
        }
        self.control.push(h);
        assert(self@ =~= before.pushed(key, op_, flags));
    }

    fn reset(&mut self, key: Key)
        requires
            old(self).wf(),
        ensures
            final(self).wf(),
            final(self)@ == old(self)@.reset(key),
    {
        let ghost before = self@;
        proof {
            lemma_conn_views_remove(self.conns@, key.code());
            vstd::set_lib::lemma_len_subset(
                before.conns.dom().remove(key.code()),
                before.conns.dom(),
            );
        }
        let _ = self.conns.remove(key.to_code());
        assert(self@ =~= before.forget(key));
        assert(self@.conns.dom() =~= before.conns.dom().remove(key.code()));
        self.push_control(key, op::RST, 0);
    }

    /// A host port free for `guest_port`, the first one from the last handed out on.
    fn alloc_port(&mut self, guest_port: u32) -> (p: u32)
        requires
            old(self).wf(),
            old(self)@.conns.dom().len() < MAX_CONNECTIONS,
        ensures
            final(self).wf(),
            p >= FIRST_HOST_PORT,
            !old(self)@.has(Key { host_port: p, guest_port }),
            final(self)@ == (MuxerView { next_port: final(self)@.next_port, ..old(self)@ }),
            exists|i: int|
                0 <= i <= MAX_CONNECTIONS && p == #[trigger] port_after(old(self)@.next_port, i)
                    && final(self)@.next_port == port_after(old(self)@.next_port, i + 1)
                    && forall|j: int|
                    0 <= j < i ==> old(self)@.has(
                        Key { host_port: #[trigger] port_after(old(self)@.next_port, j), guest_port },
                    ),
    {
        let ghost before = self@;
        let ghost start = self.next_port;
        let mut tried: Ghost<Set<u64>> = Ghost(Set::empty());
        let mut n: Ghost<int> = Ghost(0);
        loop
            invariant
                self.wf(),
                before == old(self)@,
                before.wf(),
                start == before.next_port,
                before.conns.dom().len() < MAX_CONNECTIONS,
                self@ == (MuxerView { next_port: self@.next_port, ..before }),
                0 <= n@ <= before.conns.dom().len(),
                self@.next_port == port_after(start, n@),
                tried@.subset_of(before.conns.dom()),
                tried@.finite(),
                tried@.len() == n@,
                forall|j: int|
                    0 <= j < n@ ==> before.has(
                        Key { host_port: #[trigger] port_after(start, j), guest_port },
                    ),
                forall|c: u64|
                    tried@.contains(c) ==> exists|j: int|
                        0 <= j < n@ && c == (Key {
                            host_port: #[trigger] port_after(start, j),
                            guest_port,
                        }).code(),
            decreases before.conns.dom().len() - n@,
        {
            let p = self.next_port;
            let ghost was = self@;
            self.next_port = match self.next_port.checked_add(1) {
                Some(q) => q,
                None => FIRST_HOST_PORT,
            };
            assert(self@ =~= (MuxerView { next_port: self@.next_port, ..was }));
            assert(self@.next_port == port_after(start, n@ + 1));
            let key = Key { host_port: p, guest_port };
            if !self.conns.contains(key.to_code()) {
                assert(!before.has(key));
                assert(p == port_after(start, n@));
                return p;
            }
            proof {
                let c = key.code();
                assert(before.conns.dom().contains(c));
                assert(Key::of_code(c) == key);
                assert(!tried@.contains(c)) by {
                    if tried@.contains(c) {
                        let j = choose|j: int|
                            0 <= j < n@ && c == (Key {
                                host_port: #[trigger] port_after(start, j),
                                guest_port,
                            }).code();
                        let k = Key { host_port: port_after(start, j), guest_port };
                        assert(Key::of_code(k.code()) == k);
                        assert(port_after(start, j) == port_after(start, n@));
                    }
                }
                let grown = tried@.insert(c);
                assert(grown.subset_of(before.conns.dom()));
                vstd::set_lib::lemma_len_subset(grown, before.conns.dom());
                assert forall|d: u64| grown.contains(d) implies exists|j: int|
                    0 <= j < n@ + 1 && d == (Key {
                        host_port: #[trigger] port_after(start, j),
                        guest_port,
                    }).code() by {
                    if d == c {
                        assert(d == (Key { host_port: port_after(start, n@), guest_port }).code());
                    }
                }
                tried@ = grown;
                n@ = n@ + 1;
            }
        }
    }

    /// Open a host-initiated connection to guest port `guest_port` over the stream `fd`.
    pub fn connect_to_guest(&mut self, fd: i32, guest_port: u32) -> (r: Result<Key>)
        requires
            old(self).wf(),
        ensures
            final(self).wf(),
            match r {
                Ok(key) => {
                    &&& old(self)@.conns.dom().len() < MAX_CONNECTIONS
                    &&& key.guest_port == guest_port
                    &&& key.host_port >= FIRST_HOST_PORT
                    &&& !old(self)@.has(key)
                    &&& final(self)@ == (MuxerView {
                        next_port: final(self)@.next_port,
                        ..old(self)@
                    }).put(key, ConnView::fresh(fd, State::Connecting)).pushed(
                        key,
                        op::REQUEST,
                        0,
                    )
                    &&& exists|i: int|
                        0 <= i <= MAX_CONNECTIONS && key.host_port == #[trigger] port_after(
                            old(self)@.next_port,
                            i,
                        ) && final(self)@.next_port == port_after(old(self)@.next_port, i + 1)
                            && forall|j: int|
                            0 <= j < i ==> old(self)@.has(
                                Key {
                                    host_port: #[trigger] port_after(old(self)@.next_port, j),
                                    guest_port,
                                },
                            )
                },
                Err(e) => {
                    &&& old(self)@.conns.dom().len() >= MAX_CONNECTIONS
                    &&& final(self)@ == old(self)@
                    &&& e@ == VmmErrorView::Control("too many vsock connections"@)
                },
            },
    {
        if self.connections() >= MAX_CONNECTIONS {
            return Err(VmmError::Control("too many vsock connections".to_owned()));
        }
        let host_port = self.alloc_port(guest_port);
        let key = Key { host_port, guest_port };
        let ghost before = self@;
        let c = Conn::new(fd, State::Connecting);
        self.put(key, c);
        assert(self@.conns.dom() =~= before.conns.dom().insert(key.code()));
        self.push_control(key, op::REQUEST, 0);
        Ok(key)
    }

    /// A packet the guest sent (from the transmit queue).
    pub fn recv(&mut self, h: &Header, payload: &[u8]) -> (a: RecvAction)
        requires
            old(self).wf(),
        ensures
            final(self).wf(),
            (final(self)@, a) == old(self)@.received(*h, payload@),
    {
        let ghost before = self@;
        if h.dst_cid != HOST_CID as u64 || h.src_cid != self.guest_cid {
            return RecvAction::Done;  // not ours to answer: a spoofed or misrouted packet is dropped
        }
        let key = Key { host_port: h.dst_port, guest_port: h.src_port };
        if h.type_ != TYPE_STREAM {
            if h.op != op::RST {
                self.push_control(key, op::RST, 0);
            }
            return RecvAction::Done;
        }
        if h.op == op::REQUEST {
            if self.has(key) || self.connections() >= MAX_CONNECTIONS {
                self.push_control(key, op::RST, 0);
                return RecvAction::Done;
            }
            return RecvAction::Connect(key);
        }
        if !self.has(key) {
            if h.op != op::RST {
                self.push_control(key, op::RST, 0);
            }
            return RecvAction::Done;
        }
        let ghost credited = before.conn(key).credited(*h);
        let ghost m = before.put(key, credited);
        let mut c = self.take(key);
        let fd = c.fd;
        c.peer_buf_alloc = h.buf_alloc;
        c.peer_fwd_cnt = h.fwd_cnt;
        assert(c@ =~= credited);
        proof {
            lemma_put_wf(before, key, credited);
        }
        if h.op == op::RESPONSE && c.state == State::Connecting {
            c.state = State::Established;
            c.readable = true;
            let number = dec_text(key.host_port as u64);
            let line = cat3("OK ", &number, "\n");
            let mut bytes = slice_to_vec(line.as_str().as_bytes());
            c.reply_len = bytes.len();
            c.out.append(&mut bytes);
            assert(c@ =~= credited.accepted(key.host_port));
            self.settle(key, c, Ghost(before), Ghost(m));
            return RecvAction::Flush(key, After::Response);
        }
        if h.op == op::RW && c.state == State::Established {
            let pending: usize = c.out.len() - c.reply_len;
            if payload.len() > BUF_ALLOC as usize - pending {
                // The guest sent beyond the credit it was given.
                self.settle(key, c, Ghost(before), Ghost(m));
                self.reset(key);
                return RecvAction::Close(fd);
            }
            c.out.extend_from_slice(payload);
            assert(c@ =~= (ConnView { out: credited.out + payload@, ..credited }));
            self.settle(key, c, Ghost(before), Ghost(m));
            return RecvAction::Flush(key, After::Data);
        }
        if h.op == op::CREDIT_UPDATE {
            self.settle(key, c, Ghost(before), Ghost(m));
            return RecvAction::Done;
        }
        if h.op == op::CREDIT_REQUEST {
            self.settle(key, c, Ghost(before), Ghost(m));
            self.push_control(key, op::CREDIT_UPDATE, 0);
            return RecvAction::Done;
        }
        if h.op == op::SHUTDOWN {
            c.guest_shut_send = c.guest_shut_send || h.flags & SHUTDOWN_SEND != 0;
            c.guest_shut_rcv = c.guest_shut_rcv || h.flags & SHUTDOWN_RCV != 0;
            assert(c@ =~= credited.shut(h.flags));
            self.settle(key, c, Ghost(before), Ghost(m));
            return RecvAction::Flush(key, After::Shutdown);
        }
        if h.op == op::RST {
            assert(self@ =~= m.forget(key));
            proof {
                lemma_forget_wf(before, key);
            }
            return RecvAction::Close(fd);
        }
        // A RESPONSE to an established connection, data before the guest accepted, or an
        // unknown operation: the connection is torn down.
        self.settle(key, c, Ghost(before), Ghost(m));
        self.reset(key);
        RecvAction::Close(fd)
    }

    /// Put back a connection that was taken out.
    fn settle(&mut self, key: Key, c: Conn, before: Ghost<MuxerView>, m: Ghost<MuxerView>)
        requires
            old(self).conns.wf(),
            old(self)@ == before@.forget(key),
            before@.has(key),
            before@.wf(),
            m@ == before@.put(key, m@.conn(key)),
            c@.wf(),
        ensures
            final(self).wf(),
            final(self)@ == before@.put(key, c@),
            final(self)@ == m@.put(key, c@),
    {
        self.put(key, c);
        proof {
            assert(before@.forget(key).conns.insert(key.code(), c@) =~= before@.conns.insert(
                key.code(),
                c@,
            ));
            assert(m@.conns.insert(key.code(), c@) =~= before@.conns.insert(key.code(), c@));
            lemma_put_wf(before@, key, c@);
        }
    }

    /// The host end of a guest's `REQUEST` was opened as `opened`, or could not be.
    pub fn guest_connect(&mut self, key: Key, h: &Header, opened: Option<i32>)
        requires
            old(self).wf(),
        ensures
            final(self).wf(),
            final(self)@ == old(self)@.guest_connected(key, *h, opened),
    {
        if self.has(key) || self.connections() >= MAX_CONNECTIONS {
            self.push_control(key, op::RST, 0);
            return;
        }
        match opened {
            None => {
                self.push_control(key, op::RST, 0);
            },
            Some(fd) => {
                let ghost before = self@;
                let mut c = Conn::new(fd, State::Established);
                c.peer_buf_alloc = h.buf_alloc;
                c.peer_fwd_cnt = h.fwd_cnt;
                assert(c@ =~= ConnView::fresh(fd, State::Established).credited(*h));
                self.put(key, c);
                assert(self@.conns.dom() =~= before.conns.dom().insert(key.code()));
                self.push_control(key, op::RESPONSE, 0);
            },
        }
    }
}

proof fn lemma_put_wf(m: MuxerView, key: Key, c: ConnView)
    requires
        m.wf(),
        m.has(key),
        c.wf(),
    ensures
        m.put(key, c).wf(),
{
    assert(m.put(key, c).conns.dom() =~= m.conns.dom());
}

proof fn lemma_forget_wf(m: MuxerView, key: Key)
    requires
        m.wf(),
    ensures
        m.forget(key).wf(),
{
    assert(m.forget(key).conns.dom() =~= m.conns.dom().remove(key.code()));
    vstd::set_lib::lemma_len_subset(m.conns.dom().remove(key.code()), m.conns.dom());
}

impl Muxer {
    /// The bytes waiting for the host stream of `key`.
    pub fn pending(&self, key: Key) -> (b: Option<&Vec<u8>>)
        requires
            self.wf(),
        ensures
            b matches Some(v) ==> self@.has(key) && v@ == self@.conn(key).out,
            b is None <==> !self@.has(key),
    {
        match self.conns.get(key.to_code()) {
            Some(c) => Some(&c.out),
            None => None,
        }
    }

    /// One write to the host stream of `key` ended as `outcome` says. A write that took
    /// nothing counts as a failure.
    pub fn on_written(&mut self, key: Key, outcome: WriteOutcome) -> (s: FlushStep)
        requires
            old(self).wf(),
            old(self)@.has(key),
            outcome matches WriteOutcome::Wrote(n) ==> n <= old(self)@.conn(key).out.len(),
        ensures
            final(self).wf(),
            match outcome {
                WriteOutcome::Wrote(n) => if n == 0 {
                    s == FlushStep::Failed && final(self)@ == old(self)@
                } else {
                    s == FlushStep::Again && final(self)@ == old(self)@.put(
                        key,
                        old(self)@.conn(key).wrote(n as int),
                    )
                },
                WriteOutcome::WouldBlock => s == FlushStep::Blocked && final(self)@ == old(self)@,
                WriteOutcome::Interrupted => s == FlushStep::Again && final(self)@ == old(self)@,
                WriteOutcome::Failed => s == FlushStep::Failed && final(self)@ == old(self)@,
            },
    {
        match outcome {
            WriteOutcome::Wrote(n) => {
                if n == 0 {
                    FlushStep::Failed
                } else {
                    let ghost before = self@;
                    let mut c = self.take(key);
                    c.wrote(n);
                    self.settle(key, c, Ghost(before), Ghost(before.put(key, before.conn(key))));
                    FlushStep::Again
                }
            },
            WriteOutcome::WouldBlock => FlushStep::Blocked,
            WriteOutcome::Interrupted => FlushStep::Again,
            WriteOutcome::Failed => FlushStep::Failed,
        }
    }

    /// Everything pending reached the host stream of `key`: whether its write side is to be
    /// shut now, which is once, after the guest said it sends no more.
    pub fn drained(&mut self, key: Key) -> (shut: bool)
        requires
            old(self).wf(),
            old(self)@.has(key),
            old(self)@.conn(key).out.len() == 0,
        ensures
            final(self).wf(),
            shut == (old(self)@.conn(key).guest_shut_send && !old(self)@.conn(key).write_shut),
            final(self)@ == old(self)@.put(
                key,
                ConnView {
                    write_shut: old(self)@.conn(key).write_shut || shut,
                    ..old(self)@.conn(key)
                },
            ),
    {
        let ghost before = self@;
        let mut c = self.take(key);
        let shut = c.guest_shut_send && !c.write_shut;
        if shut {
            c.write_shut = true;
        }
        self.settle(key, c, Ghost(before), Ghost(before.put(key, before.conn(key))));
        assert(self@ =~= before.put(
            key,
            ConnView { write_shut: before.conn(key).write_shut || shut, ..before.conn(key) },
        ));
        shut
    }

    fn maybe_credit_update(&mut self, key: Key)
        requires
            old(self).wf(),
        ensures
            final(self).wf(),
            final(self)@ == old(self)@.credit_updated(key),
    {
        let due = match self.conns.get(key.to_code()) {
            Some(c) => c.fwd_cnt.wrapping_sub(c.fwd_reported) >= CREDIT_UPDATE_THRESHOLD,
            None => false,
        };
        if due {
            self.push_control(key, op::CREDIT_UPDATE, 0);
        }
    }

    /// The guest shut both directions and every byte reached the host: close with `RST`.
    fn finish_if_closed(&mut self, key: Key) -> (fd: Option<i32>)
        requires
            old(self).wf(),
        ensures
            final(self).wf(),
            old(self)@.closed(key) ==> fd == Some(old(self)@.conn(key).fd) && final(self)@ == old(
                self,
            )@.reset(key),
            !old(self)@.closed(key) ==> fd is None && final(self)@ == old(self)@,
    {
        let done = match self.conns.get(key.to_code()) {
            Some(c) => if c.guest_shut_send && c.guest_shut_rcv && c.out.len() == 0 {
                Some(c.fd)
            } else {
                None
            },
            None => None,
        };
        if done.is_some() {
            self.reset(key);
        }
        done
    }

    /// Pending bytes were written as far as they could be, or the stream failed (`ok` false).
    /// A descriptor in the answer is to be closed: its connection is gone.
    pub fn after_flush(&mut self, key: Key, ok: bool, after: After) -> (fd: Option<i32>)
        requires
            old(self).wf(),
        ensures
            final(self).wf(),
            final(self)@ == old(self)@.flushed(key, ok, after),
            fd == (if old(self)@.has(key) && !final(self)@.has(key) {
                Some(old(self)@.conn(key).fd)
            } else {
                None
            }),
    {
        let fd = match self.conns.get(key.to_code()) {
            Some(c) => c.fd,
            None => {
                return None;
            },
        };
        if !ok {
            self.reset(key);
            return Some(fd);
        }
        match after {
            After::Response => None,
            After::Data => {
                self.maybe_credit_update(key);
                None
            },
            After::Shutdown => self.finish_if_closed(key),
            After::Poll => {
                self.maybe_credit_update(key);
                self.finish_if_closed(key)
            },
        }
    }

    /// The poll said the host stream of `key` may be read.
    pub fn mark_readable(&mut self, key: Key)
        requires
            old(self).wf(),
        ensures
            final(self).wf(),
            final(self)@ == (if old(self)@.has(key) {
                old(self)@.put(key, ConnView { readable: true, ..old(self)@.conn(key) })
            } else {
                old(self)@
            }),
    {
        if self.has(key) {
            let ghost before = self@;
            let mut c = self.take(key);
            c.readable = true;
            self.settle(key, c, Ghost(before), Ghost(before.put(key, before.conn(key))));
            assert(self@ =~= before.put(key, ConnView { readable: true, ..before.conn(key) }));
        }
    }

    /// Handle what the poll reported of one entry: a connection that can be read, or failed, is
    /// noted, and what is to be done with the host side is returned. An entry of a connection
    /// that is gone asks nothing.
    pub fn on_ready(&mut self, token: Token, r: Ready) -> (s: ReadyStep)
        requires
            old(self).wf(),
        ensures
            final(self).wf(),
            match token {
                Token::Wake => final(self)@ == old(self)@ && s == if r.read {
                    ReadyStep::Drain
                } else {
                    ReadyStep::Nothing
                },
                Token::Listener => final(self)@ == old(self)@ && s == if r.read {
                    ReadyStep::Accept
                } else {
                    ReadyStep::Nothing
                },
                Token::Accepting(i) => final(self)@ == old(self)@ && s == if r.read || r.error {
                    ReadyStep::ReadLine(i)
                } else {
                    ReadyStep::Nothing
                },
                Token::Conn(key) => {
                    &&& final(self)@ == if old(self)@.has(key) && (r.read || r.error) {
                        old(self)@.put(key, ConnView { readable: true, ..old(self)@.conn(key) })
                    } else {
                        old(self)@
                    }
                    &&& s == if old(self)@.has(key) && (r.write || r.error) {
                        ReadyStep::Flush(key)
                    } else {
                        ReadyStep::Nothing
                    }
                },
            },
    {
        match token {
            Token::Wake => if r.read {
                ReadyStep::Drain
            } else {
                ReadyStep::Nothing
            },
            Token::Listener => if r.read {
                ReadyStep::Accept
            } else {
                ReadyStep::Nothing
            },
            Token::Accepting(i) => if r.read || r.error {
                ReadyStep::ReadLine(i)
            } else {
                ReadyStep::Nothing
            },
            Token::Conn(key) => {
                let there = self.has(key);
                if r.read || r.error {
                    self.mark_readable(key);
                }
                if there && (r.write || r.error) {
                    ReadyStep::Flush(key)
                } else {
                    ReadyStep::Nothing
                }
            },
        }
    }

    /// Whether something may now be sent to the guest.
    pub fn has_rx(&self) -> (r: bool)
        requires
            self.wf(),
        ensures
            r == self@.has_rx(),
    {
        self.control.len() > 0 || self.next_readable().is_some()
    }

    /// The first ready connection among entries `from` and up.
    fn first_ready(&self, from: usize) -> (r: Option<usize>)
        requires
            self.conns.wf(),
            from <= self.conns.keys().len(),
        ensures
            match r {
                Some(i) => from <= i < self.conns.keys().len()
                    && self@.conns[self.conns.keys()[i as int]].ready() && forall|j: int|
                    from <= j < i ==> !self@.conns[#[trigger] self.conns.keys()[j]].ready(),
                None => forall|j: int|
                    from <= j < self.conns.keys().len()
                        ==> !self@.conns[#[trigger] self.conns.keys()[j]].ready(),
            },
    {
        let n = self.conns.len();
        let mut i: usize = from;
        while i < n
            invariant
                self.conns.wf(),
                from <= i <= n,
                n == self.conns.keys().len(),
                forall|j: int|
                    from <= j < i ==> !self@.conns[#[trigger] self.conns.keys()[j]].ready(),
            decreases n - i,
        {
            let c = self.conns.value(i);
            assert(self@.conns[self.conns.keys()[i as int]] == c@);
            if c.readable && c.wants_read() {
                return Some(i);
            }
            i += 1;
        }
        None
    }

    /// The next connection with data to read, after the last one served.
    pub fn next_readable(&self) -> (r: Option<Key>)
        requires
            self.wf(),
        ensures
            match r {
                Some(key) => self@.is_next(key),
                None => forall|k: u64| #[trigger]
                    self@.conns.dom().contains(k) ==> !self@.conns[k].ready(),
            },
    {
        proof {
            self.conns.lemma_keys();
        }
        assert(self@.conns.dom() =~= self.conns@.dom());
        let ghost ks = self.conns.keys();
        let ghost v = self@;
        match self.last_served {
            Some(last) => {
                let code = last.to_code();
                let below = self.conns.lower_bound(code);
                let from: usize = if below < self.conns.len() && self.conns.key(below) == code {
                    below + 1
                } else {
                    below
                };
                assert forall|j: int| 0 <= j < ks.len() implies (j >= from <==> (#[trigger] ks[j])
                    > code) by {
                    if j < from && from == below + 1 && j < below {
                        assert(ks[j] < code);
                    }
                    if j >= from && from == below + 1 {
                        assert(ks[below as int] < ks[j]);
                    }
                }
                match self.first_ready(from) {
                    Some(i) => {
                        let k = self.conns.key(i);
                        let key = Key::from_code(k);
                        proof {
                            assert(v.conns.dom().contains(k) && v.conns[k].ready() && k > code);
                            assert forall|q: u64| #[trigger]
                                v.conns.dom().contains(q) && v.conns[q].ready() && q
                                    > code implies k <= q by {
                                let j = choose|j: int| 0 <= j < ks.len() && #[trigger] ks[j] == q;
                                assert(j >= from);
                                if j < i {
                                    assert(!v.conns[ks[j]].ready());
                                } else if j > i {
                                    assert(ks[i as int] < ks[j]);
                                }
                            }
                        }
                        return Some(key);
                    },
                    None => {
                        assert forall|q: u64| #[trigger]
                            v.conns.dom().contains(q) && v.conns[q].ready() implies q <= code by {
                            let j = choose|j: int| 0 <= j < ks.len() && #[trigger] ks[j] == q;
                            if q > code {
                                assert(j >= from);
                                assert(!v.conns[ks[j]].ready());
                            }
                        }
                    },
                }
            },
            None => {},
        }
        match self.first_ready(0) {
            Some(i) => {
                let k = self.conns.key(i);
                let key = Key::from_code(k);
                proof {
                    assert(v.conns.dom().contains(k) && v.conns[k].ready());
                    assert forall|q: u64| #[trigger]
                        v.conns.dom().contains(q) && v.conns[q].ready() implies k <= q by {
                        let j = choose|j: int| 0 <= j < ks.len() && #[trigger] ks[j] == q;
                        if j < i {
                            assert(!v.conns[ks[j]].ready());
                        } else if j > i {
                            assert(ks[i as int] < ks[j]);
                        }
                    }
                }
                Some(key)
            },
            None => {
                assert forall|q: u64| #[trigger] v.conns.dom().contains(q) implies !v.conns[q].ready() by {
                    let j = choose|j: int| 0 <= j < ks.len() && #[trigger] ks[j] == q;
                    assert(!v.conns[ks[j]].ready());
                }
                None
            },
        }
    }

    /// What the guest's next receive buffer is for: control packets first, then data from host
    /// streams, round-robin.
    pub fn rx_next(&self) -> (r: RxNext)
        requires
            self.wf(),
        ensures
            match r {
                RxNext::Control(h) => self@.control.len() > 0 && h == self@.control[0],
                RxNext::Data(key) => self@.control.len() == 0 && self@.is_next(key),
                RxNext::Idle => !self@.has_rx(),
            },
    {
        if self.control.len() > 0 {
            return RxNext::Control(self.control[0]);
        }
        match self.next_readable() {
            Some(key) => RxNext::Data(key),
            None => RxNext::Idle,
        }
    }

    /// The first control packet was offered a receive buffer of `avail` bytes, and the copy
    /// into it succeeded or not: how many bytes of the buffer are used. A buffer too small for a
    /// header is returned empty and the packet waits for the next one.
    pub fn control_used(&mut self, avail: usize, copied: bool) -> (used: u32)
        requires
            old(self).wf(),
            old(self)@.control.len() > 0,
        ensures
            final(self).wf(),
            if avail >= HDR_BYTES && copied {
                used == HDR_BYTES && final(self)@ == old(self)@.control_sent()
            } else {
                used == 0 && final(self)@ == old(self)@
            },
    {
        if avail >= HDR_BYTES && copied {
            let ghost before = self@;
            let _ = self.control.remove(0);
            assert(self.control@ =~= before.control.subrange(1, before.control.len() as int));
            44
        } else {
            0
        }
    }

    /// A receive buffer of `avail` bytes was taken for data of `key`: how many bytes to read
    /// from its host stream. None when the buffer has no room for data; it is returned empty.
    pub fn data_room(&mut self, key: Key, avail: usize) -> (r: Option<usize>)
        requires
            old(self).wf(),
            old(self)@.is_next(key),
        ensures
            final(self).wf(),
            match r {
                None => avail <= HDR_BYTES && final(self)@ == old(self)@,
                Some(n) => {
                    &&& avail > HDR_BYTES
                    &&& 0 < n
                    &&& n == old(self)@.room_for(key, avail as nat)
                    &&& final(self)@ == (MuxerView { last_served: Some(key), ..old(self)@ })
                },
            },
    {
        if avail <= HDR_BYTES {
            return None;
        }
        let credit = match self.conns.get(key.to_code()) {
            Some(c) => c.peer_credit() as usize,
            None => 0,
        };
        let mut n: usize = avail - HDR_BYTES;
        if credit < n {
            n = credit;
        }
        if MAX_PKT_PAYLOAD < n {
            n = MAX_PKT_PAYLOAD;
        }
        self.last_served = Some(key);
        Some(n)
    }

    /// The host stream of `key` was read after [`Muxer::data_room`].
    pub fn on_read(&mut self, key: Key, outcome: ReadOutcome) -> (a: RxAction)
        requires
            old(self).wf(),
            old(self)@.has(key),
            outcome matches ReadOutcome::Data(k) ==> k <= MAX_PKT_PAYLOAD,
        ensures
            final(self).wf(),
            (final(self)@, a) == old(self)@.read(key, outcome),
    {
        let ghost before = self@;
        let ghost same = before.put(key, before.conn(key));
        match outcome {
            ReadOutcome::Eof => {
                let mut c = self.take(key);
                c.host_eof = true;
                c.readable = false;
                assert(c@ =~= (ConnView { host_eof: true, readable: false, ..before.conn(key) }));
                self.settle(key, c, Ghost(before), Ghost(same));
                self.push_control(key, op::SHUTDOWN, SHUTDOWN_SEND);
                RxAction::Rewind
            },
            ReadOutcome::Data(k) => {
                let mut c = self.take(key);
                c.rx_cnt = c.rx_cnt.wrapping_add(k as u32);
                c.fwd_reported = c.fwd_cnt;
                let fwd = c.fwd_cnt;
                assert(c@ =~= (ConnView {
                    rx_cnt: add32(before.conn(key).rx_cnt, k as int),
                    fwd_reported: before.conn(key).fwd_cnt,
                    ..before.conn(key)
                }));
                self.settle(key, c, Ghost(before), Ghost(same));
                RxAction::Packet(self.header(key, op::RW, 0, k as u32, fwd))
            },
            ReadOutcome::NotNow => {
                let mut c = self.take(key);
                c.readable = false;
                assert(c@ =~= (ConnView { readable: false, ..before.conn(key) }));
                self.settle(key, c, Ghost(before), Ghost(same));
                RxAction::Rewind
            },
            ReadOutcome::Failed => {
                let fd = match self.conns.get(key.to_code()) {
                    Some(c) => c.fd,
                    None => 0,
                };
                self.reset(key);
                RxAction::RewindClose(fd)
            },
        }
    }
}

/// `s` without trailing carriage returns.
pub open spec fn without_cr(s: Seq<char>) -> Seq<char>
    decreases s.len(),
{
    if s.len() > 0 && s.last() == '\r' {
        without_cr(s.drop_last())
    } else {
        s
    }
}

/// The guest port a `CONNECT` line asks for.
pub open spec fn connect_port(line: Seq<char>) -> Option<nat> {
    let s = without_cr(line);
    if s.len() >= 8 && s.subrange(0, 8) == "CONNECT "@ {
        parsed(trimmed(s.subrange(8, s.len() as int)), u32::MAX as nat)
    } else {
        None
    }
}

/// The guest port a `CONNECT` line asks for: the word, a space and a port, with white space
/// around the port and carriage returns at the end allowed.
pub fn parse_connect(line: &str) -> (r: Option<u32>)
    ensures
        match r {
            Some(p) => connect_port(line@) == Some(p as nat),
            None => connect_port(line@) is None,
        },
{
    let v = chars_of(line);
    let mut n: usize = v.len();
    assert(v@.subrange(0, n as int) =~= line@);
    while n > 0 && v[n - 1] == '\r'
        invariant
            n <= v@.len(),
            without_cr(v@.subrange(0, n as int)) == without_cr(line@),
        decreases n,
    {
        let ghost s = v@.subrange(0, n as int);
        assert(s.drop_last() =~= v@.subrange(0, n as int - 1));
        n -= 1;
    }
    let ghost s = v@.subrange(0, n as int);
    assert(without_cr(line@) == s);
    proof {
        reveal_strlit("CONNECT ");
    }
    if n >= 8 && v[0] == 'C' && v[1] == 'O' && v[2] == 'N' && v[3] == 'N' && v[4] == 'E' && v[5]
        == 'C' && v[6] == 'T' && v[7] == ' ' {
        assert(s.subrange(0, 8) =~= "CONNECT "@);
        assert(s.subrange(8, s.len() as int) =~= v@.subrange(8, n as int));
        let (a, b) = trim(&v, 8, n);
        match parse_number(&v, a, b, u32::MAX as u64) {
            Some(p) => Some(p as u32),
            None => None,
        }
    } else {
        assert(s.len() >= 8 ==> s.subrange(0, 8) != "CONNECT "@) by {
            if s.len() >= 8 && s.subrange(0, 8) == "CONNECT "@ {
                let t = s.subrange(0, 8);
                assert(v@[0] == t[0] && v@[1] == t[1] && v@[2] == t[2] && v@[3] == t[3] && v@[4]
                    == t[4] && v@[5] == t[5] && v@[6] == t[6] && v@[7] == t[7]);
            }
        }
        None
    }
}

/// The host socket a guest reaches at host port `port`: the port appended to the device's own
/// path.
pub fn unix_path_for_port(uds: &str, port: u32) -> (s: String)
    ensures
        s@ == uds@ + "_"@ + dec(port as nat),
{
    let n = dec_text(port as u64);
    cat3(uds, "_", &n)
}

/// What to poll for the connections `keys`, in their order.
pub open spec fn conn_polls(keys: Seq<u64>, conns: Map<u64, ConnView>) -> Seq<(PollFd, Token)>
    decreases keys.len(),
{
    if keys.len() == 0 {
        Seq::empty()
    } else {
        let c = conns[keys.last()];
        let read = c.wants_read() && !c.readable;
        let write = c.out.len() > 0;
        let rest = conn_polls(keys.drop_last(), conns);
        if read || write {
            rest.push((PollFd { fd: c.fd, read, write }, Token::Conn(Key::of_code(keys.last()))))
        } else {
            rest
        }
    }
}

/// What to poll for the host connections still sending their line.
pub open spec fn accepting_polls(s: Seq<AcceptingView>) -> Seq<(PollFd, Token)> {
    Seq::new(
        s.len(),
        |i: int| (PollFd { fd: s[i].fd, read: true, write: false }, Token::Accepting(i as usize)),
    )
}

impl Muxer {
    /// What the backend thread should poll: the wake pipe, the listener, every host connection
    /// still sending its line, and each connection that waits to be read or written.
    pub fn poll_set(&self) -> (v: Vec<(PollFd, Token)>)
        requires
            self.wf(),
        ensures
            v@ == seq![
                (PollFd { fd: self@.wake_fd, read: true, write: false }, Token::Wake),
                (PollFd { fd: self@.listener_fd, read: true, write: false }, Token::Listener),
            ] + accepting_polls(self@.accepting) + conn_polls(self.keys(), self@.conns),
    {
        let mut v: Vec<(PollFd, Token)> = Vec::new();
        v.push((PollFd { fd: self.wake_fd, read: true, write: false }, Token::Wake));
        v.push((PollFd { fd: self.listener_fd, read: true, write: false }, Token::Listener));
        let ghost head = seq![
            (PollFd { fd: self@.wake_fd, read: true, write: false }, Token::Wake),
            (PollFd { fd: self@.listener_fd, read: true, write: false }, Token::Listener),
        ];
        let ghost all = accepting_polls(self@.accepting);
        assert(v@ =~= head + all.subrange(0, 0));
        let mut i: usize = 0;
        while i < self.accepting.len()
            invariant
                i <= self.accepting@.len(),
                all == accepting_polls(self@.accepting),
                v@ == head + all.subrange(0, i as int),
            decreases self.accepting@.len() - i,
        {
            let fd = self.accepting[i].fd;
            let entry = (PollFd { fd, read: true, write: false }, Token::Accepting(i));
            assert(all[i as int] == entry);
            assert(head + all.subrange(0, i as int + 1) =~= (head + all.subrange(0, i as int)).push(
                entry,
            ));
            v.push(entry);
            i += 1;
        }
        assert(all.subrange(0, i as int) =~= all);
        let ghost base = head + all;
        let n = self.conns.len();
        let mut j: usize = 0;
        let ghost ks = self.keys();
        assert(v@ =~= base + conn_polls(ks.subrange(0, 0), self@.conns));
        while j < n
            invariant
                self.wf(),
                ks == self.keys(),
                n == ks.len(),
                j <= n,
                v@ == base + conn_polls(ks.subrange(0, j as int), self@.conns),
            decreases n - j,
        {
            let k = self.conns.key(j);
            let c = self.conns.value(j);
            let read = c.wants_read() && !c.readable;
            let write = c.out.len() > 0;
            let ghost next = ks.subrange(0, j as int + 1);
            assert(next.drop_last() =~= ks.subrange(0, j as int));
            assert(next.last() == k);
            assert(self@.conns[k] == c@);
            let ghost before = v@;
            if read || write {
                v.push((PollFd { fd: c.fd, read, write }, Token::Conn(Key::from_code(k))));
            }
            assert(v@ =~= base + conn_polls(next, self@.conns));
            j += 1;
        }
        assert(ks.subrange(0, n as int) =~= ks);
        v
    }

    /// The keys ascend strictly and are exactly the live connections.
    pub proof fn lemma_keys(&self)
        requires
            self.wf(),
        ensures
            forall|i: int, j: int|
                0 <= i < j < self.keys().len() ==> (#[trigger] self.keys()[i]) < (
                #[trigger] self.keys()[j]),
            forall|i: int|
                0 <= i < self.keys().len() ==> self@.conns.dom().contains(#[trigger] self.keys()[i]),
            forall|k: u64| #[trigger]
                self@.conns.dom().contains(k) ==> self.keys().contains(k),
            self.keys().len() == self@.conns.dom().len(),
    {
        self.conns.lemma_keys();
        assert(self@.conns.dom() =~= self.conns@.dom());
        assert forall|k: u64| #[trigger] self@.conns.dom().contains(k) implies self.keys().contains(
            k,
        ) by {
            let i = choose|i: int|
                0 <= i < self.conns.keys().len() && #[trigger] self.conns.keys()[i] == k;
            assert(self.keys()[i] == k);
        }
    }

    /// The live connections in key order, for a pass over all of them.
    pub fn live(&self) -> (v: Vec<Key>)
        requires
            self.wf(),
        ensures
            v@.len() == self.keys().len(),
            forall|i: int|
                0 <= i < v@.len() ==> #[trigger] v@[i] == Key::of_code(self.keys()[i]),
    {
        let n = self.conns.len();
        let mut v: Vec<Key> = Vec::new();
        let mut i: usize = 0;
        while i < n
            invariant
                self.wf(),
                i <= n,
                n == self.keys().len(),
                v@.len() == i,
                forall|j: int| 0 <= j < i ==> #[trigger] v@[j] == Key::of_code(self.keys()[j]),
            decreases n - i,
        {
            v.push(Key::from_code(self.conns.key(i)));
            i += 1;
        }
        v
    }

    /// A host process connected as `fd`; `usable` says whether the stream could be made
    /// non-blocking. False means the stream is dropped: the host sees it close.
    pub fn accept(&mut self, fd: i32, usable: bool) -> (kept: bool)
        requires
            old(self).wf(),
        ensures
            final(self).wf(),
            kept == (old(self)@.accepting.len() < MAX_ACCEPTING && usable),
            kept ==> final(self)@ == (MuxerView {
                accepting: old(self)@.accepting.push(AcceptingView { fd, line: Seq::empty() }),
                ..old(self)@
            }),
            !kept ==> final(self)@ == old(self)@,
    {
        if self.accepting.len() >= MAX_ACCEPTING || !usable {
            return false;
        }
        let ghost before = self@;
        self.accepting.push(Accepting { fd, line: Vec::new() });
        assert(self@.accepting =~= before.accepting.push(
            AcceptingView { fd, line: Seq::empty() },
        ));
        true
    }

    /// One byte of the `CONNECT` line of entry `i` was read, or could not be. The line is read
    /// one byte at a time, so no byte of the connection is consumed.
    pub fn connect_byte(&mut self, i: usize, outcome: ByteOutcome) -> (s: LineStep)
        requires
            old(self).wf(),
        ensures
            final(self).wf(),
            if i >= old(self)@.accepting.len() {
                s == LineStep::Refused && final(self)@ == old(self)@
            } else {
                let a = old(self)@.accepting[i as int];
                match outcome {
                    ByteOutcome::Eof => s == LineStep::Refused && final(self)@ == old(self)@,
                    ByteOutcome::WouldBlock => s == LineStep::Wait && final(self)@ == old(self)@,
                    ByteOutcome::Interrupted => s == LineStep::More && final(self)@ == old(self)@,
                    ByteOutcome::Failed => s == LineStep::Refused && final(self)@ == old(self)@,
                    ByteOutcome::Byte(b) => if b == 10 {
                        &&& final(self)@ == old(self)@
                        &&& match connect_port(utf8_lossy(a.line)) {
                            Some(p) => s == LineStep::Connect(p as u32),
                            None => s == LineStep::Refused,
                        }
                    } else if a.line.len() >= CONNECT_LINE_MAX {
                        s == LineStep::Refused && final(self)@ == old(self)@
                    } else {
                        &&& s == LineStep::More
                        &&& final(self)@ == (MuxerView {
                            accepting: old(self)@.accepting.update(
                                i as int,
                                AcceptingView { fd: a.fd, line: a.line.push(b) },
                            ),
                            ..old(self)@
                        })
                    },
                }
            },
    {
        if i >= self.accepting.len() {
            return LineStep::Refused;
        }
        match outcome {
            ByteOutcome::Eof => LineStep::Refused,
            ByteOutcome::WouldBlock => LineStep::Wait,
            ByteOutcome::Interrupted => LineStep::More,
            ByteOutcome::Failed => LineStep::Refused,
            ByteOutcome::Byte(b) => {
                if b == 10 {
                    let text = lossy_text(self.accepting[i].line.as_slice());
                    match parse_connect(&text) {
                        Some(p) => LineStep::Connect(p),
                        None => LineStep::Refused,
                    }
                } else if self.accepting[i].line.len() >= CONNECT_LINE_MAX {
                    LineStep::Refused
                } else {
                    let ghost before = self@;
                    self.accepting[i].line.push(b);
                    assert(self@.accepting =~= before.accepting.update(
                        i as int,
                        AcceptingView {
                            fd: before.accepting[i as int].fd,
                            line: before.accepting[i as int].line.push(b),
                        },
                    ));
                    LineStep::More
                }
            },
        }
    }

    /// Drop the finished entry `i`; the last entry takes its place. Entries are dropped from the
    /// highest index down, so the indices still to come stay valid.
    pub fn drop_accepting(&mut self, i: usize) -> (fd: i32)
        requires
            old(self).wf(),
            i < old(self)@.accepting.len(),
        ensures
            final(self).wf(),
            fd == old(self)@.accepting[i as int].fd,
            final(self)@ == (MuxerView {
                accepting: old(self)@.accepting.update(
                    i as int,
                    old(self)@.accepting.last(),
                ).drop_last(),
                ..old(self)@
            }),
    {
        let ghost before = self@;
        let ghost raw = self.accepting@;
        let a = self.accepting.swap_remove(i);
        assert(self@.accepting =~= before.accepting.update(
            i as int,
            before.accepting.last(),
        ).drop_last());
        a.fd
    }
}

/// Every byte the guest sends is accounted for: writing pending bytes to the host moves guest
/// bytes from "waiting" to "consumed" and loses none (modulo the counter's 2^32).
pub proof fn law_writing_conserves_guest_bytes(c: ConnView, n: int)
    requires
        c.wf(),
        0 <= n <= c.out.len(),
    ensures
        c.wrote(n).wf(),
        (c.wrote(n).fwd_cnt + c.wrote(n).guest_bytes()) % 0x1_0000_0000 == (c.fwd_cnt
            + c.guest_bytes()) % 0x1_0000_0000,
        c.wrote(n).guest_bytes() <= c.guest_bytes(),
{
}

/// The muxer never sends more than the guest's advertised buffer: while what is in flight
/// fits the buffer, it still does after sending up to the credit.
pub proof fn law_sending_respects_guest_credit(c: ConnView, k: int)
    requires
        c.in_flight() <= c.peer_buf_alloc,
        0 <= k <= c.peer_credit(),
    ensures
        ({
            let sent = ConnView { rx_cnt: add32(c.rx_cnt, k), ..c };
            &&& sent.in_flight() == c.in_flight() + k
            &&& sent.in_flight() <= sent.peer_buf_alloc
            &&& sent.peer_credit() == c.peer_credit() - k
        }),
{
}

/// The guest never has more than [`BUF_ALLOC`] bytes waiting for a host stream: a packet that
/// would exceed it tears the connection down, whatever else the packet says.
pub proof fn law_overrun_is_reset(m: MuxerView, h: Header, payload: Seq<u8>)
    requires
        m.wf(),
        h.dst_cid == HOST_CID,
        h.src_cid == m.guest_cid,
        h.type_ == TYPE_STREAM,
        h.op == op::RW,
        m.has(Key { host_port: h.dst_port, guest_port: h.src_port }),
        m.conn(Key { host_port: h.dst_port, guest_port: h.src_port }).guest_bytes() + payload.len()
            > BUF_ALLOC,
    ensures
        !m.received(h, payload).0.has(Key { host_port: h.dst_port, guest_port: h.src_port }),
        m.received(h, payload).0.control.last().op == op::RST,
{
}

/// A packet that is not from this guest, or not for the host, changes nothing and is not
/// answered.
pub proof fn law_misrouted_packets_are_dropped(m: MuxerView, h: Header, payload: Seq<u8>)
    requires
        h.dst_cid != HOST_CID || h.src_cid != m.guest_cid,
    ensures
        m.received(h, payload) == (m, RecvAction::Done),
{
}

/// A `RST` is never answered with a `RST`.
pub proof fn law_reset_is_not_answered(m: MuxerView, h: Header, payload: Seq<u8>)
    requires
        h.op == op::RST,
    ensures
        m.received(h, payload).0.control == m.control,
{
}

/// Whatever the guest sends, only the connection the packet names can change.
pub proof fn law_packets_touch_one_connection(
    m: MuxerView,
    h: Header,
    payload: Seq<u8>,
    other: Key,
)
    requires
        other.code() != (Key { host_port: h.dst_port, guest_port: h.src_port }).code(),
    ensures
        m.received(h, payload).0.has(other) == m.has(other),
        m.has(other) ==> m.received(h, payload).0.conn(other) == m.conn(other),
{
}

} // verus!
