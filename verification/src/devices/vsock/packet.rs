//! The virtio-vsock packet header (virtio 1.2, 5.10.6): 44 bytes, little-endian.

pub mod op;

use crate::bytes::{le_at, le_bound, le_bytes, lemma_le_bytes_len, lemma_le_bytes_of_value,
    lemma_le_round_trip, push_le, u16_at, u32_at, u64_at};
use vstd::prelude::*;

verus! {

/// Header size.
pub const HDR_BYTES: usize = 44;

/// Socket type: stream (the only type this device carries).
pub const TYPE_STREAM: u16 = 1;

/// `SHUTDOWN` flag: the sender will receive no more.
pub const SHUTDOWN_RCV: u32 = 1;

/// `SHUTDOWN` flag: the sender will send no more.
pub const SHUTDOWN_SEND: u32 = 2;

/// A decoded header.
#[derive(Clone, Copy, Debug, PartialEq, Eq, Structural)]
pub struct Header {
    /// Source context id.
    pub src_cid: u64,
    /// Destination context id.
    pub dst_cid: u64,
    /// Source port.
    pub src_port: u32,
    /// Destination port.
    pub dst_port: u32,
    /// Payload length.
    pub len: u32,
    /// Socket type.
    pub type_: u16,
    /// Operation.
    pub op: u16,
    /// Operation flags.
    pub flags: u32,
    /// The sender's receive buffer size.
    pub buf_alloc: u32,
    /// Bytes the sender has consumed from its receive buffer, ever.
    pub fwd_cnt: u32,
}

impl Default for Header {
    fn default() -> (h: Self)
        ensures
            h == (Header {
                src_cid: 0,
                dst_cid: 0,
                src_port: 0,
                dst_port: 0,
                len: 0,
                type_: 0,
                op: 0,
                flags: 0,
                buf_alloc: 0,
                fwd_cnt: 0,
            }),
    {
        Header {
            src_cid: 0,
            dst_cid: 0,
            src_port: 0,
            dst_port: 0,
            len: 0,
            type_: 0,
            op: 0,
            flags: 0,
            buf_alloc: 0,
            fwd_cnt: 0,
        }
    }
}

impl Header {
    /// The wire form: the fields in order, little-endian, without padding.
    pub open spec fn wire(self) -> Seq<u8> {
        le_bytes(self.src_cid as nat, 8) + le_bytes(self.dst_cid as nat, 8) + le_bytes(
            self.src_port as nat,
            4,
        ) + le_bytes(self.dst_port as nat, 4) + le_bytes(self.len as nat, 4) + le_bytes(
            self.type_ as nat,
            2,
        ) + le_bytes(self.op as nat, 2) + le_bytes(self.flags as nat, 4) + le_bytes(
            self.buf_alloc as nat,
            4,
        ) + le_bytes(self.fwd_cnt as nat, 4)
    }

    /// Whether `self` is what the 44 bytes at the start of `b` say.
    pub open spec fn read_from(self, b: Seq<u8>) -> bool {
        &&& self.src_cid == le_at(b, 0, 8)
        &&& self.dst_cid == le_at(b, 8, 8)
        &&& self.src_port == le_at(b, 16, 4)
        &&& self.dst_port == le_at(b, 20, 4)
        &&& self.len == le_at(b, 24, 4)
        &&& self.type_ == le_at(b, 28, 2)
        &&& self.op == le_at(b, 30, 2)
        &&& self.flags == le_at(b, 32, 4)
        &&& self.buf_alloc == le_at(b, 36, 4)
        &&& self.fwd_cnt == le_at(b, 40, 4)
    }

    /// Decode 44 bytes.
    pub fn decode(b: &[u8; HDR_BYTES]) -> (h: Self)
        ensures
            h.read_from(b@),
            h.wire() == b@,
    {
        let h = Header::decode_slice(b.as_slice());
        assert(b@.subrange(0, 44) =~= b@);
        h
    }

    /// Decode the first 44 bytes of `b`.
    pub fn decode_slice(b: &[u8]) -> (h: Self)
        requires
            b@.len() >= HDR_BYTES,
        ensures
            h.read_from(b@),
            h.wire() == b@.subrange(0, 44),
    {
        let h = Header {
            src_cid: u64_at(b, 0),
            dst_cid: u64_at(b, 8),
            src_port: u32_at(b, 16),
            dst_port: u32_at(b, 20),
            len: u32_at(b, 24),
            type_: u16_at(b, 28),
            op: u16_at(b, 30),
            flags: u32_at(b, 32),
            buf_alloc: u32_at(b, 36),
            fwd_cnt: u32_at(b, 40),
        };
        proof {
            law_encode_undoes_decode(h, b@);
        }
        h
    }

    /// Encode to 44 bytes.
    pub fn encode(&self) -> (b: [u8; HDR_BYTES])
        ensures
            b@ == self.wire(),
            self.read_from(b@),
    {
        let v = self.encode_vec();
        let mut b = [0u8; HDR_BYTES];
        let mut i: usize = 0;
        while i < HDR_BYTES
            invariant
                i <= HDR_BYTES,
                v@.len() == HDR_BYTES,
                b@.len() == HDR_BYTES,
                forall|j: int| 0 <= j < i ==> b@[j] == v@[j],
            decreases HDR_BYTES - i,
        {
            b[i] = v[i];
            i += 1;
        }
        assert(b@ =~= v@);
        b
    }

    /// Encode to 44 bytes on the heap.
    pub fn encode_vec(&self) -> (b: Vec<u8>)
        ensures
            b@ == self.wire(),
            b@.len() == HDR_BYTES,
            self.read_from(b@),
    {
        let mut b: Vec<u8> = Vec::new();
        push_le(&mut b, self.src_cid, 8);
        push_le(&mut b, self.dst_cid, 8);
        push_le(&mut b, self.src_port as u64, 4);
        push_le(&mut b, self.dst_port as u64, 4);
        push_le(&mut b, self.len as u64, 4);
        push_le(&mut b, self.type_ as u64, 2);
        push_le(&mut b, self.op as u64, 2);
        push_le(&mut b, self.flags as u64, 4);
        push_le(&mut b, self.buf_alloc as u64, 4);
        push_le(&mut b, self.fwd_cnt as u64, 4);
        assert(b@ =~= self.wire());
        proof {
            law_decode_undoes_encode(*self);
        }
        b
    }
}

/// What a header's wire form decodes to is the header.
pub proof fn law_decode_undoes_encode(h: Header)
    ensures
        h.wire().len() == 44,
        h.read_from(h.wire()),
{
    let w = h.wire();
    reveal_with_fuel(le_bound, 9);
    lemma_le_bytes_len(h.src_cid as nat, 8);
    lemma_le_bytes_len(h.dst_cid as nat, 8);
    lemma_le_bytes_len(h.src_port as nat, 4);
    lemma_le_bytes_len(h.dst_port as nat, 4);
    lemma_le_bytes_len(h.len as nat, 4);
    lemma_le_bytes_len(h.type_ as nat, 2);
    lemma_le_bytes_len(h.op as nat, 2);
    lemma_le_bytes_len(h.flags as nat, 4);
    lemma_le_bytes_len(h.buf_alloc as nat, 4);
    lemma_le_bytes_len(h.fwd_cnt as nat, 4);
    assert(w.subrange(0, 8) =~= le_bytes(h.src_cid as nat, 8));
    lemma_le_round_trip(w, 0, h.src_cid as nat, 8);
    assert(w.subrange(8, 16) =~= le_bytes(h.dst_cid as nat, 8));
    lemma_le_round_trip(w, 8, h.dst_cid as nat, 8);
    assert(w.subrange(16, 20) =~= le_bytes(h.src_port as nat, 4));
    lemma_le_round_trip(w, 16, h.src_port as nat, 4);
    assert(w.subrange(20, 24) =~= le_bytes(h.dst_port as nat, 4));
    lemma_le_round_trip(w, 20, h.dst_port as nat, 4);
    assert(w.subrange(24, 28) =~= le_bytes(h.len as nat, 4));
    lemma_le_round_trip(w, 24, h.len as nat, 4);
    assert(w.subrange(28, 30) =~= le_bytes(h.type_ as nat, 2));
    lemma_le_round_trip(w, 28, h.type_ as nat, 2);
    assert(w.subrange(30, 32) =~= le_bytes(h.op as nat, 2));
    lemma_le_round_trip(w, 30, h.op as nat, 2);
    assert(w.subrange(32, 36) =~= le_bytes(h.flags as nat, 4));
    lemma_le_round_trip(w, 32, h.flags as nat, 4);
    assert(w.subrange(36, 40) =~= le_bytes(h.buf_alloc as nat, 4));
    lemma_le_round_trip(w, 36, h.buf_alloc as nat, 4);
    assert(w.subrange(40, 44) =~= le_bytes(h.fwd_cnt as nat, 4));
    lemma_le_round_trip(w, 40, h.fwd_cnt as nat, 4);
}

/// The wire form of a header that was read from some bytes is those bytes.
pub proof fn law_encode_undoes_decode(h: Header, b: Seq<u8>)
    requires
        b.len() >= 44,
        h.read_from(b),
    ensures
        h.wire() == b.subrange(0, 44),
{
    lemma_le_bytes_of_value(b, 0, 8);
    lemma_le_bytes_of_value(b, 8, 8);
    lemma_le_bytes_of_value(b, 16, 4);
    lemma_le_bytes_of_value(b, 20, 4);
    lemma_le_bytes_of_value(b, 24, 4);
    lemma_le_bytes_of_value(b, 28, 2);
    lemma_le_bytes_of_value(b, 30, 2);
    lemma_le_bytes_of_value(b, 32, 4);
    lemma_le_bytes_of_value(b, 36, 4);
    lemma_le_bytes_of_value(b, 40, 4);
    assert(h.wire() =~= b.subrange(0, 44));
}

} // verus!
