//! What holds of the muxer whatever is sent: no byte is lost, every answer goes where it belongs,
//! and a connection ends only when it is over.

use super::muxer::{
    connect_port, conn_polls, ok_line, port_after, without_cr, After, ConnView, Key, MuxerView, ReadOutcome, RecvAction, RxAction, Token,
};
use super::packet::Header;
use crate::text::dec;
use vstd::prelude::*;

verus! {

/// The connection a packet from the guest belongs to.
pub open spec fn addressed(h: Header) -> Key {
    Key { host_port: h.dst_port, guest_port: h.src_port }
}

/// Whether a packet is from this guest, for the host, and of a stream.
pub open spec fn routed(m: MuxerView, h: Header) -> bool {
    h.dst_cid == 2 && h.src_cid == m.guest_cid && h.type_ == 1
}

/// Whether `long` begins with `short`.
pub open spec fn extends(long: Seq<u8>, short: Seq<u8>) -> bool {
    short.len() <= long.len() && long.subrange(0, short.len() as int) == short
}

/// Whether a packet that waits for the guest is of `key`: from its host port to its guest port,
/// without payload, with the size of the buffer the guest may fill.
pub open spec fn of_connection(m: MuxerView, key: Key, h: Header) -> bool {
    &&& h.src_cid == 2 && h.dst_cid == m.guest_cid
    &&& h.src_port == key.host_port && h.dst_port == key.guest_port
    &&& h.len == 0 && h.type_ == 1 && h.buf_alloc == 262144
}

/// Bytes that wait for a slow host stream outlive an orderly shutdown by the guest: the connection
/// stays until they are written, and none of them changes.
pub proof fn law_pending_bytes_outlive_a_shutdown(m: MuxerView, key: Key, after: After)
    requires
        m.has(key),
        m.conn(key).out.len() > 0,
    ensures
        m.flushed(key, true, after).has(key),
        m.flushed(key, true, after).conn(key).out == m.conn(key).out,
        m.flushed(key, true, after).conn(key).reply_len == m.conn(key).reply_len,
        m.flushed(key, true, after).conn(key).fwd_cnt == m.conn(key).fwd_cnt,
{
}

/// Writing ends a connection exactly when the stream failed, or when nothing waits, the guest
/// closed both directions, and that was the occasion; the guest is then told with a reset.
pub proof fn law_a_flush_ends_what_is_over(m: MuxerView, key: Key, ok: bool, after: After)
    requires
        m.has(key),
    ensures
        ({
            let left = m.flushed(key, ok, after);
            let c = m.conn(key);
            &&& left.has(key) <==> ok && (after is Response || after is Data || c.out.len() > 0
                || !c.guest_shut_send || !c.guest_shut_rcv)
            &&& !left.has(key) ==> left.control.len() > 0 && left.control.last().op == 3
                && of_connection(m, key, left.control.last())
            &&& forall|other: Key|
                other.code() != key.code() ==> left.has(other) == m.has(other) && (m.has(other)
                    ==> #[trigger] left.conn(other) == m.conn(other))
        }),
{
}

/// Once data was written for a guest, less than a quarter of its buffer is unreported: it was told
/// what was consumed, with an update of its connection, exactly where that had come to a quarter.
pub proof fn law_consumption_is_reported(m: MuxerView, key: Key, after: After)
    requires
        m.has(key),
        after is Data || after is Poll,
        m.flushed(key, true, after).has(key),
    ensures
        ({
            let left = m.flushed(key, true, after);
            let c = left.conn(key);
            let owed = (m.conn(key).fwd_cnt - m.conn(key).fwd_reported) % 0x1_0000_0000;
            &&& (c.fwd_cnt - c.fwd_reported) % 0x1_0000_0000 < 65536
            &&& owed < 65536 ==> left == m
            &&& owed >= 65536 ==> left.control.len() > 0 && left.control.last().op == 6
                && left.control.last().fwd_cnt == m.conn(key).fwd_cnt && of_connection(
                m,
                key,
                left.control.last(),
            )
        }),
{
}

/// Whatever a packet does to a connection that survives it, the bytes that wait for the host stay
/// as they are, in front of what the packet adds; and only data of an open connection adds the
/// guest's bytes, all of them, in order.
pub proof fn law_packets_lose_no_bytes(m: MuxerView, h: Header, payload: Seq<u8>)
    requires
        m.wf(),
        m.has(addressed(h)),
        m.received(h, payload).0.has(addressed(h)),
    ensures
        ({
            let before = m.conn(addressed(h));
            let after = m.received(h, payload).0.conn(addressed(h));
            &&& extends(after.out, before.out)
            &&& after.fd == before.fd
            &&& after.fwd_cnt == before.fwd_cnt
            &&& after.rx_cnt == before.rx_cnt
            &&& routed(m, h) && h.op == 5 ==> after.out == before.out + payload && after.guest_bytes()
                == before.guest_bytes() + payload.len()
            &&& !(routed(m, h) && h.op == 5) ==> after.guest_bytes() == before.guest_bytes()
        }),
{
    let before = m.conn(addressed(h));
    let after = m.received(h, payload).0.conn(addressed(h));
    assert(before.out.subrange(0, before.out.len() as int) =~= before.out);
    assert(after.out.subrange(0, before.out.len() as int) =~= before.out);
}

/// A packet ends a connection exactly when it resets it, overruns the buffer, answers what was not
/// asked, sends before the connection is open, or is of no known kind. The stream of a connection
/// that ended is closed, and no other one; a reset is not answered, all else is.
pub proof fn law_packets_end_what_they_must(m: MuxerView, h: Header, payload: Seq<u8>)
    requires
        m.wf(),
        routed(m, h),
        m.has(addressed(h)),
    ensures
        ({
            let (left, action) = m.received(h, payload);
            let c = m.conn(addressed(h));
            let kept = {
                ||| h.op == 1 || h.op == 4 || h.op == 6 || h.op == 7
                ||| h.op == 2 && c.state is Connecting
                ||| h.op == 5 && c.state is Established && c.guest_bytes() + payload.len() <= 262144
            };
            &&& left.has(addressed(h)) <==> kept
            &&& action == RecvAction::Close(c.fd) <==> !kept
            &&& !kept && h.op != 3 ==> left.control.len() > 0 && left.control.last().op == 3
                && of_connection(m, addressed(h), left.control.last())
            &&& h.op == 3 ==> left.control == m.control
        }),
{
}

/// A packet for a connection there is none of is refused, unless it is a reset; a request is
/// carried to the host where there is room for it.
pub proof fn law_strangers_are_refused(m: MuxerView, h: Header, payload: Seq<u8>)
    requires
        m.wf(),
        routed(m, h),
        !m.has(addressed(h)),
    ensures
        ({
            let (left, action) = m.received(h, payload);
            let asks = h.op == 1 && m.conns.dom().len() < 256;
            &&& !left.has(addressed(h))
            &&& action == if asks {
                RecvAction::Connect(addressed(h))
            } else {
                RecvAction::Done
            }
            &&& asks || h.op == 3 ==> left == m
            &&& !asks && h.op != 3 ==> left.control.len() > 0 && left.control.last().op == 3
                && of_connection(m, addressed(h), left.control.last())
        }),
{
}

/// What a guest says of its own buffer is believed, whatever else its packet says; a shutdown marks
/// the directions it names and takes none back; the writing that follows is asked for.
pub proof fn law_packets_are_taken_at_their_word(m: MuxerView, h: Header, payload: Seq<u8>)
    requires
        m.wf(),
        routed(m, h),
        m.has(addressed(h)),
        h.op != 1,
        m.received(h, payload).0.has(addressed(h)),
    ensures
        ({
            let (left, action) = m.received(h, payload);
            let before = m.conn(addressed(h));
            let after = left.conn(addressed(h));
            &&& after.peer_buf_alloc == h.buf_alloc && after.peer_fwd_cnt == h.fwd_cnt
            &&& h.op == 4 ==> {
                &&& after.guest_shut_rcv == (before.guest_shut_rcv || h.flags & 1 != 0)
                &&& after.guest_shut_send == (before.guest_shut_send || h.flags & 2 != 0)
                &&& action == RecvAction::Flush(addressed(h), After::Shutdown)
            }
            &&& h.op != 4 ==> after.guest_shut_rcv == before.guest_shut_rcv
                && after.guest_shut_send == before.guest_shut_send
            &&& h.op == 5 ==> action == RecvAction::Flush(addressed(h), After::Data)
            &&& h.op == 2 ==> {
                &&& action == RecvAction::Flush(addressed(h), After::Response)
                &&& after.state is Established && after.readable
                &&& after.reply_len == after.out.len()
            }
            &&& h.op != 2 ==> after.state == before.state
            &&& h.op == 6 ==> left.control == m.control && action == RecvAction::Done
            &&& h.op == 7 ==> {
                &&& action == RecvAction::Done
                &&& left.control.len() > 0 && left.control.last().op == 6
                &&& left.control.last().fwd_cnt == before.fwd_cnt
                &&& of_connection(m, addressed(h), left.control.last())
            }
        }),
{
}

/// A guest's request that the host took becomes an open connection over the stream that was opened,
/// with the guest's buffer as it said, and is answered; one that could not be taken is refused and
/// leaves no connection behind.
pub proof fn law_requests_are_answered(m: MuxerView, key: Key, h: Header, opened: Option<i32>)
    requires
        m.wf(),
        !m.has(key),
    ensures
        ({
            let left = m.guest_connected(key, h, opened);
            let taken = opened is Some && m.conns.dom().len() < 256;
            &&& left.has(key) <==> taken
            &&& left.control.len() > 0 && of_connection(m, key, left.control.last())
            &&& left.control.last().op == if taken {
                2u16
            } else {
                3u16
            }
            &&& taken ==> {
                let c = left.conn(key);
                &&& c.fd == opened->0 && c.state is Established && c.readable
                &&& c.peer_buf_alloc == h.buf_alloc && c.peer_fwd_cnt == h.fwd_cnt
                &&& c.out.len() == 0 && c.fwd_cnt == 0 && c.rx_cnt == 0
                &&& !c.host_eof && !c.guest_shut_send && !c.guest_shut_rcv && !c.write_shut
            }
        }),
{
}

/// What a stream's reading comes to for the guest: its bytes are announced and counted, its end is
/// told once as a shutdown of the sending side, nothing is told where nothing came, and a failed
/// stream is closed and reset. Bytes on their way to the host stay.
pub proof fn law_reading_a_stream(m: MuxerView, key: Key, outcome: ReadOutcome)
    requires
        m.has(key),
        outcome matches ReadOutcome::Data(k) ==> k <= 65536,
    ensures
        ({
            let (left, action) = m.read(key, outcome);
            let before = m.conn(key);
            let after = left.conn(key);
            &&& left.has(key) <==> !(outcome is Failed)
            &&& left.has(key) ==> after.out == before.out && after.fwd_cnt == before.fwd_cnt
                && after.fd == before.fd && after.reply_len == before.reply_len
            &&& outcome is Failed ==> action == RxAction::RewindClose(before.fd)
                && left.control.len() > 0 && left.control.last().op == 3 && of_connection(
                m,
                key,
                left.control.last(),
            )
            &&& outcome is Eof ==> {
                &&& action == RxAction::Rewind && after.host_eof && !after.wants_read()
                &&& left.control.len() > 0 && left.control.last().op == 4
                &&& left.control.last().flags == 2
                &&& of_connection(m, key, left.control.last())
            }
            &&& outcome is NotNow ==> action == RxAction::Rewind && left.control == m.control
                && !after.ready() && after.host_eof == before.host_eof
            &&& outcome matches ReadOutcome::Data(k) ==> {
                &&& left.control == m.control && after.host_eof == before.host_eof
                &&& after.readable == before.readable
                &&& (after.rx_cnt - before.rx_cnt) % 0x1_0000_0000 == k
                &&& action matches RxAction::Packet(h) && h.op == 5 && h.len == k && h.fwd_cnt
                    == before.fwd_cnt && of_connection(m, key, Header { len: 0, ..h })
            }
        }),
{
}

/// Only a connection that is open, whose stream goes on, whose guest listens and has room is read;
/// and no more than the buffer holds behind a header, the guest has room for, or a packet carries,
/// but all of that.
pub proof fn law_only_what_can_be_delivered_is_read(m: MuxerView, key: Key, avail: nat)
    requires
        m.is_next(key),
        avail > 44,
    ensures
        ({
            let c = m.conn(key);
            let n = m.room_for(key, avail);
            let unread = (c.rx_cnt - c.peer_fwd_cnt) % 0x1_0000_0000;
            &&& c.state is Established && c.readable && !c.host_eof && !c.guest_shut_rcv
            &&& 0 < n <= 65536 && n + 44 <= avail && unread + n <= c.peer_buf_alloc
            &&& n == 65536 || n + 44 == avail || unread + n == c.peer_buf_alloc
        }),
{
}

/// Streams take turns: a connection that was just served is not served again while another one is
/// ready.
pub proof fn law_streams_take_turns(m: MuxerView, key: Key, other: Key)
    requires
        m.is_next(key),
        m.has(other),
        m.conn(other).ready(),
        other.code() != key.code(),
    ensures
        !(MuxerView { last_served: Some(key), ..m }).is_next(key),
{
    let next = MuxerView { last_served: Some(key), ..m };
    assert(next.conns.dom().contains(other.code()) && next.conns[other.code()].ready());
    if next.is_next(key) {
        assert(next.conns.dom().contains(key.code()));
    }
}

/// Of the bytes that wait, those that were written are the first ones, and the rest stays in order;
/// the line that answers the host process is never counted as the guest's.
pub proof fn law_writing_takes_from_the_front(c: ConnView, n: int)
    requires
        c.wf(),
        0 <= n <= c.out.len(),
    ensures
        c.out.subrange(0, n) + c.wrote(n).out == c.out,
        n <= c.reply_len ==> c.wrote(n).fwd_cnt == c.fwd_cnt && c.wrote(n).guest_bytes()
            == c.guest_bytes(),
        n >= c.reply_len ==> c.wrote(n).reply_len == 0 && (c.wrote(n).fwd_cnt - c.fwd_cnt)
            % 0x1_0000_0000 == n - c.reply_len,
        c.wrote(n) == (ConnView {
            out: c.wrote(n).out,
            reply_len: c.wrote(n).reply_len,
            fwd_cnt: c.wrote(n).fwd_cnt,
            ..c
        }),
{
    assert(c.out.subrange(0, n) + c.wrote(n).out =~= c.out);
    assert(0 <= c.guest_bytes() < 0x1_0000_0000);
}

/// Whether `entries` watch the stream `fd` of `key` for writing (`write`) or reading.
pub open spec fn watched(
    entries: Seq<(crate::sys::PollFd, Token)>,
    key: Key,
    fd: i32,
    write: bool,
) -> bool {
    exists|j: int|
        0 <= j < entries.len() && (#[trigger] entries[j]).1 == Token::Conn(key) && entries[j].0.fd
            == fd && (if write {
            entries[j].0.write
        } else {
            entries[j].0.read
        })
}

/// No connection is forgotten by the poll: a stream that bytes wait for is watched for writing, one
/// that may be read and was not found readable yet for reading.
pub proof fn law_waiting_streams_are_watched(keys: Seq<u64>, conns: Map<u64, ConnView>, i: int)
    requires
        0 <= i < keys.len(),
    ensures
        ({
            let c = conns[keys[i]];
            let key = Key::of_code(keys[i]);
            &&& c.out.len() > 0 ==> watched(conn_polls(keys, conns), key, c.fd, true)
            &&& c.state is Established && !c.host_eof && !c.guest_shut_rcv && c.peer_credit() > 0
                && !c.readable ==> watched(conn_polls(keys, conns), key, c.fd, false)
        }),
    decreases keys.len(),
{
    let rest = conn_polls(keys.drop_last(), conns);
    let all = conn_polls(keys, conns);
    let c = conns[keys[i]];
    let key = Key::of_code(keys[i]);
    if i == keys.len() - 1 {
        if c.out.len() > 0 || c.wants_read() && !c.readable {
            assert(all[all.len() - 1].1 == Token::Conn(key));
        }
    } else {
        law_waiting_streams_are_watched(keys.drop_last(), conns, i);
        assert(keys.drop_last()[i] == keys[i]);
        if c.out.len() > 0 {
            let j = choose|j: int|
                0 <= j < rest.len() && (#[trigger] rest[j]).1 == Token::Conn(key) && rest[j].0.fd
                    == c.fd && rest[j].0.write;
            assert(all[j] == rest[j]);
        }
        if c.wants_read() && !c.readable {
            let j = choose|j: int|
                0 <= j < rest.len() && (#[trigger] rest[j]).1 == Token::Conn(key) && rest[j].0.fd
                    == c.fd && rest[j].0.read;
            assert(all[j] == rest[j]);
        }
    }
}

/// Nothing is watched in vain: an entry is of one of the connections, with its stream, for writing
/// only where bytes wait, for reading only where they can be delivered, and for one of the two.
pub proof fn law_nothing_is_watched_in_vain(keys: Seq<u64>, conns: Map<u64, ConnView>, j: int)
    requires
        0 <= j < conn_polls(keys, conns).len(),
    ensures
        ({
            let e = conn_polls(keys, conns)[j];
            exists|i: int|
                0 <= i < keys.len() && e.1 == Token::Conn(Key::of_code(#[trigger] keys[i])) && {
                    let c = conns[keys[i]];
                    &&& e.0.fd == c.fd && (e.0.read || e.0.write)
                    &&& e.0.write <==> c.out.len() > 0
                    &&& e.0.read ==> c.state is Established && !c.host_eof && !c.guest_shut_rcv
                        && !c.readable
                }
        }),
    decreases keys.len(),
{
    if keys.len() > 0 {
        let rest = conn_polls(keys.drop_last(), conns);
        if j < rest.len() {
            law_nothing_is_watched_in_vain(keys.drop_last(), conns, j);
            let i = choose|i: int|
                0 <= i < keys.drop_last().len() && rest[j].1 == Token::Conn(
                    Key::of_code(#[trigger] keys.drop_last()[i]),
                ) && {
                    let c = conns[keys.drop_last()[i]];
                    &&& rest[j].0.fd == c.fd && (rest[j].0.read || rest[j].0.write)
                    &&& rest[j].0.write <==> c.out.len() > 0
                    &&& rest[j].0.read ==> c.state is Established && !c.host_eof
                        && !c.guest_shut_rcv && !c.readable
                };
            assert(keys[i] == keys.drop_last()[i]);
        } else {
            assert(keys[keys.len() - 1] == keys.last());
        }
    }
}

/// The ports handed to host processes are high, and the next one is free until all were handed out.
pub proof fn law_host_ports_are_high_and_distinct(start: u32, i: int, j: int)
    requires
        start >= 0x4000_0000,
        0 <= i < j < 0xc000_0000,
    ensures
        port_after(start, i) >= 0x4000_0000,
        port_after(start, i) != port_after(start, j),
        port_after(start, 0) == start,
        port_after(start, i) < u32::MAX ==> port_after(start, i + 1) == port_after(start, i) + 1,
{
}

/// A line that asks for a port in decimal is read as asking for that port, also with a carriage
/// return at its end.
pub proof fn law_a_connect_line_names_its_port(p: u32)
    ensures
        connect_port(
            seq!['C', 'O', 'N', 'N', 'E', 'C', 'T', ' '] + dec(p as nat),
        ) == Some(p as nat),
        connect_port(
            seq!['C', 'O', 'N', 'N', 'E', 'C', 'T', ' '] + dec(p as nat) + seq!['\r'],
        ) == Some(p as nat),
{
    let word = seq!['C', 'O', 'N', 'N', 'E', 'C', 'T', ' '];
    let d = dec(p as nat);
    let line = word + d;
    reveal_strlit("CONNECT ");
    assert("CONNECT "@ =~= word);
    crate::text::laws::law_decimal_reads_back(p as nat);
    assert(crate::text::is_digit(d[0]) && crate::text::is_digit(d.last()));
    crate::text::laws::law_white_space(d[0]);
    crate::text::laws::law_white_space(d.last());
    crate::text::laws::law_trimming_leaves_the_rest(d);
    crate::text::laws::law_parsing_undoes_writing(p as nat, u32::MAX as nat);
    assert(line.last() == d.last());
    assert(without_cr(line) == line);
    assert(line.subrange(0, 8) =~= word);
    assert(line.subrange(8, line.len() as int) =~= d);
    let ended = line + seq!['\r'];
    assert(ended.drop_last() =~= line);
    assert(ended.last() == '\r');
    reveal_with_fuel(without_cr, 2);
}

/// A line that does not begin with the word and a blank asks for nothing.
pub proof fn law_other_lines_ask_for_nothing(line: Seq<char>)
    requires
        line.len() < 8 || line.subrange(0, 8) != seq!['C', 'O', 'N', 'N', 'E', 'C', 'T', ' '],
        line.len() == 0 || line.last() != '\r',
    ensures
        connect_port(line) is None,
{
    reveal_strlit("CONNECT ");
    assert("CONNECT "@ =~= seq!['C', 'O', 'N', 'N', 'E', 'C', 'T', ' ']);
}

/// The answer to a host process is the word, the port in decimal and the end of the line.
pub proof fn law_the_answer_names_the_port(p: u32, i: int)
    requires
        0 <= i < dec(p as nat).len(),
    ensures
        ({
            let line = ok_line(p);
            &&& line.len() == dec(p as nat).len() + 4
            &&& line[0] == 0x4f && line[1] == 0x4b && line[2] == 0x20
            &&& line[3 + i] == dec(p as nat)[i] as u8
            &&& line.last() == 0x0a
        }),
{
    let d = dec(p as nat);
    reveal_strlit("OK ");
    reveal_strlit("\n");
    crate::text::laws::law_decimal_reads_back(p as nat);
    let text = "OK "@ + d + "\n"@;
    assert forall|k: int| 0 <= k < text.len() implies '\0' <= #[trigger] text[k] <= '\u{7f}' by {
        if 3 <= k < 3 + d.len() {
            assert(crate::text::is_digit(d[k - 3]));
        }
    }
    vstd::utf8::is_ascii_chars_encode_utf8(text);
    assert(text[0] == 'O' && text[1] == 'K' && text[2] == ' ' && text[3 + i] == d[i]
        && text.last() == '\n');
}

} // verus!
