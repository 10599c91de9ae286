//! What a driver can rely on of the transport.

use super::RegsView;
use crate::devices::queue::{halves, size_ok};
use vstd::prelude::*;

verus! {

/// A driver that selects both halves learns exactly the features that are offered, and nothing from
/// any other selection.
pub proof fn law_a_driver_learns_what_is_offered(r: RegsView, id: u32, offered: u64, other: u32)
    requires
        other > 1,
    ensures
        r.written(0x14, 0).read(id, offered, 0x10) + 0x1_0000_0000 * r.written(0x14, 1).read(
            id,
            offered,
            0x10,
        ) == offered,
        r.written(0x14, other).read(id, offered, 0x10) == 0,
{
}

/// A driver that may negotiate and writes both halves has said exactly which features it takes,
/// whatever was there before and in whichever order they come.
pub proof fn law_a_driver_says_what_it_takes(r: RegsView, low: u32, high: u32)
    requires
        r.feature_phase(),
    ensures
        r.written(0x24, 0).written(0x20, low).written(0x24, 1).written(0x20, high).driver_features
            == high * 0x1_0000_0000 + low,
        r.written(0x24, 1).written(0x20, high).written(0x24, 0).written(0x20, low).driver_features
            == high * 0x1_0000_0000 + low,
{
}

/// Features are negotiated once the driver is known (2) and until they are agreed on (8).
pub proof fn law_when_features_are_negotiated(r: RegsView)
    ensures
        r.feature_phase() <==> r.status / 2 % 2 == 1 && r.status / 8 % 2 == 0,
        r.features_ok() <==> r.status / 8 % 2 == 1,
        r.driver_ok() <==> r.status / 4 % 2 == 1,
{
    let s = r.status;
    assert((s & 2 != 0) == (s / 2 % 2 == 1) && (s & 8 != 0) == (s / 8 % 2 == 1) && (s & 4 != 0) == (
    s / 4 % 2 == 1)) by (bit_vector);
}

/// Features are agreed on if the device offers all that the driver took, the one of this version of
/// the transport among them. If they are not, the driver finds the bit not set.
pub proof fn law_features_are_agreed_on(r: RegsView, offered: u64, v: u32)
    requires
        !r.features_ok(),
        v / 8 % 2 == 1,
    ensures
        r.status_written(offered, v).features_ok() <==> (r.driver_features | offered == offered)
            && r.driver_features / 0x1_0000_0000 % 2 == 1,
        r.status_written(offered, v).features_ok() ==> r.status_written(offered, v).status == v,
        !r.status_written(offered, v).features_ok() ==> r.status_written(offered, v).status == v
            - 8,
        r.status_written(offered, v) == (RegsView {
            status: r.status_written(offered, v).status,
            ..r
        }),
{
    let f = r.driver_features;
    let s = r.status;
    assert((f & !offered == 0) == (f | offered == offered)) by (bit_vector);
    assert((f & 0x1_0000_0000 != 0) == (f / 0x1_0000_0000 % 2 == 1)) by (bit_vector);
    assert(v / 8 % 2 == 1 && s & 8 == 0 ==> v & !s & 8 != 0 && v & !8u32 == v - 8 && v & 8 != 0
        && (v & !8u32) & 8 == 0) by (bit_vector);
}

/// A device starts when the driver says that it is done (4), once, and only with features that are
/// agreed on.
pub proof fn law_when_a_device_starts(r: RegsView, offered: u64, v: u32)
    requires
        r.features_ok(),
    ensures
        r.activates(offered, v) <==> v / 4 % 2 == 1 && r.status / 4 % 2 == 0 && v / 8 % 2 == 1,
{
    let s = r.status;
    assert(s & 8 != 0 ==> v & !s & 8 == 0) by (bit_vector);
    assert((v & !s & 4 != 0) == (v / 4 % 2 == 1 && s / 4 % 2 == 0)) by (bit_vector);
    assert((v & 8 != 0) == (v / 8 % 2 == 1)) by (bit_vector);
}

/// What every driver reads first: the magic value, the version of the transport and the device's
/// id. What it reads of the device's state is that state.
pub proof fn law_what_a_driver_reads(r: RegsView, id: u32, offered: u64)
    ensures
        r.read(id, offered, 0) == 0x7472_6976,
        r.read(id, offered, 4) == 2,
        r.read(id, offered, 8) == id,
        r.read(id, offered, 0x60) == r.pending,
        r.read(id, offered, 0x70) == r.status,
        r.read(id, offered, 0xfc) == r.config_generation,
        r.queue_sel < r.queues.len() && r.queue()[0] <= u32::MAX ==> r.read(id, offered, 0x34)
            == r.queue()[0],
        r.queue_sel < r.queues.len() ==> (r.read(id, offered, 0x44) == 1 <==> r.queue()[2] == 1),
        r.queue_sel >= r.queues.len() ==> r.read(id, offered, 0x34) == 0 && r.read(
            id,
            offered,
            0x44,
        ) == 0,
{
}

/// The queue that was selected, after an address was written to it in two halves.
#[verifier::opaque]
pub open spec fn addressed(r: RegsView, low_at: u64, a: u64) -> RegsView {
    r.written(low_at, (a % 0x1_0000_0000) as u32).written(
        (low_at + 4) as u64,
        (a / 0x1_0000_0000) as u32,
    )
}

proof fn lemma_halves(x: u64, a: u64)
    ensures
        ({
            let low = (a % 0x1_0000_0000) as u32;
            let high = (a / 0x1_0000_0000) as u32;
            let w = halves(x, Some(low), None);
            &&& w % 16 == a % 16 && w % 4 == a % 4 && w % 2 == a % 2
            &&& halves(w, None, Some(high)) == a
        }),
{
    let low = (a % 0x1_0000_0000) as u32;
    let high = (a / 0x1_0000_0000) as u32;
    let top = x / 0x1_0000_0000;
    let w = halves(x, Some(low), None);
    assert(w == top * 0x1_0000_0000 + low);
    assert(a == high * 0x1_0000_0000 + low);
    lemma_low_bits(w, top, low);
    lemma_low_bits(a, high as u64, low);
    assert(w % 0x1_0000_0000 == low);
}

proof fn lemma_low_bits(w: u64, top: u64, low: u32)
    requires
        w == top * 0x1_0000_0000 + low,
    ensures
        w % 16 == low % 16,
        w % 4 == low % 4,
        w % 2 == low % 2,
{
}

proof fn lemma_half(r: RegsView, offset: u64, v: u32, at: int, to: u64)
    requires
        r.queue_writable(),
        r.queue().len() == 6,
        ({
            let low = halves(r.queue()[at], Some(v), None);
            let high = halves(r.queue()[at], None, Some(v));
            ||| offset == 0x80 && at == 3 && to == low && to % 16 == 0
            ||| offset == 0x84 && at == 3 && to == high && to % 16 == 0
            ||| offset == 0x90 && at == 4 && to == low && to % 2 == 0
            ||| offset == 0x94 && at == 4 && to == high && to % 2 == 0
            ||| offset == 0xa0 && at == 5 && to == low && to % 4 == 0
            ||| offset == 0xa4 && at == 5 && to == high && to % 4 == 0
        }),
    ensures
        r.written(offset, v) == r.with_queue(r.queue().update(at, to)),
        r.written(offset, v).queue() == r.queue().update(at, to),
        r.written(offset, v).queue_writable(),
{
    assert(r.with_queue(r.queue().update(at, to)).queue() == r.queue().update(at, to));
}

proof fn lemma_addressed(r: RegsView, low_at: u64, a: u64, at: int)
    requires
        r.queue_writable(),
        r.queue().len() == 6,
        (low_at == 0x80 && at == 3 && a % 16 == 0) || (low_at == 0x90 && at == 4 && a % 2 == 0) || (
        low_at == 0xa0 && at == 5 && a % 4 == 0),
    ensures
        addressed(r, low_at, a) == r.with_queue(r.queue().update(at, a)),
        addressed(r, low_at, a).queue_writable(),
        addressed(r, low_at, a).queue() == r.queue().update(at, a),
{
    reveal(addressed);
    let low = (a % 0x1_0000_0000) as u32;
    let high = (a / 0x1_0000_0000) as u32;
    let w = halves(r.queue()[at], Some(low), None);
    lemma_halves(r.queue()[at], a);
    lemma_half(r, low_at, low, at, w);
    let r1 = r.with_queue(r.queue().update(at, w));
    lemma_half(r1, (low_at + 4) as u64, high, at, a);
    assert(r1.queue().update(at, a) =~= r.queue().update(at, a));
    assert(r1.with_queue(r.queue().update(at, a)).queues =~= r.with_queue(
        r.queue().update(at, a),
    ).queues);
}

/// The state once a driver has written a queue's size, its three addresses, each in two halves, and
/// that it is ready.
pub open spec fn programmed(r: RegsView, n: u16, desc: u64, avail: u64, used: u64) -> RegsView {
    addressed(
        addressed(addressed(r.written(0x38, n as u32), 0x80, desc), 0x90, avail),
        0xa0,
        used,
    ).written(0x44, 1)
}

/// A driver that writes a queue's size, its three addresses and that it is ready, once the features
/// are agreed on and before it says that it is done, has programmed that queue so, and no other.
pub proof fn law_a_queue_is_what_was_programmed(
    r: RegsView,
    n: u16,
    desc: u64,
    avail: u64,
    used: u64,
)
    requires
        r.features_ok(),
        !r.driver_ok(),
        r.queue_sel < r.queues.len(),
        r.queue().len() == 6,
        r.queue()[2] == 0,
        size_ok(n, r.queue()[0]),
        desc % 16 == 0,
        avail % 2 == 0,
        used % 4 == 0,
    ensures
        ({
            let done = programmed(r, n, desc, avail, used);
            &&& done.queue() == seq![r.queue()[0], n as u64, 1, desc, avail, used]
            &&& done.queues.len() == r.queues.len()
            &&& forall|i: int|
                0 <= i < r.queues.len() && i != r.queue_sel ==> #[trigger] done.queues[i]
                    == r.queues[i]
        }),
{
    let r1 = r.written(0x38, n as u32);
    lemma_size(r, n);
    lemma_addressed(r1, 0x80, desc, 3);
    let r2 = addressed(r1, 0x80, desc);
    lemma_addressed(r2, 0x90, avail, 4);
    let r3 = addressed(r2, 0x90, avail);
    lemma_addressed(r3, 0xa0, used, 5);
    let r4 = addressed(r3, 0xa0, used);
    lemma_ready(r4);
    let done = r4.written(0x44, 1);
    assert(done.queue() =~= seq![r.queue()[0], n as u64, 1, desc, avail, used]);
}

proof fn lemma_size(r: RegsView, n: u16)
    requires
        r.queue_writable(),
        r.queue().len() == 6,
        size_ok(n, r.queue()[0]),
    ensures
        r.written(0x38, n as u32) == r.with_queue(r.queue().update(1, n as u64)),
        r.written(0x38, n as u32).queue() == r.queue().update(1, n as u64),
        r.written(0x38, n as u32).queue_writable(),
{
}

proof fn lemma_ready(r: RegsView)
    requires
        r.queue_writable(),
        r.queue().len() == 6,
    ensures
        r.written(0x44, 1) == r.with_queue(r.queue().update(2, 1)),
        r.written(0x44, 1).queue() == r.queue().update(2, 1),
{
}

/// A queue has room for a power of two of entries, as many as it says at most.
pub proof fn law_queue_sizes(n: u16, max: u64)
    ensures
        size_ok(n, max) <==> n <= max && (n == 1 || n == 2 || n == 4 || n == 8 || n == 16 || n == 32
            || n == 64 || n == 128 || n == 256 || n == 512 || n == 1024 || n == 2048 || n == 4096
            || n == 8192 || n == 16384 || n == 32768),
{
    let m = (n - 1) as u16;
    if n != 0 {
        assert((n & m == 0) == (n == 1 || n == 2 || n == 4 || n == 8 || n == 16 || n == 32 || n
            == 64 || n == 128 || n == 256 || n == 512 || n == 1024 || n == 2048 || n == 4096 || n
            == 8192 || n == 16384 || n == 32768)) by (bit_vector)
            requires
                n != 0,
                m == n - 1,
        ;
    }
}

/// A write to a register is only what that register is for: the selectors select, acknowledging
/// takes interrupts off, the features are the driver's, and the rest is the selected queue. Nothing
/// here changes the status, whether the device runs, or its configuration's generation.
pub proof fn law_registers_keep_to_themselves(r: RegsView, offset: u64, v: u32)
    ensures
        ({
            let w = r.written(offset, v);
            &&& w.status == r.status && w.active == r.active && w.last_error == r.last_error
            &&& w.config_generation == r.config_generation
            &&& w.queues.len() == r.queues.len()
            &&& w.queue_sel == if offset == 0x30 {
                v
            } else {
                r.queue_sel
            }
            &&& w.device_features_sel == if offset == 0x14 {
                v
            } else {
                r.device_features_sel
            }
            &&& w.driver_features_sel == if offset == 0x24 {
                v
            } else {
                r.driver_features_sel
            }
            &&& offset != 0x64 ==> w.pending == r.pending
            &&& offset != 0x20 ==> w.driver_features == r.driver_features
            &&& forall|i: int|
                0 <= i < r.queues.len() && i != r.queue_sel ==> #[trigger] w.queues[i]
                    == r.queues[i]
        }),
{
}

/// Acknowledging takes exactly the interrupts off that are named.
pub proof fn law_interrupts_are_acknowledged(r: RegsView, v: u32)
    ensures
        r.written(0x64, v).pending & v == 0,
        r.written(0x64, v).pending | (r.pending & v) == r.pending,
{
    let p = r.pending;
    assert((p & !v) & v == 0 && (p & !v) | (p & v) == p) by (bit_vector);
}

/// A driver notices that the configuration changed: the generation is another one, and the interrupt
/// says so (2). A failure is a change of the configuration, and the device says that it needs a
/// reset (64). Used buffers have an interrupt of their own (1).
pub proof fn law_changes_are_noticed(r: RegsView, msg: Seq<char>)
    ensures
        r.config_changed().config_generation != r.config_generation,
        r.config_changed().pending / 2 % 2 == 1 && r.config_changed().pending % 2 == r.pending % 2,
        r.config_changed().status == r.status && r.config_changed().queues == r.queues,
        r.failed(msg).config_generation != r.config_generation,
        r.failed(msg).pending / 2 % 2 == 1,
        r.failed(msg).status / 64 % 2 == 1 && r.failed(msg).status % 64 == r.status % 64,
        r.failed(msg).last_error == Some(msg),
        r.told().pending % 2 == 1 && r.told().pending / 2 == r.pending / 2,
{
    let p = r.pending;
    let s = r.status;
    assert((p | 2) / 2 % 2 == 1 && (p | 2) % 2 == p % 2) by (bit_vector);
    assert((p | 1) % 2 == 1 && (p | 1) / 2 == p / 2) by (bit_vector);
    assert((s | 64) / 64 % 2 == 1 && (s | 64) % 64 == s % 64) by (bit_vector);
}

/// A reset device is as it was at first, but for its queues' largest sizes and the generation of its
/// configuration.
pub proof fn law_a_reset_forgets_everything(r: RegsView, i: int)
    requires
        0 <= i < r.queues.len(),
    ensures
        ({
            let z = r.after_reset();
            &&& z.queues[i] == seq![r.queues[i][0], r.queues[i][0], 0, 0, 0, 0]
            &&& z.queue_sel == 0 && z.device_features_sel == 0 && z.driver_features_sel == 0
            &&& z.driver_features == 0 && z.status == 0 && !z.active && z.last_error is None
                && z.pending == 0
            &&& z.config_generation == r.config_generation
            &&& !z.takes_notice(i as u32)
        }),
{
}

/// A notification is for a running device and one of its queues that is ready.
pub proof fn law_what_is_notified(r: RegsView, i: u32)
    ensures
        r.takes_notice(i) ==> r.active && i < r.queues.len() && r.queues[i as int][2] == 1,
        r.active && i < r.queues.len() && r.queues[i as int][2] == 1 ==> r.takes_notice(i),
{
}

} // verus!
