//! What a guest can rely on when it plugs and unplugs memory.

use super::{count, lemma_count_bounds, response, MemView, Step};
use crate::bytes::{le_at, le_bytes, lemma_le_bytes_len, lemma_le_round_trip};
use vstd::prelude::*;

verus! {

/// Whether these are blocks of the region: at least one, whole ones, and none outside.
pub open spec fn of_region(m: MemView, addr: u64, nb: u16) -> bool {
    &&& nb >= 1
    &&& m.addr <= addr && addr + nb * 0x20_0000 <= m.addr + m.region_size
    &&& (addr - m.addr) % 0x20_0000 == 0
}

/// Whether block `i` of the region is one of these.
pub open spec fn among(m: MemView, addr: u64, nb: u16, i: int) -> bool {
    addr <= m.addr + i * 0x20_0000 < addr + nb * 0x20_0000
}

/// Whether every one of these blocks is plugged.
pub open spec fn all_plugged(m: MemView, addr: u64, nb: u16) -> bool {
    forall|i: int|
        0 <= i < m.plugged.len() && among(m, addr, nb, i) ==> #[trigger] m.plugged[i]
}

/// Whether none of these blocks is plugged.
pub open spec fn none_plugged(m: MemView, addr: u64, nb: u16) -> bool {
    forall|i: int|
        0 <= i < m.plugged.len() && among(m, addr, nb, i) ==> !#[trigger] m.plugged[i]
}

/// Which blocks a request names.
proof fn lemma_blocks(m: MemView, addr: u64, nb: u16)
    requires
        m.wf(),
    ensures
        m.blocks(addr, nb) is Some <==> of_region(m, addr, nb),
        m.blocks(addr, nb) matches Some((first, n)) ==> {
            &&& n == nb && first + n <= m.plugged.len()
            &&& addr == m.addr + first * 0x20_0000
            &&& forall|i: int| #[trigger] among(m, addr, nb, i) <==> first <= i < first + n
            &&& m.plugged_in(first, n) == n <==> all_plugged(m, addr, nb)
            &&& m.plugged_in(first, n) == 0 <==> none_plugged(m, addr, nb)
        },
{
    if let Some((first, n)) = m.blocks(addr, nb) {
        let s = m.plugged.subrange(first as int, first + n);
        lemma_count_bounds(s);
        if all_plugged(m, addr, nb) {
            assert forall|k: int| 0 <= k < s.len() implies s[k] by {
                assert(among(m, addr, nb, first + k));
                assert(m.plugged[first + k]);
            }
        }
        if none_plugged(m, addr, nb) {
            assert forall|k: int| 0 <= k < s.len() implies !s[k] by {
                assert(among(m, addr, nb, first + k));
                assert(!m.plugged[first + k]);
            }
        }
        if count(s) == s.len() {
            assert forall|i: int|
                0 <= i < m.plugged.len() && among(m, addr, nb, i) implies #[trigger] m.plugged[i] by {
                assert(s[i - first]);
            }
        }
        if count(s) == 0 {
            assert forall|i: int|
                0 <= i < m.plugged.len() && among(m, addr, nb, i) implies !#[trigger] m.plugged[i] by {
                assert(!s[i - first]);
            }
        }
    }
}

/// A guest that asks about blocks (3) is told what they are: all plugged (0), none (1) or some (2).
/// About what is not of the region it is told nothing but that this is an error (3).
pub proof fn law_the_state_is_told(m: MemView, addr: u64, nb: u16)
    requires
        m.wf(),
    ensures
        m.step(3, addr, nb) == if !of_region(m, addr, nb) {
            Step::Reply(3, 0)
        } else if all_plugged(m, addr, nb) {
            Step::Reply(0, 0)
        } else if none_plugged(m, addr, nb) {
            Step::Reply(0, 1)
        } else {
            Step::Reply(0, 2)
        },
{
    lemma_blocks(m, addr, nb);
}

/// Blocks are plugged (0) if none of them is, and if the guest then has no more than was asked for;
/// if it would, the request is turned down (1). Anything else is an error (3).
pub proof fn law_what_may_be_plugged(m: MemView, addr: u64, nb: u16)
    requires
        m.wf(),
    ensures
        ({
            let may = of_region(m, addr, nb) && none_plugged(m, addr, nb);
            let fits = m.plugged_size + nb * 0x20_0000 <= m.requested_size;
            match m.step(0, addr, nb) {
                Step::Plug(first, n) => may && fits && n == nb && m.addr + first * 0x20_0000
                    == addr,
                Step::Reply(kind, st) => !(may && fits) && st == 0 && kind == if may {
                    1u16
                } else {
                    3
                },
                _ => false,
            }
        }),
{
    lemma_blocks(m, addr, nb);
}

/// Blocks are unplugged (1) if all of them are plugged; anything else is an error (3).
pub proof fn law_what_may_be_unplugged(m: MemView, addr: u64, nb: u16)
    requires
        m.wf(),
    ensures
        ({
            let may = of_region(m, addr, nb) && all_plugged(m, addr, nb);
            match m.step(1, addr, nb) {
                Step::Unplug(first, n) => may && n == nb && m.addr + first * 0x20_0000 == addr,
                Step::Reply(kind, st) => !may && kind == 3 && st == 0,
                _ => false,
            }
        }),
{
    lemma_blocks(m, addr, nb);
}

/// A guest can give everything back at once (2), whatever it names; any other request is an
/// error (3).
pub proof fn law_other_requests(m: MemView, kind: u16, addr: u64, nb: u16)
    requires
        kind > 3,
    ensures
        m.step(2, addr, nb) == Step::UnplugAll,
        m.step(kind, addr, nb) == Step::Reply(3, 0),
{
}

/// What a guest plugged it is then told is plugged, what it unplugged is not, and all other blocks
/// are as before.
pub proof fn law_plugging_is_seen(m: MemView, addr: u64, nb: u16, i: int)
    requires
        m.wf(),
        0 <= i < m.plugged.len(),
    ensures
        m.step(0, addr, nb) matches Step::Plug(first, n) ==> {
            let after = m.plug(first, n);
            &&& after.plugged[i] == (among(m, addr, nb, i) || m.plugged[i])
            &&& after.plugged_size == m.plugged_size + nb * 0x20_0000
            &&& after.requested_size == m.requested_size && after.addr == m.addr
                && after.region_size == m.region_size
        },
        m.step(1, addr, nb) matches Step::Unplug(first, n) ==> {
            let after = m.unplug(first, n);
            &&& after.plugged[i] == (!among(m, addr, nb, i) && m.plugged[i])
            &&& after.plugged_size == m.plugged_size - nb * 0x20_0000
            &&& after.requested_size == m.requested_size && after.addr == m.addr
                && after.region_size == m.region_size
        },
        !m.cleared().plugged[i] && m.cleared().plugged_size == 0 && m.cleared().requested_size
            == m.requested_size,
{
    lemma_blocks(m, addr, nb);
    super::lemma_step(m, 0, addr, nb);
    super::lemma_step(m, 1, addr, nb);
    assert(among(m, addr, nb, i) || !among(m, addr, nb, i));
}

proof fn lemma_reads(a: Seq<u8>, v: nat, n: nat, z: Seq<u8>)
    requires
        v < crate::bytes::le_bound(n),
    ensures
        le_at(a + le_bytes(v, n) + z, a.len() as int, n) == v,
        (a + le_bytes(v, n) + z).len() == a.len() + n + z.len(),
{
    lemma_le_bytes_len(v, n);
    let all = a + le_bytes(v, n) + z;
    assert(all.subrange(a.len() as int, (a.len() + n) as int) =~= le_bytes(v, n));
    lemma_le_round_trip(all, a.len() as int, v, n);
}

/// An answer has 16 bytes: its kind in the first two and a state in two from the ninth on.
pub proof fn law_answers_read_back(kind: u16, st: u16)
    ensures
        response(kind, st).len() == 16,
        le_at(response(kind, st), 0, 8) == kind,
        le_at(response(kind, st), 8, 8) == st,
{
    reveal_with_fuel(crate::bytes::le_bound, 9);
    let none = Seq::<u8>::empty();
    let a = le_bytes(kind as nat, 8);
    let b = le_bytes(st as nat, 8);
    lemma_le_bytes_len(kind as nat, 8);
    lemma_reads(none, kind as nat, 8, b);
    lemma_reads(a, st as nat, 8, none);
    assert(response(kind, st) =~= none + a + b);
    assert(response(kind, st) =~= a + b + none);
}

/// The configuration says how large a block is, where the region lies, how large it is and how much
/// of it can be used, which is all of it, how much is plugged and how much is asked for.
pub proof fn law_the_configuration_says_what_is_asked_for(m: MemView)
    ensures
        m.config().len() == 56,
        le_at(m.config(), 0, 8) == 0x20_0000,
        le_at(m.config(), 8, 8) == 0,
        le_at(m.config(), 16, 8) == m.addr,
        le_at(m.config(), 24, 8) == m.region_size,
        le_at(m.config(), 32, 8) == m.region_size,
        le_at(m.config(), 40, 8) == m.plugged_size,
        le_at(m.config(), 48, 8) == m.requested_size,
{
    reveal_with_fuel(crate::bytes::le_bound, 9);
    let none = Seq::<u8>::empty();
    let w0 = le_bytes(0x20_0000, 8);
    let w1 = le_bytes(0, 8);
    let w2 = le_bytes(m.addr as nat, 8);
    let w3 = le_bytes(m.region_size as nat, 8);
    let w5 = le_bytes(m.plugged_size as nat, 8);
    let w6 = le_bytes(m.requested_size as nat, 8);
    lemma_le_bytes_len(0x20_0000, 8);
    lemma_le_bytes_len(0, 8);
    lemma_le_bytes_len(m.addr as nat, 8);
    lemma_le_bytes_len(m.region_size as nat, 8);
    lemma_le_bytes_len(m.plugged_size as nat, 8);
    lemma_le_bytes_len(m.requested_size as nat, 8);
    let c = m.config();
    let s1 = w0;
    let s2 = s1 + w1;
    let s3 = s2 + w2;
    let s4 = s3 + w3;
    let s5 = s4 + w3;
    let s6 = s5 + w5;
    assert(c =~= s6 + w6);
    let t5 = w6;
    let t4 = w5 + t5;
    let t3 = w3 + t4;
    let t2 = w3 + t3;
    let t1 = w2 + t2;
    let t0 = w1 + t1;
    assert(c =~= none + w0 + t0);
    assert(c =~= s1 + w1 + t1);
    assert(c =~= s2 + w2 + t2);
    assert(c =~= s3 + w3 + t3);
    assert(c =~= s4 + w3 + t4);
    assert(c =~= s5 + w5 + t5);
    assert(c =~= s6 + w6 + none);
    lemma_reads(none, 0x20_0000, 8, t0);
    lemma_reads(s1, 0, 8, t1);
    lemma_reads(s2, m.addr as nat, 8, t2);
    lemma_reads(s3, m.region_size as nat, 8, t3);
    lemma_reads(s4, m.region_size as nat, 8, t4);
    lemma_reads(s5, m.plugged_size as nat, 8, t5);
    lemma_reads(s6, m.requested_size as nat, 8, none);
}

/// A request has its kind in its first two bytes, an address in eight from the ninth on, and a
/// number of blocks in the two behind it.
pub proof fn law_requests_are_read(m: MemView, b: Seq<u8>, kind: u16, addr: u64, nb: u16)
    requires
        b.len() >= 18,
        b.subrange(0, 2) == le_bytes(kind as nat, 2),
        b.subrange(8, 16) == le_bytes(addr as nat, 8),
        b.subrange(16, 18) == le_bytes(nb as nat, 2),
    ensures
        m.asked(b) == m.step(kind, addr, nb),
{
    reveal_with_fuel(crate::bytes::le_bound, 9);
    lemma_le_round_trip(b, 0, kind as nat, 2);
    lemma_le_round_trip(b, 8, addr as nat, 8);
    lemma_le_round_trip(b, 16, nb as nat, 2);
}

} // verus!
