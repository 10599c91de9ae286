//! What the stand-ins do for a run.

use super::allocator::{rounded_up, slot, known, FakeAllocator, Refusal, Release};
use super::sampler::{one_more, FakeSampler};
use super::sink::{number_bytes, up_to};
use super::trace::bounded;
use crate::bytes::{le_at, le_bytes, lemma_le_bytes_len, lemma_le_round_trip};
use crate::error::Tier;
use crate::trace::record::TraceRecord;
use vstd::prelude::*;

verus! {

/// Every kind of memory has a limit of its own.
pub proof fn law_kinds_of_memory_have_their_own_limits(a: Tier, b: Tier)
    requires
        a.resident() && known(a),
        b.resident() && known(b),
        slot(a) == slot(b),
    ensures
        a == b,
{
}

/// Memory can be had in the host, pinned or not, and on the devices that there are, and nowhere else.
pub proof fn law_where_memory_can_be_had(t: Tier)
    ensures
        t.resident() <==> t is Host || t is PinnedHost || t is Device,
        known(t) <==> (t matches Tier::Device(d) ==> d < 8),
{
}

/// A request is granted exactly if none is to fail, memory can be had there, the limit allows it and
/// there can be so much. It is granted for at least one byte, aligned to a page from a page on and to
/// 64 bytes below.
pub proof fn law_which_requests_are_granted(a: FakeAllocator, bytes: usize, tier: Tier)
    requires
        known(tier),
    ensures
        ({
            let len = if bytes == 0 {
                1
            } else {
                bytes
            };
            let align = if len < a.page {
                64
            } else {
                a.page
            };
            let v = a.verdict(bytes, tier);
            &&& v is Ok <==> a.failing == 0 && tier.resident() && (a.limits@.dom().contains(
                slot(tier),
            ) ==> a.used(tier) + len <= a.limits@[slot(tier)]) && super::allocator::askable(
                len,
                align,
            )
            &&& v matches Ok(q) ==> q.len == len && q.align == align
            &&& v matches Err((budget, used)) ==> budget == 0 || (budget == a.limits@[slot(tier)]
                && used == a.used(tier) && used + len > budget)
        }),
{
}

/// What is rounded up is the next multiple.
pub proof fn law_rounding_up_is_to_the_next_multiple(len: int, align: int)
    requires
        len >= 0,
        align > 0,
    ensures
        len <= rounded_up(len, align) < len + align,
        rounded_up(len, align) % align == 0,
{
    let b = len + align - 1;
    vstd::arithmetic::div_mod::lemma_fundamental_div_mod(b, align);
    vstd::arithmetic::div_mod::lemma_mod_bound(b, align);
    vstd::arithmetic::mul::lemma_mul_is_commutative(align, b / align);
    vstd::arithmetic::div_mod::lemma_mod_multiples_basic(b / align, align);
}

/// A release is refused exactly if its bytes carry no token, or one that is not given out any more,
/// or lie outside of the region, or are more than are still out. The last bytes of a region free it.
pub proof fn law_which_releases_are_refused(
    a: FakeAllocator,
    ptr: usize,
    len: usize,
    token: u64,
)
    requires
        len > 0,
    ensures
        ({
            let r = a.regions@[token];
            let there = token != 0 && a.regions@.dom().contains(token);
            let within = r.base <= ptr && ptr + len <= r.base + r.len;
            let what = a.release_of(ptr, len, token);
            &&& what is Freed <==> there && within && len == r.outstanding
            &&& what is Kept <==> there && within && len < r.outstanding
            &&& what == Release::Refused(Refusal::Untagged) <==> token == 0
            &&& what == Release::Refused(Refusal::Gone) <==> token != 0 && !there
            &&& what == Release::Refused(Refusal::Outside) <==> there && !within
            &&& what == Release::Refused(Refusal::TooMany) <==> there && within && len
                > r.outstanding
            &&& !(what is Nothing)
        }),
{
}

/// What a release leaves: a freed region is gone, a part of one is still out less by what was
/// released, and everything else is as it was.
pub proof fn law_what_a_release_leaves(
    a: FakeAllocator,
    ptr: usize,
    len: usize,
    token: u64,
    other: u64,
)
    requires
        len > 0,
        other != token,
    ensures
        ({
            let what = a.release_of(ptr, len, token);
            let after = a.after_release(len, token, what);
            &&& what is Freed ==> !after.dom().contains(token)
            &&& what is Kept ==> after.dom().contains(token) && after[token].outstanding
                == a.regions@[token].outstanding - len && after[token].base == a.regions@[token].base
                && after[token].len == a.regions@[token].len && after[token].tier
                == a.regions@[token].tier
            &&& what is Refused ==> after == a.regions@
            &&& after.dom().contains(other) == a.regions@.dom().contains(other)
            &&& a.regions@.dom().contains(other) ==> after[other] == a.regions@[other]
        }),
{
}

/// What was written up to a watermark is kept when a sink resumes, in order, and nothing is where
/// there is no watermark.
pub proof fn law_a_resumed_sink_keeps_what_was_committed(s: Seq<u64>, w: u64)
    ensures
        up_to(s, Some(w)) == s.filter(|n: u64| n <= w),
        up_to(s, None) == Seq::<u64>::empty(),
    decreases s.len(),
{
    reveal(Seq::filter);
    if s.len() > 0 {
        law_a_resumed_sink_keeps_what_was_committed(s.drop_last(), w);
    }
}

proof fn lemma_number_bytes_len(s: Seq<u64>)
    ensures
        number_bytes(s).len() == 8 * s.len(),
    decreases s.len(),
{
    if s.len() > 0 {
        lemma_number_bytes_len(s.drop_last());
        lemma_le_bytes_len(s.last() as nat, 8);
    }
}

/// The numbers in a checkpoint are read back, eight bytes each.
pub proof fn law_a_checkpoint_reads_back(s: Seq<u64>, i: int)
    requires
        0 <= i < s.len(),
    ensures
        number_bytes(s).len() == 8 * s.len(),
        le_at(number_bytes(s), 8 * i, 8) == s[i],
    decreases s.len(),
{
    let t = s.drop_last();
    let all = number_bytes(s);
    lemma_number_bytes_len(s);
    lemma_number_bytes_len(t);
    lemma_le_bytes_len(s.last() as nat, 8);
    reveal_with_fuel(crate::bytes::le_bound, 9);
    if i < t.len() {
        law_a_checkpoint_reads_back(t, i);
        let b = number_bytes(t);
        assert(all.subrange(8 * i, 8 * i + 8) =~= b.subrange(8 * i, 8 * i + 8));
        crate::bytes::lemma_le_at_same(all, b, 8 * i, 8);
    } else {
        assert(all.subrange(8 * i, 8 * i + 8) =~= le_bytes(s.last() as nat, 8));
        lemma_le_round_trip(all, 8 * i, s.last() as nat, 8);
    }
}

/// A script is played from its start, one sample after the other, and then its last is repeated.
pub proof fn law_a_script_is_played(s: FakeSampler, now: u64)
    requires
        !s.is_live,
    ensures
        s.cursor < s.script@.len() ==> s.next(now) == s.script@[s.cursor as int],
        0 < s.script@.len() <= s.cursor ==> s.next(now) == s.script@[s.script@.len() - 1],
        s.script@.len() == 0 ==> s.next(now).at_ns == 0 && s.next(now).anon_bytes == 0 && s.next(
            now,
        ).peak_anon_bytes == 0,
{
}

/// A live sample is of now, and of one byte more than samples were taken.
pub proof fn law_a_live_sample_is_of_now(s: FakeSampler, now: u64)
    requires
        s.is_live,
        s.taken < u64::MAX,
    ensures
        s.next(now).at_ns == now,
        s.next(now).anon_bytes == s.taken + 1,
        one_more(s.taken) == s.taken + 1,
        one_more(u64::MAX) == 0,
{
}

/// What a bounded trace keeps is the newest: all that there is, or as much as it may keep.
pub proof fn law_the_newest_records_are_kept(s: Seq<TraceRecord>, n: nat, i: int)
    requires
        0 <= i < bounded(s, n).len(),
    ensures
        bounded(s, n).len() == if s.len() < n {
            s.len()
        } else {
            n
        },
        bounded(s, n)[i] == s[s.len() - bounded(s, n).len() + i],
{
}

} // verus!
