//! The byte ranges of a Parquet read, and what is checked of what came back.

use crate::error::{MorunaError, MorunaErrorView};
use crate::text::{cat3, cat5, dec, dec_text};
use vstd::prelude::*;

verus! {

/// Projected column chunks closer together than this are fetched as one range.
pub const COALESCE_GAP: u64 = 1048576;

/// `a` rounded down to a page.
pub open spec fn page_floor(a: u64, page: u64) -> int {
    a as int / page as int * page as int
}

/// `a` rounded up to a page.
pub open spec fn page_ceil(a: u64, page: u64) -> int {
    (a + page - 1) / page as int * page as int
}

/// The larger of two.
pub open spec fn larger(a: u64, b: u64) -> u64 {
    if a >= b {
        a
    } else {
        b
    }
}

/// Whether `next` touches the range `last`, or begins less than `gap` after its end.
pub open spec fn near(last: (u64, u64), next: (u64, u64), gap: u64) -> bool {
    next.0 <= last.1 || next.0 < last.1 + gap
}

/// `out` with `next` at its end, merged into the last range where the two are near.
pub open spec fn extended(out: Seq<(u64, u64)>, next: (u64, u64), gap: u64) -> Seq<(u64, u64)> {
    if out.len() > 0 && near(out.last(), next, gap) {
        out.update(out.len() - 1, (out.last().0, larger(out.last().1, next.1)))
    } else {
        out.push(next)
    }
}

/// Spans with those whose gap is under [`COALESCE_GAP`] merged.
pub open spec fn merged(spans: Seq<(u64, u64)>) -> Seq<(u64, u64)>
    decreases spans.len(),
{
    if spans.len() == 0 {
        Seq::empty()
    } else {
        extended(merged(spans.drop_last()), spans.last(), COALESCE_GAP)
    }
}

/// A span rounded outward to page boundaries and clipped to the file.
pub open spec fn aligned(span: (u64, u64), page: u64, file_len: u64) -> (u64, u64) {
    (
        page_floor(span.0, page) as u64,
        if page_ceil(span.1, page) <= file_len {
            page_ceil(span.1, page) as u64
        } else {
            file_len
        },
    )
}

/// Spans rounded outward, with those that then touch merged.
pub open spec fn rounded(spans: Seq<(u64, u64)>, page: u64, file_len: u64) -> Seq<(u64, u64)>
    decreases spans.len(),
{
    if spans.len() == 0 {
        Seq::empty()
    } else {
        extended(
            rounded(spans.drop_last(), page, file_len),
            aligned(spans.last(), page, file_len),
            0,
        )
    }
}

/// Whether the spans are not inverted and ascend by their starts.
pub open spec fn ascending(spans: Seq<(u64, u64)>) -> bool {
    &&& forall|i: int| 0 <= i < spans.len() ==> (#[trigger] spans[i]).0 <= spans[i].1
    &&& forall|i: int, j: int|
        0 <= i < j < spans.len() ==> (#[trigger] spans[i]).0 <= (#[trigger] spans[j]).0
}

/// Whether each range ends before the next begins, by `gap` at least.
pub open spec fn apart(out: Seq<(u64, u64)>, gap: int) -> bool {
    forall|i: int, j: int|
        0 <= i < j < out.len() ==> (#[trigger] out[i]).1 < (#[trigger] out[j]).0 && out[i].1 + gap
            <= out[j].0
}

/// Whether some range holds all of `s`.
pub open spec fn held(out: Seq<(u64, u64)>, s: (u64, u64)) -> bool {
    exists|k: int| 0 <= k < out.len() && (#[trigger] out[k]).0 <= s.0 && s.1 <= out[k].1
}

/// The spans' ends leave room for rounding up.
pub open spec fn roomy(spans: Seq<(u64, u64)>, page: u64) -> bool {
    forall|i: int| 0 <= i < spans.len() ==> (#[trigger] spans[i]).1 + page <= u64::MAX
}

proof fn lemma_extended(out: Seq<(u64, u64)>, next: (u64, u64), gap: u64)
    requires
        apart(out, gap as int),
        ascending(out),
        next.0 <= next.1,
        out.len() > 0 ==> out.last().0 <= next.0,
    ensures
        apart(extended(out, next, gap), gap as int),
        ascending(extended(out, next, gap)),
        extended(out, next, gap).len() > 0,
        extended(out, next, gap).last().0 <= next.0,
        held(extended(out, next, gap), next),
        forall|s: (u64, u64)| #[trigger] held(out, s) ==> held(extended(out, next, gap), s),
{
    let r = extended(out, next, gap);
    assert forall|s: (u64, u64)| #[trigger] held(out, s) implies held(r, s) by {
        let k = choose|k: int| 0 <= k < out.len() && (#[trigger] out[k]).0 <= s.0 && s.1 <= out[k].1;
        assert(r[k].0 <= s.0 && s.1 <= r[k].1);
    }
    assert(r[r.len() - 1].0 <= next.0 && next.1 <= r[r.len() - 1].1);
}

/// Merging loses no span, keeps the order and leaves wide gaps between ranges.
pub(crate) proof fn lemma_merged(spans: Seq<(u64, u64)>)
    requires
        ascending(spans),
    ensures
        apart(merged(spans), COALESCE_GAP as int),
        ascending(merged(spans)),
        spans.len() > 0 ==> merged(spans).len() > 0 && merged(spans).last().0 <= spans.last().0,
        forall|i: int| 0 <= i < spans.len() ==> held(merged(spans), #[trigger] spans[i]),
    decreases spans.len(),
{
    if spans.len() > 0 {
        let init = spans.drop_last();
        lemma_merged(init);
        if init.len() > 0 {
            assert(init.last() == spans[spans.len() - 2]);
        }
        lemma_extended(merged(init), spans.last(), COALESCE_GAP);
        assert forall|i: int| 0 <= i < spans.len() implies held(merged(spans), #[trigger] spans[i]) by {
            if i < spans.len() - 1 {
                assert(init[i] == spans[i]);
            }
        }
    }
}

proof fn lemma_aligned(s: (u64, u64), page: u64, file_len: u64)
    requires
        page > 0,
        s.0 <= s.1 <= file_len,
        s.1 + page <= u64::MAX,
    ensures
        0 <= page_floor(s.0, page) <= s.0,
        s.1 <= page_ceil(s.1, page) <= u64::MAX,
        aligned(s, page, file_len).0 <= s.0,
        s.1 <= aligned(s, page, file_len).1 <= file_len,
        aligned(s, page, file_len).0 as int % page as int == 0,
{
    lemma_floor(s.0, page);
    lemma_ceil(s.1, page);
    vstd::arithmetic::div_mod::lemma_mod_multiples_basic(s.0 as int / page as int, page as int);
}

pub(crate) proof fn lemma_floor(a: u64, page: u64)
    requires
        page > 0,
    ensures
        0 <= page_floor(a, page) <= a,
{
    let p = page as int;
    vstd::arithmetic::div_mod::lemma_fundamental_div_mod(a as int, p);
    vstd::arithmetic::div_mod::lemma_mod_bound(a as int, p);
    vstd::arithmetic::div_mod::lemma_div_pos_is_pos(a as int, p);
    vstd::arithmetic::mul::lemma_mul_is_commutative(p, a as int / p);
    vstd::arithmetic::mul::lemma_mul_nonnegative(a as int / p, p);
}

pub(crate) proof fn lemma_ceil(a: u64, page: u64)
    requires
        page > 0,
        a + page <= u64::MAX,
    ensures
        a <= page_ceil(a, page) < a + page,
{
    let p = page as int;
    let b = a + p - 1;
    vstd::arithmetic::div_mod::lemma_fundamental_div_mod(b, p);
    vstd::arithmetic::div_mod::lemma_mod_bound(b, p);
    vstd::arithmetic::mul::lemma_mul_is_commutative(p, b / p);
}

proof fn lemma_floors_ascend(a: u64, b: u64, page: u64)
    requires
        page > 0,
        a <= b,
    ensures
        page_floor(a, page) <= page_floor(b, page),
{
    vstd::arithmetic::div_mod::lemma_div_is_ordered(a as int, b as int, page as int);
    vstd::arithmetic::mul::lemma_mul_inequality(a as int / page as int, b as int / page as int, page as int);
}

/// Whether every range begins on a page.
pub open spec fn on_pages(out: Seq<(u64, u64)>, page: u64) -> bool {
    forall|i: int| 0 <= i < out.len() ==> (#[trigger] out[i]).0 as int % page as int == 0
}

/// Whether every range ends inside the file.
pub open spec fn inside(out: Seq<(u64, u64)>, file_len: u64) -> bool {
    forall|i: int| 0 <= i < out.len() ==> (#[trigger] out[i]).1 <= file_len
}

proof fn lemma_rounded(spans: Seq<(u64, u64)>, page: u64, file_len: u64)
    requires
        page > 0,
        ascending(spans),
        roomy(spans, page),
        inside(spans, file_len),
    ensures
        apart(rounded(spans, page, file_len), 0),
        ascending(rounded(spans, page, file_len)),
        on_pages(rounded(spans, page, file_len), page),
        inside(rounded(spans, page, file_len), file_len),
        spans.len() > 0 ==> rounded(spans, page, file_len).len() > 0 && rounded(
            spans,
            page,
            file_len,
        ).last().0 <= aligned(spans.last(), page, file_len).0,
        forall|i: int|
            0 <= i < spans.len() ==> held(rounded(spans, page, file_len), #[trigger] spans[i]),
    decreases spans.len(),
{
    if spans.len() > 0 {
        let init = spans.drop_last();
        let before = rounded(init, page, file_len);
        let next = aligned(spans.last(), page, file_len);
        lemma_rounded(init, page, file_len);
        lemma_aligned(spans.last(), page, file_len);
        if init.len() > 0 {
            assert(init.last() == spans[spans.len() - 2]);
            lemma_floors_ascend(init.last().0, spans.last().0, page);
            lemma_aligned(init.last(), page, file_len);
        }
        lemma_extended(before, next, 0);
        let r = rounded(spans, page, file_len);
        assert forall|i: int| 0 <= i < spans.len() implies held(r, #[trigger] spans[i]) by {
            if i < spans.len() - 1 {
                assert(init[i] == spans[i]);
            } else {
                let k = choose|k: int|
                    0 <= k < r.len() && (#[trigger] r[k]).0 <= next.0 && next.1 <= r[k].1;
                assert(r[k].0 <= spans[i].0 && spans[i].1 <= r[k].1);
            }
        }
    }
}

proof fn lemma_merged_ends(spans: Seq<(u64, u64)>, page: u64, file_len: u64)
    requires
        roomy(spans, page),
    ensures
        roomy(merged(spans), page),
        inside(spans, file_len) ==> inside(merged(spans), file_len),
    decreases spans.len(),
{
    if spans.len() > 0 {
        lemma_merged_ends(spans.drop_last(), page, file_len);
        assert(spans.last() == spans[spans.len() - 1]);
        let m = merged(spans.drop_last());
        assert(m.len() > 0 ==> m.last() == m[m.len() - 1]);
    }
}

/// Whether every range ends on a page or at the end of the file.
pub open spec fn ends_on_pages(out: Seq<(u64, u64)>, page: u64, file_len: u64) -> bool {
    forall|i: int|
        0 <= i < out.len() ==> (#[trigger] out[i]).1 as int % page as int == 0 || out[i].1
            == file_len
}

/// Whether every range of `out` holds a span of `spans`.
pub open spec fn all_needed(out: Seq<(u64, u64)>, spans: Seq<(u64, u64)>) -> bool {
    forall|i: int| 0 <= i < out.len() ==> #[trigger] needed(out[i], spans)
}

/// Whether the range `r` holds a span of `spans`.
pub open spec fn needed(r: (u64, u64), spans: Seq<(u64, u64)>) -> bool {
    exists|k: int| 0 <= k < spans.len() && r.0 <= (#[trigger] spans[k]).0 && spans[k].1 <= r.1
}

/// Putting a range that holds a span behind others that do leaves ranges that do.
proof fn lemma_extended_needed(
    out: Seq<(u64, u64)>,
    next: (u64, u64),
    gap: u64,
    spans: Seq<(u64, u64)>,
)
    requires
        all_needed(out, spans),
        needed(next, spans),
    ensures
        all_needed(extended(out, next, gap), spans),
{
    let r = extended(out, next, gap);
    assert forall|i: int| 0 <= i < r.len() implies needed(#[trigger] r[i], spans) by {
        if i < out.len() {
            assert(needed(out[i], spans));
            let k = choose|k: int|
                0 <= k < spans.len() && out[i].0 <= (#[trigger] spans[k]).0 && spans[k].1
                    <= out[i].1;
            assert(r[i].0 <= spans[k].0 && spans[k].1 <= r[i].1);
        }
    }
}

/// Each merged range holds a span.
proof fn lemma_merged_needed(part: Seq<(u64, u64)>, spans: Seq<(u64, u64)>)
    requires
        all_needed(part, spans),
    ensures
        all_needed(merged(part), spans),
        merged(part).len() == 0 <==> part.len() == 0,
    decreases part.len(),
{
    if part.len() > 0 {
        let init = part.drop_last();
        assert forall|i: int| 0 <= i < init.len() implies needed(#[trigger] init[i], spans) by {
            assert(init[i] == part[i]);
        }
        lemma_merged_needed(init, spans);
        assert(needed(part[part.len() - 1], spans));
        lemma_extended_needed(merged(init), part.last(), COALESCE_GAP, spans);
    }
}

/// Each rounded range holds a span and ends on a page or at the end of the file.
proof fn lemma_rounded_needed(
    part: Seq<(u64, u64)>,
    page: u64,
    file_len: u64,
    spans: Seq<(u64, u64)>,
)
    requires
        page > 0,
        forall|i: int| 0 <= i < part.len() ==> (#[trigger] part[i]).0 <= part[i].1,
        roomy(part, page),
        inside(part, file_len),
        all_needed(part, spans),
    ensures
        all_needed(rounded(part, page, file_len), spans),
        ends_on_pages(rounded(part, page, file_len), page, file_len),
        rounded(part, page, file_len).len() == 0 <==> part.len() == 0,
    decreases part.len(),
{
    if part.len() > 0 {
        let init = part.drop_last();
        assert forall|i: int| 0 <= i < init.len() implies needed(#[trigger] init[i], spans)
            && init[i].0 <= init[i].1 && init[i].1 + page <= u64::MAX && init[i].1 <= file_len by {
            assert(init[i] == part[i]);
        }
        lemma_rounded_needed(init, page, file_len, spans);
        let last = part[part.len() - 1];
        let before = rounded(init, page, file_len);
        let next = aligned(last, page, file_len);
        lemma_aligned(last, page, file_len);
        assert(needed(last, spans));
        let k = choose|k: int|
            0 <= k < spans.len() && last.0 <= (#[trigger] spans[k]).0 && spans[k].1 <= last.1;
        assert(next.0 <= spans[k].0 && spans[k].1 <= next.1);
        assert(needed(next, spans));
        lemma_extended_needed(before, next, 0, spans);
        vstd::arithmetic::div_mod::lemma_mod_multiples_basic(
            (last.1 + page - 1) / page as int,
            page as int,
        );
        assert(next.1 as int % page as int == 0 || next.1 == file_len);
        let r = rounded(part, page, file_len);
        assert forall|i: int| 0 <= i < r.len() implies (#[trigger] r[i]).1 as int % page as int
            == 0 || r[i].1 == file_len by {
            if i < before.len() {
                assert(before[i].1 as int % page as int == 0 || before[i].1 == file_len);
            }
        }
    }
}

/// Each range of a read holds a span and ends on a page or at the end of the file.
proof fn lemma_ranges_needed(spans: Seq<(u64, u64)>, page: u64, file_len: u64)
    requires
        page > 0,
        ascending(spans),
        roomy(spans, page),
        inside(spans, file_len),
    ensures
        ends_on_pages(rounded(merged(spans), page, file_len), page, file_len),
        all_needed(rounded(merged(spans), page, file_len), spans),
        rounded(merged(spans), page, file_len).len() == 0 <==> spans.len() == 0,
{
    assert forall|i: int| 0 <= i < spans.len() implies #[trigger] needed(spans[i], spans) by {}
    lemma_merged_needed(spans, spans);
    assert(ascending(merged(spans))) by {
        lemma_merged(spans);
    }
    lemma_merged_ends(spans, page, file_len);
    lemma_rounded_needed(merged(spans), page, file_len, spans);
}

/// The ranges of a read are ascending and do not overlap or touch, begin on pages, end inside
/// the file, on a page or at its end, and between them hold every span; each holds one, so that
/// there are none exactly where there are no spans. For spans in order inside the file.
pub proof fn law_ranges_hold_every_span(spans: Seq<(u64, u64)>, page: u64, file_len: u64)
    requires
        page > 0,
        ascending(spans),
        roomy(spans, page),
        inside(spans, file_len),
    ensures
        ({
            let out = rounded(merged(spans), page, file_len);
            &&& ascending(out)
            &&& apart(out, 0)
            &&& on_pages(out, page)
            &&& inside(out, file_len)
            &&& ends_on_pages(out, page, file_len)
            &&& all_needed(out, spans)
            &&& out.len() == 0 <==> spans.len() == 0
            &&& forall|i: int| 0 <= i < spans.len() ==> held(out, #[trigger] spans[i])
        }),
{
    lemma_merged(spans);
    lemma_merged_ends(spans, page, file_len);
    let m = merged(spans);
    lemma_rounded(m, page, file_len);
    let out = rounded(m, page, file_len);
    assert forall|i: int| 0 <= i < spans.len() implies held(out, #[trigger] spans[i]) by {
        let k = choose|k: int|
            0 <= k < m.len() && (#[trigger] m[k]).0 <= spans[i].0 && spans[i].1 <= m[k].1;
        assert(held(out, m[k]));
        let n = choose|n: int|
            0 <= n < out.len() && (#[trigger] out[n]).0 <= m[k].0 && m[k].1 <= out[n].1;
        assert(out[n].0 <= spans[i].0 && spans[i].1 <= out[n].1);
    }
    lemma_ranges_needed(spans, page, file_len);
}

/// Put `next` at the end of `out`, or into its last range where the two are near.
fn extend(out: &mut Vec<(u64, u64)>, next: (u64, u64), gap: u64)
    ensures
        final(out)@ == extended(old(out)@, next, gap),
{
    let n = out.len();
    if n > 0 && (next.0 <= out[n - 1].1 || next.0 - out[n - 1].1 < gap) {
        let (a, b) = out[n - 1];
        out.set(n - 1, (a, if b >= next.1 { b } else { next.1 }));
    } else {
        out.push(next);
    }
}

/// Merge spans whose gap is under [`COALESCE_GAP`], then round each outward to page
/// boundaries and clip to the file.
pub fn coalesce(spans: &[(u64, u64)], page: u64, file_len: u64) -> (r: Vec<(u64, u64)>)
    requires
        page > 0,
        roomy(spans@, page),
    ensures
        r@ == rounded(merged(spans@), page, file_len),
{
    let mut close: Vec<(u64, u64)> = Vec::new();
    let mut i: usize = 0;
    while i < spans.len()
        invariant
            i <= spans@.len(),
            page > 0,
            roomy(spans@, page),
            roomy(close@, page),
            close@ == merged(spans@.take(i as int)),
        decreases spans@.len() - i,
    {
        extend(&mut close, spans[i], COALESCE_GAP);
        assert(spans@.take(i + 1).drop_last() =~= spans@.take(i as int));
        proof {
            assert(roomy(spans@.take(i + 1), page));
            lemma_merged_ends(spans@.take(i + 1), page, file_len);
        }
        i += 1;
    }
    assert(spans@.take(i as int) =~= spans@);
    let mut out: Vec<(u64, u64)> = Vec::new();
    let mut k: usize = 0;
    while k < close.len()
        invariant
            k <= close@.len(),
            page > 0,
            roomy(close@, page),
            out@ == rounded(close@.take(k as int), page, file_len),
        decreases close@.len() - k,
    {
        let (start, end) = close[k];
        assert(close@[k as int].1 + page <= u64::MAX);
        proof {
            lemma_ceil(end, page);
            lemma_floor(start, page);
        }
        let floor = start / page * page;
        let ceil = (end + (page - 1)) / page * page;
        let next = (floor, if ceil <= file_len { ceil } else { file_len });
        extend(&mut out, next, 0);
        assert(close@.take(k + 1).drop_last() =~= close@.take(k as int));
        k += 1;
    }
    assert(close@.take(k as int) =~= close@);
    out
}

/// Whether spans are in lexicographic order.
pub open spec fn in_order(s: Seq<(u64, u64)>) -> bool {
    forall|i: int, j: int|
        0 <= i < j < s.len() ==> (#[trigger] s[i]).0 < (#[trigger] s[j]).0 || (s[i].0 == s[j].0
            && s[i].1 <= s[j].1)
}

/// `slice::sort_unstable` on pairs: the same pairs, in lexicographic order.
#[verifier::external_body]
fn sort_spans(v: &mut Vec<(u64, u64)>)
    ensures
        final(v)@.to_multiset() == old(v)@.to_multiset(),
        in_order(final(v)@),
{
    v.sort_unstable();
}

/// The bytes of a column chunk given by its start and length.
pub open spec fn span_of(chunk: (u64, u64)) -> (u64, u64) {
    (chunk.0, (chunk.0 + chunk.1) as u64)
}

/// Whether `out` are the byte ranges of column chunks, each given by its start and length: the
/// chunks' spans in order, merged and rounded.
pub open spec fn covers(
    chunks: Seq<(u64, u64)>,
    page: u64,
    file_len: u64,
    out: Seq<(u64, u64)>,
) -> bool {
    exists|spans: Seq<(u64, u64)>| #[trigger]
        in_order(spans) && spans.to_multiset() == Seq::new(
            chunks.len(),
            |i: int| span_of(chunks[i]),
        ).to_multiset() && out == rounded(merged(spans), page, file_len)
}

/// Whether no range ends before it begins.
pub open spec fn upright(out: Seq<(u64, u64)>) -> bool {
    forall|i: int| 0 <= i < out.len() ==> (#[trigger] out[i]).0 <= out[i].1
}

/// Whether every span begins on a page that the file reaches.
pub open spec fn reached(spans: Seq<(u64, u64)>, page: u64, file_len: u64) -> bool {
    forall|i: int| 0 <= i < spans.len() ==> page_floor((#[trigger] spans[i]).0, page) <= file_len
}

proof fn lemma_merged_upright(spans: Seq<(u64, u64)>, page: u64, file_len: u64)
    requires
        upright(spans),
        reached(spans, page, file_len),
    ensures
        upright(merged(spans)),
        reached(merged(spans), page, file_len),
    decreases spans.len(),
{
    if spans.len() > 0 {
        lemma_merged_upright(spans.drop_last(), page, file_len);
        assert(spans.last() == spans[spans.len() - 1]);
        let m = merged(spans.drop_last());
        assert(m.len() > 0 ==> m.last() == m[m.len() - 1]);
    }
}

proof fn lemma_rounded_upright(spans: Seq<(u64, u64)>, page: u64, file_len: u64)
    requires
        page > 0,
        roomy(spans, page),
        upright(spans),
        reached(spans, page, file_len),
    ensures
        upright(rounded(spans, page, file_len)),
    decreases spans.len(),
{
    if spans.len() > 0 {
        lemma_rounded_upright(spans.drop_last(), page, file_len);
        assert(spans.last() == spans[spans.len() - 1]);
        lemma_floor(spans.last().0, page);
        lemma_ceil(spans.last().1, page);
        let m = rounded(spans.drop_last(), page, file_len);
        assert(m.len() > 0 ==> m.last() == m[m.len() - 1]);
    }
}

/// The byte ranges to fetch for column chunks, each given by its start and length: the chunks'
/// spans put in order, then [`coalesce`]d.
pub fn ranges_of(chunks: &Vec<(u64, u64)>, page: u64, file_len: u64) -> (r: Vec<(u64, u64)>)
    requires
        page > 0,
        forall|i: int|
            0 <= i < chunks@.len() ==> (#[trigger] chunks@[i]).0 + chunks@[i].1 + page <= u64::MAX,
    ensures
        covers(chunks@, page, file_len, r@),
        (forall|i: int| 0 <= i < chunks@.len() ==> (#[trigger] chunks@[i]).0 + chunks@[i].1 <= file_len)
            ==> forall|i: int| 0 <= i < chunks@.len() ==> held(r@, span_of(#[trigger] chunks@[i])),
        (forall|i: int| 0 <= i < chunks@.len() ==> page_floor((#[trigger] chunks@[i]).0, page) <= file_len)
            ==> upright(r@),
{
    let ghost all = Seq::new(chunks@.len(), |i: int| span_of(chunks@[i]));
    let mut spans: Vec<(u64, u64)> = Vec::new();
    let mut i: usize = 0;
    while i < chunks.len()
        invariant
            i <= chunks@.len(),
            spans@ == all.take(i as int),
            all == Seq::new(chunks@.len(), |k: int| span_of(chunks@[k])),
            forall|k: int|
                0 <= k < chunks@.len() ==> (#[trigger] chunks@[k]).0 + chunks@[k].1 + page
                    <= u64::MAX,
        decreases chunks@.len() - i,
    {
        let (start, length) = chunks[i];
        assert(chunks@[i as int].0 + chunks@[i as int].1 + page <= u64::MAX);
        spans.push((start, start + length));
        assert(all.take(i + 1) =~= all.take(i as int).push(all[i as int]));
        i += 1;
    }
    assert(spans@ =~= all);
    sort_spans(&mut spans);
    proof {
        assert forall|k: int| 0 <= k < spans@.len() implies (#[trigger] spans@[k]).1 + page
            <= u64::MAX by {
            broadcast use vstd::seq_lib::group_to_multiset_ensures;

            assert(spans@.contains(spans@[k]));
            assert(all.to_multiset().contains(spans@[k]));
            assert(all.contains(spans@[k]));
            let j = choose|j: int| 0 <= j < all.len() && all[j] == spans@[k];
            assert(chunks@[j].0 + chunks@[j].1 + page <= u64::MAX);
        }
    }
    let r = coalesce(spans.as_slice(), page, file_len);
    proof {
        assert(in_order(spans@));
        if forall|i: int|
            0 <= i < chunks@.len() ==> page_floor((#[trigger] chunks@[i]).0, page) <= file_len {
            assert forall|k: int| 0 <= k < spans@.len() implies (#[trigger] spans@[k]).0
                <= spans@[k].1 && page_floor(spans@[k].0, page) <= file_len by {
                broadcast use vstd::seq_lib::group_to_multiset_ensures;

                assert(spans@.contains(spans@[k]));
                assert(all.to_multiset().contains(spans@[k]));
                assert(all.contains(spans@[k]));
                let j = choose|j: int| 0 <= j < all.len() && all[j] == spans@[k];
                assert(page_floor(chunks@[j].0, page) <= file_len);
            }
            lemma_merged_upright(spans@, page, file_len);
            lemma_merged_ends(spans@, page, file_len);
            lemma_rounded_upright(merged(spans@), page, file_len);
        }
        if forall|i: int|
            0 <= i < chunks@.len() ==> (#[trigger] chunks@[i]).0 + chunks@[i].1 <= file_len {
            broadcast use vstd::seq_lib::group_to_multiset_ensures;

            assert forall|k: int| 0 <= k < spans@.len() implies (#[trigger] spans@[k]).0
                <= spans@[k].1 <= file_len by {
                assert(spans@.contains(spans@[k]));
                assert(all.to_multiset().contains(spans@[k]));
                assert(all.contains(spans@[k]));
                let j = choose|j: int| 0 <= j < all.len() && all[j] == spans@[k];
                assert(chunks@[j].0 + chunks@[j].1 <= file_len);
            }
            law_ranges_hold_every_span(spans@, page, file_len);
            assert forall|i: int| 0 <= i < chunks@.len() implies held(
                r@,
                span_of(#[trigger] chunks@[i]),
            ) by {
                assert(all[i] == span_of(chunks@[i]));
                assert(all.contains(all[i]));
                assert(spans@.to_multiset().contains(all[i]));
                assert(spans@.contains(all[i]));
                let k = choose|k: int| 0 <= k < spans@.len() && spans@[k] == all[i];
                assert(held(r@, spans@[k]));
            }
        }
    }
    r
}

/// A failed read of a split.
pub open spec fn failed(split: u64, msg: Seq<char>) -> MorunaErrorView {
    MorunaErrorView::Source { split, msg }
}

/// The index of a row group the plan names, if the file has it.
pub fn row_group(split: u64, groups: usize, planned: usize) -> (r: Result<usize, MorunaError>)
    ensures
        match r {
            Ok(i) => planned < groups && i == planned,
            Err(e) => planned >= groups && e@ == failed(
                split,
                "the plan names no such row group"@,
            ),
        },
{
    if planned < groups {
        Ok(planned)
    } else {
        Err(MorunaError::Source { split, msg: "the plan names no such row group".to_owned() })
    }
}

/// The buffer length for a range, if it fits in memory's address space.
pub fn fetch_len(split: u64, start: u64, end: u64) -> (r: Result<usize, MorunaError>)
    requires
        start <= end,
    ensures
        match r {
            Ok(n) => n == end - start,
            Err(e) => end - start > usize::MAX && e@ == failed(
                split,
                "a range of "@ + dec((end - start) as nat) + " bytes does not fit in memory"@,
            ),
        },
{
    let n = end - start;
    if n > usize::MAX as u64 {
        let d = dec_text(n);
        return Err(
            MorunaError::Source {
                split,
                msg: cat3("a range of ", &d, " bytes does not fit in memory"),
            },
        );
    }
    Ok(n as usize)
}

/// Whether a range came back whole: every byte of it, or every byte the file has.
pub fn check_fetch(
    split: u64,
    path: &str,
    start: u64,
    end: u64,
    filled: usize,
    file_len: u64,
) -> (r: Result<(), MorunaError>)
    requires
        start <= end,
        start + filled <= u64::MAX,
    ensures
        match r {
            Ok(()) => filled >= end - start || start + filled == file_len,
            Err(e) => filled < end - start && start + filled != file_len && e@ == failed(
                split,
                path@ + ": bytes "@ + dec(start as nat) + ".."@ + (dec(end as nat)
                    + " came back short at "@ + dec((start + filled) as nat)),
            ),
        },
{
    let at = start + filled as u64;
    if (filled as u64) < end - start && at != file_len {
        let a = dec_text(start);
        let b = dec_text(end);
        let c = dec_text(at);
        let tail = cat3(&b, " came back short at ", &c);
        return Err(MorunaError::Source { split, msg: cat5(path, ": bytes ", &a, "..", &tail) });
    }
    Ok(())
}

/// A half-open range of a split's rows.
#[derive(Clone, Copy, Debug, PartialEq, Eq, Structural)]
pub struct RowRange {
    /// The first row.
    pub start: u64,
    /// One past the last row.
    pub end: u64,
}

/// How a decoder is asked for a range of rows.
#[derive(Clone, Copy, Debug, PartialEq, Eq, Structural)]
pub struct Selection {
    /// The batch size, which covers the range.
    pub batch: u64,
    /// Whether rows of the split are left out, so that they have to be selected.
    pub partial: bool,
}

/// How a decoder is asked for `range` of a split of `rows` rows.
pub fn selection(range: RowRange, rows: u64) -> (s: Selection)
    requires
        range.start <= range.end,
    ensures
        s.batch >= 1,
        range.start < range.end ==> s.batch == range.end - range.start,
        range.start == range.end ==> s.batch == 1,
        s.partial == !(range.start == 0 && range.end == rows),
{
    let n = range.end - range.start;
    Selection {
        batch: if n < 1 {
            1
        } else {
            n
        },
        partial: range.start != 0 || range.end != rows,
    }
}

/// Whether a decoder returned as many rows as were asked for.
pub fn check_rows(split: u64, decoded: u64, range: RowRange) -> (r: Result<(), MorunaError>)
    requires
        range.start <= range.end,
    ensures
        match r {
            Ok(()) => decoded == range.end - range.start,
            Err(e) => decoded != range.end - range.start && e@ == failed(
                split,
                "the decoder returned "@ + dec(decoded as nat) + " rows for a range of "@ + dec(
                    (range.end - range.start) as nat,
                ) + " (SO-I4)"@,
            ),
        },
{
    let wanted = range.end - range.start;
    if decoded != wanted {
        let a = dec_text(decoded);
        let b = dec_text(wanted);
        return Err(
            MorunaError::Source {
                split,
                msg: cat5("the decoder returned ", &a, " rows for a range of ", &b, " (SO-I4)"),
            },
        );
    }
    Ok(())
}

} // verus!
