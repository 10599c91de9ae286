//! `FakeSink`: it remembers the sequence numbers it was given, and advances its commit watermark
//! in blocks.

use crate::bytes::{le_bytes, push_le};
use crate::error::{MorunaError, MorunaErrorView};
use crate::testkit::sampler::one_more;
use crate::text::{cat3, dec, dec_text};
use vstd::prelude::*;

verus! {

/// What a sink wrote.
#[derive(Debug)]
pub struct SinkSummary {
    /// Rows.
    pub rows: u64,
    /// Bytes.
    pub bytes: u64,
    /// Files.
    pub files: Vec<String>,
}

/// The sink as a test sees it.
pub struct FakeSink {
    /// The sequence numbers written, in call order.
    pub written_seqs: Vec<u64>,
    /// The sequence numbers declared skipped.
    pub skipped_seqs: Vec<u64>,
    /// Rows written.
    pub rows: u64,
    /// Bytes written.
    pub bytes: u64,
    /// The watermark.
    pub committed: Option<u64>,
    /// What the last resume was given.
    pub state_bytes: Vec<u8>,
    /// How many sequence numbers are committed at once.
    pub block: u64,
    /// Whether it can resume.
    pub can_resume: bool,
    /// The sequence number whose write fails.
    pub failing: Option<u64>,
    /// Whether it needs sequence numbers in order.
    pub ordered: bool,
    /// Times it was opened.
    pub opened: u64,
    /// Times it resumed.
    pub resumed: u64,
    /// Times it was finished.
    pub finished: u64,
    /// Times it was shut down.
    pub shut: u64,
}

/// Whether numbers are in ascending order.
pub open spec fn sorted(s: Seq<u64>) -> bool {
    forall|i: int, j: int| 0 <= i < j < s.len() ==> #[trigger] s[i] <= #[trigger] s[j]
}

/// Whether every number of the first `k` blocks was seen.
pub open spec fn blocks_seen(seen: Seq<u64>, block: u64, k: int) -> bool {
    forall|n: int| 0 <= n < k * block ==> #[trigger] holds(seen, n)
}

/// Whether `n` was seen.
pub open spec fn holds(seen: Seq<u64>, n: int) -> bool {
    0 <= n <= u64::MAX && seen.contains(n as u64)
}

/// Whether `w` is the watermark of the numbers seen: the last number of the most blocks, from 0
/// on, of which every number was seen. In which order they were seen, and how often, does not
/// matter.
pub open spec fn watermark_of(seen: Seq<u64>, block: u64, w: Option<u64>) -> bool {
    match w {
        Some(w) => exists|k: int|
            k >= 1 && w + 1 == k * block && #[trigger] blocks_seen(seen, block, k) && (forall|j: int|
                j > k ==> !#[trigger] blocks_seen(seen, block, j)),
        None => forall|j: int| j >= 1 ==> !#[trigger] blocks_seen(seen, block, j),
    }
}

/// `slice::sort_unstable`: the same numbers, in ascending order.
#[verifier::external_body]
fn sort_numbers(v: &mut Vec<u64>)
    ensures
        final(v)@.to_multiset() == old(v)@.to_multiset(),
        sorted(final(v)@),
{
    v.sort_unstable();
}

/// Everything up to the watermark was written or skipped, and the watermark ends a block.
pub proof fn law_what_is_committed_was_seen(seen: Seq<u64>, block: u64, w: u64, seq: u64)
    requires
        block >= 1,
        watermark_of(seen, block, Some(w)),
        seq <= w,
    ensures
        seen.contains(seq),
        (w + 1) % block as int == 0,
{
    let k = choose|k: int|
        k >= 1 && w + 1 == k * block && #[trigger] blocks_seen(seen, block, k) && (forall|j: int|
            j > k ==> !#[trigger] blocks_seen(seen, block, j));
    assert(holds(seen, seq as int));
    vstd::arithmetic::div_mod::lemma_mod_multiples_basic(k, block as int);
}

/// The watermark is one of the set of numbers seen: the order they came in and numbers that came
/// again do not matter.
pub proof fn law_the_watermark_is_of_the_set(
    a: Seq<u64>,
    b: Seq<u64>,
    block: u64,
    v: Option<u64>,
    w: Option<u64>,
)
    requires
        block >= 1,
        forall|n: u64| #[trigger] a.contains(n) <==> b.contains(n),
        watermark_of(a, block, v),
        watermark_of(b, block, w),
    ensures
        v == w,
{
    assert forall|n: int| #[trigger] holds(a, n) == holds(b, n) by {
        if 0 <= n <= u64::MAX {
            assert(a.contains(n as u64) <==> b.contains(n as u64));
        }
    }
    assert forall|k: int| #[trigger]
        blocks_seen(a, block, k) == blocks_seen(b, block, k) by {
        if blocks_seen(a, block, k) {
            assert forall|n: int| 0 <= n < k * block implies #[trigger] holds(b, n) by {
                assert(holds(a, n));
            }
        }
        if blocks_seen(b, block, k) {
            assert forall|n: int| 0 <= n < k * block implies #[trigger] holds(a, n) by {
                assert(holds(b, n));
            }
        }
    }
    if let Some(x) = v {
        let k = choose|k: int|
            k >= 1 && x + 1 == k * block && #[trigger] blocks_seen(a, block, k) && (forall|j: int|
                j > k ==> !#[trigger] blocks_seen(a, block, j));
        assert(blocks_seen(b, block, k));
        if let Some(y) = w {
            let l = choose|l: int|
                l >= 1 && y + 1 == l * block && #[trigger] blocks_seen(b, block, l) && (forall|
                    j: int,
                |
                    j > l ==> !#[trigger] blocks_seen(b, block, j));
            assert(blocks_seen(a, block, l));
            assert(k == l);
        }
    } else if let Some(y) = w {
        let l = choose|l: int|
            l >= 1 && y + 1 == l * block && #[trigger] blocks_seen(b, block, l) && (forall|j: int|
                j > l ==> !#[trigger] blocks_seen(b, block, j));
        assert(blocks_seen(a, block, l));
    }
}

fn joined(a: &Vec<u64>, b: &Vec<u64>) -> (r: Vec<u64>)
    ensures
        r@ == a@ + b@,
{
    let mut out: Vec<u64> = Vec::new();
    let mut i: usize = 0;
    while i < a.len()
        invariant
            i <= a@.len(),
            out@ == a@.take(i as int),
        decreases a@.len() - i,
    {
        out.push(a[i]);
        assert(out@ =~= a@.take(i + 1));
        i += 1;
    }
    assert(out@ =~= a@ + b@.take(0));
    let mut k: usize = 0;
    while k < b.len()
        invariant
            k <= b@.len(),
            out@ == a@ + b@.take(k as int),
        decreases b@.len() - k,
    {
        out.push(b[k]);
        assert(out@ =~= a@ + b@.take(k + 1));
        k += 1;
    }
    assert(b@.take(k as int) =~= b@);
    out
}

/// The whole blocks below `n` are seen where every number below it is, and no more where `n` is
/// not.
proof fn lemma_blocks(seen: Seq<u64>, block: u64, n: int, k: int)
    requires
        block >= 1,
        n >= 0,
        forall|m: int| 0 <= m < n ==> #[trigger] holds(seen, m),
        !holds(seen, n),
        k == n / block as int,
    ensures
        0 <= k * block <= n,
        k > 0 ==> k * block >= 1,
        blocks_seen(seen, block, k),
        forall|j: int| j > k ==> !#[trigger] blocks_seen(seen, block, j),
{
    let b = block as int;
    vstd::arithmetic::div_mod::lemma_fundamental_div_mod(n, b);
    vstd::arithmetic::div_mod::lemma_mod_bound(n, b);
    vstd::arithmetic::div_mod::lemma_div_pos_is_pos(n, b);
    vstd::arithmetic::mul::lemma_mul_is_commutative(k, b);
    vstd::arithmetic::mul::lemma_mul_nonnegative(k, b);
    if k > 0 {
        vstd::arithmetic::mul::lemma_mul_strictly_positive(k, b);
    }
    assert forall|j: int| j > k implies !#[trigger] blocks_seen(seen, block, j) by {
        vstd::arithmetic::mul::lemma_mul_inequality(k + 1, j, b);
        vstd::arithmetic::mul::lemma_mul_is_distributive_add_other_way(b, k, 1);
        assert(n < j * b);
        if blocks_seen(seen, block, j) {
            assert(holds(seen, n));
        }
    }
}

/// The watermark of sequence numbers.
fn find_watermark(seen: Vec<u64>, block: u64) -> (w: Option<u64>)
    requires
        block >= 1,
    ensures
        watermark_of(seen@, block, w),
{
    let ghost all = seen@;
    let mut s = seen;
    sort_numbers(&mut s);
    assert forall|m: int| #[trigger] holds(all, m) == holds(s@, m) by {
        broadcast use vstd::seq_lib::group_to_multiset_ensures;

        if 0 <= m <= u64::MAX {
            assert(all.to_multiset().contains(m as u64) == s@.to_multiset().contains(m as u64));
        }
    }
    // The least number that was not seen. The numbers ascend, so one below it was met before.
    let mut n: u64 = 0;
    let mut i: usize = 0;
    while i < s.len() && s[i] <= n
        invariant
            i <= s@.len(),
            n <= i,
            sorted(s@),
            forall|m: int| 0 <= m < n ==> #[trigger] holds(s@, m),
            forall|m: int| 0 <= m < i ==> #[trigger] s@[m] < n,
        decreases s@.len() - i,
    {
        assert(s@.contains(s@[i as int]));
        if s[i] == n {
            assert(holds(s@, n as int));
            n += 1;
        }
        i += 1;
    }
    assert(!holds(s@, n as int)) by {
        if s@.contains(n) {
            let m = choose|m: int| 0 <= m < s@.len() && s@[m] == n;
            assert(i <= m);
            if i < m {
                assert(s@[i as int] <= s@[m]);
            }
        }
    }
    let blocks = n / block;
    proof {
        assert forall|m: int| 0 <= m < n implies #[trigger] holds(all, m) by {
            assert(holds(s@, m));
        }
        lemma_blocks(all, block, n as int, blocks as int);
    }
    if blocks > 0 {
        Some(blocks * block - 1)
    } else {
        None
    }
}

/// The numbers of `s` that are at most `w`, in their order; none without a `w`.
pub open spec fn up_to(s: Seq<u64>, w: Option<u64>) -> Seq<u64>
    decreases s.len(),
{
    if s.len() == 0 {
        Seq::empty()
    } else {
        let rest = up_to(s.drop_last(), w);
        if w is Some && s.last() <= w->Some_0 {
            rest.push(s.last())
        } else {
            rest
        }
    }
}

/// Sequence numbers as a checkpoint holds them.
pub open spec fn number_bytes(s: Seq<u64>) -> Seq<u8>
    decreases s.len(),
{
    if s.len() == 0 {
        Seq::empty()
    } else {
        number_bytes(s.drop_last()) + le_bytes(s.last() as nat, 8)
    }
}

impl Default for FakeSink {
    fn default() -> (s: Self)
        ensures
            s.wf(),
            s.written_seqs@.len() == 0,
            s.skipped_seqs@.len() == 0,
            s.rows == 0,
            s.bytes == 0,
            s.committed is None,
            s.state_bytes@.len() == 0,
            s.block == 1,
            !s.can_resume,
            s.failing is None,
            !s.ordered,
            s.opened == 0,
            s.resumed == 0,
            s.finished == 0,
            s.shut == 0,
    {
        FakeSink::new()
    }
}

impl FakeSink {
    /// A block holds at least one number.
    pub open spec fn wf(&self) -> bool {
        self.block >= 1
    }

    /// A sink that commits every write, is not resumable and never fails.
    pub fn new() -> (s: Self)
        ensures
            s.wf(),
            s.written_seqs@.len() == 0,
            s.skipped_seqs@.len() == 0,
            s.rows == 0,
            s.bytes == 0,
            s.committed is None,
            s.state_bytes@.len() == 0,
            s.block == 1,
            !s.can_resume,
            s.failing is None,
            !s.ordered,
            s.opened == 0,
            s.resumed == 0,
            s.finished == 0,
            s.shut == 0,
    {
        FakeSink {
            written_seqs: Vec::new(),
            skipped_seqs: Vec::new(),
            rows: 0,
            bytes: 0,
            committed: None,
            state_bytes: Vec::new(),
            block: 1,
            can_resume: false,
            failing: None,
            ordered: false,
            opened: 0,
            resumed: 0,
            finished: 0,
            shut: 0,
        }
    }

    /// Knob: commit in blocks of `n` sequence numbers, of one at least.
    pub fn commit_every(self, n: u64) -> (s: Self)
        ensures
            s == (FakeSink {
                block: if n >= 1 {
                    n
                } else {
                    1
                },
                ..self
            }),
    {
        let mut s = self;
        s.block = if n >= 1 {
            n
        } else {
            1
        };
        s
    }

    /// Knob: whether the sink supports resume.
    pub fn resumable(self, resumable: bool) -> (s: Self)
        ensures
            s == (FakeSink { can_resume: resumable, ..self }),
    {
        let mut s = self;
        s.can_resume = resumable;
        s
    }

    /// Knob: writing this sequence number fails.
    pub fn fail_at(self, seq: u64) -> (s: Self)
        ensures
            s == (FakeSink { failing: Some(seq), ..self }),
    {
        let mut s = self;
        s.failing = Some(seq);
        s
    }

    /// Knob: whether the sink needs sequence numbers in order.
    pub fn requires_order(self, requires_order: bool) -> (s: Self)
        ensures
            s == (FakeSink { ordered: requires_order, ..self }),
    {
        let mut s = self;
        s.ordered = requires_order;
        s
    }

    /// Whether the sink needs sequence numbers in order.
    pub fn is_ordered(&self) -> (r: bool)
        ensures
            r == self.ordered,
    {
        self.ordered
    }

    /// Observable: the sequence numbers written, in call order.
    pub fn written(&self) -> (r: &Vec<u64>)
        ensures
            *r == self.written_seqs,
    {
        &self.written_seqs
    }

    /// Observable: the sequence numbers declared skipped.
    pub fn skipped(&self) -> (r: &Vec<u64>)
        ensures
            *r == self.skipped_seqs,
    {
        &self.skipped_seqs
    }

    /// Observable: the watermark.
    pub fn committed_seq(&self) -> (r: Option<u64>)
        ensures
            r == self.committed,
    {
        self.committed
    }

    /// Observable: how many times `open` was called.
    pub fn open_calls(&self) -> (n: u64)
        ensures
            n == self.opened,
    {
        self.opened
    }

    /// Observable: how many times `resume` was called.
    pub fn resume_calls(&self) -> (n: u64)
        ensures
            n == self.resumed,
    {
        self.resumed
    }

    /// Observable: how many times `finish` was called.
    pub fn finish_calls(&self) -> (n: u64)
        ensures
            n == self.finished,
    {
        self.finished
    }

    /// Observable: how many times `shutdown` was called.
    pub fn shutdown_calls(&self) -> (n: u64)
        ensures
            n == self.shut,
    {
        self.shut
    }

    /// Count a shutdown.
    pub fn shutdown(&mut self)
        ensures
            *final(self) == (FakeSink { shut: one_more(old(self).shut), ..*old(self) }),
    {
        self.shut = self.shut.wrapping_add(1);
    }

    /// Count an opening.
    pub fn open(&mut self)
        ensures
            *final(self) == (FakeSink { opened: one_more(old(self).opened), ..*old(self) }),
    {
        self.opened = self.opened.wrapping_add(1);
    }

    /// Write a payload of so many rows and bytes under a sequence number.
    pub fn write(&mut self, seq: u64, rows: u64, bytes: u64) -> (r: Result<(), MorunaError>)
        requires
            old(self).wf(),
            old(self).rows + rows <= u64::MAX,
            old(self).bytes + bytes <= u64::MAX,
        ensures
            final(self).wf(),
            old(self).failing == Some(seq) ==> *final(self) == *old(self) && r is Err
                && r->Err_0@ == MorunaErrorView::Sink(
                "FakeSink::fail_at("@ + dec(seq as nat) + ")"@,
            ),
            old(self).failing != Some(seq) ==> {
                &&& r is Ok
                &&& final(self).written_seqs@ == old(self).written_seqs@.push(seq)
                &&& *final(self) == (FakeSink {
                    written_seqs: final(self).written_seqs,
                    rows: (old(self).rows + rows) as u64,
                    bytes: (old(self).bytes + bytes) as u64,
                    committed: final(self).committed,
                    ..*old(self)
                })
                &&& watermark_of(
                    final(self).written_seqs@ + final(self).skipped_seqs@,
                    final(self).block,
                    final(self).committed,
                )
            },
    {
        let fails = match self.failing {
            Some(f) => f == seq,
            None => false,
        };
        if fails {
            let d = dec_text(seq);
            return Err(MorunaError::Sink(cat3("FakeSink::fail_at(", &d, ")")));
        }
        self.written_seqs.push(seq);
        self.rows = self.rows + rows;
        self.bytes = self.bytes + bytes;
        let seen = joined(&self.written_seqs, &self.skipped_seqs);
        self.committed = find_watermark(seen, self.block);
        Ok(())
    }

    /// Declare a sequence number skipped.
    pub fn skip(&mut self, seq: u64)
        requires
            old(self).wf(),
        ensures
            final(self).wf(),
            final(self).skipped_seqs@ == old(self).skipped_seqs@.push(seq),
            *final(self) == (FakeSink {
                skipped_seqs: final(self).skipped_seqs,
                committed: final(self).committed,
                ..*old(self)
            }),
            watermark_of(
                final(self).written_seqs@ + final(self).skipped_seqs@,
                final(self).block,
                final(self).committed,
            ),
    {
        self.skipped_seqs.push(seq);
        let seen = joined(&self.written_seqs, &self.skipped_seqs);
        self.committed = find_watermark(seen, self.block);
    }

    /// What was written.
    pub fn finish(&mut self) -> (s: SinkSummary)
        ensures
            *final(self) == (FakeSink { finished: one_more(old(self).finished), ..*old(self) }),
            s.rows == old(self).rows,
            s.bytes == old(self).bytes,
            s.files@.len() == 1,
            s.files@[0]@ == "fake-sink-0"@,
    {
        self.finished = self.finished.wrapping_add(1);
        let mut files: Vec<String> = Vec::new();
        files.push("fake-sink-0".to_owned());
        SinkSummary { rows: self.rows, bytes: self.bytes, files }
    }

    /// What a resume needs, where the sink supports it: how many numbers were written, and the
    /// numbers.
    pub fn checkpoint(&self) -> (r: Option<Vec<u8>>)
        ensures
            match r {
                Some(b) => self.can_resume && b@ == le_bytes(self.written_seqs@.len(), 8)
                    + number_bytes(self.written_seqs@),
                None => !self.can_resume,
            },
    {
        if !self.can_resume {
            return None;
        }
        let mut out: Vec<u8> = Vec::new();
        push_le(&mut out, self.written_seqs.len() as u64, 8);
        let ghost front = le_bytes(self.written_seqs@.len(), 8);
        assert(out@ =~= front + number_bytes(self.written_seqs@.take(0)));
        let mut i: usize = 0;
        while i < self.written_seqs.len()
            invariant
                i <= self.written_seqs@.len(),
                out@ == front + number_bytes(self.written_seqs@.take(i as int)),
            decreases self.written_seqs@.len() - i,
        {
            push_le(&mut out, self.written_seqs[i], 8);
            assert(self.written_seqs@.take(i + 1).drop_last() =~= self.written_seqs@.take(i as int));
            assert(out@ =~= front + number_bytes(self.written_seqs@.take(i + 1)));
            i += 1;
        }
        assert(self.written_seqs@.take(i as int) =~= self.written_seqs@);
        Some(out)
    }

    /// Resume from a checkpoint: what is above the watermark is discarded.
    pub fn resume(&mut self, state_bytes: Vec<u8>, committed_seq: Option<u64>) -> (r: Result<
        (),
        MorunaError,
    >)
        ensures
            !old(self).can_resume ==> *final(self) == *old(self) && r is Err && r->Err_0@
                == MorunaErrorView::Resume("FakeSink is not resumable"@),
            old(self).can_resume ==> {
                &&& r is Ok
                &&& final(self).written_seqs@ == up_to(old(self).written_seqs@, committed_seq)
                &&& final(self).state_bytes@ == state_bytes@
                &&& *final(self) == (FakeSink {
                    written_seqs: final(self).written_seqs,
                    state_bytes: final(self).state_bytes,
                    committed: committed_seq,
                    resumed: one_more(old(self).resumed),
                    ..*old(self)
                })
            },
    {
        if !self.can_resume {
            return Err(MorunaError::Resume("FakeSink is not resumable".to_owned()));
        }
        self.resumed = self.resumed.wrapping_add(1);
        self.state_bytes = state_bytes;
        let mut kept: Vec<u64> = Vec::new();
        let mut i: usize = 0;
        while i < self.written_seqs.len()
            invariant
                i <= self.written_seqs@.len(),
                kept@ == up_to(self.written_seqs@.take(i as int), committed_seq),
            decreases self.written_seqs@.len() - i,
        {
            let seq = self.written_seqs[i];
            assert(self.written_seqs@.take(i + 1).drop_last() =~= self.written_seqs@.take(i as int));
            let stays = match committed_seq {
                Some(w) => seq <= w,
                None => false,
            };
            if stays {
                kept.push(seq);
            }
            i += 1;
        }
        assert(self.written_seqs@.take(i as int) =~= self.written_seqs@);
        self.written_seqs = kept;
        self.committed = committed_seq;
        Ok(())
    }
}

} // verus!
