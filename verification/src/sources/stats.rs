//! What a source has done so far, and the counters behind it.

use vstd::prelude::*;

verus! {

/// What a source has done so far.
#[derive(Clone, Copy, Debug, PartialEq, Eq, Structural)]
pub struct SourceStats {
    /// Splits the plan produced.
    pub splits: u64,
    /// Uncompressed bytes the plan accounted for, over the projection.
    pub bytes_planned: u64,
    /// Reads issued.
    pub reads: u64,
    /// Payload bytes copied by the CPU out of a decoder and into the arena.
    pub decode_bytes: u64,
    /// Tensor reads the reactor served on a direct path.
    pub tensor_direct_reads: u64,
    /// Tensor reads the reactor served on a buffered path.
    pub tensor_buffered_reads: u64,
    /// Ranged reads spent on file footers.
    pub footer_reads: u64,
    /// Row groups a filter proved empty.
    pub groups_skipped: u64,
    /// One-row payloads returned above the range's target.
    pub oversized_rows: u64,
}

impl Default for SourceStats {
    fn default() -> (s: Self)
        ensures
            s == none_yet(),
    {
        SourceStats {
            splits: 0,
            bytes_planned: 0,
            reads: 0,
            decode_bytes: 0,
            tensor_direct_reads: 0,
            tensor_buffered_reads: 0,
            footer_reads: 0,
            groups_skipped: 0,
            oversized_rows: 0,
        }
    }
}

/// A source that has done nothing.
pub open spec fn none_yet() -> SourceStats {
    SourceStats {
        splits: 0,
        bytes_planned: 0,
        reads: 0,
        decode_bytes: 0,
        tensor_direct_reads: 0,
        tensor_buffered_reads: 0,
        footer_reads: 0,
        groups_skipped: 0,
        oversized_rows: 0,
    }
}

/// What is counted.
#[derive(Clone, Copy, Debug, PartialEq, Eq, Structural)]
pub enum Count {
    Splits,
    BytesPlanned,
    Reads,
    DecodeBytes,
    TensorDirectReads,
    TensorBufferedReads,
    FooterReads,
    GroupsSkipped,
    OversizedRows,
}

/// A counter after `n` more; it wraps.
pub open spec fn more(c: u64, n: u64) -> u64 {
    ((c + n) % 0x1_0000_0000_0000_0000) as u64
}

/// The counters after `n` more of `what`.
pub open spec fn counted(s: SourceStats, what: Count, n: u64) -> SourceStats {
    match what {
        Count::Splits => SourceStats { splits: more(s.splits, n), ..s },
        Count::BytesPlanned => SourceStats { bytes_planned: more(s.bytes_planned, n), ..s },
        Count::Reads => SourceStats { reads: more(s.reads, n), ..s },
        Count::DecodeBytes => SourceStats { decode_bytes: more(s.decode_bytes, n), ..s },
        Count::TensorDirectReads => SourceStats {
            tensor_direct_reads: more(s.tensor_direct_reads, n),
            ..s
        },
        Count::TensorBufferedReads => SourceStats {
            tensor_buffered_reads: more(s.tensor_buffered_reads, n),
            ..s
        },
        Count::FooterReads => SourceStats { footer_reads: more(s.footer_reads, n), ..s },
        Count::GroupsSkipped => SourceStats { groups_skipped: more(s.groups_skipped, n), ..s },
        Count::OversizedRows => SourceStats { oversized_rows: more(s.oversized_rows, n), ..s },
    }
}

/// The live counters; one per source instance.
pub struct Counters {
    now: SourceStats,
}

impl View for Counters {
    type V = SourceStats;

    closed spec fn view(&self) -> SourceStats {
        self.now
    }
}

impl Default for Counters {
    fn default() -> (c: Self)
        ensures
            c@ == none_yet(),
    {
        Counters { now: SourceStats::default() }
    }
}

fn plus(c: u64, n: u64) -> (r: u64)
    ensures
        r == more(c, n),
{
    c.wrapping_add(n)
}

impl Counters {
    /// Count `n` more of `what`.
    pub fn add(&mut self, what: Count, n: u64)
        ensures
            final(self)@ == counted(old(self)@, what, n),
    {
        match what {
            Count::Splits => {
                self.now.splits = plus(self.now.splits, n);
            },
            Count::BytesPlanned => {
                self.now.bytes_planned = plus(self.now.bytes_planned, n);
            },
            Count::Reads => {
                self.now.reads = plus(self.now.reads, n);
            },
            Count::DecodeBytes => {
                self.now.decode_bytes = plus(self.now.decode_bytes, n);
            },
            Count::TensorDirectReads => {
                self.now.tensor_direct_reads = plus(self.now.tensor_direct_reads, n);
            },
            Count::TensorBufferedReads => {
                self.now.tensor_buffered_reads = plus(self.now.tensor_buffered_reads, n);
            },
            Count::FooterReads => {
                self.now.footer_reads = plus(self.now.footer_reads, n);
            },
            Count::GroupsSkipped => {
                self.now.groups_skipped = plus(self.now.groups_skipped, n);
            },
            Count::OversizedRows => {
                self.now.oversized_rows = plus(self.now.oversized_rows, n);
            },
        }
    }

    /// The counters now.
    pub fn snapshot(&self) -> (s: SourceStats)
        ensures
            s == self@,
    {
        self.now
    }
}

} // verus!
