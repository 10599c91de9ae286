//! One record of a trace.

use vstd::prelude::*;

verus! {

/// What one task did.
#[derive(Clone, Debug, PartialEq, Eq)]
pub struct TraceRecord {
    /// The sequence number of the morsel.
    pub seq: u64,
    /// The stage.
    pub stage: u16,
    /// The worker.
    pub worker: u16,
    /// The kernel instance.
    pub instance: u16,
    /// When it began, in nanoseconds.
    pub t_start_ns: u64,
    /// When it ended, in nanoseconds.
    pub t_end_ns: u64,
    /// Rows in.
    pub rows_in: u64,
    /// Bytes in.
    pub bytes_in: u64,
    /// Rows out.
    pub rows_out: u64,
    /// Bytes out.
    pub bytes_out: u64,
    /// The tier of what came in, by number.
    pub tier_in: u8,
    /// The tier of what went out, by number.
    pub tier_out: u8,
    /// The bits of the mean string length, a 32-bit float.
    pub feat_mean_string_len: u32,
    /// The bits of the ratio of nulls, a 32-bit float.
    pub feat_null_ratio: u32,
    /// The bytes of each column.
    pub feat_column_bytes: Vec<u64>,
    /// The knob for the size of a morsel.
    pub knob_morsel_target: u64,
    /// The knob for the workers.
    pub knob_active_workers: u16,
    /// The knob for the reads ahead.
    pub knob_read_ahead: u16,
    /// Anonymous bytes before.
    pub mem_anon_before: u64,
    /// The most anonymous bytes.
    pub mem_anon_peak: u64,
    /// The most bytes on a device.
    pub dev_mem_peak: u64,
    /// CPU time, in microseconds.
    pub cpu_time_us: u64,
    /// Time throttled, in microseconds.
    pub throttled_delta_us: u64,
    /// The bytes queued in each tier before.
    pub q_bytes_before: Vec<u64>,
    /// The bytes queued in each tier after.
    pub q_bytes_after: Vec<u64>,
    /// Bytes staged, negative where bytes came back.
    pub staging_bytes_delta: i64,
    /// Time waited for placement, in microseconds.
    pub placement_miss_wait_us: u64,
    /// The bytes of kernel state.
    pub state_bytes: u64,
    /// The sizer, by number.
    pub sizer: u8,
    /// The outcome, by code.
    pub outcome: u8,
    /// What went wrong, if something did.
    pub error: Option<String>,
}

/// The records of one stage, in their order.
pub open spec fn of_stage(s: Seq<TraceRecord>, stage: u16) -> Seq<TraceRecord>
    decreases s.len(),
{
    if s.len() == 0 {
        Seq::empty()
    } else {
        let rest = of_stage(s.drop_last(), stage);
        if s.last().stage == stage {
            rest.push(s.last())
        } else {
            rest
        }
    }
}

/// The newest `n` records of a stage, oldest first; all of them where there are fewer.
pub open spec fn newest(s: Seq<TraceRecord>, stage: u16, n: nat) -> Seq<TraceRecord> {
    let all = of_stage(s, stage);
    if all.len() <= n {
        all
    } else {
        all.skip(all.len() - n)
    }
}

/// What references refer to.
pub open spec fn referred(v: Seq<&TraceRecord>) -> Seq<TraceRecord> {
    Seq::new(v.len(), |i: int| *v[i])
}

/// The last `n` of some references, in their order.
fn last_of<'a>(all: &Vec<&'a TraceRecord>, n: usize) -> (r: Vec<&'a TraceRecord>)
    ensures
        referred(r@) == if all@.len() <= n {
            referred(all@)
        } else {
            referred(all@).skip(all@.len() - n)
        },
{
    let start = if all.len() <= n {
        0
    } else {
        all.len() - n
    };
    let mut out: Vec<&'a TraceRecord> = Vec::new();
    let mut i: usize = start;
    while i < all.len()
        invariant
            start <= i <= all@.len(),
            out@ == all@.subrange(start as int, i as int),
        decreases all@.len() - i,
    {
        out.push(all[i]);
        assert(out@ =~= all@.subrange(start as int, i + 1));
        i += 1;
    }
    assert(referred(out@) =~= referred(all@).skip(start as int));
    assert(referred(all@).skip(0) =~= referred(all@));
    out
}

/// The newest `n` records of a stage among some references, oldest first.
pub fn newest_of<'a>(all: &Vec<&'a TraceRecord>, stage: u16, n: usize) -> (r: Vec<&'a TraceRecord>)
    ensures
        referred(r@) == newest(referred(all@), stage, n as nat),
{
    let mut matching: Vec<&'a TraceRecord> = Vec::new();
    let mut i: usize = 0;
    assert(referred(matching@) =~= of_stage(referred(all@).take(0), stage));
    while i < all.len()
        invariant
            i <= all@.len(),
            referred(matching@) == of_stage(referred(all@).take(i as int), stage),
        decreases all@.len() - i,
    {
        assert(referred(all@).take(i + 1).drop_last() =~= referred(all@).take(i as int));
        let r = all[i];
        if r.stage == stage {
            let ghost before = matching@;
            matching.push(r);
            assert(referred(matching@) =~= referred(before).push(*all@[i as int]));
        }
        i += 1;
    }
    assert(referred(all@).take(i as int) =~= referred(all@));
    last_of(&matching, n)
}

} // verus!
