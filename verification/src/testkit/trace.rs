//! `FakeTrace`: records in memory, of which the oldest goes once there are too many.

use crate::testkit::sampler::one_more;
use crate::trace::record::{newest, newest_of, referred, TraceRecord};
use std::collections::VecDeque;
use vstd::prelude::*;
use vstd::std_specs::vecdeque::*;

verus! {

/// The trace as a test sees it.
pub struct FakeTrace {
    /// The records kept, oldest first.
    pub kept: VecDeque<TraceRecord>,
    /// How many are kept.
    pub limit: usize,
    /// Times it was flushed.
    pub flushed: u64,
    /// Times it was finished.
    pub finished: u64,
}

/// The newest `n` of some records.
pub open spec fn bounded(s: Seq<TraceRecord>, n: nat) -> Seq<TraceRecord> {
    if s.len() <= n {
        s
    } else {
        s.skip(s.len() - n)
    }
}

impl Default for FakeTrace {
    fn default() -> (t: Self)
        ensures
            t.wf(),
            t.kept@.len() == 0,
            t.limit == 4096,
            t.flushed == 0,
            t.finished == 0,
    {
        FakeTrace::new()
    }
}

impl FakeTrace {
    /// No more records are kept than the limit.
    pub open spec fn wf(&self) -> bool {
        self.kept@.len() <= self.limit
    }

    /// A trace that keeps the last 4096 records.
    pub fn new() -> (t: Self)
        ensures
            t.wf(),
            t.kept@.len() == 0,
            t.limit == 4096,
            t.flushed == 0,
            t.finished == 0,
    {
        FakeTrace { kept: VecDeque::new(), limit: 4096, flushed: 0, finished: 0 }
    }

    fn drop_oldest(&mut self)
        ensures
            final(self).kept@ == bounded(old(self).kept@, old(self).limit as nat),
            *final(self) == (FakeTrace { kept: final(self).kept, ..*old(self) }),
    {
        while self.kept.len() > self.limit
            invariant
                bounded(self.kept@, self.limit as nat) == bounded(
                    old(self).kept@,
                    old(self).limit as nat,
                ),
                *self == (FakeTrace { kept: self.kept, ..*old(self) }),
            decreases self.kept@.len(),
        {
            let ghost before = self.kept@;
            let _ = self.kept.pop_front();
            assert(self.kept@ =~= before.skip(1));
            assert(bounded(self.kept@, self.limit as nat) =~= bounded(before, self.limit as nat));
        }
    }

    /// Knob: how many records to keep before the oldest is dropped.
    pub fn capacity(self, n: usize) -> (t: Self)
        ensures
            t.wf(),
            t.kept@ == bounded(self.kept@, n as nat),
            t == (FakeTrace { kept: t.kept, limit: n, ..self }),
    {
        let mut t = self;
        t.limit = n;
        t.drop_oldest();
        t
    }

    /// Observable: every record kept, oldest first.
    pub fn records(&self) -> (r: Vec<&TraceRecord>)
        ensures
            referred(r@) == self.kept@,
    {
        let mut out: Vec<&TraceRecord> = Vec::new();
        let mut i: usize = 0;
        while i < self.kept.len()
            invariant
                i <= self.kept@.len(),
                referred(out@) == self.kept@.take(i as int),
            decreases self.kept@.len() - i,
        {
            let ghost before = out@;
            out.push(&self.kept[i]);
            assert(referred(out@) =~= referred(before).push(self.kept@[i as int]));
            assert(self.kept@.take(i + 1) =~= self.kept@.take(i as int).push(
                self.kept@[i as int],
            ));
            i += 1;
        }
        assert(self.kept@.take(i as int) =~= self.kept@);
        out
    }

    /// Observable: how many times `flush` was called.
    pub fn flush_calls(&self) -> (n: u64)
        ensures
            n == self.flushed,
    {
        self.flushed
    }

    /// Observable: how many times `finish` was called.
    pub fn finish_calls(&self) -> (n: u64)
        ensures
            n == self.finished,
    {
        self.finished
    }

    /// Count a finish, and give every record kept.
    pub fn finish(&mut self) -> (r: Vec<&TraceRecord>)
        ensures
            *final(self) == (FakeTrace { finished: one_more(old(self).finished), ..*old(self) }),
            referred(r@) == old(self).kept@,
    {
        self.finished = self.finished.wrapping_add(1);
        self.records()
    }

    /// Keep a record.
    pub fn record(&mut self, r: TraceRecord)
        ensures
            final(self).wf(),
            final(self).kept@ == bounded(old(self).kept@.push(r), old(self).limit as nat),
            *final(self) == (FakeTrace { kept: final(self).kept, ..*old(self) }),
    {
        self.kept.push_back(r);
        self.drop_oldest();
    }

    /// Count a flush.
    pub fn flush(&mut self)
        ensures
            *final(self) == (FakeTrace { flushed: one_more(old(self).flushed), ..*old(self) }),
    {
        self.flushed = self.flushed.wrapping_add(1);
    }

    /// The newest `n` records of a stage, oldest first.
    pub fn tail(&self, stage: u16, n: usize) -> (r: Vec<&TraceRecord>)
        ensures
            referred(r@) == newest(self.kept@, stage, n as nat),
    {
        let all = self.records();
        newest_of(&all, stage, n)
    }
}

} // verus!
