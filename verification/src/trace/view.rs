//! `TraceView`: a read-only view over everything recorded so far: the chunks in memory, and the
//! chunks in the overflow file or, once the trace is finished, the final file.

use crate::trace::record::{newest, newest_of, referred, TraceRecord};
use vstd::prelude::*;

verus! {

/// A chunk of records; a row that does not decode is none.
#[derive(Debug)]
pub struct Chunk {
    /// The rows.
    pub rows: Vec<Option<TraceRecord>>,
}

/// The rows that decode, in their order.
pub open spec fn decoded(rows: Seq<Option<TraceRecord>>) -> Seq<TraceRecord>
    decreases rows.len(),
{
    if rows.len() == 0 {
        Seq::empty()
    } else {
        let rest = decoded(rows.drop_last());
        match rows.last() {
            Some(r) => rest.push(r),
            None => rest,
        }
    }
}

/// The records of chunks, in their order.
pub open spec fn all_decoded(chunks: Seq<Chunk>) -> Seq<TraceRecord>
    decreases chunks.len(),
{
    if chunks.len() == 0 {
        Seq::empty()
    } else {
        all_decoded(chunks.drop_last()) + decoded(chunks.last().rows@)
    }
}

/// Every record of some chunks, oldest first.
pub fn records(chunks: &Vec<Chunk>) -> (r: Vec<&TraceRecord>)
    ensures
        referred(r@) == all_decoded(chunks@),
{
    let mut out: Vec<&TraceRecord> = Vec::new();
    let mut k: usize = 0;
    assert(referred(out@) =~= all_decoded(chunks@.take(0)));
    while k < chunks.len()
        invariant
            k <= chunks@.len(),
            referred(out@) == all_decoded(chunks@.take(k as int)),
        decreases chunks@.len() - k,
    {
        let rows = &chunks[k].rows;
        let ghost before = all_decoded(chunks@.take(k as int));
        assert(referred(out@) =~= before + decoded(rows@.take(0)));
        let mut i: usize = 0;
        while i < rows.len()
            invariant
                i <= rows@.len(),
                referred(out@) == before + decoded(rows@.take(i as int)),
            decreases rows@.len() - i,
        {
            assert(rows@.take(i + 1).drop_last() =~= rows@.take(i as int));
            if let Some(r) = &rows[i] {
                let ghost some = out@;
                out.push(r);
                assert(referred(out@) =~= referred(some).push(*r));
                assert(referred(out@) =~= before + decoded(rows@.take(i + 1)));
            }
            i += 1;
        }
        assert(rows@.take(i as int) =~= rows@);
        assert(chunks@.take(k + 1).drop_last() =~= chunks@.take(k as int));
        k += 1;
    }
    assert(chunks@.take(k as int) =~= chunks@);
    out
}

/// Which file the chunks that are not in memory come from.
#[derive(Clone, Copy, Debug, PartialEq, Eq, Structural)]
pub enum SpillFile {
    /// None.
    Nothing,
    /// The overflow file, of which so many chunks are complete and not yet read.
    Overflow(usize),
    /// The final file, which holds every chunk.
    Final,
}

/// What the next chunk is.
pub enum Next<'a> {
    /// The one that was read from the file.
    Read,
    /// One in memory.
    Memory(&'a Chunk),
    /// There is none.
    End,
}

/// The chunks of a trace, oldest first: those in a file, then those in memory.
pub struct Batches<'a> {
    /// The file.
    pub reader: SpillFile,
    /// The chunks in memory.
    pub memory: &'a Vec<Chunk>,
    /// How many of them were given.
    pub given: usize,
}

impl<'a> Batches<'a> {
    /// No more chunks were given than there are.
    pub open spec fn wf(&self) -> bool {
        self.given <= self.memory@.len()
    }

    /// Whether the next chunk is asked of the file.
    pub open spec fn asks(&self) -> bool {
        match self.reader {
            SpillFile::Nothing => false,
            SpillFile::Overflow(left) => left > 0,
            SpillFile::Final => true,
        }
    }

    /// Whether the next chunk is asked of the file.
    pub fn reads_file(&self) -> (r: bool)
        ensures
            r == self.asks(),
    {
        match self.reader {
            SpillFile::Nothing => false,
            SpillFile::Overflow(left) => left > 0,
            SpillFile::Final => true,
        }
    }

    /// The next chunk; `read` says whether the file, where it is asked, gave one. A file that
    /// ends early ends only its own part: what is in memory is given regardless.
    pub fn next(&mut self, read: bool) -> (n: Next<'a>)
        requires
            old(self).wf(),
        ensures
            final(self).wf(),
            final(self).memory == old(self).memory,
            if old(self).asks() && read {
                n is Read && final(self).given == old(self).given && final(self).reader == (
                match old(self).reader {
                    SpillFile::Overflow(left) => SpillFile::Overflow((left - 1) as usize),
                    r => r,
                })
            } else if old(self).reader == SpillFile::Final {
                n is End && *final(self) == *old(self)
            } else {
                &&& final(self).reader == SpillFile::Nothing
                &&& if old(self).given < old(self).memory@.len() {
                    n is Memory && *(n->Memory_0) == old(self).memory@[old(self).given as int]
                        && final(self).given == old(self).given + 1
                } else {
                    n is End && final(self).given == old(self).given
                }
            },
    {
        match self.reader {
            SpillFile::Overflow(left) => {
                if left > 0 && read {
                    self.reader = SpillFile::Overflow(left - 1);
                    return Next::Read;
                }
            },
            SpillFile::Final => {
                return if read {
                    Next::Read
                } else {
                    Next::End
                };
            },
            SpillFile::Nothing => {},
        }
        self.reader = SpillFile::Nothing;
        if self.given < self.memory.len() {
            let c = &self.memory[self.given];
            self.given = self.given + 1;
            Next::Memory(c)
        } else {
            Next::End
        }
    }
}

/// A read-only view over the trace.
pub struct TraceView {
    /// The chunks in memory, oldest first.
    pub memory: Vec<Chunk>,
    /// How many chunks of the overflow file are complete.
    pub overflow_chunks: usize,
    /// Every row recorded so far.
    pub rows: u64,
    /// Whether a chunk could not be written to the overflow file.
    pub overflow_lost: bool,
    /// Records that arrived too late.
    pub late: u64,
    /// Whether the trace is finished, so that the final file holds every chunk.
    pub finished: bool,
}

impl TraceView {
    /// Records in the trace.
    pub fn len(&self) -> (n: u64)
        ensures
            n == self.rows,
    {
        self.rows
    }

    /// Whether nothing was recorded.
    pub fn is_empty(&self) -> (r: bool)
        ensures
            r == (self.rows == 0),
    {
        self.rows == 0
    }

    /// Whether a chunk could not be written to the overflow file.
    pub fn overflow_failed(&self) -> (r: bool)
        ensures
            r == self.overflow_lost,
    {
        self.overflow_lost
    }

    /// Records that arrived after the trace was finished, or after its writer failed.
    pub fn late_records(&self) -> (n: u64)
        ensures
            n == self.late,
    {
        self.late
    }

    /// Which file is read, by whether the final and the overflow file can be.
    pub open spec fn reader(&self, final_readable: bool, overflow_readable: bool) -> SpillFile {
        if self.finished && final_readable {
            SpillFile::Final
        } else if self.overflow_chunks > 0 && overflow_readable {
            SpillFile::Overflow(self.overflow_chunks)
        } else {
            SpillFile::Nothing
        }
    }

    /// Every chunk of the trace, oldest first, by whether the final and the overflow file can
    /// be read.
    pub fn batches(&self, final_readable: bool, overflow_readable: bool) -> (b: Batches<'_>)
        ensures
            b.wf(),
            b.memory == self.memory,
            b.reader == self.reader(final_readable, overflow_readable),
            b.given == if b.reader == SpillFile::Final {
                self.memory@.len()
            } else {
                0
            },
    {
        if self.finished && final_readable {
            Batches { reader: SpillFile::Final, memory: &self.memory, given: self.memory.len() }
        } else if self.overflow_chunks > 0 && overflow_readable {
            Batches {
                reader: SpillFile::Overflow(self.overflow_chunks),
                memory: &self.memory,
                given: 0,
            }
        } else {
            Batches { reader: SpillFile::Nothing, memory: &self.memory, given: 0 }
        }
    }

    /// The newest `n` records of `stage` that are in memory, oldest first.
    pub fn tail(&self, stage: u16, n: usize) -> (r: Vec<&TraceRecord>)
        ensures
            referred(r@) == newest(all_decoded(self.memory@), stage, n as nat),
    {
        let all = records(&self.memory);
        newest_of(&all, stage, n)
    }
}

} // verus!
