//! One read of a row group, step by step: what is asked of the disk, and what is counted.

use crate::error::MorunaError;
use crate::sources::read::{
    check_fetch, covers, failed, fetch_len, held, page_floor, ranges_of, row_group, span_of, upright,
};
use crate::sources::stats::{counted, more, Count, Counters, SourceStats};
use crate::text::{cat2, cat3, cat5, dec, dec_text};
use vstd::prelude::*;

verus! {

/// A read begins: it is counted, whether or not the file has the row group that the plan names.
pub fn begin_read(counters: &mut Counters, split: u64, groups: usize, planned: usize) -> (r: Result<
    usize,
    MorunaError,
>)
    ensures
        final(counters)@ == counted(old(counters)@, Count::Reads, 1),
        match r {
            Ok(i) => planned < groups && i == planned,
            Err(e) => planned >= groups && e@ == failed(
                split,
                "the plan names no such row group"@,
            ),
        },
{
    counters.add(Count::Reads, 1);
    row_group(split, groups, planned)
}

/// The decoded rows were copied into the arena: what is returned is what the allocator is to
/// note as copied payload, and the counter grows by just that.
pub fn copy_done(counters: &mut Counters, copied: u64) -> (noted: u64)
    ensures
        noted == copied,
        final(counters)@ == counted(old(counters)@, Count::DecodeBytes, noted),
{
    counters.add(Count::DecodeBytes, copied);
    copied
}

/// The payload is made: a single row above any legal maximum is counted.
pub fn payload_made(counters: &mut Counters, oversized: bool)
    ensures
        final(counters)@ == if oversized {
            counted(old(counters)@, Count::OversizedRows, 1)
        } else {
            old(counters)@
        },
{
    if oversized {
        counters.add(Count::OversizedRows, 1);
    }
}

/// A whole read counts once, and its decoded bytes grow by the payload copy that is noted;
/// nothing else is counted but a row that is too large.
pub proof fn law_a_read_counts_once(before: SourceStats, noted: u64, oversized: bool)
    ensures
        ({
            let copied = counted(counted(before, Count::Reads, 1), Count::DecodeBytes, noted);
            let after = if oversized {
                counted(copied, Count::OversizedRows, 1)
            } else {
                copied
            };
            after == (SourceStats {
                reads: more(before.reads, 1),
                decode_bytes: more(before.decode_bytes, noted),
                oversized_rows: if oversized {
                    more(before.oversized_rows, 1)
                } else {
                    before.oversized_rows
                },
                ..before
            })
        }),
{
}

/// The ranges of one row group's read, and how many of them came back.
pub struct GroupRead {
    /// The split that is read.
    pub split: u64,
    /// The file.
    pub path: String,
    /// Its length.
    pub file_len: u64,
    /// The byte ranges to fetch, as starts and ends.
    pub ranges: Vec<(u64, u64)>,
    /// How many came back whole.
    pub done: usize,
}

impl GroupRead {
    /// No more ranges came back than there are.
    pub open spec fn wf(&self) -> bool {
        self.done <= self.ranges@.len()
    }

    /// Whether another range is to be fetched.
    pub open spec fn waiting(&self) -> bool {
        self.done < self.ranges@.len()
    }

    /// The range that is to be fetched.
    pub open spec fn current(&self) -> (u64, u64) {
        self.ranges@[self.done as int]
    }

    /// A read of column chunks, each given by its start and length.
    pub fn new(split: u64, path: String, chunks: &Vec<(u64, u64)>, page: u64, file_len: u64) -> (r:
        GroupRead)
        requires
            page > 0,
            forall|i: int|
                0 <= i < chunks@.len() ==> (#[trigger] chunks@[i]).0 + chunks@[i].1 + page
                    <= u64::MAX,
        ensures
            r.wf(),
            r.done == 0,
            r.split == split,
            r.path@ == path@,
            r.file_len == file_len,
            covers(chunks@, page, file_len, r.ranges@),
            (forall|i: int|
                0 <= i < chunks@.len() ==> (#[trigger] chunks@[i]).0 + chunks@[i].1 <= file_len)
                ==> forall|i: int|
                0 <= i < chunks@.len() ==> held(r.ranges@, span_of(#[trigger] chunks@[i])),
            (forall|i: int|
                0 <= i < chunks@.len() ==> page_floor((#[trigger] chunks@[i]).0, page) <= file_len)
                ==> upright(r.ranges@),
    {
        GroupRead { split, path, file_len, ranges: ranges_of(chunks, page, file_len), done: 0 }
    }

    /// The start and the length of the next range to fetch; `None` when all came back.
    pub fn next(&self) -> (r: Result<Option<(u64, usize)>, MorunaError>)
        requires
            self.wf(),
            self.waiting() ==> self.current().0 <= self.current().1,
        ensures
            match r {
                Ok(None) => !self.waiting(),
                Ok(Some((start, n))) => self.waiting() && start == self.current().0 && n
                    == self.current().1 - start,
                Err(e) => {
                    &&& self.waiting()
                    &&& self.current().1 - self.current().0 > usize::MAX
                    &&& e@ == failed(
                        self.split,
                        "a range of "@ + dec((self.current().1 - self.current().0) as nat)
                            + " bytes does not fit in memory"@,
                    )
                },
            },
    {
        if self.done == self.ranges.len() {
            return Ok(None);
        }
        let (start, end) = self.ranges[self.done];
        match fetch_len(self.split, start, end) {
            Ok(n) => Ok(Some((start, n))),
            Err(e) => Err(e),
        }
    }

    /// Take in what became of the current range: how many bytes of it came, or why none did.
    pub fn fetched(&mut self, outcome: Result<usize, String>) -> (r: Result<(), MorunaError>)
        requires
            old(self).wf(),
            old(self).waiting(),
            old(self).current().0 <= old(self).current().1,
            outcome matches Ok(n) ==> old(self).current().0 + n <= u64::MAX,
        ensures
            final(self).wf(),
            ({
                let (start, end) = old(self).current();
                match outcome {
                    Ok(n) if n >= end - start || start + n == old(self).file_len => r is Ok
                        && *final(self) == (GroupRead {
                        done: (old(self).done + 1) as usize,
                        ..*old(self)
                    }),
                    Ok(n) => *final(self) == *old(self) && r is Err && r->Err_0@ == failed(
                        old(self).split,
                        old(self).path@ + ": bytes "@ + dec(start as nat) + ".."@ + (dec(end as nat)
                            + " came back short at "@ + dec((start + n) as nat)),
                    ),
                    Err(why) => *final(self) == *old(self) && r is Err && r->Err_0@ == failed(
                        old(self).split,
                        ("reading bytes "@ + dec(start as nat) + ".."@ + dec(end as nat)
                            + " of "@) + (old(self).path@ + ": "@ + why@),
                    ),
                }
            }),
    {
        let (start, end) = self.ranges[self.done];
        match outcome {
            Ok(n) => {
                let checked = check_fetch(self.split, &self.path, start, end, n, self.file_len);
                if checked.is_ok() {
                    assert(self.done < self.ranges.len());
                    self.done += 1;
                }
                checked
            },
            Err(why) => {
                let a = dec_text(start);
                let b = dec_text(end);
                let head = cat5("reading bytes ", &a, "..", &b, " of ");
                let tail = cat3(&self.path, ": ", &why);
                Err(MorunaError::Source { split: self.split, msg: cat2(&head, &tail) })
            },
        }
    }
}

} // verus!
