//! `FakeSampler`: a scripted sequence of samples, or a figure that moves.

use vstd::prelude::*;

verus! {

/// A reading of a process.
#[derive(Clone, Copy, Debug, PartialEq, Eq, Structural)]
pub struct Sample {
    /// When it was taken, in nanoseconds.
    pub at_ns: u64,
    /// The anonymous bytes the process holds.
    pub anon_bytes: u64,
    /// The most it held since the peak was last reset.
    pub peak_anon_bytes: u64,
}

/// A reading of nothing.
pub open spec fn zeroes() -> Sample {
    Sample { at_ns: 0, anon_bytes: 0, peak_anon_bytes: 0 }
}

impl Default for Sample {
    fn default() -> (s: Self)
        ensures
            s == zeroes(),
    {
        Sample { at_ns: 0, anon_bytes: 0, peak_anon_bytes: 0 }
    }
}

/// The sampler as a test sees it.
pub struct FakeSampler {
    /// What it returns in turn.
    pub script: Vec<Sample>,
    /// How much of the script was returned.
    pub cursor: u64,
    /// Whether it is live instead.
    pub is_live: bool,
    /// Samples taken.
    pub taken: u64,
    /// Times the peak was reset.
    pub resets: u64,
}

/// A count after one more; it wraps.
pub open spec fn one_more(n: u64) -> u64 {
    ((n + 1) % 0x1_0000_0000_0000_0000) as u64
}

impl Default for FakeSampler {
    fn default() -> (s: Self)
        ensures
            s.script@.len() == 0,
            s.cursor == 0,
            !s.is_live,
            s.taken == 0,
            s.resets == 0,
    {
        FakeSampler::new()
    }
}

/// A live figure moves: two samples in turn differ.
pub proof fn law_live_samples_move(s: FakeSampler, t: FakeSampler, a: u64, b: u64)
    requires
        s.is_live,
        t == (FakeSampler { taken: one_more(s.taken), ..s }),
    ensures
        s.next(a).anon_bytes != t.next(b).anon_bytes,
{
}

impl FakeSampler {
    /// A sampler that reports zeroes.
    pub fn new() -> (s: Self)
        ensures
            s.script@.len() == 0,
            s.cursor == 0,
            !s.is_live,
            s.taken == 0,
            s.resets == 0,
    {
        FakeSampler { script: Vec::new(), cursor: 0, is_live: false, taken: 0, resets: 0 }
    }

    /// Knob: return this sequence of samples, then repeat the last one.
    pub fn scripted(self, samples: Vec<Sample>) -> (s: Self)
        ensures
            s == (FakeSampler { script: samples, cursor: 0, ..self }),
    {
        let mut s = self;
        s.script = samples;
        s.cursor = 0;
        s
    }

    /// Knob: return live samples instead of a script. A live sample is stamped by the clock, and
    /// its anonymous bytes are the samples taken: a number that moves, without a platform
    /// dependency.
    pub fn live(self) -> (s: Self)
        ensures
            s == (FakeSampler { is_live: true, ..self }),
    {
        let mut s = self;
        s.is_live = true;
        s
    }

    /// Observable: how many samples were taken.
    pub fn samples_taken(&self) -> (n: u64)
        ensures
            n == self.taken,
    {
        self.taken
    }

    /// Observable: how many times the peak was reset.
    pub fn peak_resets(&self) -> (n: u64)
        ensures
            n == self.resets,
    {
        self.resets
    }

    /// The next sample, at `now_ns` by the clock.
    pub open spec fn next(&self, now_ns: u64) -> Sample {
        if self.is_live {
            Sample { at_ns: now_ns, anon_bytes: one_more(self.taken), ..zeroes() }
        } else if self.script@.len() == 0 {
            zeroes()
        } else if self.cursor < self.script@.len() {
            self.script@[self.cursor as int]
        } else {
            self.script@.last()
        }
    }

    /// Take a sample, at `now_ns` by the clock.
    pub fn sample(&mut self, now_ns: u64) -> (s: Sample)
        ensures
            s == old(self).next(now_ns),
            *final(self) == (FakeSampler {
                taken: one_more(old(self).taken),
                cursor: if old(self).is_live || old(self).script@.len() == 0 {
                    old(self).cursor
                } else {
                    one_more(old(self).cursor)
                },
                ..*old(self)
            }),
    {
        self.taken = self.taken.wrapping_add(1);
        if self.is_live {
            return Sample { at_ns: now_ns, anon_bytes: self.taken, peak_anon_bytes: 0 };
        }
        let n = self.script.len();
        if n == 0 {
            return Sample::default();
        }
        let at = self.cursor;
        self.cursor = at.wrapping_add(1);
        let index = if at < n as u64 {
            at as usize
        } else {
            n - 1
        };
        self.script[index]
    }

    /// Reset the peak.
    pub fn reset_peak(&mut self)
        ensures
            *final(self) == (FakeSampler { resets: one_more(old(self).resets), ..*old(self) }),
    {
        self.resets = self.resets.wrapping_add(1);
    }
}

} // verus!
