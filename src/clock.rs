//! A metronome: one high sample each time its counter reaches the interval.
use vstd::prelude::*;
use vstd::arithmetic::div_mod::{lemma_fundamental_div_mod, lemma_fundamental_div_mod_converse};

verus! {

/// Counting on from `x`, the remainder by `n` goes up by one and wraps to
/// zero after `n - 1`.
pub proof fn lemma_mod_step(x: int, n: int)
    requires
        x >= 0,
        n > 0,
    ensures
        (x + 1) % n == if x % n + 1 == n { 0 } else { x % n + 1 },
{
    lemma_fundamental_div_mod(x, n);
    let q = x / n;
    let r = x % n;
    if r + 1 == n {
        assert(x + 1 == (q + 1) * n + 0) by (nonlinear_arith)
            requires
                x == n * q + r,
                r + 1 == n,
        ;
        lemma_fundamental_div_mod_converse(x + 1, n, q + 1, 0);
    } else {
        assert(x + 1 == q * n + (r + 1)) by (nonlinear_arith)
            requires
                x == n * q + r,
        ;
        lemma_fundamental_div_mod_converse(x + 1, n, q, r + 1);
    }
}

/// The number of samples in one beat, `ceil(60 * sample_rate / bpm)`.
pub open spec fn beat_interval(bpm: nat, sample_rate: nat) -> nat
    recommends
        bpm > 0,
{
    ((60 * sample_rate + bpm - 1) / bpm as int) as nat
}

/// Whether the clock emits its high value `i` samples after a block
/// begins with the counter at `completed`.
pub open spec fn pulse_at(interval: nat, completed: nat, i: nat) -> bool {
    (completed + i) as int % (interval + 1) as int == interval
}

/// A pulse source: the counter runs from zero to the interval, the sample
/// on which it reaches the interval is high, and it then starts over.
pub struct Clock {
    interval: u64,
    completed: u64,
}

impl Clock {
    /// Samples from one pulse to the next, less one.
    pub closed spec fn spec_interval(&self) -> nat {
        self.interval as nat
    }

    /// The counter.
    pub closed spec fn spec_completed(&self) -> nat {
        self.completed as nat
    }

    /// The counter never passes the interval.
    pub closed spec fn wf(&self) -> bool {
        &&& self.completed <= self.interval
        &&& self.interval < u64::MAX
    }

    /// A clock for `bpm` beats per minute at `sample_rate`, its counter at zero.
    pub fn new(bpm: u32, sample_rate: u32) -> (r: Self)
        requires
            bpm > 0,
        ensures
            r.wf(),
            r.spec_interval() == beat_interval(bpm as nat, sample_rate as nat),
            r.spec_completed() == 0,
    {
        let samples: u64 = 60 * (sample_rate as u64);
        let interval: u64 = (samples + (bpm as u64) - 1) / (bpm as u64);
        assert(interval <= samples + (bpm as u64) - 1) by (nonlinear_arith)
            requires
                bpm >= 1,
                interval as int == (samples + bpm - 1) as int / bpm as int,
        ;
        Clock { interval, completed: 0 }
    }

    /// A clock that is high once every `interval + 1` samples, its counter
    /// at zero; for tempos that are not a whole number of beats per minute.
    pub fn with_interval(interval: u64) -> (r: Self)
        requires
            interval < u64::MAX,
        ensures
            r.wf(),
            r.spec_interval() == interval,
            r.spec_completed() == 0,
    {
        Clock { interval, completed: 0 }
    }

    /// Advances one sample; returns whether that sample is high.
    pub fn tick(&mut self) -> (high: bool)
        requires
            old(self).wf(),
        ensures
            final(self).wf(),
            final(self).spec_interval() == old(self).spec_interval(),
            high == (old(self).spec_completed() == old(self).spec_interval()),
            final(self).spec_completed() == (old(self).spec_completed() + 1) as int % (old(self).spec_interval() + 1) as int,
    {
        let high = self.completed == self.interval;
        proof {
            lemma_mod_step(self.completed as int, self.interval + 1);
            vstd::arithmetic::div_mod::lemma_small_mod(self.completed as nat, (self.interval + 1) as nat);
        }
        self.completed = self.completed + 1;
        if self.completed > self.interval {
            self.completed = 0;
        }
        high
    }

    /// One block of `len` samples: `high` where the counter reaches the
    /// interval, `low` elsewhere.
    pub fn process<S: Copy>(&mut self, len: usize, high: S, low: S) -> (out: Vec<S>)
        requires
            old(self).wf(),
        ensures
            final(self).wf(),
            final(self).spec_interval() == old(self).spec_interval(),
            final(self).spec_completed() == (old(self).spec_completed() + len) as int % (old(self).spec_interval() + 1) as int,
            out@.len() == len,
            forall|i: int|
                0 <= i < len ==> #[trigger] out@[i] == if pulse_at(
                    old(self).spec_interval(),
                    old(self).spec_completed(),
                    i as nat,
                ) {
                    high
                } else {
                    low
                },
    {
        let ghost interval = self.spec_interval();
        let ghost start = self.spec_completed();
        let mut out: Vec<S> = Vec::new();
        let mut i: usize = 0;
        proof {
            vstd::arithmetic::div_mod::lemma_small_mod(start, interval + 1);
        }
        while i < len
            invariant
                self.wf(),
                self.spec_interval() == interval,
                start <= interval,
                i <= len,
                self.spec_completed() == (start + i) as int % (interval + 1) as int,
                out@.len() == i,
                forall|j: int|
                    0 <= j < i ==> #[trigger] out@[j] == if pulse_at(interval, start, j as nat) {
                        high
                    } else {
                        low
                    },
            decreases len - i,
        {
            proof {
                let c = self.spec_completed();
                vstd::arithmetic::div_mod::lemma_small_mod(c, interval + 1);
                lemma_mod_step(c as int, (interval + 1) as int);
                lemma_mod_step(start + i, (interval + 1) as int);
            }
            let pulse = self.tick();
            if pulse {
                out.push(high);
            } else {
                out.push(low);
            }
            i = i + 1;
        }
        out
    }
}

} // verus!
