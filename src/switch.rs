//! The sequential switch: routes one of its cycled inputs to the output,
//! moving on to the next input each time the clock crosses its high
//! threshold.
use vstd::prelude::*;
use crate::clock::lemma_mod_step;

verus! {

/// The input slot that carries the clock.
pub const CLOCK_INDEX: usize = 0;

/// The first cycled input slot.
pub const FIRST_INPUT_INDEX: usize = 1;

/// The clock level in force after the samples of `clock`, starting from
/// the level `was_high`.
pub open spec fn level_after(was_high: bool, clock: Seq<bool>) -> bool {
    if clock.len() == 0 {
        was_high
    } else {
        clock.last()
    }
}

/// Whether a clock sample at level `high`, following a sample at level
/// `was_high`, crosses the high threshold.
pub open spec fn crosses(was_high: bool, high: bool) -> bool {
    high && !was_high
}

/// The active input after one sample: a crossing of the clock's high
/// threshold moves to the next input, and from the last back to the first;
/// a clock that stays high moves nothing.
pub open spec fn next_input(current: nat, cycled: nat, was_high: bool, high: bool) -> nat {
    if crosses(was_high, high) {
        if current + 1 > cycled {
            FIRST_INPUT_INDEX as nat
        } else {
            current + 1
        }
    } else {
        current
    }
}

/// The active input after the samples of `clock`, starting from `current`
/// with the clock at level `was_high`.
pub open spec fn input_after(current: nat, cycled: nat, was_high: bool, clock: Seq<bool>) -> nat
    decreases clock.len(),
{
    if clock.len() == 0 {
        current
    } else {
        next_input(
            input_after(current, cycled, was_high, clock.drop_last()),
            cycled,
            level_after(was_high, clock.drop_last()),
            clock.last(),
        )
    }
}

/// The number of threshold crossings in `clock`, starting from the level
/// `was_high`.
pub open spec fn crossing_count(was_high: bool, clock: Seq<bool>) -> nat
    decreases clock.len(),
{
    if clock.len() == 0 {
        0
    } else {
        crossing_count(was_high, clock.drop_last()) + if crosses(
            level_after(was_high, clock.drop_last()),
            clock.last(),
        ) {
            1nat
        } else {
            0nat
        }
    }
}

/// Sample `i` of the first buffer in input slot `slot`, or `silence` where
/// the slot, its buffer or the sample is missing.
pub open spec fn slot_sample<S>(inputs: Seq<Vec<Vec<S>>>, slot: nat, i: nat, silence: S) -> S {
    if slot < inputs.len() && inputs[slot as int]@.len() > 0 && i < inputs[slot as int]@[0]@.len() {
        inputs[slot as int]@[0]@[i as int]
    } else {
        silence
    }
}

/// The active input advances by one for each crossing of the clock's
/// high threshold, cycling through `1..=cycled`: after `k` crossings from
/// input `current` it is `(current - 1 + k) mod cycled + 1`.
pub proof fn lemma_input_cycles(current: nat, cycled: nat, was_high: bool, clock: Seq<bool>)
    requires
        1 <= current <= cycled,
    ensures
        input_after(current, cycled, was_high, clock) == (current - 1 + crossing_count(was_high, clock)) as int
            % cycled as int + 1,
    decreases clock.len(),
{
    if clock.len() == 0 {
        vstd::arithmetic::div_mod::lemma_small_mod((current - 1) as nat, cycled);
    } else {
        lemma_input_cycles(current, cycled, was_high, clock.drop_last());
        let k = crossing_count(was_high, clock.drop_last());
        lemma_mod_step(current - 1 + k, cycled as int);
    }
}

/// Routes one of `cycled_inputs` input slots, after the clock slot, to the output.
pub struct SequentialSwitch {
    cycled_inputs: usize,
    current_input: usize,
    clock_high: bool,
}

impl SequentialSwitch {
    /// The number of cycled inputs.
    pub closed spec fn spec_cycled(&self) -> nat {
        self.cycled_inputs as nat
    }

    /// The input slot now routed to the output.
    pub closed spec fn spec_current(&self) -> nat {
        self.current_input as nat
    }

    /// Whether the last clock sample seen was at or above the threshold.
    pub closed spec fn spec_clock_high(&self) -> bool {
        self.clock_high
    }

    /// The active slot is one of the cycled inputs (the first, when there
    /// are none).
    pub closed spec fn wf(&self) -> bool {
        &&& FIRST_INPUT_INDEX <= self.current_input
        &&& (self.current_input <= self.cycled_inputs || self.current_input == FIRST_INPUT_INDEX)
    }

    /// A switch over `cycled_inputs` inputs, starting on the first.
    pub fn new(cycled_inputs: usize) -> (r: Self)
        ensures
            r.wf(),
            r.spec_cycled() == cycled_inputs,
            r.spec_current() == FIRST_INPUT_INDEX,
            !r.spec_clock_high(),
    {
        SequentialSwitch { cycled_inputs, current_input: FIRST_INPUT_INDEX, clock_high: false }
    }

    /// A switch with cycled inputs has one of them active.
    pub proof fn lemma_current_in_range(&self)
        requires
            self.wf(),
        ensures
            self.spec_current() >= FIRST_INPUT_INDEX,
            self.spec_cycled() > 0 ==> self.spec_current() <= self.spec_cycled(),
    {
    }

    /// Advances by one sample whose clock is at or above the threshold when
    /// `high`; returns the input slot that the sample is taken from.
    pub fn advance(&mut self, high: bool) -> (slot: usize)
        requires
            old(self).wf(),
            old(self).spec_cycled() > 0,
        ensures
            final(self).wf(),
            final(self).spec_cycled() == old(self).spec_cycled(),
            final(self).spec_current() == next_input(
                old(self).spec_current(),
                old(self).spec_cycled(),
                old(self).spec_clock_high(),
                high,
            ),
            final(self).spec_clock_high() == high,
            slot == final(self).spec_current(),
    {
        if high && !self.clock_high {
            if self.current_input >= self.cycled_inputs {
                self.current_input = FIRST_INPUT_INDEX;
            } else {
                self.current_input = self.current_input + 1;
            }
        }
        self.clock_high = high;
        self.current_input
    }

    /// One block, `clock` giving for each sample whether the clock input is
    /// at or above its high threshold: sample `i` of the output is sample
    /// `i` of the input slot active after the clock's sample `i`; with no
    /// cycled inputs the block is silent and the switch stays on its input.
    pub fn process<S: Copy>(&mut self, clock: &Vec<bool>, inputs: &Vec<Vec<Vec<S>>>, silence: S) -> (out: Vec<S>)
        requires
            old(self).wf(),
            forall|k: int| 0 <= k < inputs@.len() ==> (#[trigger] inputs@[k])@.len() <= 1,
        ensures
            final(self).wf(),
            final(self).spec_cycled() == old(self).spec_cycled(),
            out@.len() == clock@.len(),
            final(self).spec_clock_high() == level_after(old(self).spec_clock_high(), clock@),
            old(self).spec_cycled() == 0 ==> {
                &&& final(self).spec_current() == old(self).spec_current()
                &&& forall|i: int| 0 <= i < out@.len() ==> #[trigger] out@[i] == silence
            },
            old(self).spec_cycled() > 0 ==> {
                &&& final(self).spec_current() == input_after(
                    old(self).spec_current(),
                    old(self).spec_cycled(),
                    old(self).spec_clock_high(),
                    clock@,
                )
                &&& forall|i: int|
                    0 <= i < out@.len() ==> #[trigger] out@[i] == slot_sample(
                        inputs@,
                        input_after(
                            old(self).spec_current(),
                            old(self).spec_cycled(),
                            old(self).spec_clock_high(),
                            clock@.take(i + 1),
                        ),
                        i as nat,
                        silence,
                    )
            },
    {
        let mut out: Vec<S> = Vec::new();
        let mut i: usize = 0;
        if self.cycled_inputs == 0 {
            while i < clock.len()
                invariant
                    i <= clock@.len(),
                    out@.len() == i,
                    forall|j: int| 0 <= j < i ==> #[trigger] out@[j] == silence,
                decreases clock@.len() - i,
            {
                out.push(silence);
                i = i + 1;
            }
            if clock.len() > 0 {
                self.clock_high = clock[clock.len() - 1];
            }
            return out;
        }
        let ghost start = self.spec_current();
        let ghost cycled = self.spec_cycled();
        let ghost was_high = self.spec_clock_high();
        while i < clock.len()
            invariant
                self.wf(),
                cycled > 0,
                self.spec_cycled() == cycled,
                i <= clock@.len(),
                self.spec_current() == input_after(start, cycled, was_high, clock@.take(i as int)),
                self.spec_clock_high() == level_after(was_high, clock@.take(i as int)),
                out@.len() == i,
                forall|j: int|
                    0 <= j < i ==> #[trigger] out@[j] == slot_sample(
                        inputs@,
                        input_after(start, cycled, was_high, clock@.take(j + 1)),
                        j as nat,
                        silence,
                    ),
            decreases clock@.len() - i,
        {
            let slot = self.advance(clock[i]);
            assert(clock@.take(i + 1).drop_last() == clock@.take(i as int));
            let mut sample = silence;
            if slot < inputs.len() && inputs[slot].len() > 0 && i < inputs[slot][0].len() {
                sample = inputs[slot][0][i];
            }
            out.push(sample);
            i = i + 1;
        }
        assert(clock@.take(clock@.len() as int) == clock@);
        out
    }
}

} // verus!
