//! The hand-off between block evaluation and the device callback: the
//! order in which the sink queues samples, the sample the callback plays
//! for each frame, and the lazy start of the output stream.
use vstd::prelude::*;

verus! {

/// Sample `i` of every buffer of one input slot, in buffer order.
pub open spec fn frame_at<S>(slot: Seq<Vec<S>>, i: int) -> Seq<S> {
    Seq::new(slot.len(), |b: int| slot[b]@[i])
}

/// The first `n` frames of one input slot, one after the other.
pub open spec fn slot_stream<S>(slot: Seq<Vec<S>>, n: nat) -> Seq<S>
    decreases n,
{
    if n == 0 {
        Seq::empty()
    } else {
        slot_stream(slot, (n - 1) as nat) + frame_at(slot, n - 1)
    }
}

/// What the sink queues for one block of `len` samples: each input slot in
/// turn, frame by frame.
pub open spec fn queue_stream<S>(inputs: Seq<Vec<Vec<S>>>, len: nat) -> Seq<S>
    decreases inputs.len(),
{
    if inputs.len() == 0 {
        Seq::empty()
    } else {
        queue_stream(inputs.drop_last(), len) + slot_stream(inputs.last()@, len)
    }
}

/// The samples the sink hands to the queue for one block of `len`
/// samples, in the order it hands them over.
pub fn interleave<S: Copy>(inputs: &Vec<Vec<Vec<S>>>, len: usize) -> (out: Vec<S>)
    requires
        forall|k: int, b: int|
            0 <= k < inputs@.len() && 0 <= b < inputs@[k]@.len() ==> len <= (#[trigger] inputs@[k]@[b])@.len(),
    ensures
        out@ == queue_stream(inputs@, len as nat),
{
    let mut out: Vec<S> = Vec::new();
    let mut k: usize = 0;
    while k < inputs.len()
        invariant
            k <= inputs@.len(),
            forall|k2: int, b: int|
                0 <= k2 < inputs@.len() && 0 <= b < inputs@[k2]@.len() ==> len <= (#[trigger] inputs@[k2]@[b])@.len(),
            out@ == queue_stream(inputs@.take(k as int), len as nat),
        decreases inputs@.len() - k,
    {
        let slot = &inputs[k];
        let ghost prefix = out@;
        let mut i: usize = 0;
        while i < len
            invariant
                k < inputs@.len(),
                *slot == inputs@[k as int],
                i <= len,
                forall|b: int| 0 <= b < slot@.len() ==> len <= (#[trigger] slot@[b])@.len(),
                out@ == prefix + slot_stream(slot@, i as nat),
            decreases len - i,
        {
            let ghost before = out@;
            let mut b: usize = 0;
            while b < slot.len()
                invariant
                    i < len,
                    b <= slot@.len(),
                    forall|b2: int| 0 <= b2 < slot@.len() ==> len <= (#[trigger] slot@[b2])@.len(),
                    out@ == before + frame_at(slot@, i as int).take(b as int),
                decreases slot@.len() - b,
            {
                out.push(slot[b][i]);
                assert(frame_at(slot@, i as int).take(b + 1) =~= frame_at(slot@, i as int).take(b as int).push(
                    slot@[b as int]@[i as int],
                ));
                b = b + 1;
            }
            i = i + 1;
        }
        assert(inputs@.take(k + 1).drop_last() =~= inputs@.take(k as int));
        k = k + 1;
    }
    assert(inputs@.take(inputs@.len() as int) =~= inputs@);
    out
}

/// The sample the device plays for one frame: what was taken from the
/// queue, or `silence` when the queue was empty.
pub open spec fn frame_sample<S>(popped: Option<S>, silence: S) -> S {
    match popped {
        Some(v) => v,
        None => silence,
    }
}

/// The sample for one frame of the device callback, from what one pop of
/// the queue gave; an empty queue gives silence, never a wait or an error.
pub fn frame_value<S: Copy>(popped: Option<S>, silence: S) -> (r: S)
    ensures
        r == frame_sample(popped, silence),
{
    match popped {
        Some(v) => v,
        None => silence,
    }
}

/// The frames the callback plays for a run of pop outcomes.
pub open spec fn played<S>(pops: Seq<Option<S>>, silence: S) -> Seq<S> {
    pops.map_values(|p: Option<S>| frame_sample(p, silence))
}

/// While the producer keeps the queue from running dry, every frame plays
/// a queued sample, in queue order; while it stalls, every frame plays
/// silence.
pub proof fn lemma_underrun_only_when_empty<S>(pops: Seq<Option<S>>, silence: S)
    ensures
        (forall|f: int| 0 <= f < pops.len() ==> (#[trigger] pops[f]) is Some) ==> forall|f: int|
            0 <= f < pops.len() ==> #[trigger] played(pops, silence)[f] == pops[f]->Some_0,
        (forall|f: int| 0 <= f < pops.len() ==> (#[trigger] pops[f]) is None) ==> forall|f: int|
            0 <= f < pops.len() ==> #[trigger] played(pops, silence)[f] == silence,
{
}

/// Starts the output stream on the first block only.
pub struct StreamStart {
    started: bool,
}

impl StreamStart {
    /// Whether the stream has been started.
    pub closed spec fn spec_started(&self) -> bool {
        self.started
    }

    /// Nothing started yet.
    pub fn new() -> (r: Self)
        ensures
            !r.spec_started(),
    {
        StreamStart { started: false }
    }

    /// Called once per block: true exactly on the first call, when the
    /// stream is to be started.
    pub fn on_block(&mut self) -> (start: bool)
        ensures
            start == !old(self).spec_started(),
            final(self).spec_started(),
    {
        let start = !self.started;
        self.started = true;
        start
    }
}

} // verus!
