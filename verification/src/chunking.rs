//! How a loaded buffer is cut up for decoding: one pass over a short
//! buffer, overlapping fixed windows over a long one.
//!
//! All positions are sample offsets at the engine's fixed rate, so thirty
//! seconds are 480000 samples and one second is 16000.

use vstd::prelude::*;

verus! {

/// The rate, in hertz, of every buffer the engine decodes.
pub const SAMPLE_RATE: u32 = 16000;

/// Length of a decoding window: thirty seconds.
pub const WINDOW_SAMPLES: usize = 480000;

/// What two neighbouring windows share: one second.
pub const OVERLAP_SAMPLES: usize = 16000;

/// Distance between the starts of two neighbouring windows.
pub const STRIDE_SAMPLES: usize = 464000;

/// How a buffer is decoded.
#[derive(Clone, Copy, Debug, PartialEq, Eq, Structural)]
pub enum Strategy {
    /// The whole buffer in one decode.
    SinglePass,
    /// Overlapping windows, decoded independently of one another.
    Chunked,
}

/// A slice `[start, end)` of a buffer, with its place among the slices.
#[derive(Clone, Copy, Debug, PartialEq, Eq, Structural)]
pub struct Chunk {
    pub index: usize,
    pub start: usize,
    pub end: usize,
}

/// The least whole number of `step`s that reach `amount`.
pub open spec fn ceil_div(amount: int, step: int) -> int {
    (amount + step - 1) / step
}

/// A buffer shorter than one window is decoded in one pass.
pub open spec fn spec_strategy(samples: nat) -> Strategy {
    if samples < WINDOW_SAMPLES {
        Strategy::SinglePass
    } else {
        Strategy::Chunked
    }
}

/// One chunk for a single pass; otherwise the windows needed to reach the
/// end of the buffer when each but the first brings one stride of new audio.
pub open spec fn spec_chunk_count(samples: nat) -> nat {
    if samples < WINDOW_SAMPLES {
        1
    } else {
        ceil_div(samples - OVERLAP_SAMPLES, STRIDE_SAMPLES as int) as nat
    }
}

/// The `index`-th chunk of a buffer of `samples` samples.
pub open spec fn spec_chunk(samples: nat, index: nat) -> Chunk {
    if samples < WINDOW_SAMPLES {
        Chunk { index: index as usize, start: 0, end: samples as usize }
    } else {
        let start = index * STRIDE_SAMPLES;
        let end = if start + WINDOW_SAMPLES <= samples {
            start + WINDOW_SAMPLES
        } else {
            samples as int
        };
        Chunk { index: index as usize, start: start as usize, end: end as usize }
    }
}

/// The whole plan, chunk by chunk in index order.
pub open spec fn spec_plan(samples: nat) -> Seq<Chunk> {
    Seq::new(spec_chunk_count(samples), |i: int| spec_chunk(samples, i as nat))
}

/// The number of decodes that may run at once: one per chunk, but never
/// more than the machine has hardware threads, and at least one.
pub open spec fn spec_worker_count(chunks: nat, parallelism: nat) -> nat {
    if chunks == 0 || parallelism == 0 {
        1
    } else if chunks < parallelism {
        chunks
    } else {
        parallelism
    }
}

/// For a chunked buffer the count is the least `c` with
/// `c * stride >= samples - overlap`; a buffer of exactly one window is one
/// chunk, a longer one at least two.
pub proof fn lemma_chunk_count_bounds(samples: nat)
    requires
        samples >= WINDOW_SAMPLES,
    ensures
        spec_chunk_count(samples) >= 1,
        samples > WINDOW_SAMPLES ==> spec_chunk_count(samples) >= 2,
        spec_chunk_count(samples) * STRIDE_SAMPLES >= samples - OVERLAP_SAMPLES,
        (spec_chunk_count(samples) - 1) * STRIDE_SAMPLES < samples - OVERLAP_SAMPLES,
{
}

/// The chunks of a plan leave no gap and carry no needless window: the
/// first starts at the beginning, the last ends at the end, every chunk but
/// the last is one full window, each one starts one overlap before its
/// predecessor ends, and each holds more than the overlap alone.
pub proof fn lemma_plan_covers(samples: nat, index: nat)
    requires
        samples >= WINDOW_SAMPLES,
        samples <= usize::MAX,
        index < spec_chunk_count(samples),
    ensures
        spec_chunk(samples, 0).start == 0,
        spec_chunk(samples, (spec_chunk_count(samples) - 1) as nat).end == samples,
        spec_chunk(samples, index).start == index * STRIDE_SAMPLES,
        spec_chunk(samples, index).start + OVERLAP_SAMPLES < spec_chunk(samples, index).end,
        spec_chunk(samples, index).end - spec_chunk(samples, index).start <= WINDOW_SAMPLES,
        spec_chunk(samples, index).end <= samples,
        index + 1 < spec_chunk_count(samples) ==> {
            &&& spec_chunk(samples, index).end == spec_chunk(samples, index).start
                + WINDOW_SAMPLES
            &&& spec_chunk(samples, index + 1).start + OVERLAP_SAMPLES == spec_chunk(
                samples,
                index,
            ).end
        },
{
    lemma_chunk_count_bounds(samples);
}

/// Every chunk of a plan lies within its buffer.
pub proof fn lemma_chunk_within(samples: nat, index: nat)
    requires
        samples <= usize::MAX,
        index < spec_chunk_count(samples),
    ensures
        spec_chunk(samples, index).start <= spec_chunk(samples, index).end <= samples,
{
    if samples >= WINDOW_SAMPLES {
        lemma_plan_covers(samples, index);
    }
}

/// A buffer shorter than one window is planned as the single chunk that
/// spans it, with no overlap applied.
pub proof fn lemma_short_buffer_single_pass(samples: nat)
    requires
        samples < WINDOW_SAMPLES,
    ensures
        spec_strategy(samples) == Strategy::SinglePass,
        spec_plan(samples) =~= seq![Chunk { index: 0, start: 0, end: samples as usize }],
{
}

/// Chooses between one pass and overlapping windows.
pub fn select_strategy(samples: usize) -> (strategy: Strategy)
    ensures
        strategy == spec_strategy(samples as nat),
{
    if samples < WINDOW_SAMPLES {
        Strategy::SinglePass
    } else {
        Strategy::Chunked
    }
}

/// The number of chunks a buffer of `samples` samples is decoded in.
pub fn chunk_count(samples: usize) -> (count: usize)
    ensures
        count == spec_chunk_count(samples as nat),
        count >= 1,
{
    if samples < WINDOW_SAMPLES {
        1
    } else {
        let fresh: usize = samples - OVERLAP_SAMPLES;
        let whole: usize = fresh / STRIDE_SAMPLES;
        if fresh % STRIDE_SAMPLES == 0 {
            whole
        } else {
            whole + 1
        }
    }
}

/// The chunks of a buffer of `samples` samples, in index order.
pub fn plan_chunks(samples: usize) -> (plan: Vec<Chunk>)
    ensures
        plan@ == spec_plan(samples as nat),
{
    let count: usize = chunk_count(samples);
    let mut plan: Vec<Chunk> = Vec::new();
    if samples < WINDOW_SAMPLES {
        plan.push(Chunk { index: 0, start: 0, end: samples });
        assert(plan@ =~= spec_plan(samples as nat));
        return plan;
    }
    proof {
        lemma_chunk_count_bounds(samples as nat);
    }
    let mut index: usize = 0;
    while index < count
        invariant
            samples >= WINDOW_SAMPLES,
            count == spec_chunk_count(samples as nat),
            (count - 1) * STRIDE_SAMPLES < samples - OVERLAP_SAMPLES,
            index <= count,
            plan@.len() == index,
            forall|i: int| 0 <= i < index ==> plan@[i] == spec_chunk(samples as nat, i as nat),
        decreases count - index,
    {
        assert(index * STRIDE_SAMPLES <= (count - 1) * STRIDE_SAMPLES) by (nonlinear_arith)
            requires
                index <= count - 1,
        ;
        let start: usize = index * STRIDE_SAMPLES;
        let end: usize = if samples - start >= WINDOW_SAMPLES {
            start + WINDOW_SAMPLES
        } else {
            samples
        };
        plan.push(Chunk { index, start, end });
        index = index + 1;
    }
    assert(plan@ =~= spec_plan(samples as nat));
    plan
}

/// How many chunk decodes to run at once on a machine with `parallelism`
/// hardware threads.
pub fn worker_count(chunks: usize, parallelism: usize) -> (workers: usize)
    ensures
        workers == spec_worker_count(chunks as nat, parallelism as nat),
        workers >= 1,
{
    if chunks == 0 || parallelism == 0 {
        1
    } else if chunks < parallelism {
        chunks
    } else {
        parallelism
    }
}

} // verus!
