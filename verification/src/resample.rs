//! Rate conversion of captured audio by selecting input frames.
//!
//! A phase accumulator decides, frame by frame, whether an input frame is
//! written to the output. The phase starts at zero. A frame is written when
//! the phase has reached one whole output period, which is then taken off;
//! after every frame the phase grows by `target_rate / input_rate`.
//!
//! The phase is kept exactly, as a count of `1 / input_rate` parts: one
//! output period is `input_rate` parts and each frame adds `target_rate`.
//!
//! This picks frames and nothing more. No filter stands before it, so
//! content above half the target rate folds back into the output; and since
//! at most one frame is written per input frame, a device slower than the
//! target rate yields a recording that is short by the same factor.

use crate::error::CoreError;
use vstd::prelude::*;

verus! {

/// The rate, in hertz, that captured audio is converted to.
pub const TARGET_RATE: u32 = 16000;

/// The phase, in `1 / input_rate` parts, after `frames` input frames.
pub open spec fn phase_after(input_rate: nat, target_rate: nat, frames: nat) -> nat
    decreases frames,
{
    if frames == 0 {
        0
    } else {
        let before = phase_after(input_rate, target_rate, (frames - 1) as nat);
        let kept = if before >= input_rate {
            (before - input_rate) as nat
        } else {
            before
        };
        kept + target_rate
    }
}

/// Whether the input frame with the given position, counted from zero, is
/// written to the output.
pub open spec fn emits(input_rate: nat, target_rate: nat, frame: nat) -> bool {
    phase_after(input_rate, target_rate, frame) >= input_rate
}

/// How many of the first `frames` input frames are written to the output.
pub open spec fn emitted(input_rate: nat, target_rate: nat, frames: nat) -> nat
    decreases frames,
{
    if frames == 0 {
        0
    } else {
        emitted(input_rate, target_rate, (frames - 1) as nat) + if emits(
            input_rate,
            target_rate,
            (frames - 1) as nat,
        ) {
            1nat
        } else {
            0nat
        }
    }
}

/// Nothing is lost in the accumulator: the output periods taken off and the
/// phase that is left add up to what the frames brought.
pub proof fn lemma_phase_conservation(input_rate: nat, target_rate: nat, frames: nat)
    ensures
        emitted(input_rate, target_rate, frames) * input_rate + phase_after(
            input_rate,
            target_rate,
            frames,
        ) == frames * target_rate,
    decreases frames,
{
    if frames > 0 {
        let before = (frames - 1) as nat;
        lemma_phase_conservation(input_rate, target_rate, before);
        let e = emitted(input_rate, target_rate, before);
        assert(frames * target_rate == before * target_rate + target_rate) by (nonlinear_arith)
            requires
                frames == before + 1,
        ;
        if emits(input_rate, target_rate, before) {
            assert(emitted(input_rate, target_rate, frames) == e + 1);
            assert((e + 1) * input_rate == e * input_rate + input_rate) by (nonlinear_arith);
        } else {
            assert(emitted(input_rate, target_rate, frames) == e);
        }
    } else {
        assert(0 * input_rate == 0) by (nonlinear_arith);
        assert(0 * target_rate == 0) by (nonlinear_arith);
    }
}

/// When the device is at least as fast as the target, the phase stays
/// below two output periods, and from the first frame on it is at least
/// one frame's share.
pub proof fn lemma_phase_bounded(input_rate: nat, target_rate: nat, frames: nat)
    requires
        target_rate <= input_rate,
        0 < input_rate,
    ensures
        phase_after(input_rate, target_rate, frames) < input_rate + target_rate,
        frames > 0 ==> phase_after(input_rate, target_rate, frames) >= target_rate,
    decreases frames,
{
    if frames > 0 {
        lemma_phase_bounded(input_rate, target_rate, (frames - 1) as nat);
    }
}

/// The number of output samples follows the length of the input: with
/// `frames` input frames from a device at least as fast as the target, the
/// output holds fewer samples than `frames * target_rate / input_rate`,
/// the samples that the same duration has at the target rate, and falls
/// short of it by less than two.
pub proof fn lemma_output_tracks_duration(input_rate: nat, target_rate: nat, frames: nat)
    requires
        0 < target_rate <= input_rate,
        frames > 0,
    ensures
        emitted(input_rate, target_rate, frames) * input_rate < frames * target_rate,
        frames * target_rate < (emitted(input_rate, target_rate, frames) + 2) * input_rate,
{
    lemma_phase_conservation(input_rate, target_rate, frames);
    lemma_phase_bounded(input_rate, target_rate, frames);
    let e = emitted(input_rate, target_rate, frames);
    assert((e + 2) * input_rate == e * input_rate + 2 * input_rate) by (nonlinear_arith);
}

/// Where the input lasts a whole number of output periods, the output is
/// exactly one sample short of `frames * target_rate / input_rate`: the
/// first period is spent before the first frame is written.
pub proof fn lemma_whole_duration_is_one_short(input_rate: nat, target_rate: nat, frames: nat)
    requires
        0 < target_rate <= input_rate,
        frames > 0,
        (frames * target_rate) % input_rate == 0,
    ensures
        emitted(input_rate, target_rate, frames) + 1 == (frames * target_rate) / input_rate,
{
    lemma_phase_conservation(input_rate, target_rate, frames);
    lemma_phase_bounded(input_rate, target_rate, frames);
    let e = emitted(input_rate, target_rate, frames);
    let p = phase_after(input_rate, target_rate, frames);
    let total = frames * target_rate;
    assert(p == input_rate && total / input_rate == e + 1) by (nonlinear_arith)
        requires
            e * input_rate + p == total,
            total % input_rate == 0,
            0 < target_rate <= p < input_rate + target_rate,
            target_rate <= input_rate,
    ;
}

/// A device slower than the target gains nothing from the conversion:
/// every frame but the first is written once.
pub proof fn lemma_slow_device_emits_each_frame(input_rate: nat, target_rate: nat, frames: nat)
    requires
        0 < input_rate <= target_rate,
        frames > 0,
    ensures
        emitted(input_rate, target_rate, frames) == frames - 1,
        phase_after(input_rate, target_rate, frames) >= target_rate,
    decreases frames,
{
    if frames > 1 {
        lemma_slow_device_emits_each_frame(input_rate, target_rate, (frames - 1) as nat);
    } else {
        assert(phase_after(input_rate, target_rate, 0) == 0);
        assert(emitted(input_rate, target_rate, 0) == 0);
    }
}

/// The accumulator of one capture stream.
pub struct Resampler {
    input_rate: u32,
    target_rate: u32,
    phase: u64,
    frames: Ghost<nat>,
}

impl Resampler {
    /// The device's rate.
    pub closed spec fn input_rate(self) -> nat {
        self.input_rate as nat
    }

    /// The rate converted to.
    pub closed spec fn target_rate(self) -> nat {
        self.target_rate as nat
    }

    /// The number of input frames seen so far.
    pub closed spec fn frames(self) -> nat {
        self.frames@
    }

    /// The stored phase stands for the exact one. It is the exact one as
    /// long as that fits; a slow device lets the phase grow without bound,
    /// and the stored value then rests at the largest one, which decides
    /// every frame as the exact phase does.
    pub closed spec fn wf(self) -> bool {
        let exact = phase_after(self.input_rate as nat, self.target_rate as nat, self.frames@);
        &&& self.input_rate > 0
        &&& self.target_rate <= self.input_rate ==> exact < self.input_rate + self.target_rate
        &&& self.phase == exact || (self.phase == u64::MAX && exact >= u64::MAX)
    }

    /// An accumulator that converts from `input_rate` to `target_rate`
    /// frames per second. A device without a rate cannot be converted.
    pub fn new(input_rate: u32, target_rate: u32) -> (result: Result<Resampler, CoreError>)
        ensures
            match result {
                Ok(resampler) => {
                    &&& input_rate > 0
                    &&& resampler.wf()
                    &&& resampler.input_rate() == input_rate
                    &&& resampler.target_rate() == target_rate
                    &&& resampler.frames() == 0
                },
                Err(e) => input_rate == 0 && e == CoreError::StreamFormatUnsupported,
            },
    {
        if input_rate == 0 {
            Err(CoreError::StreamFormatUnsupported)
        } else {
            Ok(Resampler { input_rate, target_rate, phase: 0, frames: Ghost(0) })
        }
    }

    /// Takes one input frame and says whether it is written to the output.
    pub fn advance(&mut self) -> (emit: bool)
        requires
            old(self).wf(),
        ensures
            final(self).wf(),
            final(self).input_rate() == old(self).input_rate(),
            final(self).target_rate() == old(self).target_rate(),
            final(self).frames() == old(self).frames() + 1,
            emit == emits(old(self).input_rate(), old(self).target_rate(), old(self).frames()),
    {
        let ghost exact = phase_after(
            self.input_rate as nat,
            self.target_rate as nat,
            self.frames@,
        );
        let emit = self.phase >= self.input_rate as u64;
        let kept: u64 = if emit {
            self.phase - self.input_rate as u64
        } else {
            self.phase
        };
        let room: u64 = u64::MAX - kept;
        if room < self.target_rate as u64 {
            self.phase = u64::MAX;
        } else {
            self.phase = kept + self.target_rate as u64;
        }
        self.frames = Ghost((self.frames@ + 1) as nat);
        emit
    }

    /// Takes a block of `block` input frames and lists, in rising order,
    /// the positions within the block of the frames to write.
    pub fn select(&mut self, block: usize) -> (picked: Vec<usize>)
        requires
            old(self).wf(),
        ensures
            final(self).wf(),
            final(self).input_rate() == old(self).input_rate(),
            final(self).target_rate() == old(self).target_rate(),
            final(self).frames() == old(self).frames() + block,
            picks_emitted(
                picked@,
                old(self).input_rate(),
                old(self).target_rate(),
                old(self).frames(),
                block as nat,
            ),
            picked@.len() == emitted(
                old(self).input_rate(),
                old(self).target_rate(),
                (old(self).frames() + block) as nat,
            ) - emitted(old(self).input_rate(), old(self).target_rate(), old(self).frames()),
    {
        let ghost base = self.frames@;
        let ghost rate = self.input_rate as nat;
        let ghost target = self.target_rate as nat;
        let mut picked: Vec<usize> = Vec::new();
        let mut i: usize = 0;
        while i < block
            invariant
                self.wf(),
                self.input_rate() == rate,
                self.target_rate() == target,
                self.frames() == base + i,
                i <= block,
                picks_emitted(picked@, rate, target, base, i as nat),
                picked@.len() == emitted(rate, target, (base + i) as nat) - emitted(rate, target, base),
            decreases block - i,
        {
            let ghost before = picked@;
            let emit = self.advance();
            if emit {
                picked.push(i);
            }
            proof {
                assert forall|p: nat| p < i + 1 && #[trigger] emits_at(
                    rate,
                    target,
                    base,
                    p,
                ) implies picked@.contains(p as usize) by {
                    if p < i {
                        assert(before.contains(p as usize));
                        let k = choose|k: int| 0 <= k < before.len() && before[k] == p as usize;
                        assert(picked@[k] == p as usize);
                    } else {
                        assert(picked@[before.len() as int] == p as usize);
                    }
                }
            }
            i = i + 1;
        }
        picked
    }
}

/// Whether the frame `offset` places after the first `base` frames is
/// written to the output.
pub open spec fn emits_at(input_rate: nat, target_rate: nat, base: nat, offset: nat) -> bool {
    emits(input_rate, target_rate, base + offset)
}

/// `picked` lists, in rising order, exactly those of the `block` frames
/// after the first `base` that are written to the output.
pub open spec fn picks_emitted(
    picked: Seq<usize>,
    input_rate: nat,
    target_rate: nat,
    base: nat,
    block: nat,
) -> bool {
    &&& forall|k: int|
        0 <= k < picked.len() ==> (#[trigger] picked[k]) < block && emits_at(
            input_rate,
            target_rate,
            base,
            picked[k] as nat,
        )
    &&& forall|k: int, l: int| 0 <= k < l < picked.len() ==> picked[k] < picked[l]
    &&& forall|p: nat|
        p < block && #[trigger] emits_at(input_rate, target_rate, base, p) ==> picked.contains(
            p as usize,
        )
}

} // verus!
