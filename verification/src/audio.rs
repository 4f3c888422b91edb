//! Loading a finished capture artifact into the buffer the engine decodes.
//!
//! A buffer holds one channel of sixteen-bit samples at the engine's rate.
//! A sample stands for the amplitude `sample / 32767`, so a buffer holds no
//! sample below -32767: every amplitude lies between -1 and 1. Scaling to
//! that range is left to the caller that feeds the engine.
//!
//! Nothing is resampled on this path: an artifact at another rate is turned
//! down as soon as its header is read, before any sample is decoded, since
//! rate conversion belongs to live capture alone. Several channels are
//! mixed down to one by the mean of each frame.
//!
//! Samples held as floating point numbers cannot be kept here. For a
//! container of such samples the load names the conversion as the caller's
//! next step; the converted samples are then loaded as plain values.

use crate::chunking::{
    chunk_count, plan_chunks, select_strategy, spec_chunk_count, spec_plan, spec_strategy, Chunk,
    Strategy, SAMPLE_RATE, WINDOW_SAMPLES,
};
use crate::error::CoreError;
use vstd::prelude::*;

verus! {

/// The error type of the `hound` crate.
#[verifier::external_type_specification]
#[verifier::external_body]
pub struct ExHoundError(hound::Error);

/// How a container holds its samples.
#[derive(Clone, Copy, Debug, PartialEq, Eq, Structural)]
pub enum SampleKind {
    /// As integers.
    Int,
    /// As floating point numbers.
    Float,
}

/// What the header of a WAVE container says.
#[derive(Clone, Copy, Debug, PartialEq, Eq, Structural)]
pub struct WavHeader {
    pub channels: u16,
    pub sample_rate: u32,
    pub bits_per_sample: u16,
    pub sample_kind: SampleKind,
}

/// Decoded audio: the samples of all channels, interleaved, and what is
/// needed to read them.
pub struct WavData {
    pub channels: u16,
    pub sample_rate: u32,
    pub samples: Vec<i16>,
}

/// `WavData` over plain values.
pub struct WavContents {
    pub channels: u16,
    pub sample_rate: u32,
    pub samples: Seq<i16>,
}

impl View for WavData {
    type V = WavContents;

    open spec fn view(&self) -> WavContents {
        WavContents {
            channels: self.channels,
            sample_rate: self.sample_rate,
            samples: self.samples@,
        }
    }
}

/// The header that `hound` reads from `bytes`, or `None` where it reads no
/// WAVE container.
pub uninterp spec fn wav_header(bytes: Seq<u8>) -> Option<WavHeader>;

/// The samples that `hound` reads from `bytes` as sixteen-bit integers, or
/// `None` where it cannot read all of them as such.
pub uninterp spec fn wav_samples(bytes: Seq<u8>) -> Option<Seq<i16>>;

/// What an attempt to read a header gave, over plain values.
pub open spec fn header_view(result: Result<WavHeader, hound::Error>) -> Option<WavHeader> {
    match result {
        Ok(header) => Some(header),
        Err(_) => None,
    }
}

/// What an attempt to read the samples gave, over plain values.
pub open spec fn samples_view(result: Result<Vec<i16>, hound::Error>) -> Option<Seq<i16>> {
    match result {
        Ok(samples) => Some(samples@),
        Err(_) => None,
    }
}

/// Reads the header of a WAVE container held in memory with `hound`, by
/// `WavReader::new` and `WavReader::spec`. No sample is decoded.
///
/// The contract claims that the outcome is a function of the bytes, which
/// holds because `hound` reads nothing but the reader it is given, and
/// gives that outcome the name `wav_header`. It claims further that a
/// header that was read names at least one channel: `hound` refuses a
/// container with none.
#[verifier::external_body]
fn read_wav_header(bytes: &[u8]) -> (result: Result<WavHeader, hound::Error>)
    ensures
        header_view(result) == wav_header(bytes@),
        result matches Ok(header) ==> header.channels >= 1,
{
    let spec = hound::WavReader::new(std::io::Cursor::new(bytes))?.spec();
    Ok(
        WavHeader {
            channels: spec.channels,
            sample_rate: spec.sample_rate,
            bits_per_sample: spec.bits_per_sample,
            sample_kind: match spec.sample_format {
                hound::SampleFormat::Int => SampleKind::Int,
                hound::SampleFormat::Float => SampleKind::Float,
            },
        },
    )
}

/// Reads all samples of a WAVE container held in memory as `i16` with
/// `hound`, by `WavReader::new` and `WavReader::into_samples`.
///
/// The contract claims that the outcome is a function of the bytes, and
/// gives it the name `wav_samples`. It claims further that samples are
/// only read from a container whose header can be read, and that they
/// make up whole frames: `hound` refuses a container whose data does not
/// divide by its channels, and hands out every sample or an error.
#[verifier::external_body]
fn read_wav_samples(bytes: &[u8]) -> (result: Result<Vec<i16>, hound::Error>)
    ensures
        samples_view(result) == wav_samples(bytes@),
        result matches Ok(samples) ==> (wav_header(bytes@) matches Some(header)
            && samples@.len() % (header.channels as nat) == 0),
{
    hound::WavReader::new(std::io::Cursor::new(bytes))?.into_samples::<i16>().collect()
}

/// The sum of `count` samples from `first` on.
pub open spec fn channel_sum(samples: Seq<i16>, first: int, count: nat) -> int
    decreases count,
{
    if count == 0 {
        0
    } else {
        channel_sum(samples, first, (count - 1) as nat) + samples[first + count - 1]
    }
}

/// `sum` divided into `parts`, rounded towards zero.
pub open spec fn toward_zero(sum: int, parts: int) -> int {
    if sum >= 0 {
        sum / parts
    } else {
        -((-sum) / parts)
    }
}

/// The nearest sample that stands for an amplitude between -1 and 1.
pub open spec fn clamp_sample(value: int) -> i16 {
    if value < -32767 {
        -32767i16
    } else if value > 32767 {
        32767i16
    } else {
        value as i16
    }
}

/// The sample of one frame: the mean of its channels, rounded towards
/// zero, within the range of amplitudes.
pub open spec fn mix_frame(samples: Seq<i16>, channels: nat, frame: int) -> i16 {
    clamp_sample(
        toward_zero(channel_sum(samples, frame * channels, channels), channels as int),
    )
}

/// One channel made of `channels`, frame by frame.
pub open spec fn spec_mix_down(samples: Seq<i16>, channels: nat) -> Seq<i16> {
    Seq::new(
        (samples.len() / channels) as nat,
        |frame: int| mix_frame(samples, channels, frame),
    )
}

/// Every sample stands for an amplitude between -1 and 1.
pub open spec fn is_normalized(samples: Seq<i16>) -> bool {
    forall|i: int| 0 <= i < samples.len() ==> #[trigger] samples[i] >= -32767
}

/// Whether the engine can take the contents: they are at its rate and
/// hold whole frames of at least one channel.
pub open spec fn is_loadable(contents: WavContents) -> bool {
    &&& contents.sample_rate == SAMPLE_RATE
    &&& contents.channels >= 1
    &&& contents.samples.len() % (contents.channels as nat) == 0
}

/// The buffer that decoded contents load as.
pub open spec fn spec_from_wav(contents: WavContents) -> Result<Seq<i16>, CoreError> {
    if is_loadable(contents) {
        Ok(spec_mix_down(contents.samples, contents.channels as nat))
    } else {
        Err(CoreError::AudioFormatMismatch)
    }
}

/// What loading an artifact gives.
pub enum LoadStep {
    /// The buffer.
    Loaded(AudioBuffer),
    /// The container is at the engine's rate and holds floating point
    /// samples: the caller converts them and loads them with
    /// `AudioBuffer::from_wav`.
    ConvertSamples(WavHeader),
}

/// `LoadStep` over plain values.
pub enum LoadView {
    Loaded(Seq<i16>),
    ConvertSamples(WavHeader),
}

impl View for LoadStep {
    type V = LoadView;

    open spec fn view(&self) -> LoadView {
        match self {
            LoadStep::Loaded(buffer) => LoadView::Loaded(buffer@),
            LoadStep::ConvertSamples(header) => LoadView::ConvertSamples(*header),
        }
    }
}

/// What an artifact loads as, given what was read from it. The header
/// decides first: without one, or with another rate than the engine's,
/// the load fails whatever the samples are.
pub open spec fn spec_load(header: Option<WavHeader>, samples: Option<Seq<i16>>) -> Result<
    LoadView,
    CoreError,
> {
    match header {
        None => Err(CoreError::AudioFormatMismatch),
        Some(h) => if h.sample_rate != SAMPLE_RATE {
            Err(CoreError::AudioFormatMismatch)
        } else if h.sample_kind == SampleKind::Float {
            Ok(LoadView::ConvertSamples(h))
        } else {
            match samples {
                None => Err(CoreError::AudioFormatMismatch),
                Some(s) => match spec_from_wav(
                    WavContents { channels: h.channels, sample_rate: h.sample_rate, samples: s },
                ) {
                    Ok(buffer) => Ok(LoadView::Loaded(buffer)),
                    Err(e) => Err(e),
                },
            }
        },
    }
}

/// `samples` cut or filled with silence to exactly one window.
pub open spec fn spec_fit_to_window(samples: Seq<i16>) -> Seq<i16> {
    Seq::new(
        WINDOW_SAMPLES as nat,
        |i: int| if i < samples.len() {
            samples[i]
        } else {
            0i16
        },
    )
}

/// A mixed-down buffer has one sample per frame, each within the range of
/// amplitudes.
pub proof fn lemma_mix_down_is_normalized(samples: Seq<i16>, channels: nat)
    requires
        channels >= 1,
    ensures
        spec_mix_down(samples, channels).len() == samples.len() / channels,
        is_normalized(spec_mix_down(samples, channels)),
{
}

/// One channel of samples at the engine's rate, each standing for an
/// amplitude between -1 and 1.
pub struct AudioBuffer {
    samples: Vec<i16>,
}

impl View for AudioBuffer {
    type V = Seq<i16>;

    closed spec fn view(&self) -> Seq<i16> {
        self.samples@
    }
}

impl AudioBuffer {
    #[verifier::type_invariant]
    spec fn in_range(self) -> bool {
        is_normalized(self.samples@)
    }

    /// A buffer of samples that are one channel at the engine's rate. The
    /// one sample that stands for no amplitude, -32768, is taken as -32767.
    pub fn from_mono(samples: Vec<i16>) -> (buffer: AudioBuffer)
        ensures
            buffer@ == Seq::new(samples@.len(), |i: int| clamp_sample(samples@[i] as int)),
            is_normalized(buffer@),
    {
        let mut kept: Vec<i16> = Vec::new();
        let mut i: usize = 0;
        while i < samples.len()
            invariant
                i <= samples@.len(),
                kept@.len() == i,
                forall|k: int| 0 <= k < i ==> kept@[k] == clamp_sample(samples@[k] as int),
            decreases samples@.len() - i,
        {
            let sample = samples[i];
            kept.push(if sample < -32767 { -32767 } else { sample });
            i = i + 1;
        }
        assert(kept@ =~= Seq::new(samples@.len(), |i: int| clamp_sample(samples@[i] as int)));
        AudioBuffer { samples: kept }
    }

    /// Loads decoded contents: mixes their channels down to one. Contents
    /// at another rate than the engine's are a format mismatch, as are
    /// contents that do not hold whole frames.
    pub fn from_wav(data: WavData) -> (result: Result<AudioBuffer, CoreError>)
        ensures
            match result {
                Ok(buffer) => spec_from_wav(data@) == Ok::<Seq<i16>, CoreError>(buffer@)
                    && is_normalized(buffer@),
                Err(e) => spec_from_wav(data@) == Err::<Seq<i16>, CoreError>(e),
            },
    {
        if data.sample_rate != SAMPLE_RATE || data.channels == 0 {
            return Err(CoreError::AudioFormatMismatch);
        }
        let channels: usize = data.channels as usize;
        let len: usize = data.samples.len();
        if len % channels != 0 {
            return Err(CoreError::AudioFormatMismatch);
        }
        let frames: usize = len / channels;
        assert(frames * channels == len) by (nonlinear_arith)
            requires
                channels > 0,
                len % channels == 0,
                frames == len / channels,
        ;
        let mut mono: Vec<i16> = Vec::new();
        let mut frame: usize = 0;
        while frame < frames
            invariant
                channels == data.channels,
                channels >= 1,
                len == data.samples@.len(),
                frames * channels == len,
                frame <= frames,
                mono@.len() == frame,
                forall|f: int|
                    0 <= f < frame ==> mono@[f] == mix_frame(data.samples@, channels as nat, f),
            decreases frames - frame,
        {
            assert(frame * channels + channels <= frames * channels) by (nonlinear_arith)
                requires
                    frame < frames,
            ;
            let first: usize = frame * channels;
            let mut sum: i64 = 0;
            let mut k: usize = 0;
            while k < channels
                invariant
                    channels <= u16::MAX,
                    first + channels <= len,
                    len == data.samples@.len(),
                    k <= channels,
                    sum == channel_sum(data.samples@, first as int, k as nat),
                    -32768 * k <= sum <= 32767 * k,
                decreases channels - k,
            {
                sum = sum + data.samples[first + k] as i64;
                k = k + 1;
            }
            let parts: i64 = channels as i64;
            let mean: i64 = if sum >= 0 {
                sum / parts
            } else {
                -((-sum) / parts)
            };
            assert(-32768 <= mean <= 32767 && mean == toward_zero(sum as int, parts as int))
                by (nonlinear_arith)
                requires
                    parts >= 1,
                    -32768 * parts <= sum <= 32767 * parts,
                    mean == if sum >= 0 {
                        sum as int / parts as int
                    } else {
                        -((-sum) / parts as int)
                    },
            ;
            mono.push(if mean < -32767 { -32767i16 } else { mean as i16 });
            frame = frame + 1;
        }
        assert(mono@ =~= spec_mix_down(data.samples@, channels as nat));
        Ok(AudioBuffer { samples: mono })
    }

    /// The number of samples.
    pub fn len(&self) -> (len: usize)
        ensures
            len == self@.len(),
    {
        self.samples.len()
    }

    /// The samples, none of them below -32767.
    pub fn samples(&self) -> (samples: &Vec<i16>)
        ensures
            samples@ == self@,
            is_normalized(samples@),
    {
        proof {
            use_type_invariant(self);
        }
        &self.samples
    }

    /// The length of the buffer in whole seconds.
    pub fn duration_secs(&self) -> (secs: usize)
        ensures
            secs == self@.len() / (SAMPLE_RATE as nat),
    {
        self.samples.len() / (SAMPLE_RATE as usize)
    }

    /// Whether the buffer is decoded in one pass or in chunks.
    pub fn strategy(&self) -> (strategy: Strategy)
        ensures
            strategy == spec_strategy(self@.len()),
    {
        select_strategy(self.samples.len())
    }

    /// The number of chunks the buffer is decoded in.
    pub fn chunk_count(&self) -> (count: usize)
        ensures
            count == spec_chunk_count(self@.len()),
    {
        chunk_count(self.samples.len())
    }

    /// The chunks the buffer is decoded in.
    pub fn plan(&self) -> (plan: Vec<Chunk>)
        ensures
            plan@ == spec_plan(self@.len()),
    {
        plan_chunks(self.samples.len())
    }

    /// The samples of a chunk, or `None` for a chunk that does not lie
    /// within the buffer.
    pub fn chunk_samples(&self, chunk: &Chunk) -> (samples: Option<Vec<i16>>)
        ensures
            match samples {
                Some(slice) => chunk.start <= chunk.end <= self@.len() && slice@
                    == self@.subrange(chunk.start as int, chunk.end as int),
                None => !(chunk.start <= chunk.end <= self@.len()),
            },
    {
        if chunk.start > chunk.end || chunk.end > self.samples.len() {
            return None;
        }
        let mut slice: Vec<i16> = Vec::new();
        let mut i: usize = chunk.start;
        while i < chunk.end
            invariant
                chunk.start <= i <= chunk.end <= self.samples@.len(),
                slice@ == self.samples@.subrange(chunk.start as int, i as int),
            decreases chunk.end - i,
        {
            slice.push(self.samples[i]);
            assert(slice@ =~= self.samples@.subrange(chunk.start as int, i + 1));
            i = i + 1;
        }
        Some(slice)
    }
}

/// Cuts `samples` to one window, or fills them up to one with silence: the
/// engine takes exactly one window per decode.
pub fn fit_to_window(samples: &Vec<i16>) -> (fitted: Vec<i16>)
    ensures
        fitted@ == spec_fit_to_window(samples@),
{
    let mut fitted: Vec<i16> = Vec::new();
    let mut i: usize = 0;
    while i < WINDOW_SAMPLES
        invariant
            i <= WINDOW_SAMPLES,
            fitted@.len() == i,
            forall|k: int|
                0 <= k < i ==> fitted@[k] == if k < samples@.len() {
                    samples@[k]
                } else {
                    0i16
                },
        decreases WINDOW_SAMPLES - i,
    {
        if i < samples.len() {
            fitted.push(samples[i]);
        } else {
            fitted.push(0);
        }
        i = i + 1;
    }
    assert(fitted@ =~= spec_fit_to_window(samples@));
    fitted
}

/// Loads the artifact held in `bytes`.
///
/// The header is read first. A container at another rate than the engine's
/// is a format mismatch before any sample is decoded, as is what is no WAVE
/// container at all. At the engine's rate a container of floating point
/// samples is handed back for conversion, and one of integer samples is
/// loaded, or is a format mismatch if its samples cannot all be read.
pub fn load_audio(bytes: &[u8]) -> (result: Result<LoadStep, CoreError>)
    ensures
        match result {
            Ok(step) => spec_load(wav_header(bytes@), wav_samples(bytes@)) == Ok::<
                LoadView,
                CoreError,
            >(step@),
            Err(e) => spec_load(wav_header(bytes@), wav_samples(bytes@)) == Err::<
                LoadView,
                CoreError,
            >(e),
        },
        result is Err ==> result == Err::<LoadStep, CoreError>(CoreError::AudioFormatMismatch),
        result is Ok <==> (wav_header(bytes@) matches Some(header) && header.sample_rate
            == SAMPLE_RATE && (header.sample_kind == SampleKind::Float || wav_samples(bytes@)
            is Some)),
        result matches Ok(LoadStep::Loaded(buffer)) ==> is_normalized(buffer@) && buffer@.len()
            == wav_samples(bytes@).unwrap().len() / (wav_header(bytes@).unwrap().channels as nat),
{
    let header = match read_wav_header(bytes) {
        Ok(header) => header,
        Err(_) => {
            return Err(CoreError::AudioFormatMismatch);
        },
    };
    if header.sample_rate != SAMPLE_RATE {
        return Err(CoreError::AudioFormatMismatch);
    }
    match header.sample_kind {
        SampleKind::Float => {
            return Ok(LoadStep::ConvertSamples(header));
        },
        SampleKind::Int => {},
    }
    let samples = match read_wav_samples(bytes) {
        Ok(samples) => samples,
        Err(_) => {
            return Err(CoreError::AudioFormatMismatch);
        },
    };
    let data = WavData { channels: header.channels, sample_rate: header.sample_rate, samples };
    match AudioBuffer::from_wav(data) {
        Ok(buffer) => Ok(LoadStep::Loaded(buffer)),
        Err(e) => Err(e),
    }
}

} // verus!
