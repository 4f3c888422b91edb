//! One transcription, from a loaded buffer to its result.
//!
//! The engine's arithmetic is done elsewhere. What is decided here is what
//! the engine is given and what is made of what it returns: the chunks a
//! buffer is decoded in, one window of samples per chunk, and the
//! transcript and its segments once every chunk has an outcome.

use crate::audio::{fit_to_window, spec_fit_to_window, AudioBuffer};
use crate::chunking::{lemma_chunk_within, spec_chunk, spec_chunk_count, Chunk};
use crate::error::CoreError;
use crate::transcript::{assemble, spec_assemble, ChunkOutcome};
use vstd::prelude::*;

verus! {

/// A stretch of a transcript, with the samples of the buffer it covers.
#[derive(Clone, Debug)]
pub struct TranscriptionSegment {
    /// The first sample of the stretch.
    pub start: usize,
    /// The sample after the last of the stretch.
    pub end: usize,
    pub text: String,
}

/// A transcript and its segments.
#[derive(Clone, Debug)]
pub struct TranscriptionResult {
    pub text: String,
    pub segments: Vec<TranscriptionSegment>,
}

/// What is handed to the engine for one chunk: exactly one window of
/// samples, the chunk's own followed by silence.
pub struct DecodeJob {
    pub chunk: Chunk,
    pub samples: Vec<i16>,
}

/// The transcript of a buffer of `samples` samples, given the outcomes of
/// its chunks: a decode failure unless there is one outcome per chunk and
/// they assemble.
pub open spec fn spec_transcript(samples: nat, outcomes: Seq<ChunkOutcome>) -> Result<
    Seq<char>,
    CoreError,
> {
    if outcomes.len() == spec_chunk_count(samples) {
        spec_assemble(outcomes)
    } else {
        Err(CoreError::DecodeFailure)
    }
}

/// `result` holds `text` as its transcript and as its one segment, which
/// spans the whole buffer.
pub open spec fn is_whole_buffer_result(
    result: TranscriptionResult,
    text: Seq<char>,
    samples: nat,
) -> bool {
    &&& result.text@ == text
    &&& result.segments@.len() == 1
    &&& result.segments@[0].start == 0
    &&& result.segments@[0].end == samples
    &&& result.segments@[0].text@ == text
}

/// A transcriber for the model installed at one path.
pub struct WhisperTranscriber {
    model_path: String,
}

impl WhisperTranscriber {
    /// Where the model is installed.
    pub closed spec fn path(self) -> Seq<char> {
        self.model_path@
    }

    /// A transcriber for the model at `model_path`.
    pub fn new(model_path: String) -> (transcriber: Self)
        ensures
            transcriber.path() == model_path@,
    {
        WhisperTranscriber { model_path }
    }

    /// Where the model is installed.
    pub fn model_path(&self) -> (path: &String)
        ensures
            path@ == self.path(),
    {
        &self.model_path
    }

    /// What the engine is to decode for `audio`: one job per chunk of the
    /// plan, in index order, each with one window of samples.
    pub fn jobs(&self, audio: &AudioBuffer) -> (jobs: Vec<DecodeJob>)
        ensures
            jobs@.len() == spec_chunk_count(audio@.len()),
            forall|i: int|
                0 <= i < jobs@.len() ==> {
                    &&& (#[trigger] jobs@[i]).chunk == spec_chunk(audio@.len(), i as nat)
                    &&& jobs@[i].samples@ == spec_fit_to_window(
                        audio@.subrange(jobs@[i].chunk.start as int, jobs@[i].chunk.end as int),
                    )
                },
    {
        let plan = audio.plan();
        let len: usize = audio.len();
        let mut jobs: Vec<DecodeJob> = Vec::new();
        let mut i: usize = 0;
        while i < plan.len()
            invariant
                len == audio@.len(),
                i <= plan@.len(),
                plan@.len() == spec_chunk_count(audio@.len()),
                forall|k: int| 0 <= k < plan@.len() ==> plan@[k] == spec_chunk(audio@.len(), k as nat),
                jobs@.len() == i,
                forall|k: int|
                    0 <= k < i ==> {
                        &&& (#[trigger] jobs@[k]).chunk == spec_chunk(audio@.len(), k as nat)
                        &&& jobs@[k].samples@ == spec_fit_to_window(
                            audio@.subrange(
                                jobs@[k].chunk.start as int,
                                jobs@[k].chunk.end as int,
                            ),
                        )
                    },
            decreases plan@.len() - i,
        {
            let chunk = plan[i];
            proof {
                lemma_chunk_within(audio@.len(), i as nat);
            }
            let samples = match audio.chunk_samples(&chunk) {
                Some(slice) => fit_to_window(&slice),
                None => Vec::new(),
            };
            jobs.push(DecodeJob { chunk, samples });
            i = i + 1;
        }
        jobs
    }

    /// Makes the result of a transcription of `audio` from the outcomes
    /// of its chunks, in whatever order they arrived. Any failed or
    /// missing chunk fails the whole transcription.
    pub fn transcribe(&self, audio: &AudioBuffer, outcomes: &Vec<ChunkOutcome>) -> (result: Result<
        TranscriptionResult,
        CoreError,
    >)
        ensures
            match result {
                Ok(r) => spec_transcript(audio@.len(), outcomes@) is Ok && is_whole_buffer_result(
                    r,
                    spec_transcript(audio@.len(), outcomes@).unwrap(),
                    audio@.len(),
                ),
                Err(e) => spec_transcript(audio@.len(), outcomes@) == Err::<Seq<char>, CoreError>(
                    e,
                ),
            },
    {
        if outcomes.len() != audio.chunk_count() {
            return Err(CoreError::DecodeFailure);
        }
        match assemble(outcomes) {
            Err(e) => Err(e),
            Ok(text) => {
                let mut segments: Vec<TranscriptionSegment> = Vec::new();
                segments.push(TranscriptionSegment { start: 0, end: audio.len(), text: text.clone() });
                Ok(TranscriptionResult { text, segments })
            },
        }
    }
}

} // verus!
