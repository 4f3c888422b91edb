use supavoice::audio::AudioBuffer;
use supavoice::chunking::{Chunk, WINDOW_SAMPLES};
use supavoice::error::CoreError;
use supavoice::transcriber::WhisperTranscriber;
use supavoice::transcript::ChunkOutcome;

fn transcriber() -> WhisperTranscriber {
    WhisperTranscriber::new("/models/whisper-small/model.safetensors".to_string())
}

fn outcome(index: usize, text: &str) -> ChunkOutcome {
    ChunkOutcome { index, text: Some(text.to_string()) }
}

#[test]
fn a_transcriber_keeps_its_model_path() {
    assert_eq!(transcriber().model_path(), "/models/whisper-small/model.safetensors");
}

#[test]
fn ten_seconds_are_one_job_of_one_window() {
    let samples: Vec<i16> = (0..160000).map(|i| (i % 100) as i16 + 1).collect();
    let audio = AudioBuffer::from_mono(samples.clone());
    let jobs = transcriber().jobs(&audio);
    assert_eq!(jobs.len(), 1);
    assert_eq!(jobs[0].chunk, Chunk { index: 0, start: 0, end: 160000 });
    assert_eq!(jobs[0].samples.len(), WINDOW_SAMPLES);
    assert_eq!(jobs[0].samples[..160000], samples[..]);
    assert!(jobs[0].samples[160000..].iter().all(|s| *s == 0));
}

#[test]
fn forty_five_seconds_are_two_overlapping_jobs() {
    let samples: Vec<i16> = (0..720000).map(|i| (i % 1000) as i16 + 1).collect();
    let audio = AudioBuffer::from_mono(samples.clone());
    let jobs = transcriber().jobs(&audio);
    assert_eq!(jobs.len(), 2);
    assert_eq!(jobs[0].chunk, Chunk { index: 0, start: 0, end: 480000 });
    assert_eq!(jobs[1].chunk, Chunk { index: 1, start: 464000, end: 720000 });
    assert_eq!(jobs[0].samples[..], samples[..480000]);
    assert_eq!(jobs[1].samples.len(), WINDOW_SAMPLES);
    assert_eq!(jobs[1].samples[..256000], samples[464000..]);
    assert!(jobs[1].samples[256000..].iter().all(|s| *s == 0));
}

#[test]
fn a_long_recording_is_stitched_in_index_order() {
    let audio = AudioBuffer::from_mono(vec![0; 45 * 16000]);
    let in_order = vec![outcome(0, "chunk zero"), outcome(1, "chunk one")];
    let reversed = vec![outcome(1, "chunk one"), outcome(0, "chunk zero")];
    for outcomes in [in_order, reversed] {
        let result = match transcriber().transcribe(&audio, &outcomes) {
            Ok(result) => result,
            Err(e) => panic!("{:?}", e),
        };
        assert_eq!(result.text, "chunk zero chunk one");
        assert_eq!(result.segments.len(), 1);
        assert_eq!(result.segments[0].start, 0);
        assert_eq!(result.segments[0].end, 720000);
        assert_eq!(result.segments[0].text, "chunk zero chunk one");
    }
}

#[test]
fn a_short_recording_is_its_single_text() {
    let audio = AudioBuffer::from_mono(vec![0; 10 * 16000]);
    let result = match transcriber().transcribe(&audio, &vec![outcome(0, "hello")]) {
        Ok(result) => result,
        Err(e) => panic!("{:?}", e),
    };
    assert_eq!(result.text, "hello");
    assert_eq!(result.segments[0].end, 160000);
}

#[test]
fn a_failed_chunk_fails_the_transcription() {
    let audio = AudioBuffer::from_mono(vec![0; 45 * 16000]);
    let outcomes = vec![outcome(0, "fine"), ChunkOutcome { index: 1, text: None }];
    assert_eq!(
        transcriber().transcribe(&audio, &outcomes).map(|r| r.text),
        Err(CoreError::DecodeFailure)
    );
}

#[test]
fn outcomes_must_match_the_plan() {
    let audio = AudioBuffer::from_mono(vec![0; 45 * 16000]);
    assert_eq!(
        transcriber().transcribe(&audio, &vec![outcome(0, "only one")]).map(|r| r.text),
        Err(CoreError::DecodeFailure)
    );
    let short = AudioBuffer::from_mono(vec![0; 16000]);
    let two = vec![outcome(0, "a"), outcome(1, "b")];
    assert_eq!(
        transcriber().transcribe(&short, &two).map(|r| r.text),
        Err(CoreError::DecodeFailure)
    );
}
