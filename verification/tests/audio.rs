use supavoice::audio::{
    fit_to_window, load_audio, AudioBuffer, LoadStep, SampleKind, WavData, WavHeader,
};
use supavoice::chunking::{Chunk, Strategy, WINDOW_SAMPLES};
use supavoice::error::CoreError;

fn wav_bytes(channels: u16, sample_rate: u32, samples: &[i16]) -> Vec<u8> {
    let spec = hound::WavSpec {
        channels,
        sample_rate,
        bits_per_sample: 16,
        sample_format: hound::SampleFormat::Int,
    };
    let mut cursor = std::io::Cursor::new(Vec::new());
    {
        let mut writer = hound::WavWriter::new(&mut cursor, spec).unwrap();
        for sample in samples {
            writer.write_sample(*sample).unwrap();
        }
        writer.finalize().unwrap();
    }
    cursor.into_inner()
}

fn float_wav_bytes(sample_rate: u32, samples: &[f32]) -> Vec<u8> {
    let spec = hound::WavSpec {
        channels: 1,
        sample_rate,
        bits_per_sample: 32,
        sample_format: hound::SampleFormat::Float,
    };
    let mut cursor = std::io::Cursor::new(Vec::new());
    {
        let mut writer = hound::WavWriter::new(&mut cursor, spec).unwrap();
        for sample in samples {
            writer.write_sample(*sample).unwrap();
        }
        writer.finalize().unwrap();
    }
    cursor.into_inner()
}

fn loaded(bytes: &[u8]) -> Result<Vec<i16>, CoreError> {
    match load_audio(bytes) {
        Ok(LoadStep::Loaded(buffer)) => Ok(buffer.samples().clone()),
        Ok(LoadStep::ConvertSamples(header)) => panic!("asked to convert {:?}", header),
        Err(e) => Err(e),
    }
}

fn data(channels: u16, sample_rate: u32, samples: Vec<i16>) -> WavData {
    WavData { channels, sample_rate, samples }
}

fn from_wav(channels: u16, sample_rate: u32, samples: Vec<i16>) -> Result<Vec<i16>, CoreError> {
    AudioBuffer::from_wav(data(channels, sample_rate, samples)).map(|b| b.samples().clone())
}

#[test]
fn a_mono_artifact_loads_sample_for_sample() {
    let samples = [0i16, 1, -1, 32767, -32767, 1234, -4321];
    assert_eq!(loaded(&wav_bytes(1, 16000, &samples)), Ok(samples.to_vec()));
}

#[test]
fn the_sample_below_the_range_is_taken_as_the_lowest_in_it() {
    assert_eq!(loaded(&wav_bytes(1, 16000, &[-32768, -32767, 32767])), Ok(vec![-32767, -32767, 32767]));
    assert_eq!(loaded(&wav_bytes(2, 16000, &[-32768, -32768])), Ok(vec![-32767]));
    assert_eq!(from_wav(1, 16000, vec![-32768]), Ok(vec![-32767]));
    assert_eq!(AudioBuffer::from_mono(vec![-32768, 5]).samples(), &vec![-32767, 5]);
}

#[test]
fn no_loaded_sample_is_below_the_range() {
    let samples: Vec<i16> = vec![i16::MIN, i16::MIN, i16::MIN, i16::MIN + 1, i16::MAX, i16::MIN];
    for channels in [1u16, 2, 3, 6] {
        let mixed = loaded(&wav_bytes(channels, 16000, &samples)).unwrap();
        assert_eq!(mixed.len(), samples.len() / channels as usize);
        assert!(mixed.iter().all(|s| *s >= -32767), "{} channels: {:?}", channels, mixed);
    }
}

#[test]
fn an_empty_artifact_loads_as_an_empty_buffer() {
    assert_eq!(loaded(&wav_bytes(1, 16000, &[])), Ok(Vec::new()));
}

#[test]
fn an_artifact_at_another_rate_is_a_mismatch() {
    for rate in [8000, 15999, 16001, 44100, 48000] {
        assert_eq!(
            loaded(&wav_bytes(1, rate, &[1, 2, 3])),
            Err(CoreError::AudioFormatMismatch),
            "{} Hz",
            rate
        );
    }
}

#[test]
fn the_rate_is_checked_whatever_the_samples_are() {
    // floating point samples at another rate: a mismatch, not a conversion
    assert_eq!(
        load_audio(&float_wav_bytes(44100, &[0.0, 0.5])).err(),
        Some(CoreError::AudioFormatMismatch)
    );
    // samples cut short at another rate
    let mut cut = wav_bytes(1, 8000, &[1, 2, 3, 4]);
    cut.truncate(cut.len() - 3);
    assert_eq!(load_audio(&cut).err(), Some(CoreError::AudioFormatMismatch));
}

#[test]
fn what_is_no_wave_container_is_a_mismatch() {
    assert_eq!(loaded(&[]), Err(CoreError::AudioFormatMismatch));
    assert_eq!(loaded(b"not a wave file at all"), Err(CoreError::AudioFormatMismatch));
}

#[test]
fn samples_that_cannot_all_be_read_are_a_mismatch() {
    let mut cut = wav_bytes(1, 16000, &[1, 2, 3, 4]);
    cut.truncate(cut.len() - 3);
    assert_eq!(loaded(&cut), Err(CoreError::AudioFormatMismatch));
}

#[test]
fn floating_point_samples_are_handed_back_for_conversion() {
    let step = load_audio(&float_wav_bytes(16000, &[0.0, 0.5, -0.5]));
    let header = match step {
        Ok(LoadStep::ConvertSamples(header)) => header,
        Ok(LoadStep::Loaded(_)) => panic!("loaded without conversion"),
        Err(e) => panic!("{:?}", e),
    };
    assert_eq!(
        header,
        WavHeader {
            channels: 1,
            sample_rate: 16000,
            bits_per_sample: 32,
            sample_kind: SampleKind::Float,
        }
    );
    // the caller converts and loads plain values
    let converted: Vec<i16> =
        [0.0f32, 0.5, -0.5].iter().map(|s| (s.clamp(-1.0, 1.0) * 32767.0) as i16).collect();
    assert_eq!(
        from_wav(header.channels, header.sample_rate, converted),
        Ok(vec![0, 16383, -16383])
    );
}

#[test]
fn stereo_is_mixed_down_by_the_mean_of_each_pair() {
    let samples = [100i16, 200, -100, -200, 32767, 32767, -32767, -32767, 1, 2, -1, -2, 5, -5];
    assert_eq!(
        loaded(&wav_bytes(2, 16000, &samples)),
        Ok(vec![150, -150, 32767, -32767, 1, -1, 0])
    );
}

#[test]
fn any_number_of_channels_is_mixed_down_by_the_mean_of_each_frame() {
    assert_eq!(loaded(&wav_bytes(3, 16000, &[1, 2, 3, 4, 5, 6])), Ok(vec![2, 5]));
    assert_eq!(loaded(&wav_bytes(3, 16000, &[1, 1, 2, -1, -1, -2])), Ok(vec![1, -1]));
    assert_eq!(
        loaded(&wav_bytes(4, 16000, &[32767, 32767, 32767, 32767, -8, -4, 0, 4])),
        Ok(vec![32767, -2])
    );
    let six: Vec<i16> = vec![6, 12, 18, 24, 30, 36];
    assert_eq!(loaded(&wav_bytes(6, 16000, &six)), Ok(vec![21]));
}

#[test]
fn a_loaded_buffer_has_one_sample_per_frame() {
    for channels in [1u16, 2, 3, 5, 8] {
        let samples: Vec<i16> = (0..240).map(|i| (i * 7 % 100) as i16).collect();
        let mixed = loaded(&wav_bytes(channels, 16000, &samples)).unwrap();
        assert_eq!(mixed.len(), 240 / channels as usize);
    }
}

#[test]
fn decoded_contents_load_without_a_container() {
    assert_eq!(from_wav(1, 16000, vec![7, 8, 9]), Ok(vec![7, 8, 9]));
    assert_eq!(from_wav(2, 16000, vec![7, 9, -3, -4]), Ok(vec![8, -3]));
    assert_eq!(from_wav(3, 16000, vec![3, 4, 8]), Ok(vec![5]));
}

#[test]
fn decoded_contents_are_checked() {
    for bad in [
        data(1, 44100, vec![1, 2]),
        data(0, 16000, vec![]),
        data(3, 16000, vec![1, 2, 3, 4]),
        data(2, 16000, vec![1, 2, 3]),
    ] {
        assert_eq!(
            AudioBuffer::from_wav(bad).map(|b| b.len()),
            Err(CoreError::AudioFormatMismatch)
        );
    }
}

#[test]
fn a_buffer_knows_its_length_and_plan() {
    let buffer = AudioBuffer::from_mono(vec![0; 45 * 16000]);
    assert_eq!(buffer.len(), 720000);
    assert_eq!(buffer.duration_secs(), 45);
    assert_eq!(buffer.strategy(), Strategy::Chunked);
    assert_eq!(buffer.chunk_count(), 2);
    assert_eq!(
        buffer.plan(),
        vec![
            Chunk { index: 0, start: 0, end: 480000 },
            Chunk { index: 1, start: 464000, end: 720000 },
        ]
    );
}

#[test]
fn a_short_buffer_is_one_pass() {
    let buffer = AudioBuffer::from_mono(vec![0; 10 * 16000]);
    assert_eq!(buffer.duration_secs(), 10);
    assert_eq!(buffer.strategy(), Strategy::SinglePass);
    assert_eq!(buffer.chunk_count(), 1);
    assert_eq!(buffer.plan(), vec![Chunk { index: 0, start: 0, end: 160000 }]);
}

#[test]
fn duration_counts_whole_seconds() {
    assert_eq!(AudioBuffer::from_mono(vec![0; 15999]).duration_secs(), 0);
    assert_eq!(AudioBuffer::from_mono(vec![0; 16000]).duration_secs(), 1);
    assert_eq!(AudioBuffer::from_mono(vec![0; 31999]).duration_secs(), 1);
}

#[test]
fn chunk_samples_are_a_slice_of_the_buffer() {
    let buffer = AudioBuffer::from_mono((0..100).collect());
    assert_eq!(
        buffer.chunk_samples(&Chunk { index: 0, start: 10, end: 15 }),
        Some(vec![10, 11, 12, 13, 14])
    );
    assert_eq!(buffer.chunk_samples(&Chunk { index: 0, start: 0, end: 0 }), Some(Vec::new()));
    assert_eq!(
        buffer.chunk_samples(&Chunk { index: 0, start: 98, end: 100 }),
        Some(vec![98, 99])
    );
}

#[test]
fn chunks_outside_the_buffer_have_no_samples() {
    let buffer = AudioBuffer::from_mono((0..100).collect());
    assert_eq!(buffer.chunk_samples(&Chunk { index: 0, start: 90, end: 101 }), None);
    assert_eq!(buffer.chunk_samples(&Chunk { index: 0, start: 20, end: 10 }), None);
}

#[test]
fn short_audio_is_filled_up_with_silence() {
    let fitted = fit_to_window(&vec![5, -6, 7]);
    assert_eq!(fitted.len(), WINDOW_SAMPLES);
    assert_eq!(&fitted[..4], &[5, -6, 7, 0]);
    assert!(fitted[3..].iter().all(|s| *s == 0));
}

#[test]
fn long_audio_is_cut_to_one_window() {
    let long: Vec<i16> = (0..WINDOW_SAMPLES + 10).map(|i| (i % 1000) as i16).collect();
    let fitted = fit_to_window(&long);
    assert_eq!(fitted.len(), WINDOW_SAMPLES);
    assert_eq!(fitted[..], long[..WINDOW_SAMPLES]);
}

#[test]
fn exactly_one_window_is_left_alone() {
    let exact: Vec<i16> = vec![3; WINDOW_SAMPLES];
    assert_eq!(fit_to_window(&exact), exact);
}
