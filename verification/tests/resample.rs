use supavoice::error::CoreError;
use supavoice::resample::{Resampler, TARGET_RATE};

fn resampler(input_rate: u32) -> Resampler {
    match Resampler::new(input_rate, TARGET_RATE) {
        Ok(r) => r,
        Err(e) => panic!("no resampler for {} Hz: {:?}", input_rate, e),
    }
}

#[test]
fn target_rate_is_sixteen_kilohertz() {
    assert_eq!(TARGET_RATE, 16000);
}

#[test]
fn a_device_without_a_rate_is_refused() {
    assert_eq!(Resampler::new(0, TARGET_RATE).err(), Some(CoreError::StreamFormatUnsupported));
}

#[test]
fn every_third_frame_of_a_48k_device_is_written() {
    let mut r = resampler(48000);
    assert_eq!(r.select(10), vec![3, 6, 9]);
    // the phase carries over into the next block
    assert_eq!(r.select(6), vec![2, 5]);
}

#[test]
fn the_first_frame_is_never_written() {
    for rate in [8000, 16000, 22050, 44100, 48000, 96000] {
        let mut r = resampler(rate);
        assert!(!r.advance(), "{} Hz", rate);
    }
}

#[test]
fn a_device_at_the_target_rate_loses_one_frame() {
    let mut r = resampler(16000);
    assert_eq!(r.select(5), vec![1, 2, 3, 4]);
    assert_eq!(r.select(3), vec![0, 1, 2]);
}

#[test]
fn a_slow_device_is_not_filled_up() {
    let mut r = resampler(8000);
    assert_eq!(r.select(5), vec![1, 2, 3, 4]);
    assert_eq!(r.select(8000).len(), 8000);
}

#[test]
fn one_second_gives_one_second_within_two_samples() {
    for rate in [16000u32, 16001, 22050, 32000, 44100, 48000, 88200, 96000, 192000] {
        let mut r = resampler(rate);
        let written = r.select(rate as usize).len();
        assert!(written < 16000, "{} Hz gave {}", rate, written);
        assert!(written + 2 > 16000, "{} Hz gave {}", rate, written);
    }
}

#[test]
fn output_count_is_exact_for_common_rates() {
    // floor((frames - 1) * 16000 / rate)
    let mut r = resampler(44100);
    assert_eq!(r.select(44100).len(), 15999);
    let mut r = resampler(48000);
    assert_eq!(r.select(48000).len(), 15999);
    let mut r = resampler(48000);
    assert_eq!(r.select(48001).len(), 16000);
    let mut r = resampler(16001);
    assert_eq!(r.select(3).len(), 1);
}

#[test]
fn ten_seconds_at_44100_hz() {
    let mut r = resampler(44100);
    let written = r.select(441000).len();
    assert_eq!(written, 159999);
}

#[test]
fn block_sizes_do_not_change_what_is_written() {
    let mut whole = resampler(44100);
    let expected = whole.select(5000);

    let mut pieces = resampler(44100);
    let mut got = Vec::new();
    let mut base = 0usize;
    for block in [1usize, 7, 0, 480, 512, 1000, 3000] {
        for position in pieces.select(block) {
            got.push(base + position);
        }
        base += block;
    }
    assert_eq!(base, 5000);
    assert_eq!(got, expected);
}

#[test]
fn advance_agrees_with_select() {
    let mut a = resampler(22050);
    let mut b = resampler(22050);
    let picked = b.select(200);
    let mut stepped = Vec::new();
    for i in 0..200usize {
        if a.advance() {
            stepped.push(i);
        }
    }
    assert_eq!(stepped, picked);
}

#[test]
fn positions_rise_and_stay_within_the_block() {
    let mut r = resampler(44100);
    let picked = r.select(1000);
    for pair in picked.windows(2) {
        assert!(pair[0] < pair[1]);
    }
    assert!(picked.iter().all(|p| *p < 1000));
}

#[test]
fn an_empty_block_writes_nothing() {
    let mut r = resampler(48000);
    assert_eq!(r.select(0), Vec::<usize>::new());
}

#[test]
fn other_target_rates_are_converted_to() {
    let mut r = match Resampler::new(48000, 24000) {
        Ok(r) => r,
        Err(e) => panic!("{:?}", e),
    };
    assert_eq!(r.select(8), vec![2, 4, 6]);
}
