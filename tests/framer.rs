use terminal_spectrograph::{discard_per_frame, Sample, SignalProcessor};

fn ramp(start: usize, n: usize) -> Vec<Sample> {
    (start..start + n)
        .map(|i| Sample { re: (i % 128) as i8, im: ((i / 128) % 128) as i8 })
        .collect()
}

#[test]
fn worked_example_first_frame_after_200000_samples() {
    assert_eq!(discard_per_frame(2_000_000, 10, 1024), 198_976);
    let mut p = SignalProcessor::new(2_000_000, 10, 1024);
    let samples = ramp(0, 200_000);
    let first = p.add_signal_buffer(samples[..199_999].to_vec());
    assert!(first.is_empty());
    let second = p.add_signal_buffer(samples[199_999..].to_vec());
    assert_eq!(second.len(), 1);
    assert_eq!(second[0].len(), 1024);
    assert_eq!(second[0], samples[198_976..].to_vec());
}

#[test]
fn whole_periods_yield_one_frame_each() {
    // rate 100, 2 frames a second of 10 samples: 40 skipped before each frame
    assert_eq!(discard_per_frame(100, 2, 10), 40);
    let mut p = SignalProcessor::new(100, 2, 10);
    let one = p.add_signal_buffer(ramp(0, 50));
    assert_eq!(one.len(), 1);
    assert_eq!(one[0], ramp(40, 10));

    let mut q = SignalProcessor::new(100, 2, 10);
    let frames = q.add_signal_buffer(ramp(0, 150));
    assert_eq!(frames.len(), 3);
    for (k, f) in frames.iter().enumerate() {
        assert_eq!(*f, ramp(50 * k + 40, 10));
    }
}

#[test]
fn frames_do_not_depend_on_chunking() {
    let mut whole = SignalProcessor::new(100, 2, 10);
    let expected = whole.add_signal_buffer(ramp(0, 230));
    let mut parts = SignalProcessor::new(100, 2, 10);
    let mut got = Vec::new();
    for (start, len) in [(0, 7), (7, 60), (67, 1), (68, 0), (68, 162)] {
        got.extend(parts.add_signal_buffer(ramp(start, len)));
    }
    assert_eq!(got, expected);
    assert_eq!(got.len(), 4);
}

#[test]
fn discard_is_clamped_to_zero() {
    assert_eq!(discard_per_frame(1000, 10, 1024), 0);
    assert_eq!(discard_per_frame(0, 1, 1), 0);
    assert_eq!(discard_per_frame(u32::MAX, u32::MAX, usize::MAX), 0);
    let mut p = SignalProcessor::new(1000, 10, 4);
    // 10 * 4 <= 1000: 96 samples skipped before each frame
    assert_eq!(discard_per_frame(1000, 10, 4), 96);
    let mut q = SignalProcessor::new(1000, 10, 1024);
    let frames = q.add_signal_buffer(ramp(0, 2048));
    assert_eq!(frames.len(), 2);
    assert_eq!(frames[1], ramp(1024, 1024));
    assert!(p.add_signal_buffer(ramp(0, 99)).is_empty());
    assert_eq!(p.add_signal_buffer(ramp(99, 1)).len(), 1);
}

#[test]
fn reconfiguring_never_mixes_frame_lengths() {
    let mut p = SignalProcessor::new(100, 10, 8);
    // 2 skipped, then a partial frame of 5
    assert_eq!(discard_per_frame(100, 10, 8), 2);
    assert!(p.process_chunk(8, ramp(0, 7)).is_empty());
    assert_eq!(p.fft_len(), 8);
    // shorter frames requested: the partial frame is dropped
    let frames = p.process_chunk(4, ramp(7, 13));
    assert_eq!(p.fft_len(), 4);
    // (100 - 40) / 10 = 6 skipped before each frame of 4
    assert_eq!(frames, vec![ramp(13, 4)]);
    for f in &frames {
        assert_eq!(f.len(), 4);
    }
    // a request of zero keeps the current length
    let more = p.process_chunk(0, ramp(20, 20));
    assert_eq!(p.fft_len(), 4);
    assert!(more.iter().all(|f| f.len() == 4));
    assert_eq!(more.len(), 2);
}

#[test]
fn new_fft_len_resets_accumulation() {
    let mut p = SignalProcessor::new(100, 10, 8);
    assert!(p.add_signal_buffer(ramp(0, 9)).is_empty());
    p.new_fft_len(3);
    assert_eq!(p.fft_len(), 3);
    // (100 - 30) / 10 = 7 skipped again from the start
    let frames = p.add_signal_buffer(ramp(100, 10));
    assert_eq!(frames, vec![ramp(107, 3)]);
}
