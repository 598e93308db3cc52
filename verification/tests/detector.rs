use freq_det::{
    DetectError, Detection, DetectorCreateError, FreqDetector, MIN_SAMPLE_COUNT, MIN_SAMPLE_RATE,
    NOISE_FLOOR_BITS, SILENCE_BITS,
};

const ONE: u32 = 0x3f80_0000;
const TWO: u32 = 0x4000_0000;
const THREE: u32 = 0x4040_0000;
const POSITIVE_INFINITY: u32 = 0x7f80_0000;
const NEGATIVE_INFINITY: u32 = 0xff80_0000;
const QUIET_NAN: u32 = 0x7fc0_0000;
const NEGATIVE_NAN: u32 = 0xffc0_0000;

#[test]
fn new_accepts_the_minimum() {
    let detector = FreqDetector::new(1, 4).unwrap();
    assert_eq!(detector.sample_rate(), 1);
    assert_eq!(detector.sample_count(), 4);
    assert_eq!(detector.window_count(), 1);
    assert_eq!(MIN_SAMPLE_RATE, 1);
    assert_eq!(MIN_SAMPLE_COUNT, 4);
}

#[test]
fn new_keeps_what_it_was_given() {
    let detector = FreqDetector::new(44100, 8192).unwrap();
    assert_eq!(detector.sample_rate(), 44100);
    assert_eq!(detector.sample_count(), 8192);
    assert_eq!(detector.window_count(), 4095);
}

#[test]
fn new_accepts_the_largest_numbers() {
    let detector = FreqDetector::new(usize::MAX, usize::MAX).unwrap();
    assert_eq!(detector.sample_rate(), usize::MAX);
    assert_eq!(detector.sample_count(), usize::MAX);
    assert_eq!(detector.window_count(), usize::MAX / 2 - 1);
}

#[test]
fn new_rejects_a_zero_sample_rate() {
    assert_eq!(
        FreqDetector::new(0, 8192).unwrap_err(),
        DetectorCreateError::SampleRateTooLow
    );
    assert_eq!(
        FreqDetector::new(0, 4).unwrap_err(),
        DetectorCreateError::SampleRateTooLow
    );
}

#[test]
fn new_rejects_fewer_than_four_samples() {
    for sample_count in [0, 1, 2, 3] {
        assert_eq!(
            FreqDetector::new(44100, sample_count).unwrap_err(),
            DetectorCreateError::TooFewSamples
        );
        assert_eq!(
            FreqDetector::new(1, sample_count).unwrap_err(),
            DetectorCreateError::TooFewSamples
        );
    }
}

#[test]
fn new_looks_at_the_sample_count_first() {
    for sample_count in [0, 1, 2, 3] {
        assert_eq!(
            FreqDetector::new(0, sample_count).unwrap_err(),
            DetectorCreateError::TooFewSamples
        );
    }
}

#[test]
fn window_count_is_one_less_than_the_bins_of_the_half() {
    // Half the sample count, rounded down, is the number of bins.
    assert_eq!(FreqDetector::new(44100, 4).unwrap().window_count(), 1);
    assert_eq!(FreqDetector::new(44100, 5).unwrap().window_count(), 1);
    assert_eq!(FreqDetector::new(44100, 6).unwrap().window_count(), 2);
    assert_eq!(FreqDetector::new(44100, 7).unwrap().window_count(), 2);
    assert_eq!(FreqDetector::new(44100, 8).unwrap().window_count(), 3);
    assert_eq!(FreqDetector::new(44100, 10).unwrap().window_count(), 4);
}

#[test]
fn check_sample_count_admits_the_exact_length() {
    let detector = FreqDetector::new(44100, 8192).unwrap();
    assert_eq!(detector.check_sample_count(8192), Ok(()));
}

#[test]
fn check_sample_count_names_both_lengths() {
    let detector = FreqDetector::new(44100, 8192).unwrap();
    for passed in [0, 1, 4096, 8191, 8193, 16384, usize::MAX] {
        assert_eq!(
            detector.check_sample_count(passed),
            Err(DetectError::SampleCountMismatch { expected: 8192, actual: passed })
        );
    }
}

#[test]
fn check_sample_count_does_not_wear_the_detector_out() {
    let detector = FreqDetector::new(44100, 4).unwrap();
    assert!(detector.check_sample_count(3).is_err());
    assert_eq!(detector.check_sample_count(4), Ok(()));
}

#[test]
fn detect_refuses_a_buffer_of_another_length() {
    let detector = FreqDetector::new(44100, 10).unwrap();
    let scores = [ONE, THREE, TWO, ONE];
    for passed in [0, 1, 5, 9, 11, 20, usize::MAX] {
        assert_eq!(
            detector.detect(passed, &scores),
            Err(DetectError::SampleCountMismatch { expected: 10, actual: passed })
        );
        assert_eq!(
            detector.detect(passed, &[]),
            Err(DetectError::SampleCountMismatch { expected: 10, actual: passed })
        );
    }
    assert_eq!(detector.detect(10, &scores), Ok(Detection::Peak { window: 1 }));
}

#[test]
fn detect_finds_the_greatest_score() {
    let detector = FreqDetector::new(44100, 10).unwrap();
    assert_eq!(
        detector.detect(10, &[ONE, THREE, TWO, ONE]),
        Ok(Detection::Peak { window: 1 })
    );
    assert_eq!(
        detector.detect(10, &[ONE, ONE, TWO, THREE]),
        Ok(Detection::Peak { window: 3 })
    );
    assert_eq!(
        detector.detect(10, &[THREE, ONE, TWO, ONE]),
        Ok(Detection::Peak { window: 0 })
    );
}

#[test]
fn detect_takes_the_first_of_equal_scores() {
    let detector = FreqDetector::new(44100, 10).unwrap();
    assert_eq!(
        detector.detect(10, &[ONE, TWO, TWO, TWO]),
        Ok(Detection::Peak { window: 1 })
    );
    assert_eq!(
        detector.detect(10, &[TWO, TWO, TWO, TWO]),
        Ok(Detection::Peak { window: 0 })
    );
    assert_eq!(
        detector.detect(10, &[ONE, ONE, THREE, THREE]),
        Ok(Detection::Peak { window: 2 })
    );
}

#[test]
fn detect_reads_the_windows_inside_the_positive_half_only() {
    // Ten samples: bins 0 to 4 are the positive half, so four of the nine
    // windows count.
    let detector = FreqDetector::new(44100, 10).unwrap();
    let scores = [ONE, TWO, ONE, ONE, THREE, THREE, THREE, THREE, THREE];
    assert_eq!(detector.detect(10, &scores), Ok(Detection::Peak { window: 1 }));
    // Eight samples: window 3 reads bin 4, the first bin beyond the half.
    let even = FreqDetector::new(44100, 8).unwrap();
    assert_eq!(
        even.detect(8, &[ONE, ONE, TWO, THREE]),
        Ok(Detection::Peak { window: 2 })
    );
    // Five samples: bins 0 and 1, one window.
    let odd = FreqDetector::new(44100, 5).unwrap();
    assert_eq!(
        odd.detect(5, &[ONE, TWO, THREE, THREE]),
        Ok(Detection::Peak { window: 0 })
    );
}

#[test]
fn detect_has_one_window_to_look_at_in_four_samples() {
    // The window scores of the buffer 1.25, -0.75, 1.25, -0.75: bin 0
    // holds 1, bin 1 nothing, bin 2 holds 4. Only the window of bins 0
    // and 1 lies inside the positive half.
    let detector = FreqDetector::new(44100, 4).unwrap();
    let four = 0x4080_0000;
    assert_eq!(
        detector.detect(4, &[ONE, four, four]),
        Ok(Detection::Peak { window: 0 })
    );
}

#[test]
fn detect_never_fails_on_a_buffer_of_the_right_length() {
    let detector = FreqDetector::new(44100, 10).unwrap();
    for scores in [
        [0, 0, 0, 0],
        [ONE, TWO, THREE, ONE],
        [QUIET_NAN, NEGATIVE_NAN, POSITIVE_INFINITY, NEGATIVE_INFINITY],
    ] {
        assert!(detector.detect(10, &scores).is_ok());
    }
}

#[test]
fn detect_finds_zeros_silent() {
    let detector = FreqDetector::new(44100, 10).unwrap();
    assert_eq!(detector.detect(10, &[0, 0, 0, 0]), Ok(Detection::Silence));
    assert_eq!(SILENCE_BITS, 0);
}

#[test]
fn detect_draws_the_line_at_the_noise_floor() {
    let detector = FreqDetector::new(44100, 10).unwrap();
    let below = NOISE_FLOOR_BITS - 1;
    let above = NOISE_FLOOR_BITS + 1;
    assert_eq!(detector.detect(10, &[0, below, 0, 0]), Ok(Detection::Silence));
    assert_eq!(
        detector.detect(10, &[0, NOISE_FLOOR_BITS, 0, 0]),
        Ok(Detection::Peak { window: 1 })
    );
    assert_eq!(
        detector.detect(10, &[0, 0, above, 0]),
        Ok(Detection::Peak { window: 2 })
    );
}

#[test]
fn detect_does_not_take_a_loud_tail_for_a_peak() {
    let detector = FreqDetector::new(44100, 10).unwrap();
    // The loud windows lie beyond the positive half; what counts is quiet.
    let scores = [0, 1, 0, 0, THREE, THREE, THREE, THREE, THREE];
    assert_eq!(detector.detect(10, &scores), Ok(Detection::Silence));
}

#[test]
fn detect_never_takes_not_a_number_for_silence() {
    let detector = FreqDetector::new(44100, 10).unwrap();
    assert_eq!(
        detector.detect(10, &[QUIET_NAN, QUIET_NAN, QUIET_NAN, QUIET_NAN]),
        Ok(Detection::Peak { window: 0 })
    );
    assert_eq!(
        detector.detect(10, &[0, 0, QUIET_NAN, 0]),
        Ok(Detection::Peak { window: 2 })
    );
    assert_eq!(
        detector.detect(10, &[NEGATIVE_NAN, NEGATIVE_NAN, NEGATIVE_NAN, NEGATIVE_NAN]),
        Ok(Detection::Peak { window: 0 })
    );
}

#[test]
fn detect_orders_not_a_number_beyond_the_infinities() {
    let detector = FreqDetector::new(44100, 10).unwrap();
    assert_eq!(
        detector.detect(10, &[POSITIVE_INFINITY, QUIET_NAN, THREE, ONE]),
        Ok(Detection::Peak { window: 1 })
    );
    assert_eq!(
        detector.detect(10, &[NEGATIVE_NAN, NEGATIVE_INFINITY, ONE, THREE]),
        Ok(Detection::Peak { window: 3 })
    );
    assert_eq!(
        detector.detect(10, &[NEGATIVE_NAN, NEGATIVE_INFINITY, NEGATIVE_NAN, NEGATIVE_NAN]),
        Ok(Detection::Silence)
    );
}

#[test]
fn conclude_accepts_finite_numbers() {
    let detector = FreqDetector::new(44100, 8192).unwrap();
    for estimate in [0, 0x8000_0000, 1, ONE, 0x43dc_0000, 0x7f7f_ffff, 0xff7f_ffff] {
        assert_eq!(detector.conclude(estimate), Ok(estimate));
    }
}

#[test]
fn conclude_rejects_what_is_not_finite() {
    let detector = FreqDetector::new(44100, 8192).unwrap();
    for estimate in [
        QUIET_NAN,
        NEGATIVE_NAN,
        0x7f80_0001,
        0x7fff_ffff,
        0xffff_ffff,
        POSITIVE_INFINITY,
        NEGATIVE_INFINITY,
    ] {
        assert_eq!(detector.conclude(estimate), Err(DetectError::NansFound));
    }
}
