//! The decision core of a dominant-frequency detector.
//!
//! A detector looks at the spectrum of a fixed-length buffer of samples, picks
//! the pair of adjacent frequency bins that carries the most energy, and
//! reports a frequency inside that pair. This crate holds every decision of
//! that procedure and proves what each one returns. The arithmetic on real
//! numbers (the transform, the magnitudes, the weighted mean) is done by the
//! caller, who hands the results over as the bit patterns of IEEE 754
//! single-precision numbers.

pub mod binary32;
pub mod detector;
pub mod peak;

pub use detector::{
    DetectError, Detection, DetectorCreateError, FreqDetector, MIN_SAMPLE_COUNT, MIN_SAMPLE_RATE,
    NOISE_FLOOR_BITS, SILENCE_BITS,
};
