//! The detector: its configuration and the decisions it takes on one buffer.
//!
//! Work on a buffer alternates between the caller, who computes on real
//! numbers, and the detector, who decides:
//!
//! 1. [`FreqDetector::check_sample_count`] admits the buffer by its length,
//!    before anything is computed on it.
//! 2. The caller transforms the buffer and, for each pair of adjacent bins
//!    `(k, k + 1)` in rising order, adds the magnitudes of the two
//!    coefficients: the score of window `k`.
//! 3. [`FreqDetector::detect`] refuses a buffer of the wrong length too;
//!    of an admitted one it finds the peak window among the windows that
//!    lie inside the positive-frequency half, or finds the buffer silent.
//! 4. The caller takes the mean of the two bin frequencies of the peak
//!    window, each weighted by its magnitude.
//! 5. [`FreqDetector::conclude`] accepts that estimate or rejects it.
//!
//! Every number crosses this boundary as the bit pattern of an IEEE 754
//! single-precision number.

use vstd::prelude::*;
use vstd::arithmetic::power2::{lemma_pow2_pos, pow2};
use vstd::slice::slice_subrange;
use crate::binary32::{
    is_finite, is_infinite, is_nan, less_than, sign_negative, spec_is_finite, spec_less_than,
    total_order_key, FRACTIONS,
};
use crate::peak::{is_peak, lemma_peak_exists, peak_of, peak_window};

verus! {

/// The lowest sample rate a detector accepts, in samples per second.
pub const MIN_SAMPLE_RATE: usize = 1;

/// The shortest buffer a detector accepts: the least length whose
/// positive-frequency half holds two bins, and so one window.
pub const MIN_SAMPLE_COUNT: usize = 4;

/// The noise floor: the single-precision number nearest to one
/// ten-thousandth. A peak score below it is silence.
pub const NOISE_FLOOR_BITS: u32 = 0x38d1_b717;

/// The frequency reported for silence: positive zero.
pub const SILENCE_BITS: u32 = 0;

/// Why a detector could not be made.
#[derive(Clone, Copy, Debug, PartialEq, Eq, Structural)]
pub enum DetectorCreateError {
    /// The sample rate was below one sample per second.
    SampleRateTooLow,
    /// The sample count was below four.
    TooFewSamples,
}

/// Why a detection failed.
#[derive(Clone, Copy, Debug, PartialEq, Eq, Structural)]
pub enum DetectError {
    /// The buffer did not hold as many samples as the detector was made for.
    SampleCountMismatch { expected: usize, actual: usize },
    /// The estimate was not a finite number.
    NansFound,
}

/// What the scores of a transformed buffer show.
#[derive(Clone, Copy, Debug, PartialEq, Eq, Structural)]
pub enum Detection {
    /// The peak score lies below the noise floor: the buffer holds no tone,
    /// and the frequency to report is [`SILENCE_BITS`].
    Silence,
    /// The tone lies between bin `window` and bin `window + 1`.
    Peak { window: usize },
}

/// A frequency detector for buffers of one fixed length, sampled at one
/// fixed rate.
#[derive(Debug)]
pub struct FreqDetector {
    sample_count: usize,
    sample_rate: usize,
}

/// What a detector is: the two numbers it was made with.
pub ghost struct Configuration {
    pub sample_rate: nat,
    pub sample_count: nat,
}

impl View for FreqDetector {
    type V = Configuration;

    closed spec fn view(&self) -> Configuration {
        Configuration {
            sample_rate: self.sample_rate as nat,
            sample_count: self.sample_count as nat,
        }
    }
}

impl FreqDetector {
    #[verifier::type_invariant]
    spec fn well_formed(self) -> bool {
        self.wf()
    }

    /// The rule every detector obeys: both numbers reach their minimum.
    pub open spec fn wf(self) -> bool {
        &&& self@.sample_rate >= MIN_SAMPLE_RATE
        &&& self@.sample_count >= MIN_SAMPLE_COUNT
        &&& self@.sample_rate <= usize::MAX
        &&& self@.sample_count <= usize::MAX
    }

    /// The number of windows inside the positive-frequency half. The half
    /// is the bins from 0 to `sample_count / 2 - 1`, so its last window is
    /// the pair of bins `sample_count / 2 - 2` and `sample_count / 2 - 1`:
    /// one window fewer than it has bins.
    pub open spec fn spec_window_count(self) -> nat {
        (self@.sample_count / 2 - 1) as nat
    }

    /// What the length check returns for a buffer of `passed` samples.
    pub open spec fn admission(self, passed: usize) -> Result<(), DetectError> {
        if passed == self@.sample_count {
            Ok(())
        } else {
            Err(
                DetectError::SampleCountMismatch {
                    expected: self@.sample_count as usize,
                    actual: passed,
                },
            )
        }
    }

    /// The scores that count: those of the windows inside the
    /// positive-frequency half, which come first. A window that reads bin
    /// `sample_count / 2` or a later one does not count.
    pub open spec fn considered(self, scores: Seq<u32>) -> Seq<u32> {
        scores.take(self.spec_window_count() as int)
    }

    /// What the scores of an admitted buffer show: silence where the peak
    /// among the considered scores is below the noise floor, else the peak
    /// window.
    pub open spec fn detection(self, scores: Seq<u32>) -> Detection {
        let row = self.considered(scores);
        let window = peak_of(row);
        if spec_less_than(row[window], NOISE_FLOOR_BITS) {
            Detection::Silence
        } else {
            Detection::Peak { window: window as usize }
        }
    }

    /// What becomes of an estimate: a finite one is the result.
    pub open spec fn conclusion(estimate: u32) -> Result<u32, DetectError> {
        if spec_is_finite(estimate) {
            Ok(estimate)
        } else {
            Err(DetectError::NansFound)
        }
    }

    /// What `detect` returns for the scores of a buffer of `passed` samples:
    /// the failure of the length check, or else what the scores show.
    pub open spec fn decision(self, passed: usize, scores: Seq<u32>) -> Result<
        Detection,
        DetectError,
    > {
        match self.admission(passed) {
            Err(error) => Err(error),
            Ok(_) => Ok(self.detection(scores)),
        }
    }

    /// Makes a detector for buffers of `sample_count` samples taken at
    /// `sample_rate` samples per second. The sample count is looked at
    /// first: fewer than four samples fail as such, whatever the rate.
    pub fn new(sample_rate: usize, sample_count: usize) -> (made: Result<
        FreqDetector,
        DetectorCreateError,
    >)
        ensures
            sample_count < MIN_SAMPLE_COUNT ==> made == Err::<FreqDetector, DetectorCreateError>(
                DetectorCreateError::TooFewSamples,
            ),
            sample_count >= MIN_SAMPLE_COUNT && sample_rate < MIN_SAMPLE_RATE ==> made == Err::<
                FreqDetector,
                DetectorCreateError,
            >(DetectorCreateError::SampleRateTooLow),
            sample_count >= MIN_SAMPLE_COUNT && sample_rate >= MIN_SAMPLE_RATE ==> made is Ok,
            made matches Ok(detector) ==> detector.wf() && detector@.sample_rate == sample_rate
                && detector@.sample_count == sample_count,
    {
        if sample_count < MIN_SAMPLE_COUNT {
            return Err(DetectorCreateError::TooFewSamples);
        }
        if sample_rate < MIN_SAMPLE_RATE {
            return Err(DetectorCreateError::SampleRateTooLow);
        }
        Ok(FreqDetector { sample_count, sample_rate })
    }

    /// The sample rate the detector was made with.
    pub fn sample_rate(&self) -> (rate: usize)
        ensures
            rate == self@.sample_rate,
            rate >= MIN_SAMPLE_RATE,
    {
        proof {
            use_type_invariant(self);
        }
        self.sample_rate
    }

    /// The sample count the detector was made with.
    pub fn sample_count(&self) -> (count: usize)
        ensures
            count == self@.sample_count,
            count >= MIN_SAMPLE_COUNT,
    {
        proof {
            use_type_invariant(self);
        }
        self.sample_count
    }

    /// The number of windows inside the positive-frequency half.
    pub fn window_count(&self) -> (count: usize)
        ensures
            count == self.spec_window_count(),
            count >= 1,
    {
        proof {
            use_type_invariant(self);
        }
        self.sample_count / 2 - 1
    }

    /// Admits a buffer of `passed` samples if that is the length the
    /// detector was made for, and names both lengths if it is not.
    pub fn check_sample_count(&self, passed: usize) -> (checked: Result<(), DetectError>)
        ensures
            checked == self.admission(passed),
    {
        if passed != self.sample_count {
            return Err(
                DetectError::SampleCountMismatch { expected: self.sample_count, actual: passed },
            );
        }
        Ok(())
    }

    /// Decides what the window scores of a transformed buffer show.
    ///
    /// `passed` is the length of the buffer the scores were computed from.
    /// A buffer of another length than the detector was made for fails with
    /// both lengths named, whatever the scores are. A buffer of the right
    /// length never fails here. Its `scores[k]` is the score of window `k`,
    /// and the row holds every window inside the positive-frequency half;
    /// scores handed over beyond those are not read.
    pub fn detect(&self, passed: usize, scores: &[u32]) -> (found: Result<Detection, DetectError>)
        requires
            self.admission(passed) is Ok ==> scores@.len() >= self.spec_window_count(),
        ensures
            found == self.decision(passed, scores@),
            found is Ok <==> passed == self@.sample_count,
            found is Ok ==> is_peak(self.considered(scores@), peak_of(self.considered(scores@))),
            found matches Ok(Detection::Peak { window }) ==> window == peak_of(
                self.considered(scores@),
            ) && window < self.spec_window_count(),
    {
        match self.check_sample_count(passed) {
            Err(error) => {
                return Err(error);
            },
            Ok(()) => {},
        }
        let row = slice_subrange(scores, 0, self.window_count());
        assert(row@ =~= self.considered(scores@));
        let window = peak_window(row);
        if less_than(row[window], NOISE_FLOOR_BITS) {
            Ok(Detection::Silence)
        } else {
            Ok(Detection::Peak { window })
        }
    }

    /// Accepts the estimate computed inside the peak window if it is a
    /// finite number, and rejects an infinity or a not-a-number.
    pub fn conclude(&self, estimate: u32) -> (result: Result<u32, DetectError>)
        ensures
            result == Self::conclusion(estimate),
            result is Ok || result == Err::<u32, DetectError>(DetectError::NansFound),
    {
        if is_finite(estimate) {
            Ok(estimate)
        } else {
            Err(DetectError::NansFound)
        }
    }
}

/// Positive zero is below the noise floor.
pub proof fn lemma_zero_is_below_noise_floor()
    ensures
        spec_less_than(0, NOISE_FLOOR_BITS),
{
    let step = pow2(112) as int;
    let unit = FRACTIONS as int;
    lemma_pow2_pos(112);
    assert((unit + 5355287) * step > 0) by (nonlinear_arith)
        requires
            unit > 0,
            step > 0,
    ;
}

/// The length of the buffer decides between failure and detection, and
/// nothing else does. A buffer of another length than the detector was made
/// for fails with both lengths named, whatever its scores; a buffer of the
/// right length goes on to a detection, and what follows it is a frequency
/// or the failure of the estimate, never a mismatch.
pub proof fn lemma_length_decides_admission(
    detector: FreqDetector,
    passed: usize,
    scores: Seq<u32>,
    estimate: u32,
)
    requires
        detector.wf(),
    ensures
        passed != detector@.sample_count ==> detector.decision(passed, scores) == Err::<
            Detection,
            DetectError,
        >(
            DetectError::SampleCountMismatch {
                expected: detector@.sample_count as usize,
                actual: passed,
            },
        ),
        passed == detector@.sample_count ==> detector.decision(passed, scores) == Ok::<
            Detection,
            DetectError,
        >(detector.detection(scores)),
        FreqDetector::conclusion(estimate) is Ok || FreqDetector::conclusion(estimate) == Err::<
            u32,
            DetectError,
        >(DetectError::NansFound),
{
}

/// A quiet spectrum is silence: where every considered score is below the
/// noise floor, so is the peak.
pub proof fn lemma_quiet_scores_are_silence(
    detector: FreqDetector,
    passed: usize,
    scores: Seq<u32>,
)
    requires
        detector.wf(),
        passed == detector@.sample_count,
        scores.len() >= detector.spec_window_count(),
        forall|i: int|
            0 <= i < detector.spec_window_count() ==> spec_less_than(
                #[trigger] scores[i],
                NOISE_FLOOR_BITS,
            ),
    ensures
        detector.decision(passed, scores) == Ok::<Detection, DetectError>(Detection::Silence),
{
    lemma_peak_exists(detector.considered(scores));
}

/// The spectrum of a buffer of zeros is silence: where every considered
/// score is positive zero, the detection is silence and no failure.
pub proof fn lemma_zero_scores_are_silence(
    detector: FreqDetector,
    passed: usize,
    scores: Seq<u32>,
)
    requires
        detector.wf(),
        passed == detector@.sample_count,
        scores.len() >= detector.spec_window_count(),
        forall|i: int| 0 <= i < detector.spec_window_count() ==> #[trigger] scores[i] == 0,
    ensures
        detector.decision(passed, scores) == Ok::<Detection, DetectError>(Detection::Silence),
{
    lemma_zero_is_below_noise_floor();
    lemma_quiet_scores_are_silence(detector, passed, scores);
}

/// What is not a number never passes for a frequency. One considered score
/// that is a not-a-number of positive sign is enough: the peak is then such
/// a score too, the detection is not silence, and the caller goes on to
/// the estimate; and an estimate that is not a finite number is rejected.
pub proof fn lemma_not_a_number_is_never_a_frequency(
    detector: FreqDetector,
    passed: usize,
    scores: Seq<u32>,
    place: int,
    estimate: u32,
)
    requires
        detector.wf(),
        passed == detector@.sample_count,
        scores.len() >= detector.spec_window_count(),
        0 <= place < detector.spec_window_count(),
        is_nan(scores[place]),
        !sign_negative(scores[place]),
        is_nan(estimate) || is_infinite(estimate),
    ensures
        detector.decision(passed, scores) == Ok::<Detection, DetectError>(
            Detection::Peak { window: peak_of(detector.considered(scores)) as usize },
        ),
        is_nan(detector.considered(scores)[peak_of(detector.considered(scores))]),
        FreqDetector::conclusion(estimate) == Err::<u32, DetectError>(DetectError::NansFound),
{
    let row = detector.considered(scores);
    lemma_peak_exists(row);
    assert(row[place] == scores[place]);
    assert(total_order_key(row[place]) <= total_order_key(row[peak_of(row)]));
}

/// A spectrum in which no considered score is a number, of whatever sign,
/// has a peak that is not a number either: the detection is never silence.
pub proof fn lemma_nan_scores_are_not_silence(
    detector: FreqDetector,
    passed: usize,
    scores: Seq<u32>,
)
    requires
        detector.wf(),
        passed == detector@.sample_count,
        scores.len() >= detector.spec_window_count(),
        forall|i: int| 0 <= i < detector.spec_window_count() ==> is_nan(#[trigger] scores[i]),
    ensures
        detector.decision(passed, scores) matches Ok(Detection::Peak { .. }),
{
    let row = detector.considered(scores);
    lemma_peak_exists(row);
    assert(row[peak_of(row)] == scores[peak_of(row)]);
}

/// The decisions are functions of what the detector was made with and of
/// what it is handed: two detectors of one configuration decide alike on
/// buffers of one length whose rows agree in the considered scores,
/// whatever follows those and whatever either detector was asked before.
pub proof fn lemma_decisions_are_determined(
    first: FreqDetector,
    second: FreqDetector,
    passed: usize,
    scores_first: Seq<u32>,
    scores_second: Seq<u32>,
)
    requires
        first@ == second@,
        first.considered(scores_first) =~= second.considered(scores_second),
    ensures
        first.admission(passed) == second.admission(passed),
        first.decision(passed, scores_first) == second.decision(passed, scores_second),
{
}

} // verus!
