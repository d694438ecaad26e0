//! Smoothed durations.
//!
//! The host shows how long the phases of a frame take. A single frame
//! jitters, so each duration is shown as a running average in which the
//! newest sample weighs one sixtieth.

use vstd::prelude::*;

verus! {

/// The number of frames that the average looks back over.
pub const WINDOW: u128 = 60;

/// The average after `sample`: fifty-nine parts of the old average and one
/// part of the sample, rounded down.
pub open spec fn smoothed(average: int, sample: int) -> int {
    (sample + average * 59) / 60
}

/// Whether the average after `sample` can be computed in 128 bits.
pub open spec fn fits(average: u128, sample: u128) -> bool {
    sample + average * 59 <= u128::MAX
}

/// Takes `sample` into the running `average`.
pub fn smooth(average: u128, sample: u128) -> (next: u128)
    requires
        fits(average, sample),
    ensures
        next == smoothed(average as int, sample as int),
{
    (sample + average * (WINDOW - 1)) / WINDOW
}

/// Takes `sample` into the running `average` where that can be computed,
/// and says so where it cannot.
pub fn try_smooth(average: u128, sample: u128) -> (next: Option<u128>)
    ensures
        fits(average, sample) ==> next == Some(smoothed(average as int, sample as int) as u128),
        !fits(average, sample) ==> next is None,
{
    match average.checked_mul(WINDOW - 1) {
        Some(weighted) => match sample.checked_add(weighted) {
            Some(sum) => Some(sum / WINDOW),
            None => None,
        },
        None => None,
    }
}

/// The average never leaves the span between what it was and the sample.
pub proof fn lemma_smoothed_between(average: int, sample: int)
    requires
        0 <= average,
        0 <= sample,
    ensures
        average <= sample ==> average <= smoothed(average, sample) <= sample,
        sample <= average ==> sample <= smoothed(average, sample) <= average,
{
}

/// A sample equal to the average leaves it as it is.
pub proof fn lemma_smoothed_steady(average: int)
    requires
        0 <= average,
    ensures
        smoothed(average, average) == average,
{
}

} // verus!
