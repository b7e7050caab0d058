//! The playback clock: how long each frame stays on screen.

use vstd::prelude::*;

verus! {

/// A stream's declared frame rate, frames per second as a rational.
#[derive(Clone, Copy, Debug, PartialEq, Eq, Structural)]
pub struct FrameRate {
    pub numerator: i32,
    pub denominator: i32,
}

/// A length of time in seconds, as the exact fraction `numer / denom`.
#[derive(Clone, Copy, Debug, PartialEq, Eq, Structural)]
pub struct FrameInterval {
    pub numer: u64,
    pub denom: u64,
}

/// Milliseconds per second: the first divisor of the interval.
pub const MILLIS: u64 = 1000;

/// Numerator of the damping factor 3.5, kept as the fraction 7 / 2. The
/// factor is the second divisor of the interval: it makes up for the cost of
/// decoding, converting and printing a frame.
pub const DAMPING_NUMER: u64 = 7;

/// Denominator of the damping factor.
pub const DAMPING_DENOM: u64 = 2;

impl FrameRate {
    /// A frame rate paces playback only if both of its parts are positive.
    pub open spec fn is_valid(self) -> bool {
        self.numerator > 0 && self.denominator > 0
    }
}

impl FrameInterval {
    /// More than no time at all.
    pub open spec fn is_positive(self) -> bool {
        self.numer > 0 && self.denom > 0
    }
}

/// The frame interval of a frame rate: `(denominator / numerator) / 1000 / 3.5`
/// seconds, kept as a fraction.
pub open spec fn interval_of(rate: FrameRate) -> FrameInterval {
    FrameInterval {
        numer: (rate.denominator * DAMPING_DENOM) as u64,
        denom: (rate.numerator * MILLIS * DAMPING_NUMER) as u64,
    }
}

/// Computes the frame interval of `rate`, or nothing for a rate that is not
/// valid. The interval depends on the rate alone and is positive.
pub fn frame_interval(rate: FrameRate) -> (interval: Option<FrameInterval>)
    ensures
        interval == if rate.is_valid() {
            Some(interval_of(rate))
        } else {
            None
        },
        interval matches Some(given) ==> given.is_positive(),
{
    proof {
        if rate.is_valid() {
            lemma_interval_positive(rate);
        }
    }
    if rate.numerator > 0 && rate.denominator > 0 {
        let numer: u64 = (rate.denominator as u64) * DAMPING_DENOM;
        let denom: u64 = (rate.numerator as u64) * MILLIS * DAMPING_NUMER;
        Some(FrameInterval { numer, denom })
    } else {
        None
    }
}

/// The interval of a valid frame rate is positive, and it is the stated
/// fraction of the rate's period: `numer / denom == denominator / (numerator * 3500)`.
pub proof fn lemma_interval_positive(rate: FrameRate)
    requires
        rate.is_valid(),
    ensures
        interval_of(rate).is_positive(),
        interval_of(rate).numer * (rate.numerator * 3500) == interval_of(rate).denom
            * rate.denominator,
{
    let n = rate.numerator as int;
    let d = rate.denominator as int;
    assert((d * 2) * (n * 3500) == (n * 1000 * 7) * d) by (nonlinear_arith);
}

} // verus!
