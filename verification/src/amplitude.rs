//! Amplitudes as exact fractions of full scale.
//!
//! A signed 16-bit sample `s` stands for the amplitude `s / 32767`, which lies
//! in the range from -1 to 1 (the one sample -32768 falls just below it).
//! Dividing would round, so an amplitude keeps the numerator and leaves the
//! division to whoever needs a quotient.

use vstd::prelude::*;

verus! {

/// The denominator of every amplitude: the largest sample magnitude.
pub const FULL_SCALE: i16 = 32767;

/// The amplitude `numerator / FULL_SCALE`.
#[derive(Clone, Copy, Debug, PartialEq, Eq)]
pub struct Amplitude {
    pub numerator: i16,
}

/// The amplitude of a sample: the sample over `FULL_SCALE`.
pub open spec fn normalized(sample: i16) -> Amplitude {
    Amplitude { numerator: sample }
}

/// The absolute value of an amplitude's numerator.
pub open spec fn magnitude_of(amplitude: Amplitude) -> nat {
    if amplitude.numerator < 0 {
        (-amplitude.numerator) as nat
    } else {
        amplitude.numerator as nat
    }
}

impl Amplitude {
    /// No signal: the amplitude zero.
    pub fn silence() -> (amplitude: Amplitude)
        ensures
            amplitude == normalized(0),
    {
        Amplitude { numerator: 0 }
    }

    /// Normalizes a sample to a fraction of full scale.
    pub fn from_sample(sample: i16) -> (amplitude: Amplitude)
        ensures
            amplitude == normalized(sample),
    {
        Amplitude { numerator: sample }
    }

    /// The absolute value of the numerator, from 0 to 32768.
    pub fn magnitude(&self) -> (magnitude: u16)
        ensures
            magnitude == magnitude_of(*self),
            magnitude <= 32768,
    {
        if self.numerator < 0 {
            (-(self.numerator as i32)) as u16
        } else {
            self.numerator as u16
        }
    }
}

} // verus!
