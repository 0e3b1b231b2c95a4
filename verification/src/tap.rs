//! The tap between an audio stream and the ring that the display reads.
//!
//! Every sample pulled from the stream passes through the tap on its way to
//! the sink. The tap hands it on unchanged and writes its amplitude to the
//! ring; when the stream has ended it hands on the end and writes nothing.

use crate::amplitude::{normalized, Amplitude};
use crate::ring::{after_push, after_pushes, written, RingBuffer};
use vstd::prelude::*;

verus! {

/// What the ring retains after one pull has passed the tap.
pub open spec fn tapped(retained: Seq<Amplitude>, pulled: Option<i16>) -> Seq<Amplitude> {
    match pulled {
        Some(sample) => after_push(retained, normalized(sample)),
        None => retained,
    }
}

/// What the tap hands to the sink for one pull: the pull itself.
pub open spec fn forwarded(pulled: Option<i16>) -> Option<i16> {
    pulled
}

/// The amplitudes of a run of samples, in order.
pub open spec fn amplitudes(samples: Seq<i16>) -> Seq<Amplitude> {
    Seq::new(samples.len(), |i: int| normalized(samples[i]))
}

/// A whole stream passing the tap: what the ring retains once the samples
/// have been pulled in order, and what the sink was handed meanwhile.
pub open spec fn streamed(retained: Seq<Amplitude>, samples: Seq<i16>) -> (Seq<Amplitude>, Seq<
    Option<i16>,
>)
    decreases samples.len(),
{
    if samples.len() == 0 {
        (retained, Seq::empty())
    } else {
        let before = streamed(retained, samples.drop_last());
        let pulled = Some(samples.last());
        (tapped(before.0, pulled), before.1.push(forwarded(pulled)))
    }
}

/// Passes one pull of the stream through the tap. A sample is written to the
/// ring once, as its amplitude; the end of the stream leaves the ring as it
/// was.
pub fn tap(buffer: &mut RingBuffer<Amplitude>, pulled: Option<i16>) -> (handed_on: Option<i16>)
    ensures
        handed_on == forwarded(pulled),
        final(buffer)@ == tapped(old(buffer)@, pulled),
        match pulled {
            Some(sample) => written(*old(buffer), *final(buffer), normalized(sample)),
            None => *final(buffer) == *old(buffer),
        },
{
    if let Some(sample) = pulled {
        buffer.push(Amplitude::from_sample(sample));
        Some(sample)
    } else {
        None
    }
}

/// The tap is transparent. Whatever finite run of samples passes it, the sink
/// is handed exactly those samples in their order, none dropped and none
/// twice, and the ring is written once for each, with the sample's amplitude.
pub proof fn lemma_tap_is_transparent(retained: Seq<Amplitude>, samples: Seq<i16>)
    ensures
        streamed(retained, samples).1 == Seq::new(samples.len(), |i: int| Some(samples[i])),
        streamed(retained, samples).0 == after_pushes(retained, amplitudes(samples)),
        amplitudes(samples).len() == samples.len(),
    decreases samples.len(),
{
    if samples.len() > 0 {
        let earlier = samples.drop_last();
        lemma_tap_is_transparent(retained, earlier);
        assert(amplitudes(samples).drop_last() == amplitudes(earlier));
        assert(amplitudes(samples).last() == normalized(samples.last()));
    }
    assert(streamed(retained, samples).1 == Seq::new(samples.len(), |i: int| Some(samples[i])));
}

} // verus!
