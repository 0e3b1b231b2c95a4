//! The waveform display: a snapshot drawn as one connected line.
//!
//! The amplitudes are spread evenly over the display width, oldest at the
//! left. Silence lies on the horizontal midline; full scale deflects by
//! `UNITS_PER_AMPLITUDE`, upwards where the amplitude is positive. Nothing is
//! smoothed.
//! Quotients are rounded down, a deflection towards the midline.

use crate::amplitude::{magnitude_of, Amplitude, FULL_SCALE};
use vstd::prelude::*;

verus! {

/// The deflection of a full-scale amplitude, in display units.
pub const UNITS_PER_AMPLITUDE: u32 = 200;

/// A place on the display: `x` from its left edge, `y` downwards from its
/// top edge.
#[derive(Clone, Copy, Debug, PartialEq, Eq)]
pub struct Point {
    pub x: u32,
    pub y: i64,
}

/// A straight line between two places.
#[derive(Clone, Copy, Debug, PartialEq, Eq)]
pub struct Segment {
    pub from: Point,
    pub to: Point,
}

/// How far an amplitude lies from the midline, upwards if positive: the
/// amplitude times the deflection of full scale.
pub open spec fn deflection(amplitude: Amplitude) -> int {
    let units = magnitude_of(amplitude) * UNITS_PER_AMPLITUDE / FULL_SCALE as int;
    if amplitude.numerator < 0 {
        -units
    } else {
        units
    }
}

/// Where the amplitude at `i` is drawn: `i * width / n` across, for a
/// snapshot of `n`, and its deflection above the midline at `height / 2`.
pub open spec fn point_at(snapshot: Seq<Amplitude>, i: int, width: nat, height: nat) -> Point {
    Point {
        x: (i * width / snapshot.len() as int) as u32,
        y: (height / 2 - deflection(snapshot[i])) as i64,
    }
}

/// The line through all points of a snapshot, as segments from each point to
/// the next. A snapshot of fewer than two amplitudes has none.
pub open spec fn polyline(snapshot: Seq<Amplitude>, width: nat, height: nat) -> Seq<Segment> {
    Seq::new(
        if snapshot.len() == 0 {
            0
        } else {
            (snapshot.len() - 1) as nat
        },
        |i: int|
            Segment {
                from: point_at(snapshot, i, width, height),
                to: point_at(snapshot, i + 1, width, height),
            },
    )
}

/// Where the amplitude at `i` of the snapshot is drawn.
fn place(snapshot: &[Amplitude], i: usize, width: u32, height: u32) -> (point: Point)
    requires
        i < snapshot@.len(),
    ensures
        point == point_at(snapshot@, i as int, width as nat, height as nat),
{
    let length: usize = snapshot.len();
    assert(i * width <= 0xffff_ffff_ffff_ffff * 0xffff_ffff) by (nonlinear_arith)
        requires
            i <= 0xffff_ffff_ffff_ffff,
            width <= 0xffff_ffff,
    ;
    let across: u128 = (i as u128) * (width as u128) / (length as u128);
    assert(across <= width) by (nonlinear_arith)
        requires
            across == (i * width) / (length as int),
            0 <= i < length,
            0 <= width,
    ;
    let amplitude: Amplitude = snapshot[i];
    let units: u32 = amplitude.magnitude() as u32 * UNITS_PER_AMPLITUDE / (FULL_SCALE as u32);
    let middle: i64 = (height / 2) as i64;
    let down: i64 = if amplitude.numerator < 0 {
        middle + units as i64
    } else {
        middle - units as i64
    };
    Point { x: across as u32, y: down }
}

/// The segments to draw for a snapshot, left to right.
pub fn waveform(snapshot: &[Amplitude], width: u32, height: u32) -> (segments: Vec<Segment>)
    ensures
        segments@ == polyline(snapshot@, width as nat, height as nat),
{
    let length: usize = snapshot.len();
    let mut segments: Vec<Segment> = Vec::new();
    if length == 0 {
        assert(segments@ =~= polyline(snapshot@, width as nat, height as nat));
        return segments;
    }
    let mut from: Point = place(snapshot, 0, width, height);
    let mut next: usize = 1;
    while next < length
        invariant
            1 <= next <= length == snapshot@.len(),
            from == point_at(snapshot@, next - 1, width as nat, height as nat),
            segments@.len() == next - 1,
            forall|i: int|
                0 <= i < next - 1 ==> segments@[i] == (Segment {
                    from: point_at(snapshot@, i, width as nat, height as nat),
                    to: point_at(snapshot@, i + 1, width as nat, height as nat),
                }),
        decreases length - next,
    {
        let to: Point = place(snapshot, next, width, height);
        segments.push(Segment { from, to });
        from = to;
        next = next + 1;
    }
    assert(segments@ =~= polyline(snapshot@, width as nat, height as nat));
    segments
}

} // verus!
