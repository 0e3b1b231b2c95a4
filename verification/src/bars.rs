//! The bar display: a snapshot reduced to a row of smoothed bars.
//!
//! All lengths are whole display units. The snapshot is cut into as many
//! chunks of equal size as there are bars, and what is left over at its end
//! is ignored. A bar aims at four fifths of the display height times the mean
//! magnitude of its chunk, and moves towards that target by exponential
//! smoothing: at each tick the distance to the target shrinks by the factor
//! `1 - a`, where `a` is the smoothing factor. Quotients are rounded down.

use crate::amplitude::{magnitude_of, Amplitude, FULL_SCALE};
use vstd::prelude::*;

verus! {

/// A bar at full scale stands `REACH_NUMERATOR / REACH_DENOMINATOR` of the
/// display height high.
pub const REACH_NUMERATOR: u32 = 4;

pub const REACH_DENOMINATOR: u32 = 5;

/// A bar fills `FILL_NUMERATOR / FILL_DENOMINATOR` of its column's width.
pub const FILL_NUMERATOR: u32 = 9;

pub const FILL_DENOMINATOR: u32 = 10;

/// The sum of the magnitudes of a run of amplitudes.
pub open spec fn magnitude_sum(amplitudes: Seq<Amplitude>) -> nat
    decreases amplitudes.len(),
{
    if amplitudes.len() == 0 {
        0
    } else {
        magnitude_sum(amplitudes.drop_last()) + magnitude_of(amplitudes.last())
    }
}

/// How many amplitudes each bar reads: the snapshot's length divided by the
/// number of bars, and none where there are no bars.
pub open spec fn chunk_size(samples: nat, bars: nat) -> nat {
    if bars == 0 {
        0
    } else {
        samples / bars
    }
}

/// The part of the snapshot that the bar at `bar` reads.
pub open spec fn chunk(snapshot: Seq<Amplitude>, bars: nat, bar: int) -> Seq<Amplitude> {
    let size = chunk_size(snapshot.len(), bars);
    snapshot.subrange(bar * size, (bar + 1) * size)
}

/// The height a bar aims at: the mean magnitude of its chunk, as a fraction
/// of full scale, times the reach of a bar on a display of the given height.
/// For a chunk of `n` amplitudes whose magnitudes add up to `sum` the mean is
/// `sum / (n * FULL_SCALE)`. An empty chunk aims at zero.
pub open spec fn target_height(chunk: Seq<Amplitude>, height: nat) -> nat {
    if chunk.len() == 0 {
        0
    } else {
        ((REACH_NUMERATOR * height * magnitude_sum(chunk)) / (REACH_DENOMINATOR * FULL_SCALE
            * chunk.len())) as nat
    }
}

/// A smoothing factor between 0 and 1, as a fraction. With 0 a bar never
/// moves, with 1 it jumps to its target.
#[derive(Clone, Copy, Debug, PartialEq, Eq)]
pub struct Smoothing {
    numerator: u32,
    denominator: u32,
}

impl Smoothing {
    #[verifier::type_invariant]
    spec fn well_formed(self) -> bool {
        self.numerator <= self.denominator && self.denominator > 0
    }

    /// The fraction's numerator.
    pub closed spec fn numerator(self) -> nat {
        self.numerator as nat
    }

    /// The fraction's denominator.
    pub closed spec fn denominator(self) -> nat {
        self.denominator as nat
    }

    /// The factor `numerator / denominator`, if that is a fraction between 0
    /// and 1.
    pub fn new(numerator: u32, denominator: u32) -> (smoothing: Option<Smoothing>)
        ensures
            smoothing is Some <==> numerator <= denominator && denominator > 0,
            smoothing matches Some(factor) ==> factor.numerator() == numerator
                && factor.denominator() == denominator,
    {
        if numerator <= denominator && denominator > 0 {
            Some(Smoothing { numerator, denominator })
        } else {
            None
        }
    }
}

/// A distance shrunk by the factor `1 - numerator / denominator`.
pub open spec fn shrunk(distance: nat, numerator: nat, denominator: nat) -> nat {
    distance * (denominator - numerator) as nat / denominator
}

/// One tick of exponential smoothing: `previous * (1 - a) + target * a`,
/// reached by shrinking the distance between the two.
pub open spec fn smoothed(previous: nat, target: nat, numerator: nat, denominator: nat) -> nat {
    if previous <= target {
        (target - shrunk((target - previous) as nat, numerator, denominator)) as nat
    } else {
        target + shrunk((previous - target) as nat, numerator, denominator)
    }
}

impl Smoothing {
    /// Shrinks a distance by the factor `1 - a`.
    fn shrink(&self, distance: u32) -> (left: u32)
        ensures
            left == shrunk(distance as nat, self.numerator(), self.denominator()),
            left <= distance,
    {
        proof {
            use_type_invariant(self);
        }
        let keep: u64 = (self.denominator - self.numerator) as u64;
        assert(distance * keep <= distance * self.denominator <= 0xffff_ffff * 0xffff_ffff)
            by (nonlinear_arith)
            requires
                keep <= self.denominator <= 0xffff_ffff,
                distance <= 0xffff_ffff,
        ;
        let left: u64 = distance as u64 * keep / (self.denominator as u64);
        assert(left <= distance) by (nonlinear_arith)
            requires
                left == distance * keep / (self.denominator as int),
                distance * keep <= distance * self.denominator,
                self.denominator > 0,
        ;
        left as u32
    }

    /// Moves a bar from `previous` one tick towards `target`.
    pub fn apply(&self, previous: u32, target: u32) -> (next: u32)
        ensures
            next == smoothed(
                previous as nat,
                target as nat,
                self.numerator(),
                self.denominator(),
            ),
    {
        if previous <= target {
            target - self.shrink(target - previous)
        } else {
            target + self.shrink(previous - target)
        }
    }
}

/// Adds up the magnitudes of a run of amplitudes.
fn sum_magnitudes(amplitudes: &[Amplitude]) -> (sum: u128)
    ensures
        sum == magnitude_sum(amplitudes@),
        sum <= 32768 * amplitudes@.len(),
{
    let mut sum: u128 = 0;
    let mut at: usize = 0;
    while at < amplitudes.len()
        invariant
            at <= amplitudes@.len(),
            sum == magnitude_sum(amplitudes@.subrange(0, at as int)),
            sum <= 32768 * at,
        decreases amplitudes@.len() - at,
    {
        proof {
            assert(amplitudes@.subrange(0, at + 1).drop_last() =~= amplitudes@.subrange(
                0,
                at as int,
            ));
        }
        sum = sum + amplitudes[at].magnitude() as u128;
        at = at + 1;
    }
    proof {
        assert(amplitudes@.subrange(0, at as int) =~= amplitudes@);
    }
    sum
}

/// The height that a bar reading `chunk` aims at on a display of the given
/// height.
pub fn aim(chunk: &[Amplitude], height: u32) -> (target: u32)
    ensures
        target == target_height(chunk@, height as nat),
        target <= height,
{
    let count: usize = chunk.len();
    if count == 0 {
        return 0;
    }
    let sum: u128 = sum_magnitudes(chunk);
    assert(REACH_NUMERATOR * height * sum <= 0x2_0000_0000_0000_0000_0000_0000_0000)
        by (nonlinear_arith)
        requires
            REACH_NUMERATOR == 4,
            height <= 0xffff_ffff,
            sum <= 32768 * count,
            count <= 0xffff_ffff_ffff_ffff,
    ;
    let scaled: u128 = REACH_NUMERATOR as u128 * (height as u128) * sum;
    let divisor: u128 = REACH_DENOMINATOR as u128 * (FULL_SCALE as u128) * (count as u128);
    let quotient: u128 = scaled / divisor;
    assert(quotient <= height) by (nonlinear_arith)
        requires
            quotient == (4 * height * sum) / (5 * 32767 * count),
            sum <= 32768 * count,
            count > 0,
    ;
    quotient as u32
}

/// A bar as the rectangle to draw: its left edge, its top edge, its width and
/// its height. The top edge is measured downwards from the top of the
/// display, so a bar taller than the display starts above it.
#[derive(Clone, Copy, Debug, PartialEq, Eq)]
pub struct Bar {
    pub x: u32,
    pub y: i64,
    pub width: u32,
    pub height: u32,
}

/// The rectangle of the bar at `bar` in a row of `bars`, standing `level`
/// high on the bottom edge of the display. The bars share the width evenly:
/// each has a column of `width / bars`, starts at its column's left edge and
/// fills only a part of it, which leaves a gap before the next bar.
pub open spec fn bar_at(bar: int, bars: nat, width: nat, height: nat, level: nat) -> Bar {
    Bar {
        x: (bar * width / bars as int) as u32,
        y: (height - level) as i64,
        width: (FILL_NUMERATOR * width / (FILL_DENOMINATOR * bars)) as u32,
        height: level as u32,
    }
}

/// The heights after a tick: every bar has moved from its previous height
/// towards the target of its chunk.
pub open spec fn next_heights(
    previous: Seq<u32>,
    snapshot: Seq<Amplitude>,
    height: nat,
    numerator: nat,
    denominator: nat,
) -> Seq<u32> {
    Seq::new(
        previous.len(),
        |bar: int|
            smoothed(
                previous[bar] as nat,
                target_height(chunk(snapshot, previous.len(), bar), height),
                numerator,
                denominator,
            ) as u32,
    )
}

/// The row of rectangles for bars of the given heights, left to right.
pub open spec fn row(heights: Seq<u32>, width: nat, height: nat) -> Seq<Bar> {
    Seq::new(
        heights.len(),
        |bar: int| bar_at(bar, heights.len(), width, height, heights[bar] as nat),
    )
}

/// The bars of a display together with the smoothing that moves them.
pub struct BarAggregator {
    heights: Vec<u32>,
    smoothing: Smoothing,
}

impl BarAggregator {
    /// The current height of each bar, left to right.
    pub closed spec fn heights(&self) -> Seq<u32> {
        self.heights@
    }

    /// The smoothing factor.
    pub closed spec fn smoothing(&self) -> Smoothing {
        self.smoothing
    }

    /// A row of `bars` bars, all of height zero.
    pub fn new(bars: usize, smoothing: Smoothing) -> (aggregator: Self)
        ensures
            aggregator.heights() == Seq::new(bars as nat, |bar: int| 0u32),
            aggregator.smoothing() == smoothing,
    {
        let mut heights: Vec<u32> = Vec::with_capacity(bars);
        let mut made: usize = 0;
        while made < bars
            invariant
                made <= bars,
                heights@ == Seq::new(made as nat, |bar: int| 0u32),
            decreases bars - made,
        {
            heights.push(0);
            made = made + 1;
        }
        BarAggregator { heights, smoothing }
    }

    /// The current height of each bar, left to right.
    pub fn levels(&self) -> (levels: Vec<u32>)
        ensures
            levels@ == self.heights(),
    {
        let mut levels: Vec<u32> = Vec::with_capacity(self.heights.len());
        let mut bar: usize = 0;
        while bar < self.heights.len()
            invariant
                bar <= self.heights@.len(),
                levels@ == self.heights@.subrange(0, bar as int),
            decreases self.heights@.len() - bar,
        {
            levels.push(self.heights[bar]);
            bar = bar + 1;
        }
        assert(self.heights@.subrange(0, bar as int) =~= self.heights@);
        levels
    }

    /// One tick: moves every bar towards the target that the snapshot gives
    /// it, and returns the rectangles to draw, left to right.
    pub fn update(&mut self, snapshot: &[Amplitude], width: u32, height: u32) -> (drawn: Vec<Bar>)
        ensures
            final(self).smoothing() == old(self).smoothing(),
            final(self).heights() == next_heights(
                old(self).heights(),
                snapshot@,
                height as nat,
                old(self).smoothing().numerator(),
                old(self).smoothing().denominator(),
            ),
            drawn@ == row(final(self).heights(), width as nat, height as nat),
    {
        let bars: usize = self.heights.len();
        let length: usize = snapshot.len();
        let size: usize = if bars == 0 {
            0
        } else {
            length / bars
        };
        assert(bars * size <= snapshot@.len()) by (nonlinear_arith)
            requires
                size == chunk_size(snapshot@.len(), bars as nat),
        ;
        let ghost after = next_heights(
            old(self).heights(),
            snapshot@,
            height as nat,
            old(self).smoothing().numerator(),
            old(self).smoothing().denominator(),
        );
        let mut drawn: Vec<Bar> = Vec::with_capacity(bars);
        let mut bar: usize = 0;
        while bar < bars
            invariant
                bar <= bars == self.heights@.len() == old(self).heights@.len(),
                size == chunk_size(snapshot@.len(), bars as nat),
                bars * size <= snapshot@.len() == length,
                self.smoothing == old(self).smoothing,
                after == next_heights(
                    old(self).heights(),
                    snapshot@,
                    height as nat,
                    old(self).smoothing().numerator(),
                    old(self).smoothing().denominator(),
                ),
                forall|i: int| 0 <= i < bar ==> self.heights@[i] == after[i],
                forall|i: int| bar <= i < bars ==> self.heights@[i] == old(self).heights@[i],
                drawn@.len() == bar,
                forall|i: int|
                    0 <= i < bar ==> drawn@[i] == bar_at(
                        i,
                        bars as nat,
                        width as nat,
                        height as nat,
                        after[i] as nat,
                    ),
            decreases bars - bar,
        {
            assert((bar + 1) * size <= bars * size) by (nonlinear_arith)
                requires
                    bar + 1 <= bars,
            ;
            assert((bar + 1) * size == bar * size + size) by (nonlinear_arith);
            let from: usize = bar * size;
            let to: usize = from + size;
            let target: u32 = aim(&snapshot[from..to], height);
            let next: u32 = self.smoothing.apply(self.heights[bar], target);
            self.heights[bar] = next;
            assert(bar * width <= 0xffff_ffff_ffff_ffff * 0xffff_ffff) by (nonlinear_arith)
                requires
                    bar <= 0xffff_ffff_ffff_ffff,
                    width <= 0xffff_ffff,
            ;
            let left: u128 = (bar as u128) * (width as u128) / (bars as u128);
            assert(left < width || left == 0) by (nonlinear_arith)
                requires
                    left == (bar * width) / (bars as int),
                    0 <= bar < bars,
                    0 <= width,
            ;
            let across: u128 = FILL_NUMERATOR as u128 * (width as u128) / (FILL_DENOMINATOR as u128
                * (bars as u128));
            assert(across <= width) by (nonlinear_arith)
                requires
                    across == (9 * width) / (10 * bars),
                    bars > 0,
                    0 <= width,
            ;
            drawn.push(
                Bar {
                    x: left as u32,
                    y: height as i64 - next as i64,
                    width: across as u32,
                    height: next,
                },
            );
            bar = bar + 1;
        }
        assert(self.heights@ =~= after);
        assert(drawn@ =~= row(self.heights@, width as nat, height as nat));
        drawn
    }
}

/// How far apart two heights are.
pub open spec fn distance(a: nat, b: nat) -> nat {
    if a <= b {
        (b - a) as nat
    } else {
        (a - b) as nat
    }
}

/// The height of a bar that started at `start` after `ticks` ticks, all with
/// the same target.
pub open spec fn settled(start: nat, target: nat, numerator: nat, denominator: nat, ticks: nat) -> nat
    decreases ticks,
{
    if ticks == 0 {
        start
    } else {
        smoothed(
            settled(start, target, numerator, denominator, (ticks - 1) as nat),
            target,
            numerator,
            denominator,
        )
    }
}

/// A distance shrunk by a factor below 1 is shorter, unless it was zero.
pub proof fn lemma_shrunk_is_shorter(distance: nat, numerator: nat, denominator: nat)
    requires
        0 < numerator <= denominator,
    ensures
        shrunk(distance, numerator, denominator) <= distance,
        distance > 0 ==> shrunk(distance, numerator, denominator) < distance,
{
    let keep = (denominator - numerator) as nat;
    assert(distance * keep / denominator <= distance && (distance > 0 ==> distance * keep
        / denominator < distance)) by (nonlinear_arith)
        requires
            0 <= keep < denominator,
            0 <= distance,
    ;
}

/// One tick moves a bar towards its target and never past it: the new height
/// lies between the old one and the target, its distance to the target is the
/// old distance shrunk by `1 - a`, and for a factor above zero that is less
/// than before unless the bar had arrived.
pub proof fn lemma_tick_approaches(previous: nat, target: nat, numerator: nat, denominator: nat)
    requires
        0 < numerator <= denominator,
    ensures
        previous <= target ==> previous <= smoothed(previous, target, numerator, denominator)
            <= target,
        previous >= target ==> previous >= smoothed(previous, target, numerator, denominator)
            >= target,
        distance(smoothed(previous, target, numerator, denominator), target) == shrunk(
            distance(previous, target),
            numerator,
            denominator,
        ),
        previous != target ==> distance(
            smoothed(previous, target, numerator, denominator),
            target,
        ) < distance(previous, target),
{
    lemma_shrunk_is_shorter(distance(previous, target), numerator, denominator);
}

/// Smoothing converges monotonically. With a constant target and a factor
/// above zero, a bar stays on the side of the target where it started, its
/// distance to the target never grows from one tick to the next, and after as
/// many ticks as it was units away at the start it stands at the target.
pub proof fn lemma_smoothing_converges(
    start: nat,
    target: nat,
    numerator: nat,
    denominator: nat,
    ticks: nat,
)
    requires
        0 < numerator <= denominator,
    ensures
        start <= target ==> start <= settled(start, target, numerator, denominator, ticks)
            <= settled(start, target, numerator, denominator, ticks + 1) <= target,
        start >= target ==> start >= settled(start, target, numerator, denominator, ticks)
            >= settled(start, target, numerator, denominator, ticks + 1) >= target,
        distance(settled(start, target, numerator, denominator, ticks + 1), target) <= distance(
            settled(start, target, numerator, denominator, ticks),
            target,
        ),
        distance(settled(start, target, numerator, denominator, ticks), target) + ticks
            <= distance(start, target) || settled(start, target, numerator, denominator, ticks)
            == target,
        ticks >= distance(start, target) ==> settled(start, target, numerator, denominator, ticks)
            == target,
    decreases ticks,
{
    let now = settled(start, target, numerator, denominator, ticks);
    if ticks > 0 {
        lemma_smoothing_converges(start, target, numerator, denominator, (ticks - 1) as nat);
        let before = settled(start, target, numerator, denominator, (ticks - 1) as nat);
        lemma_tick_approaches(before, target, numerator, denominator);
    }
    lemma_tick_approaches(now, target, numerator, denominator);
}

/// The magnitudes of silence add up to nothing.
pub proof fn lemma_silence_sums_to_zero(amplitudes: Seq<Amplitude>)
    requires
        forall|i: int| 0 <= i < amplitudes.len() ==> (#[trigger] amplitudes[i]).numerator == 0,
    ensures
        magnitude_sum(amplitudes) == 0,
    decreases amplitudes.len(),
{
    if amplitudes.len() > 0 {
        lemma_silence_sums_to_zero(amplitudes.drop_last());
    }
}

/// Nothing to show. Without bars no rectangle is drawn. With an empty
/// snapshot, or one of silence, every bar aims at zero, and a row that stands
/// at zero stays there. Neither case divides by zero: `update` asks nothing of
/// the number of bars or of the snapshot.
pub proof fn lemma_nothing_to_show(
    previous: Seq<u32>,
    snapshot: Seq<Amplitude>,
    width: nat,
    height: nat,
    numerator: nat,
    denominator: nat,
)
    requires
        numerator <= denominator,
        denominator > 0,
        previous.len() == 0 || forall|i: int|
            0 <= i < snapshot.len() ==> (#[trigger] snapshot[i]).numerator == 0,
    ensures
        previous.len() == 0 ==> row(
            next_heights(previous, snapshot, height, numerator, denominator),
            width,
            height,
        ).len() == 0,
        forall|bar: int|
            0 <= bar < previous.len() ==> target_height(
                #[trigger] chunk(snapshot, previous.len(), bar),
                height,
            ) == 0,
        (forall|bar: int| 0 <= bar < previous.len() ==> previous[bar] == 0) ==> forall|bar: int|
            0 <= bar < previous.len() ==> (#[trigger] next_heights(
                previous,
                snapshot,
                height,
                numerator,
                denominator,
            )[bar]) == 0,
{
    let bars = previous.len();
    let size = chunk_size(snapshot.len(), bars);
    assert forall|bar: int| 0 <= bar < bars implies target_height(
        #[trigger] chunk(snapshot, bars, bar),
        height,
    ) == 0 by {
        let part = chunk(snapshot, bars, bar);
        assert(bars * size <= snapshot.len()) by (nonlinear_arith)
            requires
                bars > 0,
                size == snapshot.len() / bars,
        ;
        assert(0 <= bar * size && (bar + 1) * size <= bars * size && (bar + 1) * size == bar
            * size + size) by (nonlinear_arith)
            requires
                0 <= bar < bars,
                0 <= size,
        ;
        assert forall|i: int| 0 <= i < part.len() implies (#[trigger] part[i]).numerator == 0 by {
            assert(part[i] == snapshot[bar * size + i]);
        }
        lemma_silence_sums_to_zero(part);
        if part.len() > 0 {
            assert(REACH_NUMERATOR * height * magnitude_sum(part) == 0);
            assert(0int / (5 * 32767 * part.len()) as int == 0) by (nonlinear_arith)
                requires
                    part.len() > 0,
            ;
        }
    }
    assert(shrunk(0, numerator, denominator) == 0) by (nonlinear_arith)
        requires
            denominator > 0,
            shrunk(0, numerator, denominator) == 0 * (denominator - numerator) as nat
                / denominator,
    ;
}

} // verus!
