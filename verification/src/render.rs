//! The render loop, one tick at a time.
//!
//! The host calls `tick` once per frame with the state of the playback and a
//! fresh snapshot. While the playback runs, a tick answers with the frame to
//! draw: first the display is cleared, then come the shapes of the chosen
//! display. Once the playback has finished it answers with nothing, and the
//! host leaves its loop. Drawing and waiting for the next frame are the
//! host's.

use crate::amplitude::Amplitude;
use crate::bars::{next_heights, row, Bar, BarAggregator};
use crate::waveform::{polyline, waveform, Segment};
use vstd::prelude::*;

verus! {

/// Which display is drawn.
#[derive(Clone, Copy, Debug, PartialEq, Eq)]
pub enum Mode {
    Bars,
    Waveform,
}

/// One instruction to the drawing surface.
#[derive(Clone, Copy, Debug, PartialEq, Eq)]
pub enum DrawCommand {
    /// Fill the display with the background colour.
    Clear,
    /// Fill a rectangle with the foreground colour.
    Rectangle(Bar),
    /// Draw a line in the foreground colour.
    Line(Segment),
}

/// A frame of bars: clear, then one rectangle for each bar, left to right.
pub open spec fn bar_frame(bars: Seq<Bar>) -> Seq<DrawCommand> {
    Seq::new(
        bars.len() + 1,
        |i: int|
            if i == 0 {
                DrawCommand::Clear
            } else {
                DrawCommand::Rectangle(bars[i - 1])
            },
    )
}

/// A frame of a waveform: clear, then one line for each segment, left to
/// right.
pub open spec fn line_frame(segments: Seq<Segment>) -> Seq<DrawCommand> {
    Seq::new(
        segments.len() + 1,
        |i: int|
            if i == 0 {
                DrawCommand::Clear
            } else {
                DrawCommand::Line(segments[i - 1])
            },
    )
}

/// The state that the render loop carries from one frame to the next.
pub struct RenderLoop {
    mode: Mode,
    bars: BarAggregator,
}

/// The heights of the bars after a tick. They move only on a tick that draws
/// them: not once the playback has finished, and not while the waveform is
/// the display.
pub open spec fn heights_after(
    before: RenderLoop,
    playback_finished: bool,
    snapshot: Seq<Amplitude>,
    height: nat,
) -> Seq<u32> {
    if playback_finished || before.mode() == Mode::Waveform {
        before.bars().heights()
    } else {
        next_heights(
            before.bars().heights(),
            snapshot,
            height,
            before.bars().smoothing().numerator(),
            before.bars().smoothing().denominator(),
        )
    }
}

/// The frame that a tick hands out while the playback runs, given the state
/// in which the tick leaves the loop.
pub open spec fn frame_of(after: RenderLoop, snapshot: Seq<Amplitude>, width: nat, height: nat) -> Seq<
    DrawCommand,
> {
    match after.mode() {
        Mode::Bars => bar_frame(row(after.bars().heights(), width, height)),
        Mode::Waveform => line_frame(polyline(snapshot, width, height)),
    }
}

impl RenderLoop {
    /// The display that is drawn.
    pub closed spec fn mode(&self) -> Mode {
        self.mode
    }

    /// The bars, which move only while they are the display that is drawn.
    pub closed spec fn bars(&self) -> BarAggregator {
        self.bars
    }

    /// A render loop that draws the given display.
    pub fn new(mode: Mode, bars: BarAggregator) -> (render: Self)
        ensures
            render.mode() == mode,
            render.bars() == bars,
    {
        RenderLoop { mode, bars }
    }

    /// One tick of the loop. Returns the frame to draw, or `None` once the
    /// playback has finished.
    pub fn tick(
        &mut self,
        playback_finished: bool,
        snapshot: &[Amplitude],
        width: u32,
        height: u32,
    ) -> (frame: Option<Vec<DrawCommand>>)
        ensures
            final(self).mode() == old(self).mode(),
            final(self).bars().smoothing() == old(self).bars().smoothing(),
            final(self).bars().heights() == heights_after(
                *old(self),
                playback_finished,
                snapshot@,
                height as nat,
            ),
            match frame {
                None => playback_finished,
                Some(commands) => !playback_finished && commands@ == frame_of(
                    *final(self),
                    snapshot@,
                    width as nat,
                    height as nat,
                ),
            },
    {
        if playback_finished {
            return None;
        }
        let mut frame: Vec<DrawCommand> = Vec::new();
        frame.push(DrawCommand::Clear);
        match self.mode {
            Mode::Bars => {
                let drawn: Vec<Bar> = self.bars.update(snapshot, width, height);
                let mut at: usize = 0;
                while at < drawn.len()
                    invariant
                        at <= drawn@.len(),
                        frame@.len() == at + 1,
                        frame@[0] == DrawCommand::Clear,
                        forall|i: int|
                            1 <= i <= at ==> frame@[i] == DrawCommand::Rectangle(drawn@[i - 1]),
                    decreases drawn@.len() - at,
                {
                    frame.push(DrawCommand::Rectangle(drawn[at]));
                    at = at + 1;
                }
                assert(frame@ =~= bar_frame(drawn@));
            },
            Mode::Waveform => {
                let drawn: Vec<Segment> = waveform(snapshot, width, height);
                let mut at: usize = 0;
                while at < drawn.len()
                    invariant
                        at <= drawn@.len(),
                        frame@.len() == at + 1,
                        frame@[0] == DrawCommand::Clear,
                        forall|i: int|
                            1 <= i <= at ==> frame@[i] == DrawCommand::Line(drawn@[i - 1]),
                    decreases drawn@.len() - at,
                {
                    frame.push(DrawCommand::Line(drawn[at]));
                    at = at + 1;
                }
                assert(frame@ =~= line_frame(drawn@));
            },
        }
        Some(frame)
    }
}

} // verus!
