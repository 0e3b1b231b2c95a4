//! The core of an audio visualizer, verified.
//!
//! While an audio stream plays, a tap writes the amplitude of every sample
//! into a ring that keeps the most recent ones, and once per frame the render
//! loop turns a snapshot of that ring into drawing commands: a row of
//! smoothed bars, or the waveform as a line.

pub mod amplitude;
pub mod bars;
pub mod color;
pub mod render;
pub mod ring;
pub mod shared;
pub mod tap;
pub mod waveform;
