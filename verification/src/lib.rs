//! A tone whose pitch follows machine load.
//!
//! A sampler publishes a scaled load figure into a wait-free
//! [`control::ControlValueCell`]; the real-time side owns an
//! [`oscillator::Oscillator`] that re-reads the cell at a fixed cadence and
//! hands out the points of the waveform to evaluate, frame by frame.
//!
//! All arithmetic in this crate is integer arithmetic. Samples are carried
//! as IEEE-754 binary32 bit patterns and load averages as binary64 bit
//! patterns; evaluating the sine is left to the caller.

pub mod config;
pub mod cadence;
pub mod control;
pub mod driver;
pub mod emitter;
pub mod error;
pub mod format;
pub mod load;
pub mod oscillator;
pub mod rounding;
pub mod sample;
pub mod sampler;
