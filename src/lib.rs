//! A single-line terminal progress bar: a position counted against a known
//! total, drawn as a fixed-width bar with elapsed time and an estimate of the
//! time remaining, redrawn at most once per throttle interval.
//!
//! The engine computes the text of each frame; writing it out is left to the
//! caller.
use vstd::prelude::*;

pub mod config;
pub mod engine;
pub mod laws;
pub mod text;

pub use config::{Config, Style};
pub use engine::Bar;
pub use text::{format_number, Time};

verus! {

} // verus!
