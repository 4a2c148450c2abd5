//! Fixed-storage stereo scope: what it keeps of the audio, when it analyses,
//! and which of its values a display shows.
//!
//! Every history is generic in what it keeps. The signal arithmetic happens
//! outside; the order, the bounds and the schedule of everything happen here.

pub mod analyzer;
pub mod config;
pub mod fft;
pub mod history;
pub mod rows;
pub mod tracks;
pub mod trigger;
pub mod work;
