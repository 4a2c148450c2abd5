//! Loudness and level measurement: which energies a window holds, when a block
//! is due, what the histogram of blocks keeps, and how long a peak is pinned.
//!
//! Energies and detector levels are generic. Their arithmetic happens outside;
//! the windows, the schedule, the counts and the bounds happen here.

pub mod errors;
pub mod gating;
pub mod histogram;
pub mod loudness;
pub mod vu;
pub mod window;
