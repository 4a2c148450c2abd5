//! The plugin's decisions: which analysis runs for a block, what a change of
//! settings clears, when a picture is due and what it holds.
//!
//! Audio is only observed. The readings are generic; the host's calls and the
//! signal arithmetic happen outside.

pub mod banks;
pub mod cadence;
pub mod changes;
pub mod configs;
pub mod modules;
pub mod neta;
pub mod picture;
pub mod retained;
pub mod views;
