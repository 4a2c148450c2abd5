//! The standalone instrument: its command line, the blocks that its capture
//! makes, its clocks, its waterfall and the objects that it takes in.

pub mod clocks;
pub mod engine;
pub mod ingress;
pub mod launch;
pub mod object;
pub mod waterfall;
