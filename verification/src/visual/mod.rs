//! Objects, presets and the plan of a drawn frame.

pub mod compose;
pub mod dalia;
pub mod glb;
pub mod obj;
pub mod shader;
pub mod spacing;
