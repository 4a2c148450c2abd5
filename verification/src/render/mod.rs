//! What reaches the GPU: the instances of a frame, and what the state of a
//! surface asks for.

pub mod staging;
pub mod surface;
