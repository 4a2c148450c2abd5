//! The compatibility editor: its page, and the frames that the page draws.

pub mod frame;
pub mod page;
pub mod slots;
