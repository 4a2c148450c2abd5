//! The persisted state: what the audio thread reads of it, and what the page
//! is told.

pub mod fields;
pub mod layout;
pub mod options;
pub mod runtime;
pub mod script;
pub mod state;
