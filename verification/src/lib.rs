//! The verified core of an audio meter: the rules, parsers, rings and schedules
//! behind its plugin, its page and its standalone window.

pub mod text;
pub mod bridge;
pub mod editor;
pub mod meter;
pub mod model;
pub mod plugin;
pub mod render;
pub mod samples;
pub mod scope;
pub mod settings;
pub mod standalone;
pub mod visual;
