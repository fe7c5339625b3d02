//! A "digital rain" terminal effect: configuration resolution and the
//! frame-by-frame simulation of falling glyph streams.
pub mod config;
pub mod effect;
pub mod rain;
