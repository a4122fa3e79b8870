//! Core of a desktop media-library application: the in-memory catalog of
//! tracks, its column configuration and sorting engine, and the playback
//! state machine that advances the "now playing" position tick by tick.
//!
//! Presentation concerns (windows, widgets, rendering) live outside this
//! crate; they read the state exposed here and dispatch commands into it.

pub mod column;
pub mod order;
pub mod text;
pub mod track;
pub mod sort;
pub mod library;
pub mod playback;
