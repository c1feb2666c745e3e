//! An interactive note-sequencer timeline.
//!
//! A sequencer owns a fixed set of tracks and a mutable list of timed notes.
//! Notes are placed by pointer presses, moved between tracks by drag and
//! drop, deleted when dropped outside the track extent, and sampled by a
//! playback clock that emits one trigger event per note activation.
//!
//! All times are integer time units (for instance milliseconds) and all
//! screen coordinates are integer pixels; the platform layer converts its
//! own units at the boundary.

pub mod geometry;
pub mod model;
pub mod drag;
pub mod played;
pub mod tick;
pub mod trigger;
