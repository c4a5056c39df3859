//! A network-triggered audio sample player core.
//!
//! The verified heart of the player is the [`sampler::Sampler`] state engine:
//! a map from a stable sample identity to its live playback slot, the
//! transition rules applied when a new command arrives for an identity that is
//! already playing, and the periodic reclamation of slots whose playback has
//! finished.  Everything that touches the operating system (the message
//! transport, audio device handles, file decoding) lives outside the engine
//! and interacts with it through plain values.

pub mod config;
pub mod laws;
pub mod opts;
pub mod sampler;
