//! A realtime modular synthesis engine: the scheduler that fills blocks of
//! audio from a rig of components, and the registry that holds the rig.
//!
//! An engine keeps two clocks, the audio clock and the slower modulation
//! clock, and interleaves the ticks of the second with the frames of the
//! first, whatever the sizes of the blocks it is asked for. `session` says
//! what a run of frames computes; `engine` computes it; `laws` holds what
//! follows for every run.

pub mod component_store;
pub mod concepts;
pub mod engine;
pub mod laws;
pub mod session;
pub mod topology;
pub mod traits;
