//! Core logic of a small modular synthesizer: the patch graph of a rack,
//! envelope and voice bookkeeping, delay lines, reverb tuning, the
//! scheduling decisions of the real-time loop and a cellular-automaton
//! noise source.

use vstd::prelude::*;

pub mod automaton;
pub mod delay;
pub mod envelope;
pub mod rack;
pub mod reverb;
pub mod scheduler;
pub mod voices;

verus! {

/// Audio frames per second, fixed for the whole engine.
pub const SAMPLE_RATE: u64 = 48000;

} // verus!
