//! Verified core of a small MIDI-driven synthesizer: the note stack fed by the
//! MIDI handler, the lock-free parameter slots it publishes into, the ADSR
//! envelope state machine, the oscillator's phase accumulator and the delay
//! line. The floating-point sample arithmetic and the audio and MIDI drivers
//! live outside this crate and drive these pieces one sample or one message at
//! a time.

pub mod delay;
pub mod envelope;
pub mod notes;
pub mod oscillator;
pub mod state;
