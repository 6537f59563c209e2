//! The parameter store shared between the MIDI handler and the render thread.
//!
//! Every slot is an atomic, so reads and writes never block. A read may see any
//! value that some thread stored, which is why the contracts below promise
//! nothing about what a load returns beyond its type.

use std::sync::atomic::{AtomicBool, AtomicU8, Ordering};
use std::sync::Arc;
use vstd::prelude::*;

verus! {

/// Number of oscillator volume slots.
pub const MAX_OSCILLATORS: usize = 8;

/// Full-scale oscillator volume; also the volume every slot starts at.
pub const MAX_VOLUME: u8 = 255;

/// Values that are handed to other threads behind a reference count.
pub trait Shared: Sized {
    /// Moves the value behind an `Arc`, ready to be cloned into other threads.
    fn shared(self) -> (r: Arc<Self>)
        ensures
            *r == self,
    {
        Arc::new(self)
    }
}

/// Lock-free parameter slots written by the MIDI handler and read by the
/// render thread.
pub struct SynthState {
    /// The note the oscillators should play.
    pub last_active_note: AtomicU8,
    /// Whether any note is currently held (the envelope gate).
    pub are_active_notes: AtomicBool,
    /// One raw volume per oscillator, `0..=MAX_VOLUME`.
    pub oscillator_volumes: [AtomicU8; MAX_OSCILLATORS],
}

impl Shared for SynthState {}

impl SynthState {
    /// A fresh store: note 0, gate closed, every oscillator at full volume.
    pub fn new() -> (r: Arc<Self>)
        ensures
            r.oscillator_volumes@.len() == MAX_OSCILLATORS,
    {
        let state = SynthState {
            last_active_note: AtomicU8::new(0),
            are_active_notes: AtomicBool::new(false),
            oscillator_volumes: [
                AtomicU8::new(MAX_VOLUME),
                AtomicU8::new(MAX_VOLUME),
                AtomicU8::new(MAX_VOLUME),
                AtomicU8::new(MAX_VOLUME),
                AtomicU8::new(MAX_VOLUME),
                AtomicU8::new(MAX_VOLUME),
                AtomicU8::new(MAX_VOLUME),
                AtomicU8::new(MAX_VOLUME),
            ],
        };
        state.shared()
    }

    /// The raw volume of oscillator `id`; a slot that does not exist reads as
    /// silent.
    pub fn get_oscillator_volume(&self, id: usize) -> (r: u8)
        ensures
            id >= MAX_OSCILLATORS ==> r == 0,
    {
        if id < MAX_OSCILLATORS {
            self.oscillator_volumes[id].load(Ordering::Relaxed)
        } else {
            0
        }
    }

    /// Stores the raw volume of oscillator `id`; a slot that does not exist is
    /// left alone.
    pub fn set_oscillator_volume(&self, id: usize, volume: u8) {
        if id < MAX_OSCILLATORS {
            self.oscillator_volumes[id].store(volume, Ordering::Relaxed);
        }
    }

    /// The note most recently published by the MIDI handler.
    pub fn last_note(&self) -> u8 {
        self.last_active_note.load(Ordering::Relaxed)
    }

    /// Whether the MIDI handler last published an open gate.
    pub fn gate_open(&self) -> bool {
        self.are_active_notes.load(Ordering::Relaxed)
    }

    /// Publishes whether any note is held and the note to play, one slot at a time.
    pub fn publish(&self, gate_open: bool, note: u8) {
        self.last_active_note.store(note, Ordering::Relaxed);
        self.are_active_notes.store(gate_open, Ordering::Relaxed);
    }
}

} // verus!
