//! The oscillator's phase accumulator.
//!
//! The phase is a fixed-point fraction of one cycle: `PHASE_CYCLE` stands for a
//! whole cycle, so a `u32` holds every phase in `[0, 1)`. Each sample the phase
//! moves by an increment derived from the frequency and wraps by subtracting
//! one cycle. A wrap is where the waveform `sin(2π·phase)` crosses zero going
//! up, so counting wraps counts periods.

use std::sync::Arc;
use vstd::prelude::*;
use vstd::arithmetic::div_mod::{lemma_fundamental_div_mod, lemma_fundamental_div_mod_converse};
use crate::state::{SynthState, MAX_OSCILLATORS};

verus! {

/// The fixed-point value of one whole cycle of phase.
pub const PHASE_CYCLE: u64 = 0x1_0000_0000;

/// Millihertz per hertz.
pub const MILLIHERTZ_PER_HERTZ: u64 = 1000;

/// The per-sample phase increment for a frequency in millihertz: the fraction
/// of a cycle that one sample spans, rounded down, taken modulo one cycle. No
/// sample rate gives a standing phase.
pub open spec fn increment_for(frequency_millihertz: u64, sample_rate: u32) -> int {
    if sample_rate == 0 {
        0
    } else {
        ((frequency_millihertz as int * PHASE_CYCLE as int) / (MILLIHERTZ_PER_HERTZ as int
            * sample_rate as int)) % (PHASE_CYCLE as int)
    }
}

/// The phase one sample later.
pub open spec fn step_phase(phase: int, increment: int) -> int {
    (phase + increment) % (PHASE_CYCLE as int)
}

/// The phase after `n` samples.
pub open spec fn phase_after(phase: u32, increment: u32, n: nat) -> int
    decreases n,
{
    if n == 0 {
        phase as int
    } else {
        step_phase(phase_after(phase, increment, (n - 1) as nat), increment as int)
    }
}

/// How many times the phase wrapped, that is how many periods were completed,
/// during `n` samples.
pub open spec fn cycles_completed(phase: u32, increment: u32, n: nat) -> nat
    decreases n,
{
    if n == 0 {
        0
    } else {
        let before = phase_after(phase, increment, (n - 1) as nat);
        cycles_completed(phase, increment, (n - 1) as nat) + if before + increment
            >= PHASE_CYCLE {
            1nat
        } else {
            0nat
        }
    }
}

/// Computes the per-sample phase increment for a frequency in millihertz at
/// `sample_rate` samples per second.
pub fn phase_increment(frequency_millihertz: u64, sample_rate: u32) -> (r: u32)
    ensures
        r == increment_for(frequency_millihertz, sample_rate),
{
    if sample_rate == 0 {
        return 0;
    }
    proof {
        assert((frequency_millihertz as int) * (PHASE_CYCLE as int) <= (u64::MAX as int) * (
        PHASE_CYCLE as int)) by (nonlinear_arith);
        assert((MILLIHERTZ_PER_HERTZ as int) * (sample_rate as int) <= (MILLIHERTZ_PER_HERTZ as int)
            * (u32::MAX as int)) by (nonlinear_arith);
    }
    let scaled: u128 = (frequency_millihertz as u128) * (PHASE_CYCLE as u128);
    let per_second: u128 = (MILLIHERTZ_PER_HERTZ as u128) * (sample_rate as u128);
    ((scaled / per_second) % (PHASE_CYCLE as u128)) as u32
}

/// Advances a phase by one sample, wrapping by subtracting one cycle.
pub fn next_phase(phase: u32, increment: u32) -> (r: u32)
    ensures
        r == step_phase(phase as int, increment as int),
{
    let sum: u64 = phase as u64 + increment as u64;
    if sum >= PHASE_CYCLE {
        proof {
            lemma_fundamental_div_mod_converse(sum as int, PHASE_CYCLE as int, 1, sum - PHASE_CYCLE);
        }
        (sum - PHASE_CYCLE) as u32
    } else {
        proof {
            lemma_fundamental_div_mod_converse(sum as int, PHASE_CYCLE as int, 0, sum as int);
        }
        sum as u32
    }
}

/// A sine oscillator's state: its phase, and the volume slot and note it reads
/// from the shared parameter store.
pub struct Oscillator {
    params: Arc<SynthState>,
    phase: u32,
    id: usize,
}

impl Oscillator {
    /// The current phase.
    pub closed spec fn phase(self) -> u32 {
        self.phase
    }

    /// The volume slot the oscillator reads.
    pub closed spec fn id(self) -> usize {
        self.id
    }

    /// An oscillator at phase zero reading volume slot `id`.
    pub fn new(params: Arc<SynthState>, id: usize) -> (r: Self)
        requires
            id < MAX_OSCILLATORS,
        ensures
            r.phase() == 0,
            r.id() == id,
    {
        Oscillator { params, phase: 0, id }
    }

    /// The raw volume, `0..=MAX_VOLUME`, currently stored in the oscillator's
    /// slot.
    pub fn get_volume(&self) -> u8 {
        self.params.get_oscillator_volume(self.id)
    }

    /// The note currently published by the MIDI handler.
    pub fn current_note(&self) -> u8 {
        self.params.last_note()
    }

    /// Returns the phase of the current sample and moves on to the next one.
    pub fn advance(&mut self, increment: u32) -> (phase: u32)
        ensures
            phase == old(self).phase(),
            final(self).phase() == step_phase(old(self).phase() as int, increment as int),
            final(self).id() == old(self).id(),
    {
        let phase = self.phase;
        self.phase = next_phase(phase, increment);
        phase
    }

    /// The current phase.
    pub fn current_phase(&self) -> (r: u32)
        ensures
            r == self.phase(),
    {
        self.phase
    }
}

/// After `n` samples the phase is the start phase plus `n` increments, modulo
/// one cycle, and the number of completed periods is how many whole cycles
/// that sum spans: at increment `f·2³²/rate` the waveform crosses zero upward
/// `n·f/rate` times in `n` samples, up to the rounding of the increment and of
/// the start phase.
pub proof fn lemma_cycles_match_frequency(phase: u32, increment: u32, n: nat)
    ensures
        phase_after(phase, increment, n) == (phase + n * increment) % (PHASE_CYCLE as int),
        cycles_completed(phase, increment, n) == (phase + n * increment) / (PHASE_CYCLE as int),
    decreases n,
{
    let c = PHASE_CYCLE as int;
    if n == 0 {
        lemma_fundamental_div_mod_converse(phase as int, c, 0, phase as int);
    } else {
        let m = (n - 1) as nat;
        lemma_cycles_match_frequency(phase, increment, m);
        let a = phase + m * increment;
        let q = a / c;
        let r = a % c;
        lemma_fundamental_div_mod(a, c);
        assert(phase + n * increment == a + increment) by (nonlinear_arith)
            requires n == m + 1, a == phase + m * increment;
        if r + increment >= c {
            lemma_fundamental_div_mod_converse(r + increment, c, 1, r + increment - c);
            lemma_fundamental_div_mod_converse(a + increment, c, q + 1, r + increment - c);
        } else {
            lemma_fundamental_div_mod_converse(r + increment, c, 0, r + increment);
            lemma_fundamental_div_mod_converse(a + increment, c, q, r + increment);
        }
    }
}

} // verus!
