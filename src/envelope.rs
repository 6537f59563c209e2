//! The ADSR envelope generator.
//!
//! The level is a fixed-point fraction: `LEVEL_ONE` stands for full scale, so
//! every level lies in `0..=LEVEL_ONE`. Each stage moves the level by a fixed
//! step per sample, sized so that a full-scale sweep takes the stage's length
//! in samples; a stage of length zero completes in a single sample.

use std::sync::Arc;
use vstd::prelude::*;
use crate::state::SynthState;

verus! {

/// The fixed-point value of a full-scale level.
pub const LEVEL_ONE: u64 = 0x1_0000_0000;

/// Milliseconds per second.
pub const MS_PER_SECOND: u64 = 1000;

/// The four stages of the envelope.
#[derive(PartialEq, Eq, Structural, Clone, Copy, Debug)]
pub enum EnvStage {
    Attack,
    Decay,
    Sustain,
    Release,
}

/// What an envelope is configured with: the per-sample step of each sloped
/// stage and the sustain level.
#[derive(Clone, Copy, Debug)]
pub struct EnvelopeShape {
    pub attack_step: u64,
    pub decay_step: u64,
    pub sustain: u64,
    pub release_step: u64,
}

/// Where an envelope is: its stage and its level.
#[derive(Clone, Copy, Debug)]
pub struct EnvelopeState {
    pub stage: EnvStage,
    pub level: u64,
}

impl EnvelopeShape {
    /// Every step moves the level by at least one unit and at most full scale,
    /// and the sustain level is within range.
    pub open spec fn wf(self) -> bool {
        &&& 1 <= self.attack_step <= LEVEL_ONE
        &&& 1 <= self.decay_step <= LEVEL_ONE
        &&& 1 <= self.release_step <= LEVEL_ONE
        &&& self.sustain <= LEVEL_ONE
    }
}

/// Length in samples of a stage lasting `ms` milliseconds.
pub open spec fn stage_samples(ms: u32, sample_rate: u32) -> int {
    (ms as int * sample_rate as int) / (MS_PER_SECOND as int)
}

/// The per-sample step that sweeps full scale in `samples` samples, rounded
/// up; one full-scale step for an empty stage.
pub open spec fn step_for(samples: int) -> int {
    if samples <= 0 {
        LEVEL_ONE as int
    } else {
        (LEVEL_ONE as int + samples - 1) / samples
    }
}

/// The stage once gating is applied: an open gate starts an attack from a
/// release, a closed gate sends any other stage to release.
pub open spec fn gated_stage(stage: EnvStage, gate_open: bool) -> EnvStage {
    match stage {
        EnvStage::Release => if gate_open {
            EnvStage::Attack
        } else {
            EnvStage::Release
        },
        _ => if gate_open {
            stage
        } else {
            EnvStage::Release
        },
    }
}

/// One sample of the envelope.
pub open spec fn next_state(shape: EnvelopeShape, st: EnvelopeState, gate_open: bool) -> EnvelopeState {
    match gated_stage(st.stage, gate_open) {
        EnvStage::Attack => if st.level + shape.attack_step >= LEVEL_ONE {
            EnvelopeState { stage: EnvStage::Decay, level: LEVEL_ONE }
        } else {
            EnvelopeState { stage: EnvStage::Attack, level: (st.level + shape.attack_step) as u64 }
        },
        EnvStage::Decay => if st.level <= shape.sustain + shape.decay_step {
            EnvelopeState { stage: EnvStage::Sustain, level: shape.sustain }
        } else {
            EnvelopeState { stage: EnvStage::Decay, level: (st.level - shape.decay_step) as u64 }
        },
        EnvStage::Sustain => EnvelopeState { stage: EnvStage::Sustain, level: st.level },
        EnvStage::Release => if st.level <= shape.release_step {
            EnvelopeState { stage: EnvStage::Release, level: 0 }
        } else {
            EnvelopeState { stage: EnvStage::Release, level: (st.level - shape.release_step) as u64 }
        },
    }
}

/// The state after one sample per gate value in `gates`, in order.
pub open spec fn run(shape: EnvelopeShape, st: EnvelopeState, gates: Seq<bool>) -> EnvelopeState
    decreases gates.len(),
{
    if gates.len() == 0 {
        st
    } else {
        next_state(shape, run(shape, st, gates.drop_last()), gates.last())
    }
}

/// Computes the step of a stage lasting `ms` milliseconds.
pub fn stage_step(ms: u32, sample_rate: u32) -> (r: u64)
    ensures
        r == step_for(stage_samples(ms, sample_rate)),
        1 <= r <= LEVEL_ONE,
{
    proof {
        assert((ms as int) * (sample_rate as int) <= (u32::MAX as int) * (u32::MAX as int))
            by (nonlinear_arith);
    }
    let samples: u64 = (ms as u64) * (sample_rate as u64) / MS_PER_SECOND;
    if samples == 0 {
        LEVEL_ONE
    } else {
        let r: u64 = (LEVEL_ONE + samples - 1) / samples;
        proof {
            assert((LEVEL_ONE + samples - 1) / (samples as int) <= LEVEL_ONE) by (nonlinear_arith)
                requires samples >= 1;
            assert((LEVEL_ONE + samples - 1) / (samples as int) >= 1) by (nonlinear_arith)
                requires samples >= 1, samples <= (u32::MAX as int) * (u32::MAX as int);
        }
        r
    }
}

/// The shape of an envelope configured with stage times in milliseconds and a
/// sustain level, which is capped at full scale.
pub open spec fn shape_for(
    attack_ms: u32,
    decay_ms: u32,
    sustain: u64,
    release_ms: u32,
    sample_rate: u32,
) -> EnvelopeShape {
    EnvelopeShape {
        attack_step: step_for(stage_samples(attack_ms, sample_rate)) as u64,
        decay_step: step_for(stage_samples(decay_ms, sample_rate)) as u64,
        sustain: if sustain <= LEVEL_ONE {
            sustain
        } else {
            LEVEL_ONE
        },
        release_step: step_for(stage_samples(release_ms, sample_rate)) as u64,
    }
}

/// Where every envelope starts: released, at level zero.
pub open spec fn initial_state() -> EnvelopeState {
    EnvelopeState { stage: EnvStage::Release, level: 0 }
}

/// An ADSR envelope advanced one sample at a time.
pub struct Envelope {
    shape: EnvelopeShape,
    state: EnvelopeState,
}

impl Envelope {
    /// The configuration of the envelope.
    pub closed spec fn shape(self) -> EnvelopeShape {
        self.shape
    }

    /// The stage and level of the envelope.
    pub closed spec fn state(self) -> EnvelopeState {
        self.state
    }

    /// A well-formed shape and a level within full scale.
    pub open spec fn wf(self) -> bool {
        &&& self.shape().wf()
        &&& self.state().level <= LEVEL_ONE
    }

    /// An envelope with the given stage times at `sample_rate` samples per
    /// second, released at level zero.
    pub fn new(attack_ms: u32, decay_ms: u32, sustain: u64, release_ms: u32, sample_rate: u32) -> (r:
        Self)
        ensures
            r.wf(),
            r.shape() == shape_for(attack_ms, decay_ms, sustain, release_ms, sample_rate),
            r.state() == initial_state(),
    {
        let shape = EnvelopeShape {
            attack_step: stage_step(attack_ms, sample_rate),
            decay_step: stage_step(decay_ms, sample_rate),
            sustain: if sustain <= LEVEL_ONE {
                sustain
            } else {
                LEVEL_ONE
            },
            release_step: stage_step(release_ms, sample_rate),
        };
        Envelope { shape, state: EnvelopeState { stage: EnvStage::Release, level: 0 } }
    }

    /// Advances one sample with its gate open or closed and returns the new
    /// level.
    pub fn advance(&mut self, gate_open: bool) -> (level: u64)
        requires
            old(self).wf(),
        ensures
            final(self).wf(),
            final(self).shape() == old(self).shape(),
            final(self).state() == next_state(old(self).shape(), old(self).state(), gate_open),
            level == final(self).state().level,
            level <= LEVEL_ONE,
    {
        let stage = match self.state.stage {
            EnvStage::Release => if gate_open {
                EnvStage::Attack
            } else {
                EnvStage::Release
            },
            other => if gate_open {
                other
            } else {
                EnvStage::Release
            },
        };
        let level = self.state.level;
        self.state = match stage {
            EnvStage::Attack => if level + self.shape.attack_step >= LEVEL_ONE {
                EnvelopeState { stage: EnvStage::Decay, level: LEVEL_ONE }
            } else {
                EnvelopeState { stage: EnvStage::Attack, level: level + self.shape.attack_step }
            },
            EnvStage::Decay => if level <= self.shape.sustain + self.shape.decay_step {
                EnvelopeState { stage: EnvStage::Sustain, level: self.shape.sustain }
            } else {
                EnvelopeState { stage: EnvStage::Decay, level: level - self.shape.decay_step }
            },
            EnvStage::Sustain => EnvelopeState { stage: EnvStage::Sustain, level },
            EnvStage::Release => if level <= self.shape.release_step {
                EnvelopeState { stage: EnvStage::Release, level: 0 }
            } else {
                EnvelopeState { stage: EnvStage::Release, level: level - self.shape.release_step }
            },
        };
        self.state.level
    }

    /// The current level.
    pub fn level(&self) -> (r: u64)
        ensures
            r == self.state().level,
    {
        self.state.level
    }

    /// The current stage.
    pub fn stage(&self) -> (r: EnvStage)
        ensures
            r == self.state().stage,
    {
        self.state.stage
    }
}

/// An envelope whose gate is the "any note held" flag of the shared parameter
/// store, read afresh on every sample.
pub struct Gate {
    envelope: Envelope,
    synth_params: Arc<SynthState>,
}

impl Gate {
    /// The envelope inside this gate.
    pub closed spec fn env(self) -> Envelope {
        self.envelope
    }

    /// A gate reading `synth_params`, with the given stage times at
    /// `sample_rate` samples per second.
    pub fn new(
        synth_params: Arc<SynthState>,
        attack_ms: u32,
        decay_ms: u32,
        sustain: u64,
        release_ms: u32,
        sample_rate: u32,
    ) -> (r: Self)
        ensures
            r.env().wf(),
            r.env().shape() == shape_for(attack_ms, decay_ms, sustain, release_ms, sample_rate),
            r.env().state() == initial_state(),
    {
        Gate {
            envelope: Envelope::new(attack_ms, decay_ms, sustain, release_ms, sample_rate),
            synth_params,
        }
    }

    /// Reads the shared gate flag and advances the envelope one sample. The flag may
    /// have been written by another thread at any moment, so the new state is
    /// the step for one of the two gate values.
    pub fn next_envelope_value(&mut self) -> (level: u64)
        requires
            old(self).env().wf(),
        ensures
            final(self).env().wf(),
            final(self).env().shape() == old(self).env().shape(),
            final(self).env().state() == next_state(old(self).env().shape(), old(self).env().state(), true)
                || final(self).env().state() == next_state(
                old(self).env().shape(),
                old(self).env().state(),
                false,
            ),
            level == final(self).env().state().level,
            level <= LEVEL_ONE,
    {
        let gate_open = self.synth_params.gate_open();
        self.envelope.advance(gate_open)
    }

    /// The current level.
    pub fn envelope(&self) -> (r: u64)
        ensures
            r == self.env().state().level,
    {
        self.envelope.level()
    }
}

/// Whatever its gate does, sample after sample, the level never leaves
/// `0..=LEVEL_ONE`.
pub proof fn lemma_level_stays_in_range(shape: EnvelopeShape, st: EnvelopeState, gates: Seq<bool>)
    requires
        shape.wf(),
        st.level <= LEVEL_ONE,
    ensures
        run(shape, st, gates).level <= LEVEL_ONE,
    decreases gates.len(),
{
    if gates.len() > 0 {
        lemma_level_stays_in_range(shape, st, gates.drop_last());
    }
}

/// `n` samples with a gate held open.
pub open spec fn held_open(n: nat) -> Seq<bool> {
    Seq::new(n, |i: int| true)
}

/// From rest, with its gate held open, the level climbs by one attack step per
/// sample while it stays below full scale.
pub proof fn lemma_attack_ramp(shape: EnvelopeShape, k: nat)
    requires
        shape.wf(),
        k * shape.attack_step < LEVEL_ONE,
    ensures
        run(shape, initial_state(), held_open(k)) == (EnvelopeState {
            stage: if k == 0 {
                EnvStage::Release
            } else {
                EnvStage::Attack
            },
            level: (k * shape.attack_step) as u64,
        }),
    decreases k,
{
    if k > 0 {
        let m = (k - 1) as nat;
        assert(held_open(k).drop_last() =~= held_open(m));
        assert(m * shape.attack_step <= k * shape.attack_step) by (nonlinear_arith)
            requires m < k;
        assert(m * shape.attack_step + shape.attack_step == k * shape.attack_step) by (nonlinear_arith)
            requires m + 1 == k;
        lemma_attack_ramp(shape, m);
        assert(held_open(k).last());
    } else {
        assert(k * shape.attack_step == 0) by (nonlinear_arith)
            requires k == 0;
        assert(held_open(k).len() == 0);
    }
}

/// From rest, with its gate held open, the level reaches full scale on the
/// first sample `k` with `k` attack steps at or above full scale, and the
/// envelope moves on to its decay there.
pub proof fn lemma_attack_completes(shape: EnvelopeShape, k: nat)
    requires
        shape.wf(),
        k >= 1,
        (k - 1) * shape.attack_step < LEVEL_ONE,
        k * shape.attack_step >= LEVEL_ONE,
    ensures
        run(shape, initial_state(), held_open(k)) == (EnvelopeState {
            stage: EnvStage::Decay,
            level: LEVEL_ONE,
        }),
{
    let m = (k - 1) as nat;
    assert(held_open(k).drop_last() =~= held_open(m));
    assert(m * shape.attack_step + shape.attack_step == k * shape.attack_step) by (nonlinear_arith)
        requires m + 1 == k;
    lemma_attack_ramp(shape, m);
    assert(held_open(k).last());
}

/// The longest stage, in samples, whose rounded-up step still sweeps full
/// scale in exactly that many samples.
pub const EXACT_STAGE_SAMPLES: u64 = 0x1_0000;

/// An attack configured to last `n` samples, up to `EXACT_STAGE_SAMPLES`,
/// keeps the level below full scale while fewer than `n` samples have passed
/// with its gate open, and reaches full scale on sample `n`, where the decay
/// begins.
pub proof fn lemma_attack_takes_its_length(shape: EnvelopeShape, n: nat)
    requires
        shape.wf(),
        1 <= n <= EXACT_STAGE_SAMPLES,
        shape.attack_step == step_for(n as int),
    ensures
        run(shape, initial_state(), held_open(n)) == (EnvelopeState {
            stage: EnvStage::Decay,
            level: LEVEL_ONE,
        }),
        forall|k: nat| k < n ==> #[trigger] run(shape, initial_state(), held_open(k)).level < LEVEL_ONE,
{
    let s = shape.attack_step as int;
    let l = LEVEL_ONE as int;
    let ni = n as int;
    assert(s * ni <= l + ni - 1 && l + ni - 1 < s * ni + ni) by (nonlinear_arith)
        requires s == (l + ni - 1) / ni, ni >= 1;
    assert(s >= ni) by (nonlinear_arith)
        requires s * ni + ni > l + ni - 1, ni <= 0x1_0000, l == 0x1_0000_0000, ni >= 1;
    assert((ni - 1) * s < l) by (nonlinear_arith)
        requires s * ni <= l + ni - 1, s >= ni, ni >= 1;
    assert(ni * s >= l) by (nonlinear_arith)
        requires s * ni + ni > l + ni - 1;
    lemma_attack_completes(shape, n);
    assert forall|k: nat| k < n implies #[trigger] run(shape, initial_state(), held_open(k)).level
        < LEVEL_ONE by {
        assert(k * s <= (n - 1) * s) by (nonlinear_arith)
            requires k <= n - 1, s >= 0;
        lemma_attack_ramp(shape, k);
    }
}

} // verus!
