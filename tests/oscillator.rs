use synth_core::oscillator::{next_phase, phase_increment, Oscillator, PHASE_CYCLE};
use synth_core::state::SynthState;

#[test]
fn increment_for_a_440_hz_tone() {
    assert_eq!(phase_increment(440_000, 44100), 42852281);
}

#[test]
fn increment_wraps_above_the_sample_rate() {
    // one and a quarter cycles per sample alias to a quarter cycle
    assert_eq!(phase_increment(5_000, 4), (PHASE_CYCLE / 4) as u32);
    assert_eq!(phase_increment(1_000, 2), (PHASE_CYCLE / 2) as u32);
}

#[test]
fn no_sample_rate_gives_no_increment() {
    assert_eq!(phase_increment(440_000, 0), 0);
}

#[test]
fn phase_wraps_by_one_cycle() {
    assert_eq!(next_phase(10, 20), 30);
    assert_eq!(next_phase(u32::MAX, 1), 0);
    assert_eq!(next_phase(u32::MAX - 5, 10), 4);
}

#[test]
fn cycles_in_one_second_match_the_frequency() {
    let params = SynthState::new();
    let mut osc = Oscillator::new(params, 0);
    let inc = phase_increment(440_000, 44100);
    let mut wraps: u32 = 0;
    let mut crossings: u32 = 0;
    let mut prev = osc.advance(inc);
    for _ in 1..44100 {
        let phase = osc.advance(inc);
        if phase < prev {
            wraps += 1;
        }
        let half = (PHASE_CYCLE / 2) as u32;
        if prev < half && phase >= half {
            crossings += 1;
        }
        prev = phase;
    }
    assert!(wraps >= 439 && wraps <= 441);
    assert!(crossings >= 439 && crossings <= 441);
}

#[test]
fn advance_returns_the_phase_before_the_step() {
    let params = SynthState::new();
    let mut osc = Oscillator::new(params, 3);
    assert_eq!(osc.advance(100), 0);
    assert_eq!(osc.advance(100), 100);
    assert_eq!(osc.current_phase(), 200);
}

#[test]
fn oscillator_reads_its_own_volume_slot_and_the_note() {
    let params = SynthState::new();
    params.set_oscillator_volume(2, 17);
    params.publish(true, 57);
    let osc = Oscillator::new(params.clone(), 2);
    assert_eq!(osc.get_volume(), 17);
    assert_eq!(osc.current_note(), 57);
    let other = Oscillator::new(params, 1);
    assert_eq!(other.get_volume(), 255);
}
