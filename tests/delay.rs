use synth_core::delay::{delay_samples, DelayLine};

#[test]
fn one_second_at_44100_hz_is_44100_samples() {
    let n = delay_samples(44100, 1000);
    assert_eq!(n, 44100);
    let line = DelayLine::new(n as usize, 0.0f32);
    assert_eq!(line.len(), 44100);
}

#[test]
fn delay_lengths_round_down() {
    assert_eq!(delay_samples(44100, 1), 44);
    assert_eq!(delay_samples(48000, 250), 12000);
    assert_eq!(delay_samples(44100, 0), 0);
}

#[test]
fn zero_length_is_raised_to_one_sample() {
    let mut line = DelayLine::new(0, 0u8);
    assert_eq!(line.len(), 1);
    line.push(5);
    assert_eq!(line.delayed(), 5);
}

#[test]
fn impulse_comes_back_once_after_the_line_length() {
    let len = delay_samples(44100, 10) as usize;
    let mut line = DelayLine::new(len, 0.0f32);
    let feedback = 0.0f32;
    let wet = 1.0f32;
    let mut out = Vec::new();
    for i in 0..3 * len {
        let input = if i == 0 { 1.0f32 } else { 0.0 };
        let delayed = line.delayed();
        line.push(input + delayed * feedback);
        out.push(input * (1.0 - wet) + delayed * wet);
    }
    for (i, v) in out.iter().enumerate() {
        if i == len {
            assert_eq!(*v, 1.0);
        } else {
            assert_eq!(*v, 0.0);
        }
    }
}

#[test]
fn line_is_first_in_first_out() {
    let mut line = DelayLine::new(3, 0i32);
    let mut seen = Vec::new();
    for v in 1..=7 {
        seen.push(line.delayed());
        line.push(v);
    }
    assert_eq!(seen, vec![0, 0, 0, 1, 2, 3, 4]);
}
