use xsynth::amp::amp_from_velocity;
use xsynth::envelope::{
    EnvelopeDescriptor, EnvelopeStage, ReleaseType, VoiceEnvelope,
};
use xsynth::pitch::{bend_ratio, get_speed_mult_from_keys, key_ratio, PITCH_ONE};
use xsynth::sample::BufferSamplers;
use xsynth::sampler::{LoopMode, LoopParams, SampleGrabbers, SampleReader};
use std::sync::Arc;

#[test]
fn amp_full_velocity_is_unit_gain() {
    assert_eq!(amp_from_velocity(127), 32768);
}

#[test]
fn amp_at_zero_velocity_is_below_one_hundredth() {
    let a = amp_from_velocity(0);
    assert!(u64::from(a) * 100 < 32768, "amp(0) = {a}");
}

#[test]
fn amp_is_monotone_in_velocity() {
    let mut prev = amp_from_velocity(0);
    for vel in 1..=127u8 {
        let a = amp_from_velocity(vel);
        assert!(a >= prev, "amp({vel}) = {a} < {prev}");
        prev = a;
    }
}

#[test]
fn amp_step_is_about_four_percent() {
    let a100 = amp_from_velocity(100) as f64;
    let a101 = amp_from_velocity(101) as f64;
    let ratio = a101 / a100;
    assert!((ratio - 1.04).abs() < 0.01, "step ratio {ratio}");
}

#[test]
fn speed_mult_same_key_is_exactly_one() {
    for k in [0u8, 42, 60, 127] {
        assert_eq!(get_speed_mult_from_keys(k, k), PITCH_ONE);
    }
}

#[test]
fn speed_mult_octave_is_exactly_two() {
    assert_eq!(get_speed_mult_from_keys(72, 60), 2 * PITCH_ONE);
    assert_eq!(get_speed_mult_from_keys(48, 60), PITCH_ONE / 2);
}

#[test]
fn speed_mult_semitone_matches_equal_temperament() {
    let r = get_speed_mult_from_keys(61, 60) as f64 / PITCH_ONE as f64;
    let expected = 2f64.powf(1.0 / 12.0);
    assert!((r - expected).abs() < 1e-6, "semitone ratio {r}");
}

#[test]
fn bend_ratio_center_and_octave() {
    assert_eq!(bend_ratio(0), PITCH_ONE);
    assert_eq!(bend_ratio(1200), 2 * PITCH_ONE);
    let down = bend_ratio(-1200) as f64 / PITCH_ONE as f64;
    assert!((down - 0.5).abs() < 1e-6);
}

#[test]
fn key_ratio_is_monotone_nearby() {
    let mut prev = key_ratio(-24);
    for d in -23..=24i64 {
        let r = key_ratio(d);
        assert!(r > prev, "key_ratio({d})");
        prev = r;
    }
}

fn reader_with_loop(values: Vec<i32>, start: u32, end: u32, mode: LoopMode) -> SampleReader {
    SampleReader::new(
        BufferSamplers::new_pcm(Arc::new(values)),
        LoopParams { offset: 0, start, end, mode },
    )
}

#[test]
fn loop_continuous_repeats_the_loop_region() {
    // Buffer 0..10, loop region [2, 6): period 4.
    let values: Vec<i32> = (0..10).collect();
    let reader = reader_with_loop(values, 2, 6, LoopMode::LoopContinuous);
    for k in 0..4u64 {
        let base = reader.get(2 + k);
        for n in 1..5u64 {
            // The loop end itself (n == 1, k == 0) reads the buffer at the
            // loop end rather than folding back.
            if n == 1 && k == 0 {
                continue;
            }
            assert_eq!(reader.get(2 + n * 4 + k), base, "n={n} k={k}");
        }
    }
    assert!(!reader.is_past_end(1_000_000));
}

#[test]
fn no_loop_reads_silence_past_the_end() {
    let values: Vec<i32> = vec![5, 6, 7];
    let reader = reader_with_loop(values, 0, 0, LoopMode::NoLoop);
    assert_eq!(reader.get(0), 5);
    assert_eq!(reader.get(2), 7);
    assert_eq!(reader.get(3), 0);
    assert_eq!(reader.get(1000), 0);
    assert!(reader.is_past_end(3));
    assert!(!reader.is_past_end(2));
}

#[test]
fn linear_grabber_interpolates_between_frames() {
    let values: Vec<i32> = vec![0, 100];
    let reader = reader_with_loop(values, 0, 0, LoopMode::NoLoop);
    let grabber = SampleGrabbers::linear(reader);
    // Halfway between frame 0 and frame 1.
    let half = 1u64 << 31;
    assert_eq!(grabber.get(0, half), 50);
    assert_eq!(grabber.get(0, 0), 0);
}

fn envelope_at_rate(
    attack_micros: u64,
    release_micros: u64,
    sample_rate: u32,
) -> VoiceEnvelope {
    let descriptor = EnvelopeDescriptor {
        start_value: 0,
        delay_micros: 0,
        attack_micros,
        hold_micros: 0,
        decay_micros: 0,
        sustain_value: 32768,
        release_micros,
    };
    let params = descriptor.to_envelope_params(sample_rate);
    VoiceEnvelope::new(params, 48)
}

#[test]
fn envelope_attack_ramps_up_to_sustain() {
    // 10 ms attack at 1 kHz: 10 samples.
    let mut env = envelope_at_rate(10_000, 10_000, 1000);
    let mut prev = env.next_value();
    for _ in 0..9 {
        let v = env.next_value();
        assert!(v >= prev);
        prev = v;
    }
    assert_eq!(env.next_value(), 32768);
}

#[test]
fn envelope_release_cancels_attack_from_partial_level() {
    // 500 ms attack at 1 kHz = 500 samples; release it after 100 samples.
    let mut env = envelope_at_rate(500_000, 100_000, 1000);
    for _ in 0..100 {
        env.next_value();
    }
    let level_at_release = env.value();
    assert!(level_at_release < 32768);
    env.signal_release(ReleaseType::Standard);
    let mut prev = env.next_value();
    assert_eq!(prev, level_at_release, "release starts at the current level");
    for _ in 0..200 {
        let v = env.next_value();
        assert!(v <= prev, "release output never rises");
        prev = v;
    }
}

#[test]
fn envelope_release_is_idempotent() {
    let mut env = envelope_at_rate(500_000, 100_000, 1000);
    for _ in 0..50 {
        env.next_value();
    }
    env.signal_release(ReleaseType::Standard);
    let snapshot = env;
    let mut again = env;
    again.signal_release(ReleaseType::Standard);
    assert_eq!(again, snapshot);
    let mut killed = env;
    killed.signal_release(ReleaseType::Killed);
    assert_eq!(killed, snapshot);
}

#[test]
fn envelope_kill_fade_finishes_quickly() {
    // Kill fade length was set to 48 samples.
    let mut env = envelope_at_rate(500_000, 1_000_000, 48000);
    for _ in 0..100 {
        env.next_value();
    }
    env.signal_release(ReleaseType::Killed);
    for _ in 0..49 {
        env.next_value();
    }
    assert!(env.ended());
}

#[test]
fn envelope_stays_ended() {
    let mut env = envelope_at_rate(0, 1_000, 1000);
    env.signal_release(ReleaseType::Standard);
    for _ in 0..10 {
        env.next_value();
    }
    assert!(env.ended());
    for _ in 0..10 {
        assert_eq!(env.next_value(), 0);
    }
    assert!(env.ended());
    assert_eq!(env.stage, EnvelopeStage::Finished);
}
