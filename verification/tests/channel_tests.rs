use std::sync::Arc;
use xsynth::channel::{
    ChannelConfigEvent, ChannelEvent, ChannelInitOptions, ControlEvent, VoiceChannel,
};
use xsynth::channel_sf::{ProgramSoundfont, Soundfont};
use xsynth::sample::SampleData;
use xsynth::sfz::{SfzAmpegEnvelope, SfzGroupType, SfzRegionFlags, SfzToken};
use xsynth::soundfont::{LoadedSample, SampleSoundfont};
use xsynth::{key_vel_to_index, AudioStreamParams, ChannelCount};

const RATE: u32 = 48000;

fn stream() -> AudioStreamParams {
    AudioStreamParams::new(RATE, ChannelCount::Stereo)
}

fn sine_sample(freq: f64, seconds: f64) -> LoadedSample {
    let frames = (RATE as f64 * seconds) as usize;
    let mut left = Vec::with_capacity(frames);
    for i in 0..frames {
        let t = i as f64 / RATE as f64;
        let v = (2.0 * std::f64::consts::PI * freq * t).sin();
        left.push((v * 32000.0) as i32);
    }
    let right = left.clone();
    LoadedSample {
        data: Arc::new(SampleData::new(left, right)),
        loop_start: 0,
        loop_end: 0,
        looped: false,
    }
}

fn region_tokens(lokey: u8, sample: &str) -> Vec<SfzToken> {
    vec![
        SfzToken::Group(SfzGroupType::Region),
        SfzToken::RegionFlag(SfzRegionFlags::Key(lokey)),
        SfzToken::RegionFlag(SfzRegionFlags::Lovel(1)),
        SfzToken::RegionFlag(SfzRegionFlags::Hivel(127)),
        SfzToken::RegionFlag(SfzRegionFlags::PitchKeycenter(60)),
        SfzToken::RegionFlag(SfzRegionFlags::Sample(sample.to_string())),
        SfzToken::RegionFlag(SfzRegionFlags::AmpegEnvelope(SfzAmpegEnvelope::AmpegSustain(
            100_000,
        ))),
    ]
}

/// A one-instrument soundfont: the given keys all play a 440 Hz sine with
/// pitch keycenter 60.
fn sine_soundfont(keys: &[u8]) -> SampleSoundfont {
    let mut tokens = Vec::new();
    for &k in keys {
        tokens.extend(region_tokens(k, "sine.wav"));
    }
    let regions = xsynth::sfz::parse_sf_root(tokens, &String::from(""));
    let samples = vec![("sine.wav".to_string(), sine_sample(440.0, 1.0))];
    SampleSoundfont::new(regions, &samples, stream()).unwrap()
}

fn channel_with(keys: &[u8], fade_out_killing: bool, limit: Option<usize>) -> VoiceChannel {
    let mut channel = VoiceChannel::new(ChannelInitOptions { fade_out_killing }, limit);
    let sf = Arc::new(Soundfont::Sample(sine_soundfont(keys)));
    channel.process_event(ChannelEvent::Config(ChannelConfigEvent::SetSoundfonts(vec![sf])));
    channel
}

fn render_frames(channel: &mut VoiceChannel, frames: usize) -> Vec<i64> {
    let mut buffer = vec![0i64; frames * 2];
    channel.render(&mut buffer);
    buffer
}

fn rms(buffer: &[i64]) -> f64 {
    let sum: f64 = buffer.iter().map(|&v| (v as f64) * (v as f64)).sum();
    (sum / buffer.len() as f64).sqrt()
}

/// Dominant frequency from zero crossings of the left channel over the
/// first `frames` frames.
fn crossing_frequency(buffer: &[i64], frames: usize) -> f64 {
    let mut crossings = 0u32;
    let mut prev = buffer[0];
    for j in 1..frames {
        let v = buffer[2 * j];
        if (prev < 0 && v >= 0) || (prev >= 0 && v < 0) {
            crossings += 1;
        }
        prev = v;
    }
    crossings as f64 * RATE as f64 / (2.0 * frames as f64)
}

#[test]
fn trivial_note_on_renders_sound_then_ends() {
    let mut channel = channel_with(&[60], false, None);
    channel.note_on(60, 100);
    assert_eq!(channel.voices.len(), 1);

    let buffer = render_frames(&mut channel, 1024);
    assert!(rms(&buffer) > 100.0, "rendered block should be audible");

    channel.note_off(60);
    assert!(channel.voices[0].voice.is_releasing());

    // After another second of rendering the voice has run off its one
    // second sample and left the pool.
    for _ in 0..100 {
        render_frames(&mut channel, 512);
    }
    render_frames(&mut channel, 48000);
    assert!(channel.voices.is_empty());
}

#[test]
fn note_a_fifth_up_renders_the_expected_frequency() {
    let mut channel = channel_with(&[60, 72], false, None);
    channel.note_on(72, 100);
    // The sample is consumed at double speed, so measure well inside the
    // first half second.
    let frames = 19200;
    let buffer = render_frames(&mut channel, frames);
    let freq = crossing_frequency(&buffer, frames);
    assert!((freq - 880.0).abs() < 2.5, "measured {freq} Hz");
}

#[test]
fn unknown_program_falls_back_to_piano() {
    // SF1 answers only bank 1 preset 0; SF2 is a plain instrument (and so
    // also answers the piano fallback at bank 0 preset 0).
    let sf1 = Arc::new(Soundfont::Programmed(ProgramSoundfont {
        bank: 1,
        preset: 0,
        inner: sine_soundfont(&[60]),
    }));
    let mut tokens = Vec::new();
    tokens.extend(region_tokens(60, "piano.wav"));
    let regions = xsynth::sfz::parse_sf_root(tokens, &String::from(""));
    let samples = vec![("piano.wav".to_string(), {
        let mut l = vec![7000i32; 2048];
        l[0] = 7001;
        LoadedSample {
            data: Arc::new(SampleData::new(l.clone(), l)),
            loop_start: 0,
            loop_end: 0,
            looped: false,
        }
    })];
    let sf2 = Arc::new(Soundfont::Sample(
        SampleSoundfont::new(regions, &samples, stream()).unwrap(),
    ));

    let mut channel = VoiceChannel::new(ChannelInitOptions { fade_out_killing: false }, None);
    channel.process_event(ChannelEvent::Config(ChannelConfigEvent::SetSoundfonts(vec![
        sf1, sf2,
    ])));
    channel.process_event(ChannelEvent::Config(ChannelConfigEvent::SetProgram(5, 3)));

    // The matrix cell holds the fallback instrument's spawner: SF2's sample.
    let cell = &channel.channel_sf.matrix.attack[key_vel_to_index(60, 100)];
    assert_eq!(cell.len(), 1);
    assert_eq!(cell[0].params.sample.channels[0][0], 7001);

    channel.note_on(60, 100);
    assert_eq!(channel.voices.len(), 1);
}

#[test]
fn program_bound_soundfont_answers_its_own_program() {
    let sf1 = Arc::new(Soundfont::Programmed(ProgramSoundfont {
        bank: 1,
        preset: 0,
        inner: sine_soundfont(&[60]),
    }));
    let mut channel = VoiceChannel::new(ChannelInitOptions { fade_out_killing: false }, None);
    channel.process_event(ChannelEvent::Config(ChannelConfigEvent::SetSoundfonts(vec![sf1])));
    // Default program (0, 0): the bound soundfont does not answer, and
    // there is nothing to fall back to.
    channel.note_on(60, 100);
    assert!(channel.voices.is_empty());
    // Its own program: it answers.
    channel.process_event(ChannelEvent::Config(ChannelConfigEvent::SetProgram(1, 0)));
    channel.note_on(60, 100);
    assert_eq!(channel.voices.len(), 1);
}

#[test]
fn rebuilding_for_the_same_program_changes_nothing() {
    let mut channel = channel_with(&[60], false, None);
    channel.channel_sf.change_program(5, 3);
    let before_cell_len = channel.channel_sf.matrix.attack[key_vel_to_index(60, 100)].len();
    assert_eq!(channel.channel_sf.curr_bank, Some(5));
    channel.channel_sf.change_program(5, 3);
    assert_eq!(channel.channel_sf.curr_bank, Some(5));
    assert_eq!(channel.channel_sf.curr_preset, Some(3));
    assert_eq!(
        channel.channel_sf.matrix.attack[key_vel_to_index(60, 100)].len(),
        before_cell_len,
    );
}

#[test]
fn polyphony_mix_is_the_sum_of_solo_renders() {
    let keys = [60u8, 64, 67];
    let frames = 512;

    let mut together = channel_with(&[60, 64, 67], false, None);
    for &k in &keys {
        together.note_on(k, 100);
    }
    let mixed = render_frames(&mut together, frames);

    let mut summed = vec![0i64; frames * 2];
    for &k in &keys {
        let mut alone = channel_with(&[60, 64, 67], false, None);
        alone.note_on(k, 100);
        let solo = render_frames(&mut alone, frames);
        for i in 0..summed.len() {
            summed[i] += solo[i];
        }
    }
    assert_eq!(mixed, summed, "mixing is sample-wise additive");
}

#[test]
fn voice_limit_kill_fades_the_oldest_voice() {
    let mut channel = channel_with(&[60, 61], true, Some(1));
    channel.note_on(60, 100);
    channel.note_on(61, 100);
    // The first voice got the kill release and is still fading; the second
    // plays on.
    assert_eq!(channel.voices.len(), 2);
    assert!(channel.voices[0].voice.is_releasing());
    assert!(!channel.voices[1].voice.is_releasing());

    // The kill fade is one millisecond; well within 5 ms the first voice is
    // gone.
    render_frames(&mut channel, 240);
    assert_eq!(channel.voices.len(), 1);
    assert_eq!(channel.voices[0].key, 61);
}

#[test]
fn voice_limit_without_fade_drops_at_once() {
    let mut channel = channel_with(&[60, 61], false, Some(1));
    channel.note_on(60, 100);
    channel.note_on(61, 100);
    assert_eq!(channel.voices.len(), 1);
    assert_eq!(channel.voices[0].key, 61);
}

#[test]
fn velocity_zero_acts_as_note_off() {
    let mut channel = channel_with(&[60], false, None);
    channel.note_on(60, 100);
    assert!(!channel.voices[0].voice.is_releasing());
    channel.note_on(60, 0);
    assert!(channel.voices[0].voice.is_releasing());
}

#[test]
fn ignored_velocities_are_dropped() {
    let mut channel = channel_with(&[60], false, None);
    channel.ignore_vel_lo = 1;
    channel.ignore_vel_hi = 20;
    channel.note_on(60, 10);
    assert!(channel.voices.is_empty());
    channel.note_on(60, 21);
    assert_eq!(channel.voices.len(), 1);
}

#[test]
fn pitch_bend_changes_voice_speed() {
    let mut channel = channel_with(&[60], false, None);
    channel.note_on(60, 100);
    let base = channel.voices[0].voice.gen.pitch.current;
    channel.process_event(ChannelEvent::Control(ControlEvent::PitchBendValue(1200)));
    let bent = channel.voices[0].voice.gen.pitch.current;
    assert_eq!(bent, 2 * base);
    channel.process_event(ChannelEvent::Control(ControlEvent::ResetControl));
    assert_eq!(channel.voices[0].voice.gen.pitch.current, base);
}

#[test]
fn all_notes_off_releases_everything() {
    let mut channel = channel_with(&[60, 61], false, None);
    channel.note_on(60, 100);
    channel.note_on(61, 100);
    channel.process_event(ChannelEvent::Control(ControlEvent::AllNotesOff));
    assert!(channel.voices.iter().all(|v| v.voice.is_releasing()));
}

#[test]
fn reset_drops_all_voices() {
    let mut channel = channel_with(&[60], false, None);
    channel.note_on(60, 100);
    channel.reset();
    assert!(channel.voices.is_empty());
}

#[test]
fn ended_voice_renders_exact_silence() {
    let mut channel = channel_with(&[60], false, None);
    channel.note_on(60, 100);
    // Run the voice past the end of its one second sample.
    for _ in 0..10 {
        render_frames(&mut channel, 9600);
    }
    assert!(channel.voices.is_empty());
    let buffer = render_frames(&mut channel, 256);
    assert!(buffer.iter().all(|&v| v == 0));
}

#[test]
fn out_of_range_midi_data_is_clamped() {
    // A region on the highest key; a note beyond the MIDI range lands there.
    let mut channel = channel_with(&[127], false, None);
    channel.note_on(255, 100);
    assert_eq!(channel.voices.len(), 1);
    assert_eq!(channel.voices[0].key, 127);
}

#[test]
fn note_events_dispatch_through_process_event() {
    let mut channel = channel_with(&[60], false, None);
    channel.process_event(ChannelEvent::NoteOn { key: 60, vel: 100 });
    assert_eq!(channel.voices.len(), 1);
    assert!(!channel.voices[0].voice.is_releasing());
    channel.process_event(ChannelEvent::Control(ControlEvent::Raw(7, 100)));
    assert_eq!(channel.voices.len(), 1);
    channel.process_event(ChannelEvent::NoteOff { key: 60 });
    assert!(channel.voices[0].voice.is_releasing());
}
