use std::sync::Arc;
use xsynth::sample::SampleData;
use xsynth::sampler::LoopMode;
use xsynth::sfz::{
    get_group_level, parse_sf_root, AmpegEnvelopeParams, RegionParamsBuilder, SfzAmpegEnvelope,
    SfzGroupType, SfzRegionFlags, SfzToken,
};
use xsynth::soundfont::{envelope_descriptor_from_region_params, LoadSfzError, LoadedSample, SampleSoundfont};
use xsynth::{key_vel_to_index, AudioStreamParams, ChannelCount};

fn region_tokens(key: u8, lovel: u8, hivel: u8, sample: &str) -> Vec<SfzToken> {
    vec![
        SfzToken::Group(SfzGroupType::Region),
        SfzToken::RegionFlag(SfzRegionFlags::Key(key)),
        SfzToken::RegionFlag(SfzRegionFlags::Lovel(lovel)),
        SfzToken::RegionFlag(SfzRegionFlags::Hivel(hivel)),
        SfzToken::RegionFlag(SfzRegionFlags::PitchKeycenter(key)),
        SfzToken::RegionFlag(SfzRegionFlags::Sample(sample.to_string())),
        SfzToken::RegionFlag(SfzRegionFlags::AmpegEnvelope(SfzAmpegEnvelope::AmpegSustain(
            100_000,
        ))),
    ]
}

fn constant_sample(value: i32, frames: usize) -> LoadedSample {
    let left = vec![value; frames];
    let right = vec![value; frames];
    LoadedSample {
        data: Arc::new(SampleData::new(left, right)),
        loop_start: 0,
        loop_end: 0,
        looped: false,
    }
}

fn stream() -> AudioStreamParams {
    AudioStreamParams::new(48000, ChannelCount::Stereo)
}

#[test]
fn group_levels_follow_the_sfz_hierarchy() {
    assert_eq!(get_group_level(SfzGroupType::Control), Some(1));
    assert_eq!(get_group_level(SfzGroupType::Master), Some(2));
    assert_eq!(get_group_level(SfzGroupType::Group), Some(3));
    assert_eq!(get_group_level(SfzGroupType::Region), Some(4));
    assert_eq!(get_group_level(SfzGroupType::Other), None);
}

#[test]
fn parse_sf_root_builds_one_region() {
    let tokens = region_tokens(60, 1, 127, "sine.wav");
    let regions = parse_sf_root(tokens, &String::from("base"));
    assert_eq!(regions.len(), 1);
    let r = &regions[0];
    assert_eq!(r.key, 60);
    assert_eq!(r.lovel, 1);
    assert_eq!(r.hivel, 127);
    assert_eq!(r.pitch_keycenter, Some(60));
    assert_eq!(r.sample_path, "base/sine.wav");
    assert_eq!(r.ampeg_envelope.ampeg_sustain, 100_000);
}

#[test]
fn parse_sf_root_region_without_sample_is_dropped() {
    let tokens = vec![
        SfzToken::Group(SfzGroupType::Region),
        SfzToken::RegionFlag(SfzRegionFlags::Key(60)),
    ];
    let regions = parse_sf_root(tokens, &String::from(""));
    assert!(regions.is_empty());
}

#[test]
fn parse_sf_root_group_opcodes_carry_into_regions() {
    let tokens = vec![
        SfzToken::Group(SfzGroupType::Group),
        SfzToken::RegionFlag(SfzRegionFlags::Lovel(10)),
        SfzToken::Group(SfzGroupType::Region),
        SfzToken::RegionFlag(SfzRegionFlags::Key(61)),
        SfzToken::RegionFlag(SfzRegionFlags::Sample("a.wav".to_string())),
    ];
    let regions = parse_sf_root(tokens, &String::from(""));
    assert_eq!(regions.len(), 1);
    assert_eq!(regions[0].lovel, 10);
    assert_eq!(regions[0].key, 61);
}

#[test]
fn builder_defaults_match_sfz_conventions() {
    let b = RegionParamsBuilder::default();
    assert_eq!(b.lovel, 0);
    assert_eq!(b.hivel, 127);
    assert_eq!(b.key, None);
    assert_eq!(b.loop_mode, LoopMode::NoLoop);
    assert_eq!(b.ampeg_envelope.ampeg_sustain, 1_000);
    assert_eq!(b.ampeg_envelope.ampeg_release, 1_000);
}

#[test]
fn soundfont_cells_follow_region_coverage() {
    let tokens = region_tokens(60, 10, 20, "a.wav");
    let regions = parse_sf_root(tokens, &String::from(""));
    let samples = vec![("a.wav".to_string(), constant_sample(1000, 64))];
    let sf = SampleSoundfont::new(regions, &samples, stream()).unwrap();

    // Covered cells are filled, everything else is empty.
    for vel in 0..128u8 {
        let cell = &sf.spawner_params_list[key_vel_to_index(60, vel)];
        assert_eq!(cell.is_some(), (10..=20).contains(&vel), "vel {vel}");
    }
    for key in 0..128u8 {
        if key != 60 {
            assert!(sf.spawner_params_list[key_vel_to_index(key, 15)].is_none());
        }
    }
}

#[test]
fn overlapping_cell_takes_the_last_region() {
    let mut tokens = region_tokens(60, 0, 127, "a.wav");
    tokens.extend(region_tokens(60, 50, 60, "b.wav"));
    let regions = parse_sf_root(tokens, &String::from(""));
    let samples = vec![
        ("a.wav".to_string(), constant_sample(1000, 64)),
        ("b.wav".to_string(), constant_sample(2000, 64)),
    ];
    let sf = SampleSoundfont::new(regions, &samples, stream()).unwrap();
    // In the overlap the later (second) region owns the cell.
    let overlap = sf.spawner_params_list[key_vel_to_index(60, 55)].as_ref().unwrap();
    let outside = sf.spawner_params_list[key_vel_to_index(60, 30)].as_ref().unwrap();
    assert_eq!(overlap.sample.channels[0][0], 2000);
    assert_eq!(outside.sample.channels[0][0], 1000);
}

#[test]
fn loader_rejects_empty_region_lists() {
    let samples = Vec::new();
    match SampleSoundfont::new(Vec::new(), &samples, stream()) {
        Err(err) => assert_eq!(err, LoadSfzError::NoRegionsFound),
        Ok(_) => panic!("empty region list must be rejected"),
    }
}

#[test]
fn loader_rejects_missing_samples() {
    let tokens = region_tokens(60, 1, 127, "missing.wav");
    let regions = parse_sf_root(tokens, &String::from(""));
    let samples = vec![("other.wav".to_string(), constant_sample(1000, 64))];
    match SampleSoundfont::new(regions, &samples, stream()) {
        Err(err) => assert_eq!(err, LoadSfzError::AudioLoadError("missing.wav".to_string())),
        Ok(_) => panic!("missing sample must be rejected"),
    }
}

#[test]
fn attack_spawners_carry_the_velocity_amp() {
    let tokens = region_tokens(60, 1, 127, "a.wav");
    let regions = parse_sf_root(tokens, &String::from(""));
    let samples = vec![("a.wav".to_string(), constant_sample(1000, 64))];
    let sf = SampleSoundfont::new(regions, &samples, stream()).unwrap();

    let full = sf.get_attack_voice_spawners_at(0, 0, 60, 127);
    assert_eq!(full.len(), 1);
    assert_eq!(full[0].amp, 32768);
    assert_eq!(full[0].vel, 127);

    let soft = sf.get_attack_voice_spawners_at(3, 9, 60, 40);
    assert_eq!(soft.len(), 1);
    assert!(soft[0].amp < 4096);

    let miss = sf.get_attack_voice_spawners_at(0, 0, 61, 40);
    assert!(miss.is_empty());

    let release = sf.get_release_voice_spawners_at(0, 0, 60, 40);
    assert!(release.is_empty());
}

#[test]
fn unique_sample_paths_deduplicates() {
    let mut tokens = region_tokens(60, 0, 10, "a.wav");
    tokens.extend(region_tokens(61, 0, 10, "b.wav"));
    tokens.extend(region_tokens(62, 0, 10, "a.wav"));
    let regions = parse_sf_root(tokens, &String::from(""));
    let paths = xsynth::soundfont::unique_sample_paths(&regions);
    assert_eq!(paths, vec!["a.wav".to_string(), "b.wav".to_string()]);
}

#[test]
fn envelope_descriptor_formulas_are_exact() {
    let tokens = region_tokens(60, 1, 127, "a.wav");
    let mut regions = parse_sf_root(tokens, &String::from(""));
    regions[0].ampeg_envelope = AmpegEnvelopeParams {
        ampeg_start: 0,
        ampeg_delay: 0,
        ampeg_attack: 250_000,
        ampeg_hold: 0,
        ampeg_decay: 0,
        ampeg_sustain: 50_000,
        ampeg_release: 100_000,
    };
    let d = envelope_descriptor_from_region_params(&regions[0]);
    // Half of one hundred percent is exactly half of the Q15 unit.
    assert_eq!(d.sustain_value, 16384);
    // The release time is quartered (above its one millisecond floor).
    assert_eq!(d.release_micros, 25_000);
    // A release below four milliseconds floors at one millisecond.
    regions[0].ampeg_envelope.ampeg_release = 2_000;
    let d2 = envelope_descriptor_from_region_params(&regions[0]);
    assert_eq!(d2.release_micros, 1_000);
    assert_eq!(d2.attack_micros, 250_000);
}

#[test]
fn highest_cell_is_reachable() {
    let tokens = region_tokens(127, 127, 127, "a.wav");
    let regions = parse_sf_root(tokens, &String::from(""));
    let samples = vec![("a.wav".to_string(), constant_sample(1000, 64))];
    let sf = SampleSoundfont::new(regions, &samples, stream()).unwrap();
    assert_eq!(key_vel_to_index(127, 127), 16383);
    assert!(sf.spawner_params_list[16383].is_some());
    assert!(sf.spawner_params_list[key_vel_to_index(127, 126)].is_none());
}

#[test]
fn later_opcodes_override_earlier_ones() {
    let tokens = vec![
        SfzToken::Group(SfzGroupType::Region),
        SfzToken::RegionFlag(SfzRegionFlags::Key(60)),
        SfzToken::RegionFlag(SfzRegionFlags::Key(62)),
        SfzToken::RegionFlag(SfzRegionFlags::Lovel(10)),
        SfzToken::RegionFlag(SfzRegionFlags::Lovel(20)),
        SfzToken::RegionFlag(SfzRegionFlags::Sample("a.wav".to_string())),
    ];
    let regions = parse_sf_root(tokens, &String::from(""));
    assert_eq!(regions.len(), 1);
    assert_eq!(regions[0].key, 62);
    assert_eq!(regions[0].lovel, 20);
}

#[test]
fn region_without_key_is_dropped() {
    let tokens = vec![
        SfzToken::Group(SfzGroupType::Region),
        SfzToken::RegionFlag(SfzRegionFlags::Sample("a.wav".to_string())),
    ];
    let regions = parse_sf_root(tokens, &String::from(""));
    assert!(regions.is_empty());
}

#[test]
fn master_scope_opcodes_reach_nested_regions() {
    let tokens = vec![
        SfzToken::Group(SfzGroupType::Master),
        SfzToken::RegionFlag(SfzRegionFlags::Lovel(5)),
        SfzToken::Group(SfzGroupType::Group),
        SfzToken::RegionFlag(SfzRegionFlags::Hivel(99)),
        SfzToken::Group(SfzGroupType::Region),
        SfzToken::RegionFlag(SfzRegionFlags::Key(61)),
        SfzToken::RegionFlag(SfzRegionFlags::Sample("a.wav".to_string())),
        SfzToken::Group(SfzGroupType::Region),
        SfzToken::RegionFlag(SfzRegionFlags::Key(62)),
        SfzToken::RegionFlag(SfzRegionFlags::Sample("b.wav".to_string())),
    ];
    let regions = parse_sf_root(tokens, &String::from(""));
    assert_eq!(regions.len(), 2);
    // Both regions inherit the master and group scopes; the second region's
    // builder restarts from the group scope, not from the first region.
    assert_eq!((regions[0].lovel, regions[0].hivel, regions[0].key), (5, 99, 61));
    assert_eq!((regions[1].lovel, regions[1].hivel, regions[1].key), (5, 99, 62));
}

#[test]
fn unknown_headers_suspend_opcode_collection() {
    let tokens = vec![
        SfzToken::Group(SfzGroupType::Region),
        SfzToken::RegionFlag(SfzRegionFlags::Key(60)),
        SfzToken::RegionFlag(SfzRegionFlags::Sample("a.wav".to_string())),
        SfzToken::Group(SfzGroupType::Other),
        SfzToken::RegionFlag(SfzRegionFlags::Key(70)),
    ];
    let regions = parse_sf_root(tokens, &String::from(""));
    // Leaving the region group emits it; the stray opcode after the unknown
    // header lands nowhere.
    assert_eq!(regions.len(), 1);
    assert_eq!(regions[0].key, 60);
}
