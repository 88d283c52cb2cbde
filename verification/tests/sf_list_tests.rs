use xsynth::config::{KDMAPISettings, SoundfontInitOptions, XSynthRealtimeConfig};
use xsynth::sf_list::{enabled_sfz_paths, parse_sf_list, SFRegion};

fn chars(s: &str) -> Vec<char> {
    s.chars().collect()
}

fn text(s: &str) -> String {
    s.to_string()
}

fn paths_of(regions: &Vec<SFRegion>) -> Vec<String> {
    regions.iter().map(|r| r.path.iter().collect()).collect()
}

#[test]
fn sf_list_parses_a_single_region() {
    let input = chars("sf.start\nsf.path = C:/fonts/piano.sfz\nsf.enabled = 1\nsf.end\n");
    let regions = parse_sf_list(&input);
    assert_eq!(regions.len(), 1);
    assert_eq!(paths_of(&regions), vec![text("C:/fonts/piano.sfz")]);
    assert!(regions[0].enabled);
}

#[test]
fn sf_list_parses_disabled_regions() {
    let input = chars("sf.start\nsf.path = a.sfz\nsf.enabled = 0\nsf.end\n");
    let regions = parse_sf_list(&input);
    assert_eq!(regions.len(), 1);
    assert!(!regions[0].enabled);
}

#[test]
fn sf_list_without_end_emits_nothing() {
    let input = chars("sf.start\nsf.path = a.sfz\nsf.enabled = 1\n");
    let regions = parse_sf_list(&input);
    assert!(regions.is_empty());
}

#[test]
fn sf_list_start_resets_the_region() {
    let input = chars(
        "sf.start\nsf.path = a.sfz\nsf.enabled = 1\nsf.start\nsf.path = b.sfz\nsf.end\n",
    );
    let regions = parse_sf_list(&input);
    assert_eq!(regions.len(), 1);
    assert_eq!(paths_of(&regions), vec![text("b.sfz")]);
    assert!(!regions[0].enabled, "sf.start cleared the enabled flag");
}

#[test]
fn sf_list_parses_several_regions() {
    let input = chars(
        "sf.start\nsf.path = a.sfz\nsf.enabled = 1\nsf.end\n\
         sf.start\nsf.path = b.wav\nsf.enabled = 1\nsf.end\n\
         sf.start\nsf.path = c.sfz\nsf.enabled = 0\nsf.end\n",
    );
    let regions = parse_sf_list(&input);
    assert_eq!(regions.len(), 3);
    let enabled = enabled_sfz_paths(&regions);
    let as_strings: Vec<String> = enabled.iter().map(|p| p.iter().collect()).collect();
    assert_eq!(as_strings, vec![text("a.sfz")]);
}

#[test]
fn sf_list_ignores_unknown_directives() {
    let input = chars("sf.bogus\nsf.start\nsf.path = a.sfz\nsf.enabled = 1\nsf.end\n");
    let regions = parse_sf_list(&input);
    assert_eq!(regions.len(), 1);
    assert_eq!(paths_of(&regions), vec![text("a.sfz")]);
}

#[test]
fn realtime_config_defaults() {
    let c = XSynthRealtimeConfig::default();
    assert_eq!(c.render_window_ms, 10);
    assert_eq!(c.channel_count, 16);
    assert_eq!(c.drums_channels, vec![9]);
    assert!(!c.use_threadpool);
    assert_eq!((c.ignore_range_lo, c.ignore_range_hi), (0, 0));
}

#[test]
fn kdmapi_settings_defaults() {
    let s = KDMAPISettings::default();
    assert_eq!(s.sfz_path, "");
    assert_eq!(s.buffer_ms, 10);
    assert!(s.limit_layers);
    assert_eq!(s.layer_count, 4);
    assert!(!s.fade_out_kill);
    assert_eq!(s.layer_limit(), Some(4));
    let unlimited = KDMAPISettings { limit_layers: false, ..s };
    assert_eq!(unlimited.layer_limit(), None);
}

#[test]
fn soundfont_init_defaults() {
    let s = SoundfontInitOptions::default();
    assert!(!s.linear_release);
    assert!(s.use_effects);
}
