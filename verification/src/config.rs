use crate::channel::ChannelInitOptions;
use vstd::prelude::*;

verus! {

/// Options fixed when a soundfont is loaded.
#[derive(Clone, Copy, PartialEq, Eq, Structural, Debug)]
pub struct SoundfontInitOptions {
    pub linear_release: bool,
    pub use_effects: bool,
}

impl Default for SoundfontInitOptions {
    fn default() -> (d: Self)
        ensures
            d.linear_release == false,
            d.use_effects == true,
    {
        SoundfontInitOptions { linear_release: false, use_effects: true }
    }
}

/// Options for initializing a realtime synthesizer: the channel layout and
/// the length of the render window.
#[derive(Clone, PartialEq, Eq, Debug)]
pub struct XSynthRealtimeConfig {
    /// Channel initialization options (same for all channels).
    pub channel_init_options: ChannelInitOptions,
    /// The length of the buffer reader, in milliseconds.
    pub render_window_ms: u64,
    /// Number of MIDI channels to create.
    pub channel_count: u32,
    /// Which of the created channels (by index) play drums.
    pub drums_channels: Vec<u32>,
    /// Whether to render voices on a worker pool.
    pub use_threadpool: bool,
    /// Velocities in this inclusive range are not played.
    pub ignore_range_lo: u8,
    pub ignore_range_hi: u8,
}

impl Default for XSynthRealtimeConfig {
    fn default() -> (d: Self)
        ensures
            d.channel_init_options == (ChannelInitOptions { fade_out_killing: false }),
            d.render_window_ms == 10,
            d.channel_count == 16,
            d.drums_channels@.len() == 1 && d.drums_channels@[0] == 9,
            d.use_threadpool == false,
            d.ignore_range_lo == 0,
            d.ignore_range_hi == 0,
    {
        let mut drums: Vec<u32> = Vec::new();
        drums.push(9);
        XSynthRealtimeConfig {
            channel_init_options: ChannelInitOptions { fade_out_killing: false },
            render_window_ms: 10,
            channel_count: 16,
            drums_channels: drums,
            use_threadpool: false,
            ignore_range_lo: 0,
            ignore_range_hi: 0,
        }
    }
}

/// Supported offline render output formats.
#[derive(PartialEq, Eq, Structural, Clone, Copy, Debug)]
pub enum XSynthRenderAudioFormat {
    Wav,
}

/// Options for an offline render run.
#[derive(Clone, PartialEq, Eq, Debug)]
pub struct XSynthRenderConfig {
    /// Channel initialization options (same for all channels).
    pub channel_init_options: ChannelInitOptions,
    /// The stream rate to render at, in Hz.
    pub sample_rate: u32,
    /// Limit the rendered audio to 0 dB to prevent clipping.
    pub use_limiter: bool,
    /// Audio output format.
    pub audio_format: XSynthRenderAudioFormat,
}

/// The host driver's persisted settings.
#[derive(Clone, PartialEq, Eq, Debug)]
pub struct KDMAPISettings {
    pub sfz_path: String,
    pub buffer_ms: u64,
    pub use_threadpool: bool,
    pub limit_layers: bool,
    pub layer_count: usize,
    pub fade_out_kill: bool,
    pub linear_envelope: bool,
    pub use_effects: bool,
    pub vel_ignore_lo: u8,
    pub vel_ignore_hi: u8,
}

impl Default for KDMAPISettings {
    /// The defaults mirror the realtime, channel and soundfont defaults:
    /// a ten-millisecond window, four layers with limiting on, no fade-out
    /// kill, and no ignored velocities.
    fn default() -> (d: Self)
        ensures
            d.sfz_path@.len() == 0,
            d.buffer_ms == 10,
            d.use_threadpool == false,
            d.limit_layers == true,
            d.layer_count == 4,
            d.fade_out_kill == false,
            d.linear_envelope == false,
            d.use_effects == true,
            d.vel_ignore_lo == 0,
            d.vel_ignore_hi == 0,
    {
        let rt = XSynthRealtimeConfig::default();
        let ch = ChannelInitOptions::default();
        let sf = SoundfontInitOptions::default();
        KDMAPISettings {
            sfz_path: String::new(),
            buffer_ms: rt.render_window_ms,
            use_threadpool: rt.use_threadpool,
            limit_layers: true,
            layer_count: 4,
            fade_out_kill: ch.fade_out_killing,
            linear_envelope: sf.linear_release,
            use_effects: sf.use_effects,
            vel_ignore_lo: 0,
            vel_ignore_hi: 0,
        }
    }
}

impl KDMAPISettings {
    /// The voice limit the settings ask for: the layer count when limiting
    /// is on, otherwise none.
    pub fn layer_limit(&self) -> (r: Option<usize>)
        ensures
            self.limit_layers ==> r == Some(self.layer_count),
            !self.limit_layers ==> r is None,
    {
        if self.limit_layers {
            Some(self.layer_count)
        } else {
            None
        }
    }
}

} // verus!
