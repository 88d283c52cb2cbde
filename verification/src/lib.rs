pub mod amp;
pub mod channel;
pub mod channel_sf;
pub mod config;
pub mod envelope;
pub mod intdiv;
pub mod pitch;
pub mod sample;
pub mod sampler;
pub mod sf_list;
pub mod sfz;
pub mod soundfont;
pub mod voice;

use vstd::prelude::*;

verus! {

/// Fixed stream parameters of the rendering engine: sample rate in Hz and
/// the number of output channels.
#[derive(Clone, Copy, PartialEq, Eq, Structural, Debug)]
pub struct AudioStreamParams {
    pub sample_rate: u32,
    pub channels: ChannelCount,
}

/// Number of audio output channels the engine renders.
#[derive(Clone, Copy, PartialEq, Eq, Structural, Debug)]
pub enum ChannelCount {
    Mono,
    Stereo,
}

impl AudioStreamParams {
    pub fn new(sample_rate: u32, channels: ChannelCount) -> (r: AudioStreamParams)
        ensures
            r.sample_rate == sample_rate,
            r.channels == channels,
    {
        AudioStreamParams { sample_rate, channels }
    }
}

/// Flattened index of a (key, velocity) cell in the dense 128 x 128
/// spawner tables: one row per MIDI key, one column per velocity.
pub fn key_vel_to_index(key: u8, vel: u8) -> (idx: usize)
    ensures
        idx == key * 128 + vel,
        key < 128 && vel < 128 ==> idx < 16384,
{
    (key as usize) * 128 + (vel as usize)
}

} // verus!
