use crate::amp::{amp_from_velocity, amp_spec};
use crate::envelope::{
    compile_envelope_spec, descriptor_wf, env_normalize_spec, params_wf, EnvelopeDescriptor,
    EnvelopeParameters, EnvelopeStage, VoiceEnvelope, ENV_MICROS_MAX,
};
use crate::envelope::micros_to_samples;
use crate::envelope::micros_to_samples_spec;
use crate::key_vel_to_index;
use crate::pitch::{get_speed_mult_from_keys, key_ratio_spec, SPEED_MULT_MAX};
use crate::sample::{arc_share, sample_data_wf, BufferSamplers, SampleData};
use crate::sampler::{
    is_looping, loop_params_wf, LoopMode, LoopParams, SampleGrabbers, SampleReader,
    StereoVoiceSampler,
};
use crate::sfz::{AmpegEnvelopeParams, RegionParams};
use crate::voice::{
    control_wf, cutoff_alpha, cutoff_alpha_spec, gen_wf, pitch_apply_spec, voice_wf,
    SampledVoiceGen, VoiceBase, VoiceControlData, VoiceCutoff, VoicePitchGen,
};
use crate::{AudioStreamParams, ChannelCount};
use std::sync::Arc;
use vstd::prelude::*;

verus! {

/// Why loading a soundfont failed; the host maps its own I/O and decode
/// failures into the first two.
#[derive(Clone, PartialEq, Eq, Debug)]
pub enum LoadSfzError {
    IOError(String),
    AudioLoadError(String),
    NoRegionsFound,
}

/// One decoded sample file as the host hands it over: the shared PCM data
/// plus the loop points found in the file, if any.
pub struct LoadedSample {
    pub data: Arc<SampleData>,
    pub loop_start: u32,
    pub loop_end: u32,
    pub looped: bool,
}

pub open spec fn loaded_sample_wf(ls: &LoadedSample) -> bool {
    sample_data_wf(&*ls.data)
}

/// Envelope levels arrive from the SFZ text in thousandths of a percent;
/// this is the Q15 level they stand for, saturating at one.
pub open spec fn percent_milli_to_q15_spec(m: int) -> int {
    if m >= 100_000 {
        32768
    } else {
        m * 32768 / 100_000
    }
}

fn percent_milli_to_q15(m: u32) -> (q: u32)
    ensures
        q == percent_milli_to_q15_spec(m as int),
        q <= 32768,
{
    if m >= 100_000 {
        32768
    } else {
        proof {
            crate::intdiv::lemma_scale_le(32768, m as int, 100_000);
            assert((m as int) * 32768 == 32768 * (m as int)) by (nonlinear_arith);
        }
        (((m as u64) * 32768) / 100_000) as u32
    }
}

pub open spec fn clamp_micros_spec(x: int) -> int {
    if x > ENV_MICROS_MAX {
        ENV_MICROS_MAX as int
    } else {
        x
    }
}

fn clamp_micros(x: u64) -> (r: u64)
    ensures
        r == clamp_micros_spec(x as int),
        r <= ENV_MICROS_MAX,
{
    if x > ENV_MICROS_MAX {
        ENV_MICROS_MAX
    } else {
        x
    }
}

/// The envelope descriptor a region's opcodes stand for: levels become Q15
/// fractions, and the release time is quartered but floored at one
/// millisecond.
pub open spec fn descriptor_of_region_spec(env: AmpegEnvelopeParams) -> EnvelopeDescriptor {
    EnvelopeDescriptor {
        start_value: percent_milli_to_q15_spec(env.ampeg_start as int) as u32,
        delay_micros: clamp_micros_spec(env.ampeg_delay as int) as u64,
        attack_micros: clamp_micros_spec(env.ampeg_attack as int) as u64,
        hold_micros: clamp_micros_spec(env.ampeg_hold as int) as u64,
        decay_micros: clamp_micros_spec(env.ampeg_decay as int) as u64,
        sustain_value: percent_milli_to_q15_spec(env.ampeg_sustain as int) as u32,
        release_micros: if clamp_micros_spec(env.ampeg_release as int) / 4 > 1000 {
            (clamp_micros_spec(env.ampeg_release as int) / 4) as u64
        } else {
            1000
        },
    }
}

pub fn envelope_descriptor_from_region_params(region: &RegionParams) -> (d: EnvelopeDescriptor)
    ensures
        d == descriptor_of_region_spec(region.ampeg_envelope),
        descriptor_wf(d),
{
    let env = &region.ampeg_envelope;
    let release_q = clamp_micros(env.ampeg_release) / 4;
    EnvelopeDescriptor {
        start_value: percent_milli_to_q15(env.ampeg_start),
        delay_micros: clamp_micros(env.ampeg_delay),
        attack_micros: clamp_micros(env.ampeg_attack),
        hold_micros: clamp_micros(env.ampeg_hold),
        decay_micros: clamp_micros(env.ampeg_decay),
        sustain_value: percent_milli_to_q15(env.ampeg_sustain),
        release_micros: if release_q > 1000 {
            release_q
        } else {
            1000
        },
    }
}

/// The compiled, shareable template of one region: everything a voice needs
/// at note-on, bound to the decoded sample.
pub struct SampleVoiceSpawnerParams {
    pub speed_mult: u64,
    pub cutoff: Option<u32>,
    pub envelope: EnvelopeParameters,
    pub sample: Arc<SampleData>,
    pub loop_params: LoopParams,
}

pub open spec fn spawner_params_wf(p: &SampleVoiceSpawnerParams) -> bool {
    &&& 1 <= p.speed_mult <= SPEED_MULT_MAX
    &&& params_wf(p.envelope)
    &&& sample_data_wf(&*p.sample)
    &&& loop_params_wf(p.loop_params, p.sample.channels@[0]@.len() as int)
}

/// The loop region a voice will use: the region's loop mode when the sample
/// file carries valid loop points, plain playback otherwise.
pub open spec fn loop_params_of_spec(mode: LoopMode, ls: &LoadedSample) -> LoopParams {
    if is_looping(mode) && ls.looped && ls.loop_start < ls.loop_end && ls.loop_end
        <= ls.data.channels@[0]@.len() {
        LoopParams { offset: 0, start: ls.loop_start, end: ls.loop_end, mode }
    } else {
        LoopParams { offset: 0, start: 0, end: 0, mode: LoopMode::NoLoop }
    }
}

/// The key the region's pitch is centred on: the explicit keycenter when
/// given (clamped into MIDI range), else the region's own key.
pub open spec fn base_key_of_spec(region: RegionParams) -> u8 {
    match region.pitch_keycenter {
        Some(c) => if c > 127 {
            127u8
        } else {
            c
        },
        None => region.key,
    }
}

/// Whether a region maps the given key/velocity cell.
pub open spec fn region_covers_spec(region: RegionParams, key: int, vel: int) -> bool {
    &&& region.key == key
    &&& region.lovel <= vel <= region.hivel
}

/// Index of the first sample in the association list under a path.
pub open spec fn find_sample_spec(
    samples: Seq<(String, LoadedSample)>,
    path: Seq<char>,
) -> Option<int>
    decreases samples.len(),
{
    if samples.len() == 0 {
        None
    } else if samples[0].0@ == path {
        Some(0int)
    } else {
        match find_sample_spec(samples.subrange(1, samples.len() as int), path) {
            Some(i) => Some(i + 1),
            None => None,
        }
    }
}

fn find_sample(samples: &Vec<(String, LoadedSample)>, path: &String) -> (r: Option<usize>)
    ensures
        r matches Some(i) ==> {
            &&& find_sample_spec(samples@, path@) == Some(i as int)
            &&& i < samples@.len()
            &&& samples@[i as int].0@ == path@
        },
        r is None ==> find_sample_spec(samples@, path@) is None,
{
    let mut i: usize = 0;
    proof {
        assert(samples@.subrange(0, samples@.len() as int) =~= samples@);
    }
    while i < samples.len()
        invariant
            i <= samples@.len(),
            find_sample_spec(samples@.subrange(i as int, samples@.len() as int), path@)
                matches Some(k) ==> find_sample_spec(samples@, path@) == Some(k + i),
            find_sample_spec(samples@.subrange(i as int, samples@.len() as int), path@) is None
                ==> find_sample_spec(samples@, path@) is None,
        decreases samples@.len() - i,
    {
        let ghost sub = samples@.subrange(i as int, samples@.len() as int);
        proof {
            assert(sub[0] == samples@[i as int]);
            assert(sub.subrange(1, sub.len() as int) =~= samples@.subrange(
                i + 1,
                samples@.len() as int,
            ));
        }
        if samples[i].0.eq(path) {
            return Some(i);
        }
        i = i + 1;
    }
    proof {
        assert(samples@.subrange(i as int, samples@.len() as int).len() == 0);
    }
    None
}

/// Whether a path occurs in a list of paths.
pub open spec fn contains_path(v: Seq<String>, p: Seq<char>) -> bool {
    exists|i: int| 0 <= i < v.len() && (#[trigger] v[i])@ == p
}

/// Whether a path is the sample path of some region.
pub open spec fn is_region_path(regions: Seq<RegionParams>, p: Seq<char>) -> bool {
    exists|k: int| 0 <= k < regions.len() && (#[trigger] regions[k]).sample_path@ == p
}

/// The distinct sample paths a region list refers to, each exactly once,
/// in order of first appearance: the set of files the host must decode.
pub fn unique_sample_paths(regions: &Vec<RegionParams>) -> (r: Vec<String>)
    ensures
        forall|i: int, j: int| 0 <= i < j < r@.len() ==> (#[trigger] r@[i])@ != (#[trigger] r@[j])@,
        forall|i: int| 0 <= i < r@.len() ==> is_region_path(regions@, (#[trigger] r@[i])@),
        forall|k: int|
            0 <= k < regions@.len() ==> contains_path(r@, (#[trigger] regions@[k]).sample_path@),
{
    let mut out: Vec<String> = Vec::new();
    let mut k: usize = 0;
    while k < regions.len()
        invariant
            k <= regions@.len(),
            forall|i: int, j: int|
                0 <= i < j < out@.len() ==> (#[trigger] out@[i])@ != (#[trigger] out@[j])@,
            forall|i: int| 0 <= i < out@.len() ==> is_region_path(regions@, (#[trigger] out@[i])@),
            forall|k2: int|
                0 <= k2 < k ==> contains_path(out@, (#[trigger] regions@[k2]).sample_path@),
        decreases regions@.len() - k,
    {
        let path = &regions[k].sample_path;
        let mut seen = false;
        let mut i: usize = 0;
        while i < out.len()
            invariant
                i <= out@.len(),
                path@ == regions@[k as int].sample_path@,
                seen ==> contains_path(out@, path@),
                !seen ==> forall|j: int| 0 <= j < i ==> (#[trigger] out@[j])@ != path@,
            decreases out@.len() - i,
        {
            if out[i].eq(path) {
                seen = true;
            }
            i = i + 1;
        }
        let ghost pre = out@;
        let ghost pview = path@;
        if !seen {
            out.push(path.clone());
        }
        proof {
            if !seen {
                assert((out@[pre.len() as int])@ == regions@[k as int].sample_path@);
                assert(is_region_path(regions@, (out@[pre.len() as int])@));
                assert(contains_path(out@, regions@[k as int].sample_path@));
            }
            assert forall|i: int| 0 <= i < out@.len() implies is_region_path(
                regions@,
                (#[trigger] out@[i])@,
            ) by {
                if i < pre.len() {
                    assert(out@[i] == pre[i]);
                    assert(is_region_path(regions@, (pre[i])@));
                }
            }
            assert forall|k2: int| 0 <= k2 < k + 1 implies contains_path(
                out@,
                (#[trigger] regions@[k2]).sample_path@,
            ) by {
                if k2 < k {
                    assert(contains_path(pre, regions@[k2].sample_path@));
                    let iw = choose|i: int|
                        0 <= i < pre.len() && (#[trigger] pre[i])@ == regions@[k2].sample_path@;
                    assert(out@[iw] == pre[iw]);
                    assert((out@[iw])@ == regions@[k2].sample_path@);
                } else {
                    if seen {
                        let iw = choose|i: int| 0 <= i < pre.len() && (#[trigger] pre[i])@ == pview;
                        assert(out@[iw] == pre[iw]);
                        assert((out@[iw])@ == regions@[k2].sample_path@);
                    } else {
                        assert((out@[pre.len() as int])@ == regions@[k2].sample_path@);
                    }
                }
            }
        }
        k = k + 1;
    }
    out
}

/// The template the loader compiles for one region bound to its decoded
/// sample.
pub open spec fn spawner_params_of_spec(
    region: RegionParams,
    ls: &LoadedSample,
    sample_rate: int,
) -> SampleVoiceSpawnerParams {
    SampleVoiceSpawnerParams {
        speed_mult: key_ratio_spec(region.key - base_key_of_spec(region)) as u64,
        cutoff: region.cutoff,
        envelope: compile_envelope_spec(
            descriptor_of_region_spec(region.ampeg_envelope),
            sample_rate,
        ),
        sample: ls.data,
        loop_params: loop_params_of_spec(region.loop_mode, ls),
    }
}

/// The content of one (key, velocity) cell after all regions are written in
/// order: the last region covering the cell wins.
pub open spec fn cell_spec(
    regions: Seq<RegionParams>,
    samples: Seq<(String, LoadedSample)>,
    sample_rate: int,
    k: int,
    v: int,
) -> Option<SampleVoiceSpawnerParams>
    decreases regions.len(),
{
    if regions.len() == 0 {
        None
    } else {
        let last = regions[regions.len() - 1];
        if region_covers_spec(last, k, v) && find_sample_spec(samples, last.sample_path@) is Some {
            let i = find_sample_spec(samples, last.sample_path@)->0;
            Some(spawner_params_of_spec(last, &samples[i].1, sample_rate))
        } else {
            cell_spec(regions.subrange(0, regions.len() - 1), samples, sample_rate, k, v)
        }
    }
}

/// A cell is filled exactly when some region covers it: one direction of
/// the dense-table law, for region lists whose samples all decoded.
pub proof fn lemma_cell_some_iff_covered(
    regions: Seq<RegionParams>,
    samples: Seq<(String, LoadedSample)>,
    sample_rate: int,
    k: int,
    v: int,
)
    requires
        forall|i: int|
            0 <= i < regions.len() ==> find_sample_spec(
                samples,
                (#[trigger] regions[i]).sample_path@,
            ) is Some,
    ensures
        cell_spec(regions, samples, sample_rate, k, v) is Some <==> exists|i: int|
            0 <= i < regions.len() && region_covers_spec(#[trigger] regions[i], k, v),
    decreases regions.len(),
{
    if regions.len() > 0 {
        let pre = regions.subrange(0, regions.len() - 1);
        assert(forall|i: int|
            0 <= i < pre.len() ==> find_sample_spec(
                samples,
                (#[trigger] pre[i]).sample_path@,
            ) is Some) by {
            assert(forall|i: int| 0 <= i < pre.len() ==> pre[i] == regions[i]);
        };
        lemma_cell_some_iff_covered(pre, samples, sample_rate, k, v);
        let last = regions[regions.len() - 1];
        if region_covers_spec(last, k, v) {
        } else {
            assert(forall|i: int|
                0 <= i < pre.len() ==> pre[i] == regions[i]);
            if exists|i: int|
                0 <= i < regions.len() && region_covers_spec(#[trigger] regions[i], k, v) {
                let i = choose|i: int|
                    0 <= i < regions.len() && region_covers_spec(#[trigger] regions[i], k, v);
                assert(i < regions.len() - 1);
                assert(region_covers_spec(pre[i], k, v));
            }
        }
    }
}

/// A whole SFZ instrument compiled to a dense 128 x 128 table of shared
/// voice templates.
pub struct SampleSoundfont {
    pub spawner_params_list: Vec<Option<Arc<SampleVoiceSpawnerParams>>>,
    pub stream_params: AudioStreamParams,
}

pub open spec fn soundfont_wf(sf: &SampleSoundfont) -> bool {
    &&& sf.spawner_params_list@.len() == 16384
    &&& forall|i: int|
        0 <= i < 16384 ==> ((#[trigger] sf.spawner_params_list@[i]) matches Some(p)
            ==> spawner_params_wf(&*p))
    &&& sf.stream_params.sample_rate >= 1
    &&& sf.stream_params.channels == ChannelCount::Stereo
}

/// Whether a cell table agrees with the last-writer rule for a region
/// prefix.
pub open spec fn cell_matches(
    list: Seq<Option<Arc<SampleVoiceSpawnerParams>>>,
    regions: Seq<RegionParams>,
    samples: Seq<(String, LoadedSample)>,
    sample_rate: int,
    k: int,
    v: int,
) -> bool {
    &&& (list[k * 128 + v] is Some <==> cell_spec(regions, samples, sample_rate, k, v) is Some)
    &&& (list[k * 128 + v] matches Some(arc) ==> cell_spec(regions, samples, sample_rate, k, v)
        == Some(*arc))
}

/// One spawner bound to a cell's template for a concrete note-on velocity.
pub struct SampledVoiceSpawner {
    pub params: Arc<SampleVoiceSpawnerParams>,
    pub vel: u8,
    pub amp: u32,
    pub stream_params: AudioStreamParams,
}

pub open spec fn spawner_wf(s: &SampledVoiceSpawner) -> bool {
    &&& spawner_params_wf(&*s.params)
    &&& s.amp <= 32768
    &&& s.stream_params.sample_rate >= 1
}

/// The spawner a soundfont hands out for a cell at a velocity: the shared
/// template, with the velocity amplitude law baked in.
pub open spec fn spawner_of_spec(
    params: Arc<SampleVoiceSpawnerParams>,
    vel: u8,
    stream_params: AudioStreamParams,
) -> SampledVoiceSpawner {
    SampledVoiceSpawner { params, vel, amp: amp_spec(vel as int) as u32, stream_params }
}

/// A factory that turns its bound template into a fresh voice at note-on.
pub trait VoiceSpawner: Sized {
    spec fn inv(&self) -> bool;

    fn spawn_voice(&self, control: &VoiceControlData) -> (v: VoiceBase)
        requires
            self.inv(),
            control_wf(*control),
        ensures
            voice_wf(&v),
            !v.releasing,
    ;
}

/// The kill-fade length for a stream rate: one millisecond, but at least
/// one sample.
pub open spec fn kill_fade_spec(sample_rate: int) -> int {
    if sample_rate / 1000 >= 1 {
        sample_rate / 1000
    } else {
        1
    }
}

/// The envelope parameters after the per-channel overrides are applied:
/// the attack and release lengths may be rewritten before the voice starts.
pub open spec fn override_env_spec(
    env: EnvelopeParameters,
    control: VoiceControlData,
    sample_rate: int,
) -> EnvelopeParameters {
    let e1 = match control.attack_micros {
        Some(a) => EnvelopeParameters {
            attack_samples: micros_to_samples_spec(a as int, sample_rate) as u64,
            ..env
        },
        None => env,
    };
    match control.release_micros {
        Some(r) => EnvelopeParameters {
            release_samples: micros_to_samples_spec(r as int, sample_rate) as u64,
            ..e1
        },
        None => e1,
    }
}

/// The exact voice a spawner produces for a control snapshot.
pub open spec fn spawned_voice_spec(s: SampledVoiceSpawner, control: VoiceControlData) -> VoiceBase {
    let p = *s.params;
    let rate = s.stream_params.sample_rate as int;
    let reader_l = SampleReader {
        buffer: BufferSamplers::Pcm(
            crate::sample::PcmBufferSampler { data: p.sample.channels@[0] },
        ),
        loop_params: p.loop_params,
    };
    let reader_r = SampleReader {
        buffer: BufferSamplers::Pcm(
            crate::sample::PcmBufferSampler { data: p.sample.channels@[1] },
        ),
        loop_params: p.loop_params,
    };
    VoiceBase {
        gen: SampledVoiceGen {
            pitch: VoicePitchGen {
                base: p.speed_mult,
                current: pitch_apply_spec(
                    p.speed_mult as int,
                    control.voice_pitch_multiplier as int,
                ) as u64,
            },
            sampler: StereoVoiceSampler {
                grabber_left: SampleGrabbers::Nearest(reader_l),
                grabber_right: SampleGrabbers::Nearest(reader_r),
                time: 0,
            },
            envelope: env_normalize_spec(
                VoiceEnvelope {
                    params: override_env_spec(p.envelope, control, rate),
                    stage: EnvelopeStage::Delay,
                    pos: 0,
                    release_from: 0,
                    kill_fade_samples: kill_fade_spec(rate) as u64,
                },
            ),
            amp: s.amp,
            cutoff: match p.cutoff {
                Some(hz) => Some(
                    VoiceCutoff {
                        alpha: cutoff_alpha_spec(hz as int, rate) as u32,
                        state_l: 0,
                        state_r: 0,
                    },
                ),
                None => None,
            },
        },
        releasing: false,
        vel: s.vel,
    }
}

impl SampledVoiceSpawner {
    pub fn new(
        params: &Arc<SampleVoiceSpawnerParams>,
        vel: u8,
        stream_params: AudioStreamParams,
    ) -> (s: SampledVoiceSpawner)
        requires
            spawner_params_wf(&**params),
            stream_params.sample_rate >= 1,
        ensures
            s == spawner_of_spec(*params, vel, stream_params),
            spawner_wf(&s),
    {
        let amp = amp_from_velocity(vel);
        proof {
            crate::amp::lemma_amp_bounds(vel as int);
        }
        SampledVoiceSpawner { params: arc_share(params), vel, amp, stream_params }
    }

    /// Build a fresh voice from the template, with the channel's envelope
    /// overrides and pitch multiplier applied.
    pub fn spawn(&self, control: &VoiceControlData) -> (v: VoiceBase)
        requires
            spawner_wf(self),
            control_wf(*control),
        ensures
            v == spawned_voice_spec(*self, *control),
            voice_wf(&v),
            !v.releasing,
            v.vel == self.vel,
    {
        let rate = self.stream_params.sample_rate;

        let mut env = self.params.envelope;
        match control.attack_micros {
            Some(a) => {
                env.attack_samples = micros_to_samples(a, rate);
            },
            None => {},
        }
        match control.release_micros {
            Some(r) => {
                env.release_samples = micros_to_samples(r, rate);
            },
            None => {},
        }
        let kill_fade = if rate / 1000 >= 1 {
            rate as u64 / 1000
        } else {
            1
        };
        let envelope = VoiceEnvelope::new(env, kill_fade);

        let reader_l = SampleReader::new(
            BufferSamplers::new_pcm(arc_share(&self.params.sample.channels[0])),
            self.params.loop_params,
        );
        let reader_r = SampleReader::new(
            BufferSamplers::new_pcm(arc_share(&self.params.sample.channels[1])),
            self.params.loop_params,
        );
        let sampler = StereoVoiceSampler::new(
            SampleGrabbers::nearest(reader_l),
            SampleGrabbers::nearest(reader_r),
        );

        let mut pitch = VoicePitchGen::new(self.params.speed_mult);
        pitch.process_controls(control);

        let cutoff = match self.params.cutoff {
            Some(hz) => Some(
                VoiceCutoff { alpha: cutoff_alpha(hz, rate), state_l: 0, state_r: 0 },
            ),
            None => None,
        };

        let gen = SampledVoiceGen { pitch, sampler, envelope, amp: self.amp, cutoff };
        VoiceBase::new(self.vel, gen)
    }
}

impl VoiceSpawner for SampledVoiceSpawner {
    open spec fn inv(&self) -> bool {
        spawner_wf(self)
    }

    fn spawn_voice(&self, control: &VoiceControlData) -> VoiceBase {
        self.spawn(control)
    }
}

/// The attack-spawner list a sample soundfont serves for a key/velocity
/// pair: one spawner when the cell is mapped, none otherwise.
pub open spec fn sample_attack_list_spec(sf: &SampleSoundfont, key: u8, vel: u8) -> Seq<
    SampledVoiceSpawner,
> {
    if key < 128 && vel < 128 {
        match sf.spawner_params_list@[key * 128 + vel] {
            Some(arc) => seq![spawner_of_spec(arc, vel, sf.stream_params)],
            None => Seq::empty(),
        }
    } else {
        Seq::empty()
    }
}

impl SampleSoundfont {
    /// Compile a parsed region list against the host-decoded samples.
    /// Fails when there are no regions at all, or when a region's sample is
    /// missing from the decoded set; a partially loaded soundfont is never
    /// returned.
    pub fn new(
        regions: Vec<RegionParams>,
        samples: &Vec<(String, LoadedSample)>,
        stream_params: AudioStreamParams,
    ) -> (r: Result<SampleSoundfont, LoadSfzError>)
        requires
            stream_params.channels == ChannelCount::Stereo,
            stream_params.sample_rate >= 1,
            forall|i: int|
                0 <= i < samples@.len() ==> loaded_sample_wf(&(#[trigger] samples@[i]).1),
        ensures
            match r {
                Ok(sf) => {
                    &&& soundfont_wf(&sf)
                    &&& sf.stream_params == stream_params
                    &&& regions@.len() > 0
                    &&& forall|i: int|
                        0 <= i < regions@.len() ==> find_sample_spec(
                            samples@,
                            (#[trigger] regions@[i]).sample_path@,
                        ) is Some
                    &&& forall|k: int, v: int|
                        0 <= k < 128 && 0 <= v < 128 ==> #[trigger] cell_matches(
                            sf.spawner_params_list@,
                            regions@,
                            samples@,
                            stream_params.sample_rate as int,
                            k,
                            v,
                        )
                },
                Err(LoadSfzError::NoRegionsFound) => regions@.len() == 0,
                Err(LoadSfzError::AudioLoadError(_)) => exists|i: int|
                    0 <= i < regions@.len() && find_sample_spec(
                        samples@,
                        (#[trigger] regions@[i]).sample_path@,
                    ) is None,
                Err(LoadSfzError::IOError(_)) => false,
            },
    {
        if regions.len() == 0 {
            return Err(LoadSfzError::NoRegionsFound);
        }

        // Every region must have its sample decoded.
        let mut ci: usize = 0;
        while ci < regions.len()
            invariant
                ci <= regions@.len(),
                forall|i: int|
                    0 <= i < ci ==> find_sample_spec(
                        samples@,
                        (#[trigger] regions@[i]).sample_path@,
                    ) is Some,
            decreases regions@.len() - ci,
        {
            if find_sample(samples, &regions[ci].sample_path).is_none() {
                return Err(LoadSfzError::AudioLoadError(regions[ci].sample_path.clone()));
            }
            ci = ci + 1;
        }

        let mut spawner_params_list: Vec<Option<Arc<SampleVoiceSpawnerParams>>> = Vec::new();
        let mut c: usize = 0;
        while c < 16384
            invariant
                c <= 16384,
                spawner_params_list@.len() == c,
                forall|i: int| 0 <= i < c ==> (#[trigger] spawner_params_list@[i]) is None,
            decreases 16384 - c,
        {
            spawner_params_list.push(None);
            c = c + 1;
        }

        proof {
            assert forall|k: int, v: int| 0 <= k < 128 && 0 <= v < 128 implies #[trigger] cell_matches(
                spawner_params_list@,
                regions@.subrange(0, 0),
                samples@,
                stream_params.sample_rate as int,
                k,
                v,
            ) by {
                assert(regions@.subrange(0, 0).len() == 0);
                assert(0 <= k * 128 + v < 16384);
            }
        }

        let mut ri: usize = 0;
        while ri < regions.len()
            invariant
                ri <= regions@.len(),
                spawner_params_list@.len() == 16384,
                stream_params.sample_rate >= 1,
                forall|i: int|
                    0 <= i < samples@.len() ==> loaded_sample_wf(&(#[trigger] samples@[i]).1),
                forall|i: int|
                    0 <= i < regions@.len() ==> find_sample_spec(
                        samples@,
                        (#[trigger] regions@[i]).sample_path@,
                    ) is Some,
                forall|i: int|
                    0 <= i < 16384 ==> ((#[trigger] spawner_params_list@[i]) matches Some(p)
                        ==> spawner_params_wf(&*p)),
                forall|k: int, v: int|
                    0 <= k < 128 && 0 <= v < 128 ==> #[trigger] cell_matches(
                        spawner_params_list@,
                        regions@.subrange(0, ri as int),
                        samples@,
                        stream_params.sample_rate as int,
                        k,
                        v,
                    ),
            decreases regions@.len() - ri,
        {
            let ghost prev_list = spawner_params_list@;
            let region = &regions[ri];

            if region.key < 128 {
                let si = match find_sample(samples, &region.sample_path) {
                    Some(si) => si,
                    None => {
                        proof {
                            assert(false);
                        }
                        0
                    },
                };
                let ls = &samples[si].1;

                let base_key = match region.pitch_keycenter {
                    Some(c) => if c > 127 {
                        127
                    } else {
                        c
                    },
                    None => region.key,
                };
                let speed_mult = get_speed_mult_from_keys(region.key, base_key);
                let descriptor = envelope_descriptor_from_region_params(region);
                let envelope = descriptor.to_envelope_params(stream_params.sample_rate);
                let data_len = ls.data.length();
                let loop_params = if matches!(
                    region.loop_mode,
                    LoopMode::LoopContinuous | LoopMode::LoopSustain,
                ) && ls.looped && ls.loop_start < ls.loop_end && (ls.loop_end as usize)
                    <= data_len {
                    LoopParams {
                        offset: 0,
                        start: ls.loop_start,
                        end: ls.loop_end,
                        mode: region.loop_mode,
                    }
                } else {
                    LoopParams { offset: 0, start: 0, end: 0, mode: LoopMode::NoLoop }
                };
                let params = Arc::new(
                    SampleVoiceSpawnerParams {
                        speed_mult,
                        cutoff: region.cutoff,
                        envelope,
                        sample: arc_share(&ls.data),
                        loop_params,
                    },
                );
                proof {
                    assert(*params == spawner_params_of_spec(
                        regions@[ri as int],
                        &samples@[si as int].1,
                        stream_params.sample_rate as int,
                    ));
                }

                let lovel = region.lovel;
                let hivel = if region.hivel > 127 {
                    127
                } else {
                    region.hivel
                };
                let key = region.key;
                let mut vel: u8 = lovel;
                while vel <= hivel
                    invariant
                        key < 128,
                        hivel < 128,
                        lovel <= vel,
                        vel <= hivel + 1 || vel == lovel,
                        spawner_params_list@.len() == 16384,
                        spawner_params_wf(&*params),
                        forall|i: int|
                            0 <= i < 16384 ==> ((#[trigger] spawner_params_list@[i])
                                matches Some(p) ==> spawner_params_wf(&*p)),
                        forall|i: int|
                            0 <= i < 16384 ==> if key * 128 + lovel <= i < key * 128 + vel {
                                &&& (#[trigger] spawner_params_list@[i]) matches Some(p)
                                &&& (spawner_params_list@[i] matches Some(p) ==> *p == *params)
                            } else {
                                spawner_params_list@[i] == prev_list[i]
                            },
                    decreases 128 - vel,
                {
                    let index = key_vel_to_index(key, vel);
                    spawner_params_list.set(index, Some(arc_share(&params)));
                    vel = vel + 1;
                }
                proof {
                    lemma_cells_after_region(
                        prev_list,
                        spawner_params_list@,
                        regions@,
                        ri as int,
                        samples@,
                        si as int,
                        stream_params.sample_rate as int,
                        &*params,
                        lovel as int,
                        hivel as int,
                        vel as int,
                    );
                }
            } else {
                proof {
                    lemma_cells_after_skipped_region(
                        spawner_params_list@,
                        regions@,
                        ri as int,
                        samples@,
                        stream_params.sample_rate as int,
                    );
                }
            }
            ri = ri + 1;
        }

        proof {
            assert(regions@.subrange(0, regions@.len() as int) =~= regions@);
        }

        Ok(SampleSoundfont { spawner_params_list, stream_params })
    }

    pub fn stream_params(&self) -> (p: AudioStreamParams)
        ensures
            p == self.stream_params,
    {
        self.stream_params
    }

    /// The attack spawners for a key/velocity pair; a sample soundfont is a
    /// single instrument and ignores the bank and preset.
    pub fn get_attack_voice_spawners_at(&self, _bank: u8, _preset: u8, key: u8, vel: u8) -> (r:
        Vec<SampledVoiceSpawner>)
        requires
            soundfont_wf(self),
        ensures
            r@ == sample_attack_list_spec(self, key, vel),
    {
        let mut out: Vec<SampledVoiceSpawner> = Vec::new();
        if key < 128 && vel < 128 {
            let index = key_vel_to_index(key, vel);
            match &self.spawner_params_list[index] {
                Some(params) => {
                    out.push(SampledVoiceSpawner::new(params, vel, self.stream_params));
                },
                None => {},
            }
        }
        proof {
            assert(out@ =~= sample_attack_list_spec(self, key, vel));
        }
        out
    }

    /// Release regions are not parsed; the release list is always empty.
    pub fn get_release_voice_spawners_at(&self, _bank: u8, _preset: u8, _key: u8, _vel: u8) -> (r:
        Vec<SampledVoiceSpawner>)
        ensures
            r@.len() == 0,
    {
        Vec::new()
    }
}

proof fn lemma_cells_after_region(
    prev: Seq<Option<Arc<SampleVoiceSpawnerParams>>>,
    cur: Seq<Option<Arc<SampleVoiceSpawnerParams>>>,
    regions: Seq<RegionParams>,
    ri: int,
    samples: Seq<(String, LoadedSample)>,
    si: int,
    sample_rate: int,
    params: &SampleVoiceSpawnerParams,
    lovel: int,
    hivel: int,
    vel_end: int,
)
    requires
        0 <= ri < regions.len(),
        prev.len() == 16384,
        cur.len() == 16384,
        regions[ri].key < 128,
        0 <= si < samples.len(),
        find_sample_spec(samples, regions[ri].sample_path@) == Some(si),
        *params == spawner_params_of_spec(regions[ri], &samples[si].1, sample_rate),
        lovel == regions[ri].lovel,
        hivel == if regions[ri].hivel > 127 {
            127int
        } else {
            regions[ri].hivel as int
        },
        lovel > hivel ==> vel_end == lovel,
        lovel <= hivel ==> vel_end == hivel + 1,
        forall|k: int, v: int|
            0 <= k < 128 && 0 <= v < 128 ==> #[trigger] cell_matches(
                prev,
                regions.subrange(0, ri),
                samples,
                sample_rate,
                k,
                v,
            ),
        forall|i: int|
            0 <= i < 16384 ==> if regions[ri].key * 128 + lovel <= i < regions[ri].key * 128
                + vel_end {
                &&& (#[trigger] cur[i]) matches Some(p)
                &&& (cur[i] matches Some(p) ==> *p == *params)
            } else {
                cur[i] == prev[i]
            },
    ensures
        forall|k: int, v: int|
            0 <= k < 128 && 0 <= v < 128 ==> #[trigger] cell_matches(
                cur,
                regions.subrange(0, ri + 1),
                samples,
                sample_rate,
                k,
                v,
            ),
{
    let pre = regions.subrange(0, ri);
    let ext = regions.subrange(0, ri + 1);
    assert(ext.len() == ri + 1);
    assert(ext[ri] == regions[ri]);
    assert(ext.subrange(0, ri) =~= pre);
    assert forall|k: int, v: int| 0 <= k < 128 && 0 <= v < 128 implies #[trigger] cell_matches(
        cur,
        ext,
        samples,
        sample_rate,
        k,
        v,
    ) by {
        let idx = k * 128 + v;
        assert(0 <= idx < 16384);
        if region_covers_spec(regions[ri], k, v) {
            assert(k == regions[ri].key);
            assert(lovel <= v <= hivel);
            assert(regions[ri].key * 128 + lovel <= idx < regions[ri].key * 128 + vel_end);
            assert(cell_spec(ext, samples, sample_rate, k, v) == Some(*params));
        } else {
            assert(!(regions[ri].key * 128 + lovel <= idx < regions[ri].key * 128 + vel_end))
                by {
                if regions[ri].key * 128 + lovel <= idx < regions[ri].key * 128 + vel_end {
                    assert(k == regions[ri].key) by (nonlinear_arith)
                        requires
                            idx == k * 128 + v,
                            0 <= v < 128,
                            0 <= k < 128,
                            0 <= lovel,
                            vel_end <= 128,
                            regions[ri].key * 128 + lovel <= idx < regions[ri].key * 128
                                + vel_end,
                            0 <= regions[ri].key < 128,
                    ;
                    assert(lovel <= v < vel_end);
                }
            };
            assert(cur[idx] == prev[idx]);
            assert(cell_spec(ext, samples, sample_rate, k, v) == cell_spec(
                pre,
                samples,
                sample_rate,
                k,
                v,
            ));
            assert(cell_matches(prev, pre, samples, sample_rate, k, v));
        }
    }
}

proof fn lemma_cells_after_skipped_region(
    cur: Seq<Option<Arc<SampleVoiceSpawnerParams>>>,
    regions: Seq<RegionParams>,
    ri: int,
    samples: Seq<(String, LoadedSample)>,
    sample_rate: int,
)
    requires
        0 <= ri < regions.len(),
        cur.len() == 16384,
        regions[ri].key >= 128,
        forall|k: int, v: int|
            0 <= k < 128 && 0 <= v < 128 ==> #[trigger] cell_matches(
                cur,
                regions.subrange(0, ri),
                samples,
                sample_rate,
                k,
                v,
            ),
    ensures
        forall|k: int, v: int|
            0 <= k < 128 && 0 <= v < 128 ==> #[trigger] cell_matches(
                cur,
                regions.subrange(0, ri + 1),
                samples,
                sample_rate,
                k,
                v,
            ),
{
    let pre = regions.subrange(0, ri);
    let ext = regions.subrange(0, ri + 1);
    assert(ext[ri] == regions[ri]);
    assert(ext.subrange(0, ri) =~= pre);
    assert forall|k: int, v: int| 0 <= k < 128 && 0 <= v < 128 implies #[trigger] cell_matches(
        cur,
        ext,
        samples,
        sample_rate,
        k,
        v,
    ) by {
        assert(!region_covers_spec(regions[ri], k, v));
        assert(cell_spec(ext, samples, sample_rate, k, v) == cell_spec(
            pre,
            samples,
            sample_rate,
            k,
            v,
        ));
        assert(cell_matches(cur, pre, samples, sample_rate, k, v));
    }
}

} // verus!
