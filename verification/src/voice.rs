use crate::envelope::{
    env_advance_spec, env_after_spec, env_ended_spec, env_release_spec, env_value_spec, env_wf,
    EnvelopeStage, ReleaseType, VoiceEnvelope,
};
use crate::intdiv::{i64_div_floor, lemma_scale_signed};
use crate::pitch::{BEND_RATIO_MAX, PITCH_ONE, SPEED_MULT_MAX};
use crate::sample::SAMPLE_ONE;
use crate::sampler::{
    sampler_advance_spec, sampler_out_spec, sampler_past_end_spec, sampler_wf, StereoVoiceSampler,
};
use crate::envelope::ENV_MICROS_MAX;
use vstd::prelude::*;

verus! {

/// Largest per-voice playback speed in Q32: the spawner's base ratio times
/// the channel's pitch multiplier.
pub const VOICE_SPEED_MAX: u64 = 0x40_0000_0000_0000;

/// Per-channel control state handed to every voice: the live pitch
/// multiplier and optional envelope overrides.
#[derive(Clone, Copy, Debug)]
pub struct VoiceControlData {
    pub voice_pitch_multiplier: u64,
    pub attack_micros: Option<u64>,
    pub release_micros: Option<u64>,
}

pub open spec fn control_wf(c: VoiceControlData) -> bool {
    &&& 1 <= c.voice_pitch_multiplier <= BEND_RATIO_MAX
    &&& (c.attack_micros matches Some(a) ==> a <= ENV_MICROS_MAX)
    &&& (c.release_micros matches Some(r) ==> r <= ENV_MICROS_MAX)
}

impl VoiceControlData {
    /// Neutral controls: unit pitch, no envelope overrides.
    pub fn new_defaults() -> (c: VoiceControlData)
        ensures
            c.voice_pitch_multiplier == PITCH_ONE,
            c.attack_micros is None,
            c.release_micros is None,
            control_wf(c),
    {
        VoiceControlData {
            voice_pitch_multiplier: PITCH_ONE,
            attack_micros: None,
            release_micros: None,
        }
    }
}

/// The common surface of every node in a voice's DSP graph.
pub trait VoiceGeneratorBase: Sized {
    spec fn inv(&self) -> bool;

    fn ended(&self) -> bool
        requires
            self.inv(),
    ;

    fn signal_release(&mut self, rel_type: ReleaseType)
        requires
            old(self).inv(),
        ensures
            final(self).inv(),
    ;

    fn process_controls(&mut self, control: &VoiceControlData)
        requires
            old(self).inv(),
            control_wf(*control),
        ensures
            final(self).inv(),
    ;
}

/// A generator that can render whole audio blocks additively.
pub trait VoiceSampleGenerator: VoiceGeneratorBase {
    fn render_to(&mut self, buffer: &mut Vec<i64>)
        requires
            old(self).inv(),
            mix_buffer_in_bounds(old(buffer)@),
            old(buffer)@.len() % 2 == 0,
        ensures
            final(self).inv(),
            final(buffer)@.len() == old(buffer)@.len(),
    ;
}

/// A playing voice as the channel pool sees it.
pub trait Voice: VoiceSampleGenerator {
    fn is_releasing(&self) -> bool
        requires
            self.inv(),
    ;

    fn velocity(&self) -> u8
        requires
            self.inv(),
    ;
}

/// Bound on mixing-buffer values under which another voice can always be
/// added without overflow.
pub const MIX_ABS_MAX: i64 = 0x4000_0000_0000_0000;

pub open spec fn mix_buffer_in_bounds(b: Seq<i64>) -> bool {
    forall|i: int| 0 <= i < b.len() ==> -MIX_ABS_MAX <= #[trigger] b[i] <= MIX_ABS_MAX
}

/// Scales a signed Q15 sample by a Q15 gain, rounding towards minus
/// infinity.
pub open spec fn scale_q15_spec(s: int, g: int) -> int {
    s * g / 32768
}

pub fn scale_q15(s: i32, g: u32) -> (r: i32)
    requires
        -SAMPLE_ONE <= s <= SAMPLE_ONE,
        g <= 32768,
    ensures
        r == scale_q15_spec(s as int, g as int),
        s >= 0 ==> 0 <= r <= s,
        s < 0 ==> s <= r <= 0,
{
    proof {
        lemma_scale_signed(s as int, g as int, 32768);
    }
    let prod: i64 = (s as i64) * (g as i64);
    let q = i64_div_floor(prod, 32768);
    q as i32
}

/// The constant-speed pitch source of a voice, modulated by the channel's
/// pitch multiplier: `current == base * multiplier` in Q32.
#[derive(Clone, Copy, PartialEq, Eq, Structural, Debug)]
pub struct VoicePitchGen {
    pub base: u64,
    pub current: u64,
}

pub open spec fn pitch_wf(p: VoicePitchGen) -> bool {
    &&& p.base <= SPEED_MULT_MAX
    &&& p.current <= VOICE_SPEED_MAX
}

pub open spec fn pitch_apply_spec(base: int, multiplier: int) -> int {
    base * multiplier / PITCH_ONE as int
}

impl VoicePitchGen {
    pub fn new(base: u64) -> (p: VoicePitchGen)
        requires
            base <= SPEED_MULT_MAX,
        ensures
            p.base == base,
            p.current == base,
            pitch_wf(p),
    {
        VoicePitchGen { base, current: base }
    }

    /// Re-read the channel's pitch multiplier.
    pub fn process_controls(&mut self, control: &VoiceControlData)
        requires
            pitch_wf(*old(self)),
            control_wf(*control),
        ensures
            final(self).base == old(self).base,
            final(self).current == pitch_apply_spec(
                old(self).base as int,
                control.voice_pitch_multiplier as int,
            ),
            pitch_wf(*final(self)),
    {
        let m = control.voice_pitch_multiplier;
        proof {
            assert((self.base as int) * (m as int) <= 0x800_0000_0000int
                * 0x800_0000_0000) by (nonlinear_arith)
                requires
                    0 <= self.base <= 0x800_0000_0000,
                    0 <= m <= 0x800_0000_0000,
            ;
            assert((self.base as int) * (m as int) >= 0) by (nonlinear_arith)
                requires
                    self.base >= 0,
                    m >= 0,
            ;
            vstd::arithmetic::div_mod::lemma_div_is_ordered(
                0,
                (self.base as int) * (m as int),
                PITCH_ONE as int,
            );
            vstd::arithmetic::div_mod::lemma_div_is_ordered(
                (self.base as int) * (m as int),
                0x800_0000_0000int * 0x800_0000_0000,
                PITCH_ONE as int,
            );
        }
        self.current = (((self.base as u128) * (m as u128)) / (PITCH_ONE as u128)) as u64;
    }
}

/// A one-pole lowpass with one state value per channel; the coefficient is
/// a Q15 fraction of the way the state moves towards each input.
#[derive(Clone, Copy, PartialEq, Eq, Structural, Debug)]
pub struct VoiceCutoff {
    pub alpha: u32,
    pub state_l: i32,
    pub state_r: i32,
}

pub open spec fn cutoff_wf(c: VoiceCutoff) -> bool {
    &&& 0 < c.alpha <= 32768
    &&& -SAMPLE_ONE <= c.state_l <= SAMPLE_ONE
    &&& -SAMPLE_ONE <= c.state_r <= SAMPLE_ONE
}

/// One filter step: the state moves `alpha/32768` of the way to the input
/// and is also the output.
pub open spec fn cutoff_step_spec(alpha: int, state: int, x: int) -> int {
    state + (x - state) * alpha / 32768
}

pub fn cutoff_step(alpha: u32, state: i32, x: i32) -> (r: i32)
    requires
        0 < alpha <= 32768,
        -SAMPLE_ONE <= state <= SAMPLE_ONE,
        -SAMPLE_ONE <= x <= SAMPLE_ONE,
    ensures
        r == cutoff_step_spec(alpha as int, state as int, x as int),
        -SAMPLE_ONE <= r <= SAMPLE_ONE,
{
    let d: i64 = (x as i64) - (state as i64);
    proof {
        lemma_scale_signed(d as int, alpha as int, 32768);
    }
    let step = i64_div_floor(d * (alpha as i64), 32768);
    (state as i64 + step) as i32
}

/// The one-pole coefficient for a cutoff frequency at a stream rate:
/// `2*pi*fc/fs` in Q15 (205887 is `2*pi` in Q15), saturating at one.
pub open spec fn cutoff_alpha_spec(cutoff_hz: int, sample_rate: int) -> int {
    let raw = 205887 * cutoff_hz / sample_rate;
    if raw > 32768 {
        32768
    } else if raw < 1 {
        1
    } else {
        raw
    }
}

pub fn cutoff_alpha(cutoff_hz: u32, sample_rate: u32) -> (a: u32)
    requires
        sample_rate >= 1,
    ensures
        a == cutoff_alpha_spec(cutoff_hz as int, sample_rate as int),
        0 < a <= 32768,
{
    let raw = 205887u64 * (cutoff_hz as u64) / (sample_rate as u64);
    if raw > 32768 {
        32768
    } else if raw < 1 {
        1
    } else {
        raw as u32
    }
}

/// The assembled DSP graph of one sampled voice: a pitch source feeding a
/// stereo sampler, shaped by the amplitude envelope and the velocity gain,
/// optionally filtered by a cutoff.
pub struct SampledVoiceGen {
    pub pitch: VoicePitchGen,
    pub sampler: StereoVoiceSampler,
    pub envelope: VoiceEnvelope,
    pub amp: u32,
    pub cutoff: Option<VoiceCutoff>,
}

pub open spec fn gen_wf(g: &SampledVoiceGen) -> bool {
    &&& pitch_wf(g.pitch)
    &&& sampler_wf(&g.sampler)
    &&& env_wf(g.envelope)
    &&& g.amp <= 32768
    &&& (g.cutoff matches Some(c) ==> cutoff_wf(c))
}

/// A voice has ended when its sampler has run off a non-looping sample or
/// its envelope has fully released.
pub open spec fn gen_ended_spec(g: &SampledVoiceGen) -> bool {
    sampler_past_end_spec(&g.sampler) || env_ended_spec(g.envelope)
}

/// One frame of the voice: the stereo output it emits and the state it
/// advances to. An ended voice emits silence and stops changing.
pub open spec fn voice_tick_spec(g: SampledVoiceGen) -> (SampledVoiceGen, (int, int)) {
    if gen_ended_spec(&g) {
        (g, (0int, 0int))
    } else {
        let so = sampler_out_spec(&g.sampler);
        let ev = env_value_spec(g.envelope);
        let ml = scale_q15_spec(scale_q15_spec(so.0, g.amp as int), ev);
        let mr = scale_q15_spec(scale_q15_spec(so.1, g.amp as int), ev);
        let sampler2 = sampler_advance_spec(g.sampler, g.pitch.current as int);
        let env2 = env_advance_spec(g.envelope);
        match g.cutoff {
            None => (
                SampledVoiceGen { sampler: sampler2, envelope: env2, ..g },
                (ml, mr),
            ),
            Some(c) => {
                let fl = cutoff_step_spec(c.alpha as int, c.state_l as int, ml);
                let fr = cutoff_step_spec(c.alpha as int, c.state_r as int, mr);
                (
                    SampledVoiceGen {
                        sampler: sampler2,
                        envelope: env2,
                        cutoff: Some(
                            VoiceCutoff {
                                alpha: c.alpha,
                                state_l: fl as i32,
                                state_r: fr as i32,
                            },
                        ),
                        ..g
                    },
                    (fl, fr),
                )
            },
        }
    }
}

/// The voice state after `n` frames.
pub open spec fn voice_after_spec(g: SampledVoiceGen, n: nat) -> SampledVoiceGen
    decreases n,
{
    if n == 0 {
        g
    } else {
        voice_tick_spec(voice_after_spec(g, (n - 1) as nat)).0
    }
}

/// The stereo frame the voice emits at frame `j` of a block.
pub open spec fn voice_out_at_spec(g: SampledVoiceGen, j: nat) -> (int, int) {
    voice_tick_spec(voice_after_spec(g, j)).1
}

/// Ticking preserves well-formedness and bounds the output to one frame of
/// full-scale audio.
pub proof fn lemma_voice_tick_wf(g: SampledVoiceGen)
    requires
        gen_wf(&g),
    ensures
        gen_wf(&voice_tick_spec(g).0),
        -SAMPLE_ONE <= voice_tick_spec(g).1.0 <= SAMPLE_ONE,
        -SAMPLE_ONE <= voice_tick_spec(g).1.1 <= SAMPLE_ONE,
{
    if !gen_ended_spec(&g) {
        let so = sampler_out_spec(&g.sampler);
        let ev = env_value_spec(g.envelope);
        crate::envelope::lemma_env_value_bounds(g.envelope);
        crate::envelope::lemma_env_advance_wf(g.envelope);
        crate::sampler::lemma_sampler_out_bounds(&g.sampler);
        lemma_scale_signed(so.0, g.amp as int, 32768);
        lemma_scale_signed(so.1, g.amp as int, 32768);
        let al = scale_q15_spec(so.0, g.amp as int);
        let ar = scale_q15_spec(so.1, g.amp as int);
        lemma_scale_signed(al, ev, 32768);
        lemma_scale_signed(ar, ev, 32768);
        let ml = scale_q15_spec(al, ev);
        let mr = scale_q15_spec(ar, ev);
        match g.cutoff {
            None => {},
            Some(c) => {
                lemma_scale_signed(ml - c.state_l, c.alpha as int, 32768);
                lemma_scale_signed(mr - c.state_r, c.alpha as int, 32768);
            },
        }
    }
}

/// Well-formedness survives any number of frames.
pub proof fn lemma_voice_after_wf(g: SampledVoiceGen, n: nat)
    requires
        gen_wf(&g),
    ensures
        gen_wf(&voice_after_spec(g, n)),
    decreases n,
{
    if n > 0 {
        lemma_voice_after_wf(g, (n - 1) as nat);
        lemma_voice_tick_wf(voice_after_spec(g, (n - 1) as nat));
    }
}

/// A well-formed voice's output at any frame of a block stays within one
/// full-scale sample.
pub proof fn lemma_voice_out_bound(g: SampledVoiceGen, j: nat)
    requires
        gen_wf(&g),
    ensures
        -SAMPLE_ONE <= voice_out_at_spec(g, j).0 <= SAMPLE_ONE,
        -SAMPLE_ONE <= voice_out_at_spec(g, j).1 <= SAMPLE_ONE,
{
    lemma_voice_after_wf(g, j);
    lemma_voice_tick_wf(voice_after_spec(g, j));
}

/// Once a voice has ended it stays ended, frame after frame, and emits
/// nothing but silence.
pub proof fn lemma_voice_ended_stays_ended(g: SampledVoiceGen, n: nat)
    requires
        gen_ended_spec(&g),
    ensures
        voice_after_spec(g, n) == g,
        gen_ended_spec(&voice_after_spec(g, n)),
        voice_out_at_spec(g, n) == (0int, 0int),
    decreases n,
{
    if n > 0 {
        lemma_voice_ended_stays_ended(g, (n - 1) as nat);
    }
}

/// Ticking never revives an ended voice: if any state along a block is
/// ended, all later states are too.
pub proof fn lemma_voice_ended_monotone(g: SampledVoiceGen, n1: nat, n2: nat)
    requires
        n1 <= n2,
        gen_ended_spec(&voice_after_spec(g, n1)),
    ensures
        gen_ended_spec(&voice_after_spec(g, n2)),
    decreases n2 - n1,
{
    if n1 < n2 {
        assert(voice_after_spec(g, (n1 + 1) as nat)
            == voice_tick_spec(voice_after_spec(g, n1)).0);
        lemma_voice_ended_monotone(g, (n1 + 1) as nat, n2);
    }
}

impl SampledVoiceGen {
    fn tick(&mut self) -> (out: (i32, i32))
        requires
            gen_wf(&*old(self)),
        ensures
            gen_wf(&*final(self)),
            *final(self) == voice_tick_spec(*old(self)).0,
            (out.0 as int, out.1 as int) == voice_tick_spec(*old(self)).1,
            -SAMPLE_ONE <= out.0 <= SAMPLE_ONE,
            -SAMPLE_ONE <= out.1 <= SAMPLE_ONE,
    {
        proof {
            lemma_voice_tick_wf(*self);
        }
        if self.ended_now() {
            return (0, 0);
        }
        let (sl, sr) = self.sampler.next_sample(self.pitch.current);
        let ev = self.envelope.next_value();
        let al = scale_q15(sl, self.amp);
        let ar = scale_q15(sr, self.amp);
        let ml = scale_q15(al, ev);
        let mr = scale_q15(ar, ev);
        match self.cutoff {
            None => (ml, mr),
            Some(c) => {
                let fl = cutoff_step(c.alpha, c.state_l, ml);
                let fr = cutoff_step(c.alpha, c.state_r, mr);
                self.cutoff = Some(VoiceCutoff { alpha: c.alpha, state_l: fl, state_r: fr });
                (fl, fr)
            },
        }
    }

    fn ended_now(&self) -> (r: bool)
        requires
            gen_wf(self),
        ensures
            r == gen_ended_spec(self),
    {
        self.sampler.ended() || self.envelope.ended()
    }
}

/// The top-level voice object: the DSP graph plus the releasing flag and
/// the velocity the note was struck with.
pub struct VoiceBase {
    pub gen: SampledVoiceGen,
    pub releasing: bool,
    pub vel: u8,
}

pub open spec fn voice_wf(v: &VoiceBase) -> bool {
    gen_wf(&v.gen)
}

/// The voice after a release request: the flag is set and the envelope is
/// told to release; an already-released envelope is left alone.
pub open spec fn voice_release_spec(v: VoiceBase, rel_type: ReleaseType) -> VoiceBase {
    VoiceBase {
        releasing: true,
        gen: SampledVoiceGen { envelope: env_release_spec(v.gen.envelope, rel_type), ..v.gen },
        ..v
    }
}

/// The voice after re-reading the channel controls: only the pitch source
/// changes.
pub open spec fn voice_controls_spec(v: VoiceBase, c: VoiceControlData) -> VoiceBase {
    VoiceBase {
        gen: SampledVoiceGen {
            pitch: VoicePitchGen {
                base: v.gen.pitch.base,
                current: pitch_apply_spec(
                    v.gen.pitch.base as int,
                    c.voice_pitch_multiplier as int,
                ) as u64,
            },
            ..v.gen
        },
        ..v
    }
}

impl VoiceBase {
    pub fn new(vel: u8, gen: SampledVoiceGen) -> (v: VoiceBase)
        requires
            gen_wf(&gen),
        ensures
            v.gen == gen,
            v.releasing == false,
            v.vel == vel,
            voice_wf(&v),
    {
        VoiceBase { gen, releasing: false, vel }
    }

    pub fn ended(&self) -> (r: bool)
        requires
            voice_wf(self),
        ensures
            r == gen_ended_spec(&self.gen),
    {
        self.gen.ended_now()
    }

    pub fn is_releasing(&self) -> (r: bool)
        ensures
            r == self.releasing,
    {
        self.releasing
    }

    pub fn velocity(&self) -> (r: u8)
        ensures
            r == self.vel,
    {
        self.vel
    }

    pub fn signal_release(&mut self, rel_type: ReleaseType)
        requires
            voice_wf(&*old(self)),
        ensures
            *final(self) == voice_release_spec(*old(self), rel_type),
            voice_wf(&*final(self)),
            final(self).releasing,
    {
        self.releasing = true;
        self.gen.envelope.signal_release(rel_type);
    }

    pub fn process_controls(&mut self, control: &VoiceControlData)
        requires
            voice_wf(&*old(self)),
            control_wf(*control),
        ensures
            *final(self) == voice_controls_spec(*old(self), *control),
            voice_wf(&*final(self)),
    {
        self.gen.pitch.process_controls(control);
    }

    /// Additive block rendering; the voice's state advances by the block's
    /// frame count.
    pub fn render_to(&mut self, buffer: &mut Vec<i64>)
        requires
            voice_wf(&*old(self)),
            mix_buffer_in_bounds(old(buffer)@),
            old(buffer)@.len() % 2 == 0,
        ensures
            voice_wf(&*final(self)),
            final(self).releasing == old(self).releasing,
            final(self).vel == old(self).vel,
            final(self).gen == voice_after_spec(old(self).gen, (old(buffer)@.len() / 2) as nat),
            final(buffer)@.len() == old(buffer)@.len(),
            forall|j: int|
                0 <= j < old(buffer)@.len() / 2 ==> final(buffer)@[2 * j] == old(buffer)@[2 * j]
                    + #[trigger] voice_out_at_spec(old(self).gen, j as nat).0,
            forall|j: int|
                0 <= j < old(buffer)@.len() / 2 ==> final(buffer)@[2 * j + 1] == old(
                    buffer,
                )@[2 * j + 1] + #[trigger] voice_out_at_spec(old(self).gen, j as nat).1,
            forall|i: int|
                0 <= i < final(buffer)@.len() ==> old(buffer)@[i] - SAMPLE_ONE
                    <= #[trigger] (final(buffer)@[i]) && final(buffer)@[i] <= old(buffer)@[i]
                    + SAMPLE_ONE,
    {
        self.gen.render_block(buffer);
    }
}

/// Along a block a voice either ends or its envelope advances in lockstep
/// with the envelope model; an envelope that has run out ends the voice.
proof fn lemma_voice_env_tracks(g: SampledVoiceGen, n: nat)
    requires
        gen_wf(&g),
    ensures
        gen_ended_spec(&voice_after_spec(g, n)) || voice_after_spec(g, n).envelope
            == env_after_spec(g.envelope, n),
        env_ended_spec(env_after_spec(g.envelope, n)) ==> gen_ended_spec(&voice_after_spec(g, n)),
    decreases n,
{
    if n == 0 {
        assert(voice_after_spec(g, 0) == g);
        assert(env_after_spec(g.envelope, 0) == g.envelope);
    } else {
        lemma_voice_env_tracks(g, (n - 1) as nat);
        let gp = voice_after_spec(g, (n - 1) as nat);
        lemma_voice_after_wf(g, (n - 1) as nat);
        lemma_voice_tick_wf(gp);
        assert(voice_after_spec(g, n) == voice_tick_spec(gp).0);
        assert(env_after_spec(g.envelope, n) == env_advance_spec(
            env_after_spec(g.envelope, (n - 1) as nat),
        ));
        if gen_ended_spec(&gp) {
        } else {
            assert(gp.envelope == env_after_spec(g.envelope, (n - 1) as nat));
        }
    }
}

/// Release termination law: a playing voice whose envelope has not yet
/// begun its release, told to release, has ended after at most the
/// requested release length of further frames.
pub proof fn lemma_voice_release_finishes(v: VoiceBase, rel_type: ReleaseType)
    requires
        voice_wf(&v),
        v.gen.envelope.stage != EnvelopeStage::Release,
        v.gen.envelope.stage != EnvelopeStage::Finished,
    ensures
        gen_ended_spec(
            &voice_after_spec(
                voice_release_spec(v, rel_type).gen,
                crate::envelope::release_len_spec(v.gen.envelope, rel_type) as nat,
            ),
        ),
{
    let e = v.gen.envelope;
    let g2 = voice_release_spec(v, rel_type).gen;
    crate::envelope::lemma_env_release_wf(e, rel_type);
    crate::envelope::lemma_env_release_finishes(e, rel_type);
    lemma_voice_env_tracks(g2, crate::envelope::release_len_spec(e, rel_type) as nat);
}

/// Kill-fade law: a playing voice whose envelope has not yet begun its
/// release, told to die with a forced kill, has ended after at most the
/// envelope's kill-fade count of further frames (a few milliseconds).
pub proof fn lemma_voice_kill_fade_finishes(v: VoiceBase)
    requires
        voice_wf(&v),
        v.gen.envelope.stage != EnvelopeStage::Release,
        v.gen.envelope.stage != EnvelopeStage::Finished,
    ensures
        gen_ended_spec(
            &voice_after_spec(
                voice_release_spec(v, ReleaseType::Killed).gen,
                v.gen.envelope.kill_fade_samples as nat,
            ),
        ),
{
    let e = v.gen.envelope;
    let g2 = voice_release_spec(v, ReleaseType::Killed).gen;
    crate::envelope::lemma_env_release_wf(e, ReleaseType::Killed);
    crate::envelope::lemma_kill_fade_finishes(e);
    assert(g2.envelope == env_release_spec(e, ReleaseType::Killed));
    assert(g2.envelope.kill_fade_samples == e.kill_fade_samples);
    lemma_voice_env_tracks(g2, e.kill_fade_samples as nat);
}

/// Release idempotence at the voice level: a repeated release request of
/// either kind leaves the voice exactly as the first one did; the release
/// stage never restarts.
pub proof fn lemma_voice_release_idempotent(
    v: VoiceBase,
    first: ReleaseType,
    second: ReleaseType,
)
    ensures
        voice_release_spec(voice_release_spec(v, first), second) == voice_release_spec(v, first),
{
    crate::envelope::lemma_release_idempotent(v.gen.envelope, first, second);
}

/// An ended voice stays ended and renders nothing: every frame of any
/// further block adds exactly zero.
pub proof fn lemma_voice_render_ended_noop(v: VoiceBase, n: nat)
    requires
        gen_ended_spec(&v.gen),
    ensures
        voice_after_spec(v.gen, n) == v.gen,
        forall|j: nat| #[trigger] voice_out_at_spec(v.gen, j) == (0int, 0int),
{
    lemma_voice_ended_stays_ended(v.gen, n);
    assert forall|j: nat| #[trigger] voice_out_at_spec(v.gen, j) == (0int, 0int) by {
        lemma_voice_ended_stays_ended(v.gen, j);
    }
}

impl VoiceGeneratorBase for VoiceBase {
    open spec fn inv(&self) -> bool {
        voice_wf(self)
    }

    fn ended(&self) -> bool {
        VoiceBase::ended(self)
    }

    fn signal_release(&mut self, rel_type: ReleaseType) {
        VoiceBase::signal_release(self, rel_type);
    }

    fn process_controls(&mut self, control: &VoiceControlData) {
        VoiceBase::process_controls(self, control);
    }
}

impl VoiceSampleGenerator for VoiceBase {
    fn render_to(&mut self, buffer: &mut Vec<i64>) {
        VoiceBase::render_to(self, buffer);
    }
}

impl Voice for VoiceBase {
    fn is_releasing(&self) -> bool {
        VoiceBase::is_releasing(self)
    }

    fn velocity(&self) -> u8 {
        VoiceBase::velocity(self)
    }
}

impl VoiceGeneratorBase for SampledVoiceGen {
    open spec fn inv(&self) -> bool {
        gen_wf(self)
    }

    fn ended(&self) -> bool {
        self.ended_now()
    }

    fn signal_release(&mut self, rel_type: ReleaseType) {
        self.envelope.signal_release(rel_type);
    }

    fn process_controls(&mut self, control: &VoiceControlData) {
        self.pitch.process_controls(control);
    }
}

impl VoiceSampleGenerator for SampledVoiceGen {
    fn render_to(&mut self, buffer: &mut Vec<i64>) {
        self.render_block(buffer);
    }
}

impl SampledVoiceGen {
    /// Renders one block additively: every stereo frame of the buffer gains
    /// exactly the voice's output at that frame.
    pub fn render_block(&mut self, buffer: &mut Vec<i64>) -> (frames: usize)
        requires
            gen_wf(&*old(self)),
            mix_buffer_in_bounds(old(buffer)@),
            old(buffer)@.len() % 2 == 0,
        ensures
            gen_wf(&*final(self)),
            frames == old(buffer)@.len() / 2,
            *final(self) == voice_after_spec(*old(self), frames as nat),
            final(buffer)@.len() == old(buffer)@.len(),
            forall|j: int|
                0 <= j < frames ==> final(buffer)@[2 * j] == old(buffer)@[2 * j]
                    + #[trigger] voice_out_at_spec(*old(self), j as nat).0,
            forall|j: int|
                0 <= j < frames ==> final(buffer)@[2 * j + 1] == old(buffer)@[2 * j + 1]
                    + #[trigger] voice_out_at_spec(*old(self), j as nat).1,
            forall|i: int|
                0 <= i < final(buffer)@.len() ==> old(buffer)@[i] - SAMPLE_ONE
                    <= #[trigger] (final(buffer)@[i]) && final(buffer)@[i] <= old(buffer)@[i]
                    + SAMPLE_ONE,
    {
        let frames = buffer.len() / 2;
        proof {
            vstd::arithmetic::div_mod::lemma_fundamental_div_mod(buffer@.len() as int, 2);
        }
        let ghost g0 = *self;
        let ghost b0 = buffer@;
        let mut j: usize = 0;
        while j < frames
            invariant
                gen_wf(&*self),
                frames == b0.len() / 2,
                2 * frames == b0.len(),
                b0.len() % 2 == 0,
                j <= frames,
                *self == voice_after_spec(g0, j as nat),
                gen_wf(&g0),
                buffer@.len() == b0.len(),
                forall|jj: int|
                    0 <= jj < j ==> buffer@[2 * jj] == b0[2 * jj] + #[trigger] voice_out_at_spec(
                        g0,
                        jj as nat,
                    ).0,
                forall|jj: int|
                    0 <= jj < j ==> buffer@[2 * jj + 1] == b0[2 * jj + 1]
                        + #[trigger] voice_out_at_spec(g0, jj as nat).1,
                forall|i: int| j * 2 <= i < b0.len() ==> #[trigger] buffer@[i] == b0[i],
                mix_buffer_in_bounds(b0),
                forall|i: int|
                    0 <= i < buffer@.len() ==> b0[i] - SAMPLE_ONE <= #[trigger] buffer@[i] <= b0[i]
                        + SAMPLE_ONE,
            decreases frames - j,
        {
            proof {
                assert(voice_after_spec(g0, (j + 1) as nat)
                    == voice_tick_spec(voice_after_spec(g0, j as nat)).0);
            }
            let (l, r) = self.tick();
            let blen = buffer.len();
            let idx = 2 * j;
            let old_l = buffer[idx];
            buffer.set(idx, old_l + l as i64);
            let old_r = buffer[idx + 1];
            buffer.set(idx + 1, old_r + r as i64);
            j = j + 1;
        }
        frames
    }
}

} // verus!
