use crate::intdiv::lemma_scale_le;
use vstd::prelude::*;

verus! {

/// One in the Q15 envelope scale, as the envelope's own unsigned unit.
pub const ENV_ONE: u32 = 32768;

/// Upper bound on a stage length in samples (about ten million seconds at
/// the highest supported rate), so ramp arithmetic stays in range.
pub const STAGE_SAMPLES_MAX: u64 = 0x10_0000_0000_0000;

/// Upper bound on an envelope time in microseconds.
pub const ENV_MICROS_MAX: u64 = 1_000_000_000_000;

/// How a release was requested: a normal note-off, or a forced kill when a
/// voice is evicted to make room, which fades over a few milliseconds.
#[derive(Clone, Copy, PartialEq, Eq, Structural, Debug)]
pub enum ReleaseType {
    Standard,
    Killed,
}

/// An amplitude envelope as the loader describes it: times in microseconds
/// and levels in Q15, independent of the stream's sample rate.
#[derive(Clone, Copy, PartialEq, Eq, Structural, Debug)]
pub struct EnvelopeDescriptor {
    pub start_value: u32,
    pub delay_micros: u64,
    pub attack_micros: u64,
    pub hold_micros: u64,
    pub decay_micros: u64,
    pub sustain_value: u32,
    pub release_micros: u64,
}

pub open spec fn descriptor_wf(d: EnvelopeDescriptor) -> bool {
    &&& d.start_value <= ENV_ONE
    &&& d.sustain_value <= ENV_ONE
    &&& d.delay_micros <= ENV_MICROS_MAX
    &&& d.attack_micros <= ENV_MICROS_MAX
    &&& d.hold_micros <= ENV_MICROS_MAX
    &&& d.decay_micros <= ENV_MICROS_MAX
    &&& d.release_micros <= ENV_MICROS_MAX
}

/// The same envelope compiled for one stream rate: stage lengths in whole
/// samples.
#[derive(Clone, Copy, PartialEq, Eq, Structural, Debug)]
pub struct EnvelopeParameters {
    pub start_value: u32,
    pub delay_samples: u64,
    pub attack_samples: u64,
    pub hold_samples: u64,
    pub decay_samples: u64,
    pub sustain_value: u32,
    pub release_samples: u64,
}

pub open spec fn params_wf(p: EnvelopeParameters) -> bool {
    &&& p.start_value <= ENV_ONE
    &&& p.sustain_value <= ENV_ONE
    &&& p.delay_samples <= STAGE_SAMPLES_MAX
    &&& p.attack_samples <= STAGE_SAMPLES_MAX
    &&& p.hold_samples <= STAGE_SAMPLES_MAX
    &&& p.decay_samples <= STAGE_SAMPLES_MAX
    &&& p.release_samples <= STAGE_SAMPLES_MAX
}

/// A time in microseconds converted to whole samples at a stream rate.
pub open spec fn micros_to_samples_spec(micros: int, sample_rate: int) -> int {
    micros * sample_rate / 1_000_000
}

pub fn micros_to_samples(micros: u64, sample_rate: u32) -> (samples: u64)
    requires
        micros <= ENV_MICROS_MAX,
    ensures
        samples == micros_to_samples_spec(micros as int, sample_rate as int),
        samples <= STAGE_SAMPLES_MAX,
{
    proof {
        assert((micros as int) * (sample_rate as int) <= 1_000_000_000_000
            * 0x1_0000_0000int) by (nonlinear_arith)
            requires
                0 <= micros <= 1_000_000_000_000,
                0 <= sample_rate < 0x1_0000_0000,
        ;
        vstd::arithmetic::div_mod::lemma_div_is_ordered(
            (micros as int) * (sample_rate as int),
            1_000_000_000_000int * 0x1_0000_0000,
            1_000_000,
        );
        assert((micros as int) * (sample_rate as int) >= 0) by (nonlinear_arith)
            requires
                micros >= 0,
                sample_rate >= 0,
        ;
        vstd::arithmetic::div_mod::lemma_div_is_ordered(
            0,
            (micros as int) * (sample_rate as int),
            1_000_000,
        );
    }
    let wide = (micros as u128) * (sample_rate as u128) / 1_000_000;
    wide as u64
}

/// The parameters a descriptor compiles to at one stream rate.
pub open spec fn compile_envelope_spec(d: EnvelopeDescriptor, sample_rate: int) -> EnvelopeParameters {
    EnvelopeParameters {
        start_value: d.start_value,
        delay_samples: micros_to_samples_spec(d.delay_micros as int, sample_rate) as u64,
        attack_samples: micros_to_samples_spec(d.attack_micros as int, sample_rate) as u64,
        hold_samples: micros_to_samples_spec(d.hold_micros as int, sample_rate) as u64,
        decay_samples: micros_to_samples_spec(d.decay_micros as int, sample_rate) as u64,
        sustain_value: d.sustain_value,
        release_samples: micros_to_samples_spec(d.release_micros as int, sample_rate) as u64,
    }
}

impl EnvelopeDescriptor {
    /// Compile the descriptor into stage lengths for one stream rate.
    pub fn to_envelope_params(&self, sample_rate: u32) -> (p: EnvelopeParameters)
        requires
            descriptor_wf(*self),
        ensures
            p == compile_envelope_spec(*self, sample_rate as int),
            params_wf(p),
            p.start_value == self.start_value,
            p.sustain_value == self.sustain_value,
            p.delay_samples == micros_to_samples_spec(
                self.delay_micros as int,
                sample_rate as int,
            ),
            p.attack_samples == micros_to_samples_spec(
                self.attack_micros as int,
                sample_rate as int,
            ),
            p.hold_samples == micros_to_samples_spec(
                self.hold_micros as int,
                sample_rate as int,
            ),
            p.decay_samples == micros_to_samples_spec(
                self.decay_micros as int,
                sample_rate as int,
            ),
            p.release_samples == micros_to_samples_spec(
                self.release_micros as int,
                sample_rate as int,
            ),
    {
        EnvelopeParameters {
            start_value: self.start_value,
            delay_samples: micros_to_samples(self.delay_micros, sample_rate),
            attack_samples: micros_to_samples(self.attack_micros, sample_rate),
            hold_samples: micros_to_samples(self.hold_micros, sample_rate),
            decay_samples: micros_to_samples(self.decay_micros, sample_rate),
            sustain_value: self.sustain_value,
            release_samples: micros_to_samples(self.release_micros, sample_rate),
        }
    }
}

/// The six envelope stages, plus the state after the release has run out.
#[derive(Clone, Copy, PartialEq, Eq, Structural, Debug)]
pub enum EnvelopeStage {
    Delay,
    Attack,
    Hold,
    Decay,
    Sustain,
    Release,
    Finished,
}

/// Position of a stage in the fixed stage order.
pub open spec fn stage_rank(s: EnvelopeStage) -> int {
    match s {
        EnvelopeStage::Delay => 0,
        EnvelopeStage::Attack => 1,
        EnvelopeStage::Hold => 2,
        EnvelopeStage::Decay => 3,
        EnvelopeStage::Sustain => 4,
        EnvelopeStage::Release => 5,
        EnvelopeStage::Finished => 6,
    }
}

pub open spec fn next_stage(s: EnvelopeStage) -> EnvelopeStage {
    match s {
        EnvelopeStage::Delay => EnvelopeStage::Attack,
        EnvelopeStage::Attack => EnvelopeStage::Hold,
        EnvelopeStage::Hold => EnvelopeStage::Decay,
        EnvelopeStage::Decay => EnvelopeStage::Sustain,
        EnvelopeStage::Sustain => EnvelopeStage::Sustain,
        EnvelopeStage::Release => EnvelopeStage::Finished,
        EnvelopeStage::Finished => EnvelopeStage::Finished,
    }
}

/// Whether the envelope rests in this stage until told otherwise (no fixed
/// length): the sustain plateau and the finished state.
pub open spec fn stage_is_resting(s: EnvelopeStage) -> bool {
    s == EnvelopeStage::Sustain || s == EnvelopeStage::Finished
}

/// The running state of one voice's amplitude envelope.
#[derive(Clone, Copy, PartialEq, Eq, Structural, Debug)]
pub struct VoiceEnvelope {
    pub params: EnvelopeParameters,
    pub stage: EnvelopeStage,
    pub pos: u64,
    pub release_from: u32,
    pub kill_fade_samples: u64,
}

/// Length in samples of a timed stage.
pub open spec fn stage_len_spec(e: VoiceEnvelope, s: EnvelopeStage) -> int {
    match s {
        EnvelopeStage::Delay => e.params.delay_samples as int,
        EnvelopeStage::Attack => e.params.attack_samples as int,
        EnvelopeStage::Hold => e.params.hold_samples as int,
        EnvelopeStage::Decay => e.params.decay_samples as int,
        EnvelopeStage::Sustain => 0,
        EnvelopeStage::Release => e.params.release_samples as int,
        EnvelopeStage::Finished => 0,
    }
}

/// The level a timed stage starts from and the level it ramps to.
pub open spec fn stage_endpoints_spec(e: VoiceEnvelope, s: EnvelopeStage) -> (int, int) {
    match s {
        EnvelopeStage::Delay => (e.params.start_value as int, e.params.start_value as int),
        EnvelopeStage::Attack => (e.params.start_value as int, ENV_ONE as int),
        EnvelopeStage::Hold => (ENV_ONE as int, ENV_ONE as int),
        EnvelopeStage::Decay => (ENV_ONE as int, e.params.sustain_value as int),
        EnvelopeStage::Sustain => (e.params.sustain_value as int, e.params.sustain_value as int),
        EnvelopeStage::Release => (e.release_from as int, 0),
        EnvelopeStage::Finished => (0, 0),
    }
}

/// Linear ramp from `a` to `b` over `len` samples, evaluated `pos` samples in.
pub open spec fn ramp_value_spec(a: int, b: int, len: int, pos: int) -> int {
    if b >= a {
        a + (b - a) * pos / len
    } else {
        a - (a - b) * pos / len
    }
}

/// A release forced by a kill fades over this envelope's kill-fade length
/// instead of its configured release length.
pub open spec fn release_len_spec(e: VoiceEnvelope, rel_type: ReleaseType) -> int {
    match rel_type {
        ReleaseType::Standard => e.params.release_samples as int,
        ReleaseType::Killed => e.kill_fade_samples as int,
    }
}

/// Skips stages of zero length so the state always rests inside a stage
/// with room to advance (or on a resting stage).
pub open spec fn env_normalize_spec(e: VoiceEnvelope) -> VoiceEnvelope
    decreases 6 - stage_rank(e.stage),
{
    if stage_is_resting(e.stage) {
        e
    } else if stage_len_spec(e, e.stage) == 0 {
        env_normalize_spec(VoiceEnvelope { stage: next_stage(e.stage), pos: 0, ..e })
    } else {
        e
    }
}

/// A well-formed running envelope: parameters in range, position strictly
/// inside a timed stage, resting stages pinned at position zero.
pub open spec fn env_wf(e: VoiceEnvelope) -> bool {
    &&& params_wf(e.params)
    &&& e.release_from <= ENV_ONE
    &&& 1 <= e.kill_fade_samples <= STAGE_SAMPLES_MAX
    &&& if stage_is_resting(e.stage) {
        e.pos == 0
    } else {
        e.pos < stage_len_spec(e, e.stage)
    }
}

/// The envelope's current output level in Q15.
pub open spec fn env_value_spec(e: VoiceEnvelope) -> int {
    if stage_is_resting(e.stage) {
        stage_endpoints_spec(e, e.stage).0
    } else {
        let ep = stage_endpoints_spec(e, e.stage);
        ramp_value_spec(ep.0, ep.1, stage_len_spec(e, e.stage), e.pos as int)
    }
}

/// The envelope one sample later.
pub open spec fn env_advance_spec(e: VoiceEnvelope) -> VoiceEnvelope {
    if stage_is_resting(e.stage) {
        e
    } else if e.pos + 1 < stage_len_spec(e, e.stage) {
        VoiceEnvelope { pos: (e.pos + 1) as u64, ..e }
    } else {
        env_normalize_spec(VoiceEnvelope { stage: next_stage(e.stage), pos: 0, ..e })
    }
}

/// The envelope after a release request: already-releasing envelopes are
/// left alone, otherwise the current level becomes the top of the release
/// ramp (so a release during attack falls from the partial level).
pub open spec fn env_release_spec(e: VoiceEnvelope, rel_type: ReleaseType) -> VoiceEnvelope {
    if e.stage == EnvelopeStage::Release || e.stage == EnvelopeStage::Finished {
        e
    } else {
        let from = env_value_spec(e);
        let len = release_len_spec(e, rel_type);
        let params = EnvelopeParameters { release_samples: len as u64, ..e.params };
        if len == 0 {
            VoiceEnvelope {
                stage: EnvelopeStage::Finished,
                pos: 0,
                release_from: from as u32,
                params,
                ..e
            }
        } else {
            VoiceEnvelope {
                stage: EnvelopeStage::Release,
                pos: 0,
                release_from: from as u32,
                params,
                ..e
            }
        }
    }
}

pub open spec fn env_ended_spec(e: VoiceEnvelope) -> bool {
    e.stage == EnvelopeStage::Finished
}

/// The output level always stays in the Q15 range.
pub proof fn lemma_env_value_bounds(e: VoiceEnvelope)
    requires
        env_wf(e),
    ensures
        0 <= env_value_spec(e) <= ENV_ONE,
{
    if !stage_is_resting(e.stage) {
        let ep = stage_endpoints_spec(e, e.stage);
        let len = stage_len_spec(e, e.stage);
        if ep.1 >= ep.0 {
            lemma_scale_le(ep.1 - ep.0, e.pos as int, len);
        } else {
            lemma_scale_le(ep.0 - ep.1, e.pos as int, len);
        }
    }
}

/// Normalizing preserves well-formedness and never lands on a zero-length
/// timed stage.
pub proof fn lemma_normalize_wf(e: VoiceEnvelope)
    requires
        params_wf(e.params),
        e.release_from <= ENV_ONE,
        1 <= e.kill_fade_samples <= STAGE_SAMPLES_MAX,
        e.pos == 0,
    ensures
        env_wf(env_normalize_spec(e)),
    decreases 6 - stage_rank(e.stage),
{
    if stage_is_resting(e.stage) {
    } else if stage_len_spec(e, e.stage) == 0 {
        lemma_normalize_wf(VoiceEnvelope { stage: next_stage(e.stage), pos: 0, ..e });
    }
}

impl VoiceEnvelope {
    fn stage_len(&self, s: EnvelopeStage) -> (l: u64)
        ensures
            l == stage_len_spec(*self, s),
    {
        match s {
            EnvelopeStage::Delay => self.params.delay_samples,
            EnvelopeStage::Attack => self.params.attack_samples,
            EnvelopeStage::Hold => self.params.hold_samples,
            EnvelopeStage::Decay => self.params.decay_samples,
            EnvelopeStage::Sustain => 0,
            EnvelopeStage::Release => self.params.release_samples,
            EnvelopeStage::Finished => 0,
        }
    }

    fn next_stage_of(&self, s: EnvelopeStage) -> (n: EnvelopeStage)
        ensures
            n == next_stage(s),
    {
        match s {
            EnvelopeStage::Delay => EnvelopeStage::Attack,
            EnvelopeStage::Attack => EnvelopeStage::Hold,
            EnvelopeStage::Hold => EnvelopeStage::Decay,
            EnvelopeStage::Decay => EnvelopeStage::Sustain,
            EnvelopeStage::Sustain => EnvelopeStage::Sustain,
            EnvelopeStage::Release => EnvelopeStage::Finished,
            EnvelopeStage::Finished => EnvelopeStage::Finished,
        }
    }

    fn normalize(&mut self)
        requires
            params_wf(old(self).params),
            old(self).release_from <= ENV_ONE,
            1 <= old(self).kill_fade_samples <= STAGE_SAMPLES_MAX,
            old(self).pos == 0,
        ensures
            *final(self) == env_normalize_spec(*old(self)),
            env_wf(*final(self)),
    {
        proof {
            lemma_normalize_wf(*self);
        }
        loop
            invariant
                params_wf(self.params),
                self.release_from <= ENV_ONE,
                1 <= self.kill_fade_samples <= STAGE_SAMPLES_MAX,
                self.pos == 0,
                env_normalize_spec(*self) == env_normalize_spec(*old(self)),
            ensures
                *self == env_normalize_spec(*old(self)),
            decreases 6 - stage_rank(self.stage),
        {
            if matches!(self.stage, EnvelopeStage::Sustain | EnvelopeStage::Finished) {
                break ;
            }
            if self.stage_len(self.stage) == 0 {
                self.stage = self.next_stage_of(self.stage);
            } else {
                break ;
            }
        }
    }

    /// A fresh envelope at the top of the stage chain; the kill-fade length
    /// is clamped to at least one sample.
    pub fn new(params: EnvelopeParameters, kill_fade_samples: u64) -> (e: VoiceEnvelope)
        requires
            params_wf(params),
            1 <= kill_fade_samples <= STAGE_SAMPLES_MAX,
        ensures
            e == env_normalize_spec(
                VoiceEnvelope {
                    params,
                    stage: EnvelopeStage::Delay,
                    pos: 0,
                    release_from: 0,
                    kill_fade_samples,
                },
            ),
            env_wf(e),
    {
        let mut e = VoiceEnvelope {
            params,
            stage: EnvelopeStage::Delay,
            pos: 0,
            release_from: 0,
            kill_fade_samples,
        };
        e.normalize();
        e
    }

    /// The current output level.
    pub fn value(&self) -> (v: u32)
        requires
            env_wf(*self),
        ensures
            v == env_value_spec(*self),
            v <= ENV_ONE,
    {
        proof {
            lemma_env_value_bounds(*self);
        }
        match self.stage {
            EnvelopeStage::Sustain => self.params.sustain_value,
            EnvelopeStage::Finished => 0,
            _ => {
                let len = self.stage_len(self.stage);
                let (a, b) = match self.stage {
                    EnvelopeStage::Delay => (self.params.start_value, self.params.start_value),
                    EnvelopeStage::Attack => (self.params.start_value, ENV_ONE),
                    EnvelopeStage::Hold => (ENV_ONE, ENV_ONE),
                    EnvelopeStage::Decay => (ENV_ONE, self.params.sustain_value),
                    EnvelopeStage::Release => (self.release_from, 0),
                    _ => (0, 0),
                };
                if b >= a {
                    let d = (b - a) as u64;
                    proof {
                        assert((d as int) * (self.pos as int) <= 32768
                            * 0x10_0000_0000_0000int) by (nonlinear_arith)
                            requires
                                0 <= d <= 32768,
                                0 <= self.pos <= 0x10_0000_0000_0000,
                        ;
                        lemma_scale_le(d as int, self.pos as int, len as int);
                    }
                    let q = ((d as u128) * (self.pos as u128) / (len as u128)) as u64;
                    a + q as u32
                } else {
                    let d = (a - b) as u64;
                    proof {
                        assert((d as int) * (self.pos as int) <= 32768
                            * 0x10_0000_0000_0000int) by (nonlinear_arith)
                            requires
                                0 <= d <= 32768,
                                0 <= self.pos <= 0x10_0000_0000_0000,
                        ;
                        lemma_scale_le(d as int, self.pos as int, len as int);
                    }
                    let q = ((d as u128) * (self.pos as u128) / (len as u128)) as u64;
                    a - q as u32
                }
            },
        }
    }

    /// Emit the current level and advance one sample.
    pub fn next_value(&mut self) -> (v: u32)
        requires
            env_wf(*old(self)),
        ensures
            v == env_value_spec(*old(self)),
            v <= ENV_ONE,
            *final(self) == env_advance_spec(*old(self)),
            env_wf(*final(self)),
    {
        let v = self.value();
        match self.stage {
            EnvelopeStage::Sustain | EnvelopeStage::Finished => {},
            _ => {
                let len = self.stage_len(self.stage);
                if self.pos + 1 < len {
                    self.pos = self.pos + 1;
                } else {
                    self.stage = self.next_stage_of(self.stage);
                    self.pos = 0;
                    self.normalize();
                }
            },
        }
        v
    }

    /// Start (or ignore) a release: no-op when the envelope is already
    /// releasing or finished.
    pub fn signal_release(&mut self, rel_type: ReleaseType)
        requires
            env_wf(*old(self)),
        ensures
            *final(self) == env_release_spec(*old(self), rel_type),
            env_wf(*final(self)),
    {
        match self.stage {
            EnvelopeStage::Release | EnvelopeStage::Finished => {},
            _ => {
                proof {
                    lemma_env_value_bounds(*self);
                }
                let from = self.value();
                let len = match rel_type {
                    ReleaseType::Standard => self.params.release_samples,
                    ReleaseType::Killed => self.kill_fade_samples,
                };
                self.release_from = from;
                self.pos = 0;
                self.params.release_samples = len;
                if len == 0 {
                    self.stage = EnvelopeStage::Finished;
                } else {
                    self.stage = EnvelopeStage::Release;
                }
            },
        }
    }

    pub fn ended(&self) -> (r: bool)
        ensures
            r == env_ended_spec(*self),
    {
        matches!(self.stage, EnvelopeStage::Finished)
    }
}

/// Advancing a well-formed envelope keeps it well-formed.
pub proof fn lemma_env_advance_wf(e: VoiceEnvelope)
    requires
        env_wf(e),
    ensures
        env_wf(env_advance_spec(e)),
{
    if stage_is_resting(e.stage) {
    } else if e.pos + 1 < stage_len_spec(e, e.stage) {
    } else {
        lemma_normalize_wf(VoiceEnvelope { stage: next_stage(e.stage), pos: 0, ..e });
    }
}

/// Release idempotence: a second release request, of either kind, leaves the
/// envelope exactly as it was; the release ramp is never restarted.
pub proof fn lemma_release_idempotent(e: VoiceEnvelope, first: ReleaseType, second: ReleaseType)
    ensures
        env_release_spec(env_release_spec(e, first), second) == env_release_spec(e, first),
{
}

/// A release started on a live envelope begins exactly at the level the
/// envelope was at, so the output falls smoothly from there.
pub proof fn lemma_release_starts_at_current(e: VoiceEnvelope, rel_type: ReleaseType)
    requires
        env_wf(e),
        e.stage != EnvelopeStage::Release,
        e.stage != EnvelopeStage::Finished,
        release_len_spec(e, rel_type) > 0,
    ensures
        env_value_spec(env_release_spec(e, rel_type)) == env_value_spec(e),
{
    let e2 = env_release_spec(e, rel_type);
    lemma_env_value_bounds(e);
    assert(e2.stage == EnvelopeStage::Release && e2.pos == 0);
    let ep = stage_endpoints_spec(e2, EnvelopeStage::Release);
    if ep.1 >= ep.0 {
        assert(env_value_spec(e2) == ep.0 + (ep.1 - ep.0) * 0 / release_len_spec(e, rel_type));
    } else {
        assert(env_value_spec(e2) == ep.0 - (ep.0 - ep.1) * 0 / release_len_spec(e, rel_type));
    }
}

/// Once releasing, the output never rises again: each step of the release
/// ramp is at or below the one before it.
pub proof fn lemma_release_never_rises(e: VoiceEnvelope)
    requires
        env_wf(e),
        e.stage == EnvelopeStage::Release,
    ensures
        env_value_spec(env_advance_spec(e)) <= env_value_spec(e),
{
    lemma_env_value_bounds(e);
    let from = e.release_from as int;
    let len = stage_len_spec(e, EnvelopeStage::Release);
    let e2 = env_advance_spec(e);
    if e.pos + 1 < len {
        assert(e2.stage == EnvelopeStage::Release && e2.pos == e.pos + 1);
        assert(from * (e.pos as int) <= from * (e.pos + 1)) by (nonlinear_arith)
            requires
                from >= 0,
        ;
        vstd::arithmetic::div_mod::lemma_div_is_ordered(
            from * (e.pos as int),
            from * (e.pos + 1),
            len,
        );
        if from == 0 {
            assert((0int - 0) * (e.pos as int) == 0) by (nonlinear_arith);
            assert((0int - 0) * (e.pos + 1) == 0) by (nonlinear_arith);
            assert(env_value_spec(e) == 0);
            assert(env_value_spec(e2) == 0);
        } else {
            assert(env_value_spec(e) == from - (from - 0) * (e.pos as int) / len);
            assert(env_value_spec(e2) == from - (from - 0) * (e.pos + 1) / len);
            assert((from - 0) * (e.pos as int) == from * (e.pos as int));
            assert((from - 0) * (e.pos + 1) == from * (e.pos + 1));
        }
    } else {
        assert(e2.stage == EnvelopeStage::Finished);
        lemma_env_value_bounds(e);
    }
}

/// The envelope `n` samples later.
pub open spec fn env_after_spec(e: VoiceEnvelope, n: nat) -> VoiceEnvelope
    decreases n,
{
    if n == 0 {
        e
    } else {
        env_advance_spec(env_after_spec(e, (n - 1) as nat))
    }
}

/// Stepping one sample and then `n` is stepping `n + 1` samples.
pub proof fn lemma_env_after_shift(e: VoiceEnvelope, n: nat)
    ensures
        env_after_spec(e, (n + 1) as nat) == env_after_spec(env_advance_spec(e), n),
    decreases n,
{
    if n == 0 {
        assert(env_after_spec(e, 1) == env_advance_spec(env_after_spec(e, 0)));
        assert(env_after_spec(e, 0) == e);
        assert(env_after_spec(env_advance_spec(e), 0) == env_advance_spec(e));
    } else {
        lemma_env_after_shift(e, (n - 1) as nat);
        assert(env_after_spec(e, (n + 1) as nat) == env_advance_spec(env_after_spec(e, n)));
        assert(env_after_spec(env_advance_spec(e), n) == env_advance_spec(
            env_after_spec(env_advance_spec(e), (n - 1) as nat),
        ));
    }
}

/// A releasing envelope stays releasing or finishes; it never re-enters an
/// earlier stage.
pub proof fn lemma_release_stage_stays(e: VoiceEnvelope, n: nat)
    requires
        env_wf(e),
        e.stage == EnvelopeStage::Release || e.stage == EnvelopeStage::Finished,
    ensures
        env_wf(env_after_spec(e, n)),
        env_after_spec(e, n).stage == EnvelopeStage::Release || env_after_spec(e, n).stage
            == EnvelopeStage::Finished,
    decreases n,
{
    if n > 0 {
        lemma_release_stage_stays(e, (n - 1) as nat);
        lemma_env_advance_wf(env_after_spec(e, (n - 1) as nat));
    }
}

/// Once releasing, the output never rises again, block after block: each
/// rendered sample's gain is at or below the one before it.
pub proof fn lemma_release_never_rises_block(e: VoiceEnvelope, n: nat)
    requires
        env_wf(e),
        e.stage == EnvelopeStage::Release || e.stage == EnvelopeStage::Finished,
    ensures
        env_value_spec(env_after_spec(e, (n + 1) as nat)) <= env_value_spec(env_after_spec(e, n)),
        env_value_spec(env_after_spec(e, n)) <= env_value_spec(e),
    decreases n,
{
    lemma_release_stage_stays(e, n);
    let en = env_after_spec(e, n);
    if en.stage == EnvelopeStage::Release {
        lemma_release_never_rises(en);
    }
    if n > 0 {
        lemma_release_never_rises_block(e, (n - 1) as nat);
    }
}

/// A releasing envelope has ended once its remaining ramp has played out.
pub proof fn lemma_release_finishes(e: VoiceEnvelope)
    requires
        env_wf(e),
        e.stage == EnvelopeStage::Release,
    ensures
        env_ended_spec(
            env_after_spec(
                e,
                (stage_len_spec(e, EnvelopeStage::Release) - e.pos) as nat,
            ),
        ),
    decreases stage_len_spec(e, EnvelopeStage::Release) - e.pos,
{
    let len = stage_len_spec(e, EnvelopeStage::Release);
    let remaining = (len - e.pos) as nat;
    let e1 = env_advance_spec(e);
    lemma_env_after_shift(e, (remaining - 1) as nat);
    if e.pos + 1 < len {
        lemma_env_advance_wf(e);
        lemma_release_finishes(e1);
    } else {
        assert(e1.stage == EnvelopeStage::Finished);
        assert(remaining == 1);
        assert(env_after_spec(e1, 0) == e1);
    }
}

/// A release request on a live envelope runs out within its ramp: the
/// envelope has ended once the requested release length has played.
pub proof fn lemma_env_release_finishes(e: VoiceEnvelope, rel_type: ReleaseType)
    requires
        env_wf(e),
        e.stage != EnvelopeStage::Release,
        e.stage != EnvelopeStage::Finished,
    ensures
        env_ended_spec(
            env_after_spec(
                env_release_spec(e, rel_type),
                release_len_spec(e, rel_type) as nat,
            ),
        ),
{
    let e2 = env_release_spec(e, rel_type);
    lemma_env_value_bounds(e);
    if e2.stage == EnvelopeStage::Finished {
        lemma_ended_monotone_steps(e2, 0, release_len_spec(e, rel_type) as nat);
    } else {
        assert(e2.stage == EnvelopeStage::Release && e2.pos == 0);
        assert(stage_len_spec(e2, EnvelopeStage::Release) == release_len_spec(e, rel_type));
        lemma_release_finishes(e2);
    }
}

/// A forced kill ends the envelope within the kill fade: a few
/// milliseconds of samples after the kill release, whatever stage the
/// envelope was in.
pub proof fn lemma_kill_fade_finishes(e: VoiceEnvelope)
    requires
        env_wf(e),
        e.stage != EnvelopeStage::Release,
        e.stage != EnvelopeStage::Finished,
    ensures
        env_ended_spec(
            env_after_spec(
                env_release_spec(e, ReleaseType::Killed),
                e.kill_fade_samples as nat,
            ),
        ),
{
    lemma_env_release_finishes(e, ReleaseType::Killed);
}

/// An ended envelope stays ended over any further steps, so ending by step
/// `n1` means ended at every later step.
pub proof fn lemma_ended_monotone_steps(e: VoiceEnvelope, n1: nat, n2: nat)
    requires
        env_ended_spec(env_after_spec(e, n1)),
        n1 <= n2,
    ensures
        env_ended_spec(env_after_spec(e, n2)),
    decreases n2 - n1,
{
    if n1 < n2 {
        assert(env_after_spec(e, (n1 + 1) as nat) == env_advance_spec(env_after_spec(e, n1)));
        lemma_ended_monotone_steps(e, (n1 + 1) as nat, n2);
    }
}

/// A release request preserves well-formedness.
pub proof fn lemma_env_release_wf(e: VoiceEnvelope, rel_type: ReleaseType)
    requires
        env_wf(e),
    ensures
        env_wf(env_release_spec(e, rel_type)),
{
    if e.stage == EnvelopeStage::Release || e.stage == EnvelopeStage::Finished {
    } else {
        lemma_env_value_bounds(e);
    }
}

/// A finished envelope stays finished through any further step or release.
pub proof fn lemma_env_ended_stays_ended(e: VoiceEnvelope, rel_type: ReleaseType)
    requires
        env_ended_spec(e),
    ensures
        env_ended_spec(env_advance_spec(e)),
        env_ended_spec(env_release_spec(e, rel_type)),
{
}

/// A finished envelope outputs silence.
pub proof fn lemma_env_ended_silent(e: VoiceEnvelope)
    requires
        env_ended_spec(e),
    ensures
        env_value_spec(e) == 0,
{
}

} // verus!
