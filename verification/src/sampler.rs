use crate::intdiv::i64_div_floor;
use crate::pitch::PITCH_ONE;
use crate::sample::{sample_at, sample_values_bounded, BufferSamplers, SAMPLE_ONE};
use vstd::arithmetic::div_mod::{lemma_fundamental_div_mod, lemma_fundamental_div_mod_converse};
use vstd::prelude::*;

verus! {

/// How playback continues once the position runs past the loop end.
#[derive(Clone, Copy, PartialEq, Eq, Structural, Debug)]
pub enum LoopMode {
    NoLoop,
    OneShot,
    LoopContinuous,
    LoopSustain,
}

/// Loop region of a sample, in frames of the decoded buffer.
#[derive(Clone, Copy, PartialEq, Eq, Structural, Debug)]
pub struct LoopParams {
    pub offset: u32,
    pub start: u32,
    pub end: u32,
    pub mode: LoopMode,
}

impl LoopParams {
    /// Plain playback from the start of the buffer.
    pub fn no_loop() -> (r: LoopParams)
        ensures
            r.offset == 0 && r.start == 0 && r.end == 0 && r.mode == LoopMode::NoLoop,
    {
        LoopParams { offset: 0, start: 0, end: 0, mode: LoopMode::NoLoop }
    }
}

pub open spec fn is_looping(m: LoopMode) -> bool {
    m == LoopMode::LoopContinuous || m == LoopMode::LoopSustain
}

/// A looping region must lie inside the buffer and be non-empty.
pub open spec fn loop_params_wf(lp: LoopParams, len: int) -> bool {
    is_looping(lp.mode) ==> lp.start < lp.end <= len
}

/// Maps a monotonically increasing playback position through the loop
/// policy: past the loop end the position folds back by whole loop lengths
/// into the loop region.
pub open spec fn mapped_pos_spec(lp: LoopParams, pos: int) -> int {
    let p = pos + lp.offset;
    if is_looping(lp.mode) && p > lp.end {
        let diff = lp.end - lp.start;
        p - ((p - lp.end) / diff + 1) * diff
    } else {
        p
    }
}

/// Reads a sample buffer at an arbitrary integer position, applying the
/// sample offset and the loop policy; reads past the raw buffer yield
/// silence and never fault.
pub struct SampleReader {
    pub buffer: BufferSamplers,
    pub loop_params: LoopParams,
}

pub open spec fn reader_wf(r: &SampleReader) -> bool {
    &&& loop_params_wf(r.loop_params, r.buffer.values().len() as int)
    &&& sample_values_bounded(r.buffer.values())
}

/// What `SampleReader::get` returns at a position.
pub open spec fn reader_get_spec(r: &SampleReader, pos: int) -> i32 {
    sample_at(r.buffer.values(), mapped_pos_spec(r.loop_params, pos))
}

/// Positions a non-looping reader has run off the end of; a looping reader
/// is never past the end.
pub open spec fn reader_past_end_spec(r: &SampleReader, pos: int) -> bool {
    !is_looping(r.loop_params.mode) && pos - r.loop_params.offset >= r.buffer.values().len()
}

impl SampleReader {
    pub fn new(buffer: BufferSamplers, loop_params: LoopParams) -> (r: SampleReader)
        ensures
            r.buffer == buffer,
            r.loop_params == loop_params,
    {
        SampleReader { buffer, loop_params }
    }

    pub fn get(&self, pos: u64) -> (v: i32)
        requires
            reader_wf(self),
            pos <= 0x0008_0000_0000_0000,
        ensures
            v == reader_get_spec(self, pos as int),
            -SAMPLE_ONE <= v <= SAMPLE_ONE,
    {
        let p = pos + self.loop_params.offset as u64;
        let v = match self.loop_params.mode {
            LoopMode::NoLoop | LoopMode::OneShot => self.buffer.get(p),
            LoopMode::LoopContinuous | LoopMode::LoopSustain => {
                let end = self.loop_params.end as u64;
                let start = self.loop_params.start as u64;
                if p > end {
                    let tmp = p - end;
                    let diff = end - start;
                    let n = tmp / diff + 1;
                    proof {
                        let q = tmp as int / diff as int;
                        let r = tmp as int % diff as int;
                        lemma_fundamental_div_mod(tmp as int, diff as int);
                        assert((q + 1) * (diff as int) == q * (diff as int) + diff)
                            by (nonlinear_arith);
                        assert(q * (diff as int) == tmp - r) by (nonlinear_arith)
                            requires
                                tmp as int == (diff as int) * q + r,
                        ;
                    }
                    self.buffer.get(p - n * diff)
                } else {
                    self.buffer.get(p)
                }
            },
        };
        proof {
            // The value is either a stored sample (bounded by the buffer
            // invariant) or the silence read past the buffer.
            if !(-SAMPLE_ONE <= v <= SAMPLE_ONE) {
                assert(v == 0);
            }
        }
        v
    }

    pub fn is_past_end(&self, pos: u64) -> (r: bool)
        ensures
            r == reader_past_end_spec(self, pos as int),
    {
        match self.loop_params.mode {
            LoopMode::NoLoop | LoopMode::OneShot => {
                let len = self.buffer.length();
                pos >= self.loop_params.offset as u64
                    && pos - self.loop_params.offset as u64 >= len as u64
            },
            LoopMode::LoopContinuous | LoopMode::LoopSustain => false,
        }
    }
}

/// Looping law: in a continuous loop with no extra sample offset, the reader
/// repeats the loop region exactly, period after period. The one position
/// left out is the loop end itself (one whole period past the loop start),
/// which still reads the buffer directly rather than folding back.
pub proof fn lemma_loop_read_periodic(r: &SampleReader, n: int, k: int)
    requires
        reader_wf(r),
        is_looping(r.loop_params.mode),
        r.loop_params.offset == 0,
        0 <= k < r.loop_params.end - r.loop_params.start,
        n >= 0,
        !(n == 1 && k == 0),
    ensures
        reader_get_spec(
            r,
            r.loop_params.start + n * (r.loop_params.end - r.loop_params.start) + k,
        ) == reader_get_spec(r, r.loop_params.start + k),
{
    let start = r.loop_params.start as int;
    let end = r.loop_params.end as int;
    let diff = end - start;
    let pos = start + n * diff + k;
    if n == 0 {
    } else {
        assert(n * diff >= diff) by (nonlinear_arith)
            requires
                n >= 1,
                diff >= 1,
        ;
        assert(pos > end || (n == 1 && k == 0)) by (nonlinear_arith)
            requires
                pos == start + n * diff + k,
                end == start + diff,
                n >= 1,
                diff >= 1,
                k >= 0,
        ;
        assert(pos - end == (n - 1) * diff + k) by (nonlinear_arith)
            requires
                pos == start + n * diff + k,
                end == start + diff,
        ;
        lemma_fundamental_div_mod_converse(pos - end, diff, n - 1, k);
        assert((pos - end) / diff == n - 1);
        assert(mapped_pos_spec(r.loop_params, pos) == pos - n * diff) by (nonlinear_arith)
            requires
                mapped_pos_spec(r.loop_params, pos) == pos - ((pos - end) / diff + 1) * diff,
                (pos - end) / diff == n - 1,
        ;
        assert(pos - n * diff == start + k) by (nonlinear_arith)
            requires
                pos == start + n * diff + k,
        ;
        assert(start + k < end);
        assert(mapped_pos_spec(r.loop_params, start + k) == start + k);
    }
}

/// Interpolation used when a grabber reads between two frames.
pub enum SampleGrabbers {
    Nearest(SampleReader),
    Linear(SampleReader),
}

pub open spec fn grabber_reader(g: &SampleGrabbers) -> &SampleReader {
    match g {
        SampleGrabbers::Nearest(r) => r,
        SampleGrabbers::Linear(r) => r,
    }
}

pub open spec fn grabber_wf(g: &SampleGrabbers) -> bool {
    reader_wf(grabber_reader(g))
}

/// What a grabber returns for a rounded-down frame index and a Q32
/// fractional part: the nearest grabber ignores the fraction, the linear
/// grabber interpolates towards the next frame.
pub open spec fn grabber_get_spec(g: &SampleGrabbers, index: int, frac: int) -> int {
    match g {
        SampleGrabbers::Nearest(r) => reader_get_spec(r, index) as int,
        SampleGrabbers::Linear(r) => {
            let v0 = reader_get_spec(r, index) as int;
            let v1 = reader_get_spec(r, index + 1) as int;
            v0 + (v1 - v0) * frac / 0x1_0000_0000
        },
    }
}

impl SampleGrabbers {
    pub fn nearest(reader: SampleReader) -> (g: SampleGrabbers)
        ensures
            g == SampleGrabbers::Nearest(reader),
    {
        SampleGrabbers::Nearest(reader)
    }

    pub fn linear(reader: SampleReader) -> (g: SampleGrabbers)
        ensures
            g == SampleGrabbers::Linear(reader),
    {
        SampleGrabbers::Linear(reader)
    }

    pub fn get(&self, index: u64, frac: u64) -> (v: i32)
        requires
            grabber_wf(self),
            index <= 0x0004_0000_0000_0000,
            frac < PITCH_ONE,
        ensures
            v == grabber_get_spec(self, index as int, frac as int),
            -SAMPLE_ONE <= v <= SAMPLE_ONE,
    {
        match self {
            SampleGrabbers::Nearest(r) => r.get(index),
            SampleGrabbers::Linear(r) => {
                let v0 = r.get(index);
                let v1 = r.get(index + 1);
                let d: i64 = v1 as i64 - v0 as i64;
                proof {
                    assert(d * frac <= 65536 * 0x1_0000_0000 && d * frac
                        >= -65536 * 0x1_0000_0000) by (nonlinear_arith)
                        requires
                            -65536 <= d <= 65536,
                            0 <= frac < 0x1_0000_0000,
                    ;
                }
                let step = i64_div_floor(d * frac as i64, 0x1_0000_0000);
                proof {
                    let di = d as int;
                    let fi = frac as int;
                    if di >= 0 {
                        assert(0 <= di * fi <= di * 0x1_0000_0000) by (nonlinear_arith)
                            requires
                                di >= 0,
                                0 <= fi < 0x1_0000_0000,
                        ;
                        assert(di * 0x1_0000_0000 / 0x1_0000_0000 == di) by {
                            vstd::arithmetic::div_mod::lemma_div_multiples_vanish(
                                di,
                                0x1_0000_0000,
                            );
                        };
                        vstd::arithmetic::div_mod::lemma_div_is_ordered(
                            0,
                            di * fi,
                            0x1_0000_0000,
                        );
                        vstd::arithmetic::div_mod::lemma_div_is_ordered(
                            di * fi,
                            di * 0x1_0000_0000,
                            0x1_0000_0000,
                        );
                    } else {
                        assert(di * 0x1_0000_0000 <= di * fi <= 0) by (nonlinear_arith)
                            requires
                                di < 0,
                                0 <= fi < 0x1_0000_0000,
                        ;
                        assert(di * 0x1_0000_0000 / 0x1_0000_0000 == di) by {
                            vstd::arithmetic::div_mod::lemma_div_multiples_vanish(
                                di,
                                0x1_0000_0000,
                            );
                        };
                        vstd::arithmetic::div_mod::lemma_div_is_ordered(
                            di * 0x1_0000_0000,
                            di * fi,
                            0x1_0000_0000,
                        );
                        vstd::arithmetic::div_mod::lemma_div_is_ordered(
                            di * fi,
                            0,
                            0x1_0000_0000,
                        );
                    }
                }
                v0 + step as i32
            },
        }
    }

    pub fn is_past_end(&self, pos: u64) -> (r: bool)
        ensures
            r == reader_past_end_spec(grabber_reader(self), pos as int),
    {
        match self {
            SampleGrabbers::Nearest(r) => r.is_past_end(pos),
            SampleGrabbers::Linear(r) => r.is_past_end(pos),
        }
    }
}

/// Pulls interpolated frames from a left and a right grabber while a Q32
/// time accumulator advances by the playback speed every frame.
pub struct StereoVoiceSampler {
    pub grabber_left: SampleGrabbers,
    pub grabber_right: SampleGrabbers,
    pub time: u64,
}

pub open spec fn sampler_wf(s: &StereoVoiceSampler) -> bool {
    &&& grabber_wf(&s.grabber_left)
    &&& grabber_wf(&s.grabber_right)
}

/// Integer frame index the sampler currently points at.
pub open spec fn sampler_index_spec(s: &StereoVoiceSampler) -> int {
    s.time as int / 0x1_0000_0000
}

pub open spec fn sampler_frac_spec(s: &StereoVoiceSampler) -> int {
    s.time as int % 0x1_0000_0000
}

/// The stereo frame the sampler emits before advancing.
pub open spec fn sampler_out_spec(s: &StereoVoiceSampler) -> (int, int) {
    (
        grabber_get_spec(&s.grabber_left, sampler_index_spec(s), sampler_frac_spec(s)),
        grabber_get_spec(&s.grabber_right, sampler_index_spec(s), sampler_frac_spec(s)),
    )
}

/// The sampler state after one frame at the given speed: time advances and
/// saturates at the top of its range rather than wrapping.
pub open spec fn sampler_advance_spec(s: StereoVoiceSampler, speed: int) -> StereoVoiceSampler {
    StereoVoiceSampler {
        time: if s.time + speed > u64::MAX {
            u64::MAX
        } else {
            (s.time + speed) as u64
        },
        ..s
    }
}

/// Whether the sampler has run off the end of a non-looping sample.
pub open spec fn sampler_past_end_spec(s: &StereoVoiceSampler) -> bool {
    reader_past_end_spec(grabber_reader(&s.grabber_left), sampler_index_spec(s))
        || reader_past_end_spec(grabber_reader(&s.grabber_right), sampler_index_spec(s))
}

impl StereoVoiceSampler {
    pub fn new(grabber_left: SampleGrabbers, grabber_right: SampleGrabbers) -> (s:
        StereoVoiceSampler)
        ensures
            s.grabber_left == grabber_left,
            s.grabber_right == grabber_right,
            s.time == 0,
    {
        StereoVoiceSampler { grabber_left, grabber_right, time: 0 }
    }

    pub fn next_sample(&mut self, speed: u64) -> (out: (i32, i32))
        requires
            sampler_wf(old(self)),
        ensures
            (out.0 as int, out.1 as int) == sampler_out_spec(old(self)),
            -SAMPLE_ONE <= out.0 <= SAMPLE_ONE,
            -SAMPLE_ONE <= out.1 <= SAMPLE_ONE,
            *final(self) == sampler_advance_spec(*old(self), speed as int),
            sampler_wf(final(self)),
    {
        let idx = self.time / PITCH_ONE;
        let frac = self.time % PITCH_ONE;
        let l = self.grabber_left.get(idx, frac);
        let r = self.grabber_right.get(idx, frac);
        self.time = if self.time > u64::MAX - speed {
            u64::MAX
        } else {
            self.time + speed
        };
        (l, r)
    }

    pub fn ended(&self) -> (r: bool)
        ensures
            r == sampler_past_end_spec(self),
    {
        let idx = self.time / PITCH_ONE;
        self.grabber_left.is_past_end(idx) || self.grabber_right.is_past_end(idx)
    }
}

/// Whatever the position, a well-formed reader hands out values in the Q15
/// range.
pub proof fn lemma_reader_get_bounds(r: &SampleReader, pos: int)
    requires
        reader_wf(r),
    ensures
        -SAMPLE_ONE <= reader_get_spec(r, pos) <= SAMPLE_ONE,
{
}

/// Whatever the index and fraction, a well-formed grabber hands out values
/// in the Q15 range.
pub proof fn lemma_grabber_get_bounds(g: &SampleGrabbers, index: int, frac: int)
    requires
        grabber_wf(g),
        0 <= frac < 0x1_0000_0000,
    ensures
        -SAMPLE_ONE <= grabber_get_spec(g, index, frac) <= SAMPLE_ONE,
{
    match g {
        SampleGrabbers::Nearest(r) => {
            lemma_reader_get_bounds(r, index);
        },
        SampleGrabbers::Linear(r) => {
            lemma_reader_get_bounds(r, index);
            lemma_reader_get_bounds(r, index + 1);
            let v0 = reader_get_spec(r, index) as int;
            let v1 = reader_get_spec(r, index + 1) as int;
            crate::intdiv::lemma_scale_signed(v1 - v0, frac, 0x1_0000_0000);
        },
    }
}

/// The sampler's stereo output always stays in the Q15 range.
pub proof fn lemma_sampler_out_bounds(s: &StereoVoiceSampler)
    requires
        sampler_wf(s),
    ensures
        -SAMPLE_ONE <= sampler_out_spec(s).0 <= SAMPLE_ONE,
        -SAMPLE_ONE <= sampler_out_spec(s).1 <= SAMPLE_ONE,
{
    assert(0 <= sampler_frac_spec(s) < 0x1_0000_0000) by {
        vstd::arithmetic::div_mod::lemma_mod_bound(s.time as int, 0x1_0000_0000);
    };
    lemma_grabber_get_bounds(&s.grabber_left, sampler_index_spec(s), sampler_frac_spec(s));
    lemma_grabber_get_bounds(&s.grabber_right, sampler_index_spec(s), sampler_frac_spec(s));
}

/// Once a sampler is past the end it stays past the end: time never moves
/// backwards, and the past-end test is monotone in the position.
pub proof fn lemma_sampler_past_end_monotone(s: StereoVoiceSampler, speed: int)
    requires
        speed >= 0,
        sampler_past_end_spec(&s),
    ensures
        sampler_past_end_spec(&sampler_advance_spec(s, speed)),
{
    let s2 = sampler_advance_spec(s, speed);
    assert(s2.time >= s.time);
    vstd::arithmetic::div_mod::lemma_div_is_ordered(
        s.time as int,
        s2.time as int,
        0x1_0000_0000,
    );
}

/// A sampler past the end of its (non-looping) sample emits silence.
pub proof fn lemma_sampler_past_end_silent(s: &StereoVoiceSampler)
    requires
        sampler_wf(s),
        sampler_past_end_spec(s),
        grabber_reader(&s.grabber_left).buffer.values().len()
            == grabber_reader(&s.grabber_right).buffer.values().len(),
        grabber_reader(&s.grabber_left).loop_params
            == grabber_reader(&s.grabber_right).loop_params,
    ensures
        sampler_out_spec(s) == (0int, 0int),
{
    let idx = sampler_index_spec(s);
    let frac = sampler_frac_spec(s);
    let lp = grabber_reader(&s.grabber_left).loop_params;
    let len = grabber_reader(&s.grabber_left).buffer.values().len() as int;
    assert(idx - lp.offset >= len);
    assert(mapped_pos_spec(lp, idx) == idx + lp.offset);
    assert(mapped_pos_spec(lp, idx + 1) == idx + 1 + lp.offset);
    assert(idx + lp.offset >= len);
    lemma_grabber_silent(&s.grabber_left, idx, frac);
    lemma_grabber_silent(&s.grabber_right, idx, frac);
}

/// A grabber whose reader is past the end of a non-looping sample emits
/// silence, whatever the interpolation.
proof fn lemma_grabber_silent(g: &SampleGrabbers, idx: int, frac: int)
    requires
        reader_past_end_spec(grabber_reader(g), idx),
    ensures
        grabber_get_spec(g, idx, frac) == 0,
{
    let r = grabber_reader(g);
    let lp = r.loop_params;
    let len = r.buffer.values().len() as int;
    assert(idx + lp.offset >= len);
    assert(mapped_pos_spec(lp, idx) == idx + lp.offset);
    assert(mapped_pos_spec(lp, idx + 1) == idx + 1 + lp.offset);
    assert(reader_get_spec(r, idx) == 0);
    assert(reader_get_spec(r, idx + 1) == 0);
    match g {
        SampleGrabbers::Nearest(rr) => {
            assert(grabber_get_spec(g, idx, frac) == reader_get_spec(rr, idx) as int);
        },
        SampleGrabbers::Linear(rr) => {
            let v0 = reader_get_spec(rr, idx) as int;
            let v1 = reader_get_spec(rr, idx + 1) as int;
            assert(v0 == 0 && v1 == 0);
            assert((v1 - v0) * frac == 0) by (nonlinear_arith)
                requires
                    v1 - v0 == 0,
            ;
            assert(grabber_get_spec(g, idx, frac) == v0 + (v1 - v0) * frac / 0x1_0000_0000);
        },
    }
}

} // verus!
