use crate::channel_sf::{channel_sf_wf, matrix_attack_at, ChannelSoundfont, Soundfont};
use crate::envelope::ReleaseType;
use crate::pitch::bend_ratio;
use crate::sample::SAMPLE_ONE;
use crate::soundfont::{spawned_voice_spec, SampledVoiceSpawner};
use crate::voice::{
    control_wf, gen_ended_spec, voice_after_spec, voice_controls_spec, voice_out_at_spec,
    voice_release_spec, voice_wf, VoiceBase, VoiceControlData,
};
use std::sync::Arc;
use vstd::prelude::*;

verus! {

/// Hard bound on the number of voices a channel will hold at once.
pub const MAX_POOL_VOICES: usize = 1048576;

/// Options fixed when a channel is created.
#[derive(Clone, Copy, PartialEq, Eq, Structural, Debug)]
pub struct ChannelInitOptions {
    pub fade_out_killing: bool,
}

impl Default for ChannelInitOptions {
    /// Evicted voices are dropped at once unless fade-out killing is asked
    /// for.
    fn default() -> (d: Self)
        ensures
            d.fade_out_killing == false,
    {
        ChannelInitOptions { fade_out_killing: false }
    }
}

/// A control-level event a caller can post to a channel. The pitch bend
/// carries its displacement in cents of a semitone.
pub enum ControlEvent {
    Raw(u8, u8),
    PitchBendValue(i32),
    ResetControl,
    AllNotesOff,
}

/// A configuration event a caller can post to a channel.
pub enum ChannelConfigEvent {
    SetSoundfonts(Vec<Arc<Soundfont>>),
    SetProgram(u8, u8),
}

/// Any event a caller can post to a channel.
pub enum ChannelEvent {
    NoteOn { key: u8, vel: u8 },
    NoteOff { key: u8 },
    Control(ControlEvent),
    Config(ChannelConfigEvent),
}

/// One playing voice together with the key that spawned it.
pub struct ActiveVoice {
    pub key: u8,
    pub voice: VoiceBase,
}

/// A channel's pool of active voices over its soundfont stack.
pub struct VoiceChannel {
    pub channel_sf: ChannelSoundfont,
    pub voices: Vec<ActiveVoice>,
    pub control: VoiceControlData,
    pub options: ChannelInitOptions,
    pub layer_limit: Option<usize>,
    pub ignore_vel_lo: u8,
    pub ignore_vel_hi: u8,
}

pub open spec fn channel_wf(c: &VoiceChannel) -> bool {
    &&& channel_sf_wf(&c.channel_sf)
    &&& control_wf(c.control)
    &&& c.voices@.len() <= MAX_POOL_VOICES
    &&& forall|i: int| 0 <= i < c.voices@.len() ==> voice_wf(&(#[trigger] c.voices@[i]).voice)
}

/// The pool after appending the spawned voices for a note-on, stopping at
/// the hard pool bound.
pub open spec fn pool_after_spawn_spec(
    old_voices: Seq<ActiveVoice>,
    cell: Seq<SampledVoiceSpawner>,
    control: VoiceControlData,
    key: u8,
) -> Seq<ActiveVoice> {
    let room = if old_voices.len() >= MAX_POOL_VOICES {
        0int
    } else {
        MAX_POOL_VOICES - old_voices.len()
    };
    let n = if cell.len() <= room {
        cell.len() as int
    } else {
        room
    };
    old_voices + Seq::new(
        n as nat,
        |i: int| ActiveVoice { key, voice: spawned_voice_spec(cell[i], control) },
    )
}

/// The pool after the oldest voices beyond the limit are told to die with a
/// kill fade: they stay in the pool for their last few milliseconds.
pub open spec fn pool_kill_oldest_spec(vs: Seq<ActiveVoice>, limit: int) -> Seq<ActiveVoice> {
    if vs.len() <= limit {
        vs
    } else {
        Seq::new(
            vs.len(),
            |i: int|
                if i < vs.len() - limit {
                    ActiveVoice {
                        key: vs[i].key,
                        voice: voice_release_spec(vs[i].voice, ReleaseType::Killed),
                    }
                } else {
                    vs[i]
                },
        )
    }
}

/// The pool after the oldest voices beyond the limit are dropped at once.
pub open spec fn pool_drop_oldest_spec(vs: Seq<ActiveVoice>, limit: int) -> Seq<ActiveVoice> {
    if vs.len() <= limit {
        vs
    } else {
        vs.subrange(vs.len() - limit, vs.len() as int)
    }
}

/// The pool after a note-off: every non-releasing voice on the key starts
/// its standard release.
pub open spec fn pool_note_off_spec(vs: Seq<ActiveVoice>, key: u8) -> Seq<ActiveVoice> {
    Seq::new(
        vs.len(),
        |i: int|
            if vs[i].key == key && !vs[i].voice.releasing {
                ActiveVoice {
                    key: vs[i].key,
                    voice: voice_release_spec(vs[i].voice, ReleaseType::Standard),
                }
            } else {
                vs[i]
            },
    )
}

/// The stereo sum of every voice's output at frame `j` of a block.
pub open spec fn mixed_out_spec(vs: Seq<ActiveVoice>, j: nat) -> (int, int)
    decreases vs.len(),
{
    if vs.len() == 0 {
        (0int, 0int)
    } else {
        let rest = mixed_out_spec(vs.drop_last(), j);
        let last = voice_out_at_spec(vs.last().voice.gen, j);
        (rest.0 + last.0, rest.1 + last.1)
    }
}

/// The voices that survive a block of `frames` frames, each advanced by the
/// block; voices that have ended are dropped.
pub open spec fn surviving_spec(vs: Seq<ActiveVoice>, frames: nat) -> Seq<ActiveVoice>
    decreases vs.len(),
{
    if vs.len() == 0 {
        Seq::empty()
    } else {
        let rest = surviving_spec(vs.drop_last(), frames);
        let adv = VoiceBase { gen: voice_after_spec(vs.last().voice.gen, frames), ..vs.last().voice };
        if gen_ended_spec(&adv.gen) {
            rest
        } else {
            rest + seq![ActiveVoice { key: vs.last().key, voice: adv }]
        }
    }
}

/// Additive mixing law: the mix of two voice sets is, frame by frame, the
/// sum of the mixes of each set alone.
pub proof fn lemma_mixing_additive(vs1: Seq<ActiveVoice>, vs2: Seq<ActiveVoice>, j: nat)
    ensures
        mixed_out_spec(vs1 + vs2, j).0 == mixed_out_spec(vs1, j).0 + mixed_out_spec(vs2, j).0,
        mixed_out_spec(vs1 + vs2, j).1 == mixed_out_spec(vs1, j).1 + mixed_out_spec(vs2, j).1,
    decreases vs2.len(),
{
    if vs2.len() == 0 {
        assert(vs1 + vs2 =~= vs1);
    } else {
        lemma_mixing_additive(vs1, vs2.drop_last(), j);
        assert((vs1 + vs2).drop_last() =~= vs1 + vs2.drop_last());
        assert((vs1 + vs2).last() == vs2.last());
    }
}

/// Every frame of a mix is bounded by one full-scale sample per voice.
pub proof fn lemma_mixed_out_bound(vs: Seq<ActiveVoice>, j: nat)
    requires
        forall|i: int| 0 <= i < vs.len() ==> voice_wf(&(#[trigger] vs[i]).voice),
    ensures
        -(vs.len() as int) * (SAMPLE_ONE as int) <= mixed_out_spec(vs, j).0 <= (vs.len() as int)
            * (SAMPLE_ONE as int),
        -(vs.len() as int) * (SAMPLE_ONE as int) <= mixed_out_spec(vs, j).1 <= (vs.len() as int)
            * (SAMPLE_ONE as int),
    decreases vs.len(),
{
    if vs.len() > 0 {
        assert(forall|i: int|
            0 <= i < vs.drop_last().len() ==> voice_wf(&(#[trigger] vs.drop_last()[i]).voice));
        lemma_mixed_out_bound(vs.drop_last(), j);
        crate::voice::lemma_voice_out_bound(vs.last().voice.gen, j);
        assert((vs.len() as int) * (SAMPLE_ONE as int) == (vs.len() - 1) * (SAMPLE_ONE as int)
            + SAMPLE_ONE) by (nonlinear_arith);
    }
}


/// The configuration fields no event ever touches.
pub open spec fn channel_config_unchanged(pre: VoiceChannel, post: VoiceChannel) -> bool {
    &&& post.options == pre.options
    &&& post.layer_limit == pre.layer_limit
    &&& post.ignore_vel_lo == pre.ignore_vel_lo
    &&& post.ignore_vel_hi == pre.ignore_vel_hi
}

/// Everything a note-off promises about the channel's new state.
pub open spec fn note_off_post_spec(pre: VoiceChannel, post: VoiceChannel, key: u8) -> bool {
    &&& post.voices@ == pool_note_off_spec(pre.voices@, key)
    &&& post.channel_sf == pre.channel_sf
    &&& post.control == pre.control
    &&& channel_config_unchanged(pre, post)
}

/// Everything a note-on promises: velocity zero acts as a note-off, ignored
/// velocities change nothing, and otherwise the pool is the spawned pool
/// with the configured eviction applied.
pub open spec fn note_on_post_spec(pre: VoiceChannel, post: VoiceChannel, key: u8, vel: u8) -> bool {
    &&& post.channel_sf == pre.channel_sf
    &&& post.control == pre.control
    &&& channel_config_unchanged(pre, post)
    &&& (vel == 0 ==> post.voices@ == pool_note_off_spec(pre.voices@, key))
    &&& (vel >= 1 && pre.ignore_vel_lo <= vel <= pre.ignore_vel_hi ==> post == pre)
    &&& (vel >= 1 && !(pre.ignore_vel_lo <= vel <= pre.ignore_vel_hi) ==> {
        let key_c = if key > 127 {
            127u8
        } else {
            key
        };
        let vel_c = if vel > 127 {
            127u8
        } else {
            vel
        };
        let spawned = pool_after_spawn_spec(
            pre.voices@,
            matrix_attack_at(&pre.channel_sf.matrix, key_c as int, vel_c as int),
            pre.control,
            key_c,
        );
        match pre.layer_limit {
            None => post.voices@ == spawned,
            Some(limit) => post.voices@ == (if pre.options.fade_out_killing {
                pool_kill_oldest_spec(spawned, limit as int)
            } else {
                pool_drop_oldest_spec(spawned, limit as int)
            }),
        }
    })
}

/// The pitch bend a channel applies: the posted cents, clamped to four
/// octaves either way.
pub open spec fn clamp_cents_spec(cents: int) -> int {
    if cents < -4800 {
        -4800int
    } else if cents > 4800 {
        4800int
    } else {
        cents
    }
}

/// Everything a pitch-bend event promises: the control multiplier takes the
/// bend ratio and every live voice re-reads the controls.
pub open spec fn pitch_bend_post_spec(pre: VoiceChannel, post: VoiceChannel, cents: int) -> bool {
    &&& post.channel_sf == pre.channel_sf
    &&& channel_config_unchanged(pre, post)
    &&& post.control == (VoiceControlData {
        voice_pitch_multiplier: crate::pitch::bend_ratio_spec(clamp_cents_spec(cents)) as u64,
        ..pre.control
    })
    &&& post.voices@.len() == pre.voices@.len()
    &&& forall|i: int|
        0 <= i < pre.voices@.len() ==> #[trigger] post.voices@[i] == (ActiveVoice {
            key: pre.voices@[i].key,
            voice: voice_controls_spec(pre.voices@[i].voice, post.control),
        })
}

/// Everything a control reset promises: the controls return to their
/// defaults and every live voice re-reads them.
pub open spec fn reset_control_post_spec(pre: VoiceChannel, post: VoiceChannel) -> bool {
    &&& post.channel_sf == pre.channel_sf
    &&& channel_config_unchanged(pre, post)
    &&& post.control.voice_pitch_multiplier == crate::pitch::PITCH_ONE
    &&& post.control.attack_micros is None
    &&& post.control.release_micros is None
    &&& post.voices@.len() == pre.voices@.len()
    &&& forall|i: int|
        0 <= i < pre.voices@.len() ==> #[trigger] post.voices@[i] == (ActiveVoice {
            key: pre.voices@[i].key,
            voice: voice_controls_spec(pre.voices@[i].voice, post.control),
        })
}

/// Everything an all-notes-off promises: every non-releasing voice starts
/// its standard release.
pub open spec fn all_notes_off_post_spec(pre: VoiceChannel, post: VoiceChannel) -> bool {
    &&& post.channel_sf == pre.channel_sf
    &&& post.control == pre.control
    &&& channel_config_unchanged(pre, post)
    &&& post.voices@.len() == pre.voices@.len()
    &&& forall|i: int|
        0 <= i < pre.voices@.len() ==> #[trigger] post.voices@[i] == (if pre.voices@[i].voice.releasing {
            pre.voices@[i]
        } else {
            ActiveVoice {
                key: pre.voices@[i].key,
                voice: voice_release_spec(pre.voices@[i].voice, ReleaseType::Standard),
            }
        })
}

/// Everything a program change promises: the matrix is recompiled for the
/// program (a repeated change is a no-op) and nothing else moves.
pub open spec fn set_program_post_spec(
    pre: VoiceChannel,
    post: VoiceChannel,
    bank: u8,
    preset: u8,
) -> bool {
    &&& post.voices == pre.voices
    &&& post.control == pre.control
    &&& channel_config_unchanged(pre, post)
    &&& post.channel_sf.soundfonts == pre.channel_sf.soundfonts
    &&& post.channel_sf.curr_bank == Some(bank)
    &&& post.channel_sf.curr_preset == Some(preset)
    &&& (pre.channel_sf.curr_bank == Some(bank) && pre.channel_sf.curr_preset == Some(preset)
        ==> post.channel_sf == pre.channel_sf)
    &&& forall|k: int, v: int|
        0 <= k < 128 && 0 <= v < 128 ==> #[trigger] crate::channel_sf::cell_is_pick(
            post.channel_sf,
            bank,
            preset,
            k,
            v,
        )
}

/// Everything a soundfont swap promises: the stack is replaced and the
/// matrix recompiled for the default program; the voices play on.
pub open spec fn set_soundfonts_post_spec(
    pre: VoiceChannel,
    post: VoiceChannel,
    sfs: Vec<Arc<Soundfont>>,
) -> bool {
    &&& post.voices == pre.voices
    &&& post.control == pre.control
    &&& channel_config_unchanged(pre, post)
    &&& post.channel_sf.soundfonts == sfs
    &&& post.channel_sf.curr_bank == Some(0u8)
    &&& post.channel_sf.curr_preset == Some(0u8)
    &&& forall|k: int, v: int|
        0 <= k < 128 && 0 <= v < 128 ==> #[trigger] crate::channel_sf::cell_is_pick(
            post.channel_sf,
            0u8,
            0u8,
            k,
            v,
        )
}

impl VoiceChannel {
    pub fn new(options: ChannelInitOptions, layer_limit: Option<usize>) -> (c: VoiceChannel)
        ensures
            channel_wf(&c),
            c.voices@.len() == 0,
            c.options == options,
            c.layer_limit == layer_limit,
            c.ignore_vel_lo == 0,
            c.ignore_vel_hi == 0,
            c.control.voice_pitch_multiplier == crate::pitch::PITCH_ONE,
            c.control.attack_micros is None,
            c.control.release_micros is None,
            c.channel_sf.soundfonts@.len() == 0,
            forall|k: int, v: int|
                0 <= k < 128 && 0 <= v < 128 ==> #[trigger] matrix_attack_at(
                    &c.channel_sf.matrix,
                    k,
                    v,
                ).len() == 0,
            forall|k: int, v: int|
                0 <= k < 128 && 0 <= v < 128 ==> #[trigger] crate::channel_sf::matrix_release_at(
                    &c.channel_sf.matrix,
                    k,
                    v,
                ).len() == 0,
    {
        VoiceChannel {
            channel_sf: ChannelSoundfont::new(),
            voices: Vec::new(),
            control: VoiceControlData::new_defaults(),
            options,
            layer_limit,
            ignore_vel_lo: 0,
            ignore_vel_hi: 0,
        }
    }

    /// A note-off: every non-releasing voice on the key starts its standard
    /// release.
    pub fn note_off(&mut self, key: u8)
        requires
            channel_wf(&*old(self)),
        ensures
            channel_wf(&*final(self)),
            note_off_post_spec(*old(self), *final(self), key),
    {
        let n = self.voices.len();
        let mut i: usize = 0;
        while i < n
            invariant
                channel_wf(&*self),
                n == self.voices@.len(),
                n == old(self).voices@.len(),
                i <= n,
                self.channel_sf == old(self).channel_sf,
                self.control == old(self).control,
                self.options == old(self).options,
                self.layer_limit == old(self).layer_limit,
                self.ignore_vel_lo == old(self).ignore_vel_lo,
                self.ignore_vel_hi == old(self).ignore_vel_hi,
                forall|j: int|
                    0 <= j < i ==> #[trigger] self.voices@[j] == pool_note_off_spec(
                        old(self).voices@,
                        key,
                    )[j],
                forall|j: int| i <= j < n ==> #[trigger] self.voices@[j] == old(self).voices@[j],
            decreases n - i,
        {
            let needs_release = self.voices[i].key == key && !self.voices[i].voice.is_releasing();
            if needs_release {
                let ghost before = self.voices@;
                let mut entry = self.voices.remove(i);
                entry.voice.signal_release(ReleaseType::Standard);
                self.voices.insert(i, entry);
                proof {
                    assert(self.voices@ =~= before.update(
                        i as int,
                        ActiveVoice {
                            key: before[i as int].key,
                            voice: voice_release_spec(
                                before[i as int].voice,
                                ReleaseType::Standard,
                            ),
                        },
                    ));
                }
            }
            i = i + 1;
        }
        proof {
            assert(self.voices@ =~= pool_note_off_spec(old(self).voices@, key));
        }
    }

    /// A note-on. Velocity zero is a note-off by MIDI convention; ignored
    /// velocities are dropped; otherwise one voice per matrix spawner is
    /// added, and a configured voice limit evicts the oldest voices (with a
    /// kill fade, or at once). Out-of-range keys and velocities are clamped.
    pub fn note_on(&mut self, key: u8, vel: u8)
        requires
            channel_wf(&*old(self)),
        ensures
            channel_wf(&*final(self)),
            note_on_post_spec(*old(self), *final(self), key, vel),
    {
        if vel == 0 {
            self.note_off(key);
            return ;
        }
        if self.ignore_vel_lo <= vel && vel <= self.ignore_vel_hi {
            return ;
        }
        let key_c = if key > 127 {
            127
        } else {
            key
        };
        let vel_c = if vel > 127 {
            127
        } else {
            vel
        };
        let mut new_voices = self.channel_sf.spawn_voices_attack(&self.control, key_c, vel_c);
        let ghost cell = matrix_attack_at(
            &old(self).channel_sf.matrix,
            key_c as int,
            vel_c as int,
        );
        let ghost base = self.voices@;
        let total = new_voices.len();
        let mut vi: usize = 0;
        while vi < total
            invariant
                channel_wf(&*self),
                vi <= total,
                total == cell.len(),
                new_voices@.len() == total - vi,
                forall|i: int|
                    0 <= i < new_voices@.len() ==> #[trigger] new_voices@[i]
                        == spawned_voice_spec(cell[vi + i], old(self).control),
                forall|i: int|
                    0 <= i < new_voices@.len() ==> voice_wf(&#[trigger] new_voices@[i]),
                base.len() <= MAX_POOL_VOICES,
                self.channel_sf == old(self).channel_sf,
                self.control == old(self).control,
                self.options == old(self).options,
                self.layer_limit == old(self).layer_limit,
                self.ignore_vel_lo == old(self).ignore_vel_lo,
                self.ignore_vel_hi == old(self).ignore_vel_hi,
                self.voices@ == pool_after_spawn_spec(
                    base,
                    cell.subrange(0, vi as int),
                    old(self).control,
                    key_c,
                ),
            decreases total - vi,
        {
            proof {
                lemma_spawn_step(base, cell, old(self).control, key_c, vi as int);
            }
            let v = new_voices.remove(0);
            if self.voices.len() < MAX_POOL_VOICES {
                self.voices.push(ActiveVoice { key: key_c, voice: v });
            }
            vi = vi + 1;
        }
        proof {
            assert(cell.subrange(0, cell.len() as int) =~= cell);
        }

        match self.layer_limit {
            None => {},
            Some(limit) => {
                if self.options.fade_out_killing {
                    self.kill_oldest(limit);
                } else {
                    self.drop_oldest(limit);
                }
            },
        }
    }

    /// Tell the oldest voices beyond the limit to die with a kill fade.
    fn kill_oldest(&mut self, limit: usize)
        requires
            channel_wf(&*old(self)),
        ensures
            channel_wf(&*final(self)),
            final(self).voices@ == pool_kill_oldest_spec(old(self).voices@, limit as int),
            final(self).channel_sf == old(self).channel_sf,
            final(self).control == old(self).control,
            final(self).options == old(self).options,
            final(self).layer_limit == old(self).layer_limit,
            final(self).ignore_vel_lo == old(self).ignore_vel_lo,
            final(self).ignore_vel_hi == old(self).ignore_vel_hi,
    {
        let n = self.voices.len();
        if n <= limit {
            proof {
                assert(self.voices@ =~= pool_kill_oldest_spec(old(self).voices@, limit as int));
            }
            return ;
        }
        let excess = n - limit;
        let mut i: usize = 0;
        while i < excess
            invariant
                channel_wf(&*self),
                n == self.voices@.len(),
                n == old(self).voices@.len(),
                excess == n - limit,
                limit < n,
                i <= excess,
                self.channel_sf == old(self).channel_sf,
                self.control == old(self).control,
                self.options == old(self).options,
                self.layer_limit == old(self).layer_limit,
                self.ignore_vel_lo == old(self).ignore_vel_lo,
                self.ignore_vel_hi == old(self).ignore_vel_hi,
                forall|j: int|
                    0 <= j < i ==> #[trigger] self.voices@[j] == (ActiveVoice {
                        key: old(self).voices@[j].key,
                        voice: voice_release_spec(old(self).voices@[j].voice, ReleaseType::Killed),
                    }),
                forall|j: int| i <= j < n ==> #[trigger] self.voices@[j] == old(self).voices@[j],
            decreases excess - i,
        {
            let ghost before = self.voices@;
            let mut entry = self.voices.remove(i);
            entry.voice.signal_release(ReleaseType::Killed);
            self.voices.insert(i, entry);
            proof {
                assert(self.voices@ =~= before.update(
                    i as int,
                    ActiveVoice {
                        key: before[i as int].key,
                        voice: voice_release_spec(before[i as int].voice, ReleaseType::Killed),
                    },
                ));
            }
            i = i + 1;
        }
        proof {
            assert(self.voices@ =~= pool_kill_oldest_spec(old(self).voices@, limit as int));
        }
    }

    /// Drop the oldest voices beyond the limit at once.
    fn drop_oldest(&mut self, limit: usize)
        requires
            channel_wf(&*old(self)),
        ensures
            channel_wf(&*final(self)),
            final(self).voices@ == pool_drop_oldest_spec(old(self).voices@, limit as int),
            final(self).channel_sf == old(self).channel_sf,
            final(self).control == old(self).control,
            final(self).options == old(self).options,
            final(self).layer_limit == old(self).layer_limit,
            final(self).ignore_vel_lo == old(self).ignore_vel_lo,
            final(self).ignore_vel_hi == old(self).ignore_vel_hi,
    {
        while self.voices.len() > limit
            invariant
                channel_wf(&*self),
                self.channel_sf == old(self).channel_sf,
                self.control == old(self).control,
                self.options == old(self).options,
                self.layer_limit == old(self).layer_limit,
                self.ignore_vel_lo == old(self).ignore_vel_lo,
                self.ignore_vel_hi == old(self).ignore_vel_hi,
                pool_drop_oldest_spec(self.voices@, limit as int) == pool_drop_oldest_spec(
                    old(self).voices@,
                    limit as int,
                ),
            decreases self.voices@.len(),
        {
            proof {
                let vs = self.voices@;
                if vs.len() - 1 > limit {
                    assert(pool_drop_oldest_spec(vs.subrange(1, vs.len() as int), limit as int)
                        =~= pool_drop_oldest_spec(vs, limit as int));
                } else {
                    assert(vs.subrange(1, vs.len() as int) =~= pool_drop_oldest_spec(
                        vs,
                        limit as int,
                    ));
                    assert(pool_drop_oldest_spec(
                        vs.subrange(1, vs.len() as int),
                        limit as int,
                    ) =~= vs.subrange(1, vs.len() as int));
                }
            }
            self.voices.remove(0);
            proof {
                assert(self.voices@ =~= self.voices@);
            }
        }
        proof {
            assert(pool_drop_oldest_spec(self.voices@, limit as int) =~= self.voices@);
        }
    }

    /// Update the channel's pitch-bend multiplier from a bend in cents
    /// (clamped to four octaves either way) and push the new controls into
    /// every live voice.
    pub fn set_pitch_bend_cents(&mut self, cents: i32)
        requires
            channel_wf(&*old(self)),
        ensures
            channel_wf(&*final(self)),
            pitch_bend_post_spec(*old(self), *final(self), cents as int),
    {
        let clamped: i64 = if cents < -4800 {
            -4800
        } else if cents > 4800 {
            4800
        } else {
            cents as i64
        };
        let mult = bend_ratio(clamped);
        self.control.voice_pitch_multiplier = mult;
        let n = self.voices.len();
        let mut i: usize = 0;
        while i < n
            invariant
                channel_wf(&*self),
                n == self.voices@.len(),
                n == old(self).voices@.len(),
                i <= n,
                control_wf(self.control),
                self.control == (VoiceControlData {
                    voice_pitch_multiplier: mult,
                    ..old(self).control
                }),
                self.channel_sf == old(self).channel_sf,
                self.options == old(self).options,
                self.layer_limit == old(self).layer_limit,
                self.ignore_vel_lo == old(self).ignore_vel_lo,
                self.ignore_vel_hi == old(self).ignore_vel_hi,
                forall|j: int|
                    0 <= j < i ==> #[trigger] self.voices@[j] == (ActiveVoice {
                        key: old(self).voices@[j].key,
                        voice: voice_controls_spec(old(self).voices@[j].voice, self.control),
                    }),
                forall|j: int| i <= j < n ==> #[trigger] self.voices@[j] == old(self).voices@[j],
            decreases n - i,
        {
            let control = self.control;
            let ghost before = self.voices@;
            let mut entry = self.voices.remove(i);
            entry.voice.process_controls(&control);
            self.voices.insert(i, entry);
            proof {
                assert(self.voices@ =~= before.update(
                    i as int,
                    ActiveVoice {
                        key: before[i as int].key,
                        voice: voice_controls_spec(before[i as int].voice, control),
                    },
                ));
            }
            i = i + 1;
        }
    }

    /// Release every voice, whatever key it plays.
    pub fn all_notes_off(&mut self)
        requires
            channel_wf(&*old(self)),
        ensures
            channel_wf(&*final(self)),
            all_notes_off_post_spec(*old(self), *final(self)),
    {
        let n = self.voices.len();
        let mut i: usize = 0;
        while i < n
            invariant
                channel_wf(&*self),
                n == self.voices@.len(),
                n == old(self).voices@.len(),
                i <= n,
                self.channel_sf == old(self).channel_sf,
                self.control == old(self).control,
                self.options == old(self).options,
                self.layer_limit == old(self).layer_limit,
                self.ignore_vel_lo == old(self).ignore_vel_lo,
                self.ignore_vel_hi == old(self).ignore_vel_hi,
                forall|j: int|
                    0 <= j < i ==> #[trigger] self.voices@[j] == (if old(
                        self,
                    ).voices@[j].voice.releasing {
                        old(self).voices@[j]
                    } else {
                        ActiveVoice {
                            key: old(self).voices@[j].key,
                            voice: voice_release_spec(
                                old(self).voices@[j].voice,
                                ReleaseType::Standard,
                            ),
                        }
                    }),
                forall|j: int| i <= j < n ==> #[trigger] self.voices@[j] == old(self).voices@[j],
            decreases n - i,
        {
            let needs_release = !self.voices[i].voice.is_releasing();
            if needs_release {
                let ghost before = self.voices@;
                let mut entry = self.voices.remove(i);
                entry.voice.signal_release(ReleaseType::Standard);
                self.voices.insert(i, entry);
                proof {
                    assert(self.voices@ =~= before.update(
                        i as int,
                        ActiveVoice {
                            key: before[i as int].key,
                            voice: voice_release_spec(
                                before[i as int].voice,
                                ReleaseType::Standard,
                            ),
                        },
                    ));
                }
            }
            i = i + 1;
        }
    }

    /// Dispatch one posted event to the matching operation: each event
    /// variant leaves the channel exactly as its operation promises, and a
    /// raw controller change (which this core tracks no state for) leaves
    /// it untouched.
    pub fn process_event(&mut self, event: ChannelEvent)
        requires
            channel_wf(&*old(self)),
            event matches ChannelEvent::Config(ChannelConfigEvent::SetSoundfonts(sfs))
                ==> forall|i: int|
                0 <= i < sfs@.len() ==> crate::channel_sf::soundfont_inv(
                    *(#[trigger] sfs@[i]),
                ),
        ensures
            channel_wf(&*final(self)),
            event matches ChannelEvent::NoteOn { key, vel } ==> note_on_post_spec(
                *old(self),
                *final(self),
                key,
                vel,
            ),
            event matches ChannelEvent::NoteOff { key } ==> note_off_post_spec(
                *old(self),
                *final(self),
                key,
            ),
            event matches ChannelEvent::Control(ControlEvent::Raw(ctrl, value)) ==> *final(self)
                == *old(self),
            event matches ChannelEvent::Control(ControlEvent::PitchBendValue(cents))
                ==> pitch_bend_post_spec(*old(self), *final(self), cents as int),
            event matches ChannelEvent::Control(ControlEvent::ResetControl)
                ==> reset_control_post_spec(*old(self), *final(self)),
            event matches ChannelEvent::Control(ControlEvent::AllNotesOff)
                ==> all_notes_off_post_spec(*old(self), *final(self)),
            event matches ChannelEvent::Config(ChannelConfigEvent::SetProgram(bank, preset))
                ==> set_program_post_spec(*old(self), *final(self), bank, preset),
            event matches ChannelEvent::Config(ChannelConfigEvent::SetSoundfonts(sfs))
                ==> set_soundfonts_post_spec(*old(self), *final(self), sfs),
    {
        match event {
            ChannelEvent::NoteOn { key, vel } => self.note_on(key, vel),
            ChannelEvent::NoteOff { key } => self.note_off(key),
            ChannelEvent::Control(control_event) => {
                match control_event {
                    // Raw controller changes carry no state this core tracks.
                    ControlEvent::Raw(_ctrl, _value) => {},
                    ControlEvent::PitchBendValue(cents) => self.set_pitch_bend_cents(cents),
                    ControlEvent::ResetControl => self.reset_control(),
                    ControlEvent::AllNotesOff => self.all_notes_off(),
                }
            },
            ChannelEvent::Config(config_event) => {
                match config_event {
                    ChannelConfigEvent::SetSoundfonts(sfs) => {
                        self.channel_sf.set_soundfonts(sfs);
                        proof {
                            assert forall|k: int, v: int| 0 <= k < 128 && 0 <= v < 128 implies
                                #[trigger] crate::channel_sf::cell_is_pick(
                                self.channel_sf,
                                0u8,
                                0u8,
                                k,
                                v,
                            ) by {
                                assert(crate::channel_sf::cell_is_pick(
                                    self.channel_sf,
                                    self.channel_sf.curr_bank->0,
                                    self.channel_sf.curr_preset->0,
                                    k,
                                    v,
                                ));
                            }
                        }
                    },
                    ChannelConfigEvent::SetProgram(bank, preset) => self.channel_sf.change_program(
                        bank,
                        preset,
                    ),
                }
            },
        }
    }

    /// Put the channel controls back to their defaults and push them into
    /// every live voice.
    pub fn reset_control(&mut self)
        requires
            channel_wf(&*old(self)),
        ensures
            channel_wf(&*final(self)),
            reset_control_post_spec(*old(self), *final(self)),
    {
        self.control = VoiceControlData::new_defaults();
        self.set_pitch_bend_cents(0);
        proof {
            crate::pitch::lemma_bend_ratio_center();
        }
    }

    /// Drop every voice at once.
    pub fn reset(&mut self)
        requires
            channel_wf(&*old(self)),
        ensures
            channel_wf(&*final(self)),
            final(self).voices@.len() == 0,
            final(self).channel_sf == old(self).channel_sf,
            final(self).control == old(self).control,
    {
        self.voices.clear();
    }

    /// Render one block: every voice adds its frames into the buffer, and
    /// voices observed ended afterwards leave the pool.
    pub fn render(&mut self, buffer: &mut Vec<i64>)
        requires
            channel_wf(&*old(self)),
            old(buffer)@.len() % 2 == 0,
            forall|i: int|
                0 <= i < old(buffer)@.len() ==> -0x100_0000_0000 <= #[trigger] old(buffer)@[i]
                    <= 0x100_0000_0000,
        ensures
            channel_wf(&*final(self)),
            final(self).channel_sf == old(self).channel_sf,
            final(self).control == old(self).control,
            final(buffer)@.len() == old(buffer)@.len(),
            final(self).voices@ == surviving_spec(
                old(self).voices@,
                (old(buffer)@.len() / 2) as nat,
            ),
            forall|j: int|
                0 <= j < old(buffer)@.len() / 2 ==> final(buffer)@[2 * j] == old(buffer)@[2 * j]
                    + #[trigger] mixed_out_spec(old(self).voices@, j as nat).0,
            forall|j: int|
                0 <= j < old(buffer)@.len() / 2 ==> final(buffer)@[2 * j + 1] == old(
                    buffer,
                )@[2 * j + 1] + #[trigger] mixed_out_spec(old(self).voices@, j as nat).1,
    {
        let ghost frames = (old(buffer)@.len() / 2) as nat;
        let ghost vs0 = self.voices@;
        let ghost b0 = buffer@;
        let n = self.voices.len();
        let mut kept: Vec<ActiveVoice> = Vec::new();
        let mut i: usize = 0;
        while i < n
            invariant
                n == vs0.len(),
                i <= n,
                vs0.len() <= MAX_POOL_VOICES,
                channel_sf_wf(&self.channel_sf),
                control_wf(self.control),
                self.voices@ == vs0.subrange(i as int, n as int),
                self.channel_sf == old(self).channel_sf,
                self.control == old(self).control,
                self.options == old(self).options,
                self.layer_limit == old(self).layer_limit,
                self.ignore_vel_lo == old(self).ignore_vel_lo,
                self.ignore_vel_hi == old(self).ignore_vel_hi,
                forall|j: int| 0 <= j < vs0.len() ==> voice_wf(&(#[trigger] vs0[j]).voice),
                buffer@.len() == b0.len(),
                b0.len() % 2 == 0,
                frames == b0.len() / 2,
                forall|i2: int|
                    0 <= i2 < b0.len() ==> -0x100_0000_0000 <= #[trigger] b0[i2]
                        <= 0x100_0000_0000,
                forall|j: int|
                    0 <= j < frames ==> buffer@[2 * j] == b0[2 * j] + #[trigger] mixed_out_spec(
                        vs0.subrange(0, i as int),
                        j as nat,
                    ).0,
                forall|j: int|
                    0 <= j < frames ==> buffer@[2 * j + 1] == b0[2 * j + 1]
                        + #[trigger] mixed_out_spec(vs0.subrange(0, i as int), j as nat).1,
                forall|i2: int|
                    0 <= i2 < buffer@.len() ==> -0x100_0000_0000 - (i as int) * (
                    SAMPLE_ONE as int) <= #[trigger] buffer@[i2] <= 0x100_0000_0000 + (i as int)
                        * (SAMPLE_ONE as int),
                kept@ == surviving_spec(vs0.subrange(0, i as int), frames),
                kept@.len() <= i,
                forall|j: int| 0 <= j < kept@.len() ==> voice_wf(&(#[trigger] kept@[j]).voice),
            decreases n - i,
        {
            let mut entry = self.voices.remove(0);
            proof {
                assert(vs0.subrange(i as int, n as int)[0] == vs0[i as int]);
                assert(vs0.subrange(i as int, n as int).subrange(
                    1,
                    (n - i) as int,
                ) =~= vs0.subrange(i + 1, n as int));
                assert(entry == vs0[i as int]);
                assert((i as int) * (SAMPLE_ONE as int) <= 1048576 * 32768) by (nonlinear_arith)
                    requires
                        0 <= i <= 1048576,
                ;
                assert(((i + 1) as int) * (SAMPLE_ONE as int) == (i as int) * (SAMPLE_ONE as int)
                    + SAMPLE_ONE) by (nonlinear_arith);
                assert(crate::voice::mix_buffer_in_bounds(buffer@));
            }
            let ghost bpre = buffer@;
            entry.voice.render_to(buffer);
            proof {
                assert(vs0.subrange(0, i + 1).drop_last() =~= vs0.subrange(0, i as int));
                assert(vs0.subrange(0, i + 1).last() == vs0[i as int]);
                assert forall|j: int| 0 <= j < frames implies buffer@[2 * j + 1] == b0[2 * j
                    + 1] + #[trigger] mixed_out_spec(vs0.subrange(0, i + 1), j as nat).1 by {
                    assert(buffer@[2 * j + 1] == bpre[2 * j + 1] + voice_out_at_spec(
                        vs0[i as int].voice.gen,
                        j as nat,
                    ).1);
                    assert(mixed_out_spec(vs0.subrange(0, i + 1), j as nat).1 == mixed_out_spec(
                        vs0.subrange(0, i as int),
                        j as nat,
                    ).1 + voice_out_at_spec(vs0[i as int].voice.gen, j as nat).1);
                }
                assert forall|j: int| 0 <= j < frames implies buffer@[2 * j] == b0[2 * j]
                    + #[trigger] mixed_out_spec(vs0.subrange(0, i + 1), j as nat).0 by {
                    assert(buffer@[2 * j] == bpre[2 * j] + voice_out_at_spec(
                        vs0[i as int].voice.gen,
                        j as nat,
                    ).0);
                    assert(buffer@[2 * j + 1] == bpre[2 * j + 1] + voice_out_at_spec(
                        vs0[i as int].voice.gen,
                        j as nat,
                    ).1);
                    assert(mixed_out_spec(vs0.subrange(0, i + 1), j as nat).0 == mixed_out_spec(
                        vs0.subrange(0, i as int),
                        j as nat,
                    ).0 + voice_out_at_spec(vs0[i as int].voice.gen, j as nat).0);
                    assert(mixed_out_spec(vs0.subrange(0, i + 1), j as nat).1 == mixed_out_spec(
                        vs0.subrange(0, i as int),
                        j as nat,
                    ).1 + voice_out_at_spec(vs0[i as int].voice.gen, j as nat).1);
                }
            }
            let ended = entry.voice.ended();
            if !ended {
                kept.push(entry);
                proof {
                    assert(kept@ =~= surviving_spec(vs0.subrange(0, i + 1), frames));
                }
            } else {
                proof {
                    assert(kept@ =~= surviving_spec(vs0.subrange(0, i + 1), frames));
                }
            }
            i = i + 1;
        }
        proof {
            assert(vs0.subrange(0, vs0.len() as int) =~= vs0);
            assert(vs0.subrange(i as int, n as int).len() == 0);
        }
        self.voices = kept;
    }
}

/// Step lemma for appending one spawned voice to the pool.
proof fn lemma_spawn_step(
    base: Seq<ActiveVoice>,
    cell: Seq<SampledVoiceSpawner>,
    control: VoiceControlData,
    key: u8,
    i: int,
)
    requires
        0 <= i < cell.len(),
    ensures
        pool_after_spawn_spec(base, cell.subrange(0, i + 1), control, key) == (
        if pool_after_spawn_spec(base, cell.subrange(0, i), control, key).len()
            < MAX_POOL_VOICES {
            pool_after_spawn_spec(base, cell.subrange(0, i), control, key).push(
                ActiveVoice { key, voice: spawned_voice_spec(cell[i], control) },
            )
        } else {
            pool_after_spawn_spec(base, cell.subrange(0, i), control, key)
        }),
{
    let pre = cell.subrange(0, i);
    let ext = cell.subrange(0, i + 1);
    assert(ext.len() == i + 1);
    assert(forall|j: int| 0 <= j < i ==> ext[j] == cell[j] && pre[j] == cell[j]);
    assert(ext[i] == cell[i]);
    if pool_after_spawn_spec(base, pre, control, key).len() < MAX_POOL_VOICES {
        assert(pool_after_spawn_spec(base, ext, control, key) =~= pool_after_spawn_spec(
            base,
            pre,
            control,
            key,
        ).push(ActiveVoice { key, voice: spawned_voice_spec(cell[i], control) }));
    } else {
        assert(pool_after_spawn_spec(base, ext, control, key) =~= pool_after_spawn_spec(
            base,
            pre,
            control,
            key,
        ));
    }
}

} // verus!
