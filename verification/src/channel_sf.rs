use crate::key_vel_to_index;
use crate::soundfont::{
    sample_attack_list_spec, spawned_voice_spec, spawner_wf, SampleSoundfont, SampledVoiceSpawner,
};
use crate::soundfont::soundfont_wf;
use crate::voice::{control_wf, voice_wf, VoiceBase, VoiceControlData};
use crate::AudioStreamParams;
use std::sync::Arc;
use vstd::prelude::*;

verus! {

/// A wrapper that serves its instrument only for one bank/preset pair, the
/// way a multi-program soundfont serves one of its programs.
pub struct ProgramSoundfont {
    pub bank: u8,
    pub preset: u8,
    pub inner: SampleSoundfont,
}

/// One soundfont in a channel's stack: a plain SFZ instrument that answers
/// every program, or one bound to a single bank/preset.
pub enum Soundfont {
    Sample(SampleSoundfont),
    Programmed(ProgramSoundfont),
}

pub open spec fn soundfont_inv(sf: Soundfont) -> bool {
    match sf {
        Soundfont::Sample(s) => soundfont_wf(&s),
        Soundfont::Programmed(p) => soundfont_wf(&p.inner),
    }
}

/// The attack list a stack entry serves for a program and cell.
pub open spec fn attack_list_spec(sf: Soundfont, bank: u8, preset: u8, key: u8, vel: u8) -> Seq<
    SampledVoiceSpawner,
> {
    match sf {
        Soundfont::Sample(s) => sample_attack_list_spec(&s, key, vel),
        Soundfont::Programmed(p) => if p.bank == bank && p.preset == preset {
            sample_attack_list_spec(&p.inner, key, vel)
        } else {
            Seq::empty()
        },
    }
}

/// The common surface of everything a channel can stack as a soundfont.
pub trait SoundfontBase: Sized {
    spec fn inv(&self) -> bool;

    spec fn attack_list(&self, bank: u8, preset: u8, key: u8, vel: u8) -> Seq<
        SampledVoiceSpawner,
    >;

    fn stream_params(&self) -> AudioStreamParams
        requires
            self.inv(),
    ;

    fn get_attack_voice_spawners_at(&self, bank: u8, preset: u8, key: u8, vel: u8) -> (r: Vec<
        SampledVoiceSpawner,
    >)
        requires
            self.inv(),
        ensures
            r@ == self.attack_list(bank, preset, key, vel),
            forall|i: int| 0 <= i < r@.len() ==> spawner_wf(&#[trigger] r@[i]),
    ;

    fn get_release_voice_spawners_at(&self, bank: u8, preset: u8, key: u8, vel: u8) -> (r: Vec<
        SampledVoiceSpawner,
    >)
        requires
            self.inv(),
        ensures
            r@.len() == 0,
    ;
}

impl SoundfontBase for Soundfont {
    open spec fn inv(&self) -> bool {
        soundfont_inv(*self)
    }

    open spec fn attack_list(&self, bank: u8, preset: u8, key: u8, vel: u8) -> Seq<
        SampledVoiceSpawner,
    > {
        attack_list_spec(*self, bank, preset, key, vel)
    }

    fn stream_params(&self) -> AudioStreamParams {
        match self {
            Soundfont::Sample(s) => s.stream_params(),
            Soundfont::Programmed(p) => p.inner.stream_params(),
        }
    }

    fn get_attack_voice_spawners_at(&self, bank: u8, preset: u8, key: u8, vel: u8) -> (r: Vec<
        SampledVoiceSpawner,
    >)
    {
        let out = match self {
            Soundfont::Sample(s) => s.get_attack_voice_spawners_at(bank, preset, key, vel),
            Soundfont::Programmed(p) => {
                if p.bank == bank && p.preset == preset {
                    p.inner.get_attack_voice_spawners_at(bank, preset, key, vel)
                } else {
                    Vec::new()
                }
            },
        };
        proof {
            assert(out@ =~= self.attack_list(bank, preset, key, vel));
            assert forall|i: int| 0 <= i < out@.len() implies spawner_wf(&#[trigger] out@[i]) by {
                crate::amp::lemma_amp_bounds(out@[i].vel as int);
            }
        }
        out
    }

    fn get_release_voice_spawners_at(&self, bank: u8, preset: u8, key: u8, vel: u8) -> (r: Vec<
        SampledVoiceSpawner,
    >)
    {
        match self {
            Soundfont::Sample(s) => s.get_release_voice_spawners_at(bank, preset, key, vel),
            Soundfont::Programmed(p) => p.inner.get_release_voice_spawners_at(
                bank,
                preset,
                key,
                vel,
            ),
        }
    }
}

/// The first non-empty attack list down the soundfont stack, if any.
pub open spec fn first_nonempty_attack(
    sfs: Seq<Arc<Soundfont>>,
    bank: u8,
    preset: u8,
    key: u8,
    vel: u8,
) -> Option<Seq<SampledVoiceSpawner>>
    decreases sfs.len(),
{
    if sfs.len() == 0 {
        None
    } else if attack_list_spec(*sfs[0], bank, preset, key, vel).len() > 0 {
        Some(attack_list_spec(*sfs[0], bank, preset, key, vel))
    } else {
        first_nonempty_attack(sfs.subrange(1, sfs.len() as int), bank, preset, key, vel)
    }
}

/// What a rebuilt matrix holds in an attack cell: the first non-empty list
/// for the program, else the first non-empty list for bank 0 preset 0 (the
/// piano fallback), else nothing.
pub open spec fn attack_pick_spec(
    sfs: Seq<Arc<Soundfont>>,
    bank: u8,
    preset: u8,
    key: u8,
    vel: u8,
) -> Seq<SampledVoiceSpawner> {
    match first_nonempty_attack(sfs, bank, preset, key, vel) {
        Some(l) => l,
        None => match first_nonempty_attack(sfs, 0, 0, key, vel) {
            Some(l) => l,
            None => Seq::empty(),
        },
    }
}

/// The dense per-channel dispatch table: one attack and one release spawner
/// list per (key, velocity) cell. Cells are never missing, only empty.
pub struct VoiceSpawnerMatrix {
    pub attack: Vec<Vec<SampledVoiceSpawner>>,
    pub release: Vec<Vec<SampledVoiceSpawner>>,
}

pub open spec fn matrix_wf(m: &VoiceSpawnerMatrix) -> bool {
    &&& m.attack@.len() == 16384
    &&& m.release@.len() == 16384
    &&& forall|i: int, j: int|
        0 <= i < 16384 && 0 <= j < m.attack@[i]@.len() ==> spawner_wf(
            &#[trigger] m.attack@[i]@[j],
        )
    &&& forall|i: int, j: int|
        0 <= i < 16384 && 0 <= j < m.release@[i]@.len() ==> spawner_wf(
            &#[trigger] m.release@[i]@[j],
        )
}

/// The attack cell for a key and velocity.
pub open spec fn matrix_attack_at(m: &VoiceSpawnerMatrix, key: int, vel: int) -> Seq<
    SampledVoiceSpawner,
> {
    m.attack@[key * 128 + vel]@
}

pub open spec fn matrix_release_at(m: &VoiceSpawnerMatrix, key: int, vel: int) -> Seq<
    SampledVoiceSpawner,
> {
    m.release@[key * 128 + vel]@
}

impl VoiceSpawnerMatrix {
    pub fn new() -> (m: VoiceSpawnerMatrix)
        ensures
            matrix_wf(&m),
            forall|k: int, v: int|
                0 <= k < 128 && 0 <= v < 128 ==> #[trigger] matrix_attack_at(&m, k, v).len() == 0,
            forall|k: int, v: int|
                0 <= k < 128 && 0 <= v < 128 ==> #[trigger] matrix_release_at(&m, k, v).len()
                    == 0,
    {
        let mut attack: Vec<Vec<SampledVoiceSpawner>> = Vec::new();
        let mut release: Vec<Vec<SampledVoiceSpawner>> = Vec::new();
        let mut c: usize = 0;
        while c < 16384
            invariant
                c <= 16384,
                attack@.len() == c,
                release@.len() == c,
                forall|i: int| 0 <= i < c ==> (#[trigger] attack@[i])@.len() == 0,
                forall|i: int| 0 <= i < c ==> (#[trigger] release@[i])@.len() == 0,
            decreases 16384 - c,
        {
            attack.push(Vec::new());
            release.push(Vec::new());
            c = c + 1;
        }
        VoiceSpawnerMatrix { attack, release }
    }

    pub fn set_spawners_attack(&mut self, key: u8, vel: u8, spawners: Vec<SampledVoiceSpawner>)
        requires
            matrix_wf(&*old(self)),
            key < 128,
            vel < 128,
            forall|i: int| 0 <= i < spawners@.len() ==> spawner_wf(&#[trigger] spawners@[i]),
        ensures
            matrix_wf(&*final(self)),
            final(self).release == old(self).release,
            matrix_attack_at(&*final(self), key as int, vel as int) == spawners@,
            forall|i: int|
                0 <= i < 16384 && i != key * 128 + vel ==> #[trigger] final(self).attack@[i]
                    == old(self).attack@[i],
    {
        let index = key_vel_to_index(key, vel);
        self.attack.set(index, spawners);
    }

    pub fn set_spawners_release(&mut self, key: u8, vel: u8, spawners: Vec<SampledVoiceSpawner>)
        requires
            matrix_wf(&*old(self)),
            key < 128,
            vel < 128,
            forall|i: int| 0 <= i < spawners@.len() ==> spawner_wf(&#[trigger] spawners@[i]),
        ensures
            matrix_wf(&*final(self)),
            final(self).attack == old(self).attack,
            matrix_release_at(&*final(self), key as int, vel as int) == spawners@,
            forall|i: int|
                0 <= i < 16384 && i != key * 128 + vel ==> #[trigger] final(self).release@[i]
                    == old(self).release@[i],
    {
        let index = key_vel_to_index(key, vel);
        self.release.set(index, spawners);
    }

    /// Spawn one voice per spawner in the attack cell.
    pub fn spawn_voices_attack(&self, control: &VoiceControlData, key: u8, vel: u8) -> (r: Vec<
        VoiceBase,
    >)
        requires
            matrix_wf(self),
            control_wf(*control),
            key < 128,
            vel < 128,
        ensures
            r@.len() == matrix_attack_at(self, key as int, vel as int).len(),
            forall|i: int|
                0 <= i < r@.len() ==> #[trigger] r@[i] == spawned_voice_spec(
                    matrix_attack_at(self, key as int, vel as int)[i],
                    *control,
                ),
            forall|i: int| 0 <= i < r@.len() ==> voice_wf(&#[trigger] r@[i]),
            forall|i: int| 0 <= i < r@.len() ==> !(#[trigger] r@[i]).releasing,
    {
        let index = key_vel_to_index(key, vel);
        let cell = &self.attack[index];
        let mut out: Vec<VoiceBase> = Vec::new();
        let mut i: usize = 0;
        while i < cell.len()
            invariant
                matrix_wf(self),
                control_wf(*control),
                key < 128,
                vel < 128,
                index == key * 128 + vel,
                cell@ == matrix_attack_at(self, key as int, vel as int),
                i <= cell@.len(),
                out@.len() == i,
                forall|j: int|
                    0 <= j < i ==> #[trigger] out@[j] == spawned_voice_spec(
                        cell@[j],
                        *control,
                    ),
                forall|j: int| 0 <= j < i ==> voice_wf(&#[trigger] out@[j]),
                forall|j: int| 0 <= j < i ==> !(#[trigger] out@[j]).releasing,
            decreases cell@.len() - i,
        {
            out.push(cell[i].spawn(control));
            i = i + 1;
        }
        out
    }

    /// Spawn one voice per spawner in the release cell.
    pub fn spawn_voices_release(&self, control: &VoiceControlData, key: u8, vel: u8) -> (r: Vec<
        VoiceBase,
    >)
        requires
            matrix_wf(self),
            control_wf(*control),
            key < 128,
            vel < 128,
        ensures
            r@.len() == matrix_release_at(self, key as int, vel as int).len(),
            forall|i: int|
                0 <= i < r@.len() ==> #[trigger] r@[i] == spawned_voice_spec(
                    matrix_release_at(self, key as int, vel as int)[i],
                    *control,
                ),
            forall|i: int| 0 <= i < r@.len() ==> voice_wf(&#[trigger] r@[i]),
            forall|i: int| 0 <= i < r@.len() ==> !(#[trigger] r@[i]).releasing,
    {
        let index = key_vel_to_index(key, vel);
        let cell = &self.release[index];
        let mut out: Vec<VoiceBase> = Vec::new();
        let mut i: usize = 0;
        while i < cell.len()
            invariant
                matrix_wf(self),
                control_wf(*control),
                key < 128,
                vel < 128,
                index == key * 128 + vel,
                cell@ == matrix_release_at(self, key as int, vel as int),
                i <= cell@.len(),
                out@.len() == i,
                forall|j: int|
                    0 <= j < i ==> #[trigger] out@[j] == spawned_voice_spec(
                        cell@[j],
                        *control,
                    ),
                forall|j: int| 0 <= j < i ==> voice_wf(&#[trigger] out@[j]),
                forall|j: int| 0 <= j < i ==> !(#[trigger] out@[j]).releasing,
            decreases cell@.len() - i,
        {
            out.push(cell[i].spawn(control));
            i = i + 1;
        }
        out
    }
}

/// A channel's ordered soundfont stack with its compiled dispatch matrix
/// and the program it was compiled for.
pub struct ChannelSoundfont {
    pub soundfonts: Vec<Arc<Soundfont>>,
    pub matrix: VoiceSpawnerMatrix,
    pub curr_bank: Option<u8>,
    pub curr_preset: Option<u8>,
}

/// One cell of the matrix holds exactly the picked lists for a program.
pub open spec fn cell_is_pick(c: ChannelSoundfont, bank: u8, preset: u8, k: int, v: int) -> bool {
    &&& matrix_attack_at(&c.matrix, k, v) == attack_pick_spec(
        c.soundfonts@,
        bank,
        preset,
        k as u8,
        v as u8,
    )
    &&& matrix_release_at(&c.matrix, k, v).len() == 0
}

/// The channel invariant: the matrix always reflects the program it claims
/// to be compiled for.
pub open spec fn channel_sf_wf(c: &ChannelSoundfont) -> bool {
    &&& matrix_wf(&c.matrix)
    &&& forall|i: int|
        0 <= i < c.soundfonts@.len() ==> soundfont_inv(*(#[trigger] c.soundfonts@[i]))
    &&& (c.curr_bank is Some && c.curr_preset is Some ==> forall|k: int, v: int|
        0 <= k < 128 && 0 <= v < 128 ==> #[trigger] cell_is_pick(
            *c,
            c.curr_bank->0,
            c.curr_preset->0,
            k,
            v,
        ))
}

/// First non-empty attack list down the stack, as the rebuild loop finds it.
fn find_nonempty_attack(
    sfs: &Vec<Arc<Soundfont>>,
    bank: u8,
    preset: u8,
    key: u8,
    vel: u8,
) -> (r: Option<Vec<SampledVoiceSpawner>>)
    requires
        forall|i: int| 0 <= i < sfs@.len() ==> soundfont_inv(*(#[trigger] sfs@[i])),
    ensures
        match r {
            Some(l) => {
                &&& first_nonempty_attack(sfs@, bank, preset, key, vel) == Some(l@)
                &&& forall|i: int| 0 <= i < l@.len() ==> spawner_wf(&#[trigger] l@[i])
            },
            None => first_nonempty_attack(sfs@, bank, preset, key, vel) is None,
        },
{
    let mut i: usize = 0;
    proof {
        assert(sfs@.subrange(0, sfs@.len() as int) =~= sfs@);
    }
    while i < sfs.len()
        invariant
            i <= sfs@.len(),
            forall|j: int| 0 <= j < sfs@.len() ==> soundfont_inv(*(#[trigger] sfs@[j])),
            first_nonempty_attack(sfs@.subrange(i as int, sfs@.len() as int), bank, preset, key, vel)
                == first_nonempty_attack(sfs@, bank, preset, key, vel),
        decreases sfs@.len() - i,
    {
        let ghost sub = sfs@.subrange(i as int, sfs@.len() as int);
        proof {
            assert(sub[0] == sfs@[i as int]);
            assert(sub.subrange(1, sub.len() as int) =~= sfs@.subrange(
                i + 1,
                sfs@.len() as int,
            ));
        }
        let l = sfs[i].get_attack_voice_spawners_at(bank, preset, key, vel);
        if l.len() > 0 {
            return Some(l);
        }
        i = i + 1;
    }
    proof {
        assert(sfs@.subrange(i as int, sfs@.len() as int).len() == 0);
    }
    None
}

impl ChannelSoundfont {
    pub fn new() -> (c: ChannelSoundfont)
        ensures
            channel_sf_wf(&c),
            c.soundfonts@.len() == 0,
            c.curr_bank is None,
            c.curr_preset is None,
            forall|k: int, v: int|
                0 <= k < 128 && 0 <= v < 128 ==> #[trigger] matrix_attack_at(
                    &c.matrix,
                    k,
                    v,
                ).len() == 0,
            forall|k: int, v: int|
                0 <= k < 128 && 0 <= v < 128 ==> #[trigger] matrix_release_at(
                    &c.matrix,
                    k,
                    v,
                ).len() == 0,
    {
        ChannelSoundfont {
            soundfonts: Vec::new(),
            matrix: VoiceSpawnerMatrix::new(),
            curr_bank: None,
            curr_preset: None,
        }
    }

    /// Replace the soundfont stack and recompile the matrix for the default
    /// program.
    pub fn set_soundfonts(&mut self, soundfonts: Vec<Arc<Soundfont>>)
        requires
            channel_sf_wf(&*old(self)),
            forall|i: int|
                0 <= i < soundfonts@.len() ==> soundfont_inv(*(#[trigger] soundfonts@[i])),
        ensures
            channel_sf_wf(&*final(self)),
            final(self).soundfonts == soundfonts,
            final(self).curr_bank == Some(0u8),
            final(self).curr_preset == Some(0u8),
    {
        self.soundfonts = soundfonts;
        self.curr_bank = None;
        self.curr_preset = None;
        self.rebuild_matrix(0, 0);
    }

    pub fn change_program(&mut self, bank: u8, preset: u8)
        requires
            channel_sf_wf(&*old(self)),
        ensures
            channel_sf_wf(&*final(self)),
            final(self).soundfonts == old(self).soundfonts,
            final(self).curr_bank == Some(bank),
            final(self).curr_preset == Some(preset),
            old(self).curr_bank == Some(bank) && old(self).curr_preset == Some(preset)
                ==> *final(self) == *old(self),
            forall|k: int, v: int|
                0 <= k < 128 && 0 <= v < 128 ==> #[trigger] cell_is_pick(
                    *final(self),
                    bank,
                    preset,
                    k,
                    v,
                ),
    {
        self.rebuild_matrix(bank, preset);
    }

    /// Recompile the dispatch matrix for a program. Rebuilding for the
    /// program the matrix already holds is a no-op: the work happens once.
    /// After the call, every attack cell holds the first non-empty list the
    /// stack serves for the program, falling back to bank 0 preset 0.
    pub fn rebuild_matrix(&mut self, bank: u8, preset: u8)
        requires
            channel_sf_wf(&*old(self)),
        ensures
            channel_sf_wf(&*final(self)),
            final(self).soundfonts == old(self).soundfonts,
            final(self).curr_bank == Some(bank),
            final(self).curr_preset == Some(preset),
            old(self).curr_bank == Some(bank) && old(self).curr_preset == Some(preset)
                ==> *final(self) == *old(self),
            forall|k: int, v: int|
                0 <= k < 128 && 0 <= v < 128 ==> #[trigger] cell_is_pick(
                    *final(self),
                    bank,
                    preset,
                    k,
                    v,
                ),
    {
        if self.curr_bank.is_some() && self.curr_preset.is_some() {
            let cb = match self.curr_bank {
                Some(b) => b,
                None => 0,
            };
            let cp = match self.curr_preset {
                Some(p) => p,
                None => 0,
            };
            if cb == bank && cp == preset {
                proof {
                    assert forall|k: int, v: int| 0 <= k < 128 && 0 <= v < 128 implies
                        #[trigger] cell_is_pick(*old(self), bank, preset, k, v) by {
                        assert(cell_is_pick(
                            *old(self),
                            old(self).curr_bank->0,
                            old(self).curr_preset->0,
                            k,
                            v,
                        ));
                    }
                }
                return ;
            }
        }

        let ghost sfs0 = self.soundfonts@;
        let mut k: u8 = 0;
        while k < 128
            invariant
                k <= 128,
                channel_sf_wf_core(self),
                self.soundfonts@ == sfs0,
                self.soundfonts == old(self).soundfonts,
                self.curr_bank == old(self).curr_bank,
                self.curr_preset == old(self).curr_preset,
                forall|kk: int, vv: int|
                    0 <= kk < k && 0 <= vv < 128 ==> #[trigger] cell_is_pick(
                        *self,
                        bank,
                        preset,
                        kk,
                        vv,
                    ),
            decreases 128 - k,
        {
            let mut v: u8 = 0;
            while v < 128
                invariant
                    k < 128,
                    v <= 128,
                    channel_sf_wf_core(self),
                    self.soundfonts@ == sfs0,
                    self.soundfonts == old(self).soundfonts,
                    self.curr_bank == old(self).curr_bank,
                    self.curr_preset == old(self).curr_preset,
                    forall|kk: int, vv: int|
                        0 <= kk < k && 0 <= vv < 128 ==> #[trigger] cell_is_pick(
                            *self,
                            bank,
                            preset,
                            kk,
                            vv,
                        ),
                    forall|vv: int|
                        0 <= vv < v ==> #[trigger] cell_is_pick(*self, bank, preset, k as int, vv),
                decreases 128 - v,
            {
                let attack_spawners = match find_nonempty_attack(
                    &self.soundfonts,
                    bank,
                    preset,
                    k,
                    v,
                ) {
                    Some(l) => l,
                    None => match find_nonempty_attack(&self.soundfonts, 0, 0, k, v) {
                        Some(l) => l,
                        None => Vec::new(),
                    },
                };
                proof {
                    assert(attack_spawners@ == attack_pick_spec(
                        self.soundfonts@,
                        bank,
                        preset,
                        k,
                        v,
                    ));
                }
                let ghost before = *self;
                self.matrix.set_spawners_attack(k, v, attack_spawners);
                self.matrix.set_spawners_release(k, v, Vec::new());
                proof {
                    assert(matrix_attack_at(&self.matrix, k as int, v as int)
                        == attack_pick_spec(self.soundfonts@, bank, preset, k, v));
                    assert(matrix_release_at(&self.matrix, k as int, v as int).len() == 0);
                    assert(cell_is_pick(*self, bank, preset, k as int, v as int));
                    assert forall|kk: int, vv: int| 0 <= kk < k && 0 <= vv < 128 implies
                        #[trigger] cell_is_pick(*self, bank, preset, kk, vv) by {
                        assert(kk * 128 + vv != k * 128 + v) by (nonlinear_arith)
                            requires
                                0 <= kk < k,
                                0 <= vv < 128,
                                0 <= k < 128,
                                0 <= v < 128,
                        ;
                        assert(cell_is_pick(before, bank, preset, kk, vv));
                        assert(self.matrix.attack@[kk * 128 + vv]
                            == before.matrix.attack@[kk * 128 + vv]);
                        assert(self.matrix.release@[kk * 128 + vv]
                            == before.matrix.release@[kk * 128 + vv]);
                    }
                    assert forall|vv: int| 0 <= vv < v + 1 implies #[trigger] cell_is_pick(
                        *self,
                        bank,
                        preset,
                        k as int,
                        vv,
                    ) by {
                        if vv == v as int {
                        } else {
                            assert(k * 128 + vv != k * 128 + v);
                            assert(cell_is_pick(before, bank, preset, k as int, vv));
                            assert(self.matrix.attack@[k * 128 + vv]
                                == before.matrix.attack@[k * 128 + vv]);
                            assert(self.matrix.release@[k * 128 + vv]
                                == before.matrix.release@[k * 128 + vv]);
                        }
                    }
                }
                v = v + 1;
            }
            k = k + 1;
        }

        let ghost done = *self;
        self.curr_bank = Some(bank);
        self.curr_preset = Some(preset);
        proof {
            assert forall|k2: int, v2: int| 0 <= k2 < 128 && 0 <= v2 < 128 implies
                #[trigger] cell_is_pick(*self, bank, preset, k2, v2) by {
                assert(cell_is_pick(done, bank, preset, k2, v2));
                assert(self.matrix == done.matrix);
                assert(self.soundfonts == done.soundfonts);
            }
        }
    }

    /// Spawn the attack voices for a note-on through the compiled matrix.
    pub fn spawn_voices_attack(&self, control: &VoiceControlData, key: u8, vel: u8) -> (r: Vec<
        VoiceBase,
    >)
        requires
            channel_sf_wf(self),
            control_wf(*control),
            key < 128,
            vel < 128,
        ensures
            r@.len() == matrix_attack_at(&self.matrix, key as int, vel as int).len(),
            forall|i: int|
                0 <= i < r@.len() ==> #[trigger] r@[i] == spawned_voice_spec(
                    matrix_attack_at(&self.matrix, key as int, vel as int)[i],
                    *control,
                ),
            forall|i: int| 0 <= i < r@.len() ==> voice_wf(&#[trigger] r@[i]),
            forall|i: int| 0 <= i < r@.len() ==> !(#[trigger] r@[i]).releasing,
    {
        self.matrix.spawn_voices_attack(control, key, vel)
    }

    /// Spawn the release voices for a note-off through the compiled matrix.
    pub fn spawn_voices_release(&self, control: &VoiceControlData, key: u8, vel: u8) -> (r: Vec<
        VoiceBase,
    >)
        requires
            channel_sf_wf(self),
            control_wf(*control),
            key < 128,
            vel < 128,
        ensures
            r@.len() == matrix_release_at(&self.matrix, key as int, vel as int).len(),
            forall|i: int|
                0 <= i < r@.len() ==> #[trigger] r@[i] == spawned_voice_spec(
                    matrix_release_at(&self.matrix, key as int, vel as int)[i],
                    *control,
                ),
            forall|i: int| 0 <= i < r@.len() ==> voice_wf(&#[trigger] r@[i]),
            forall|i: int| 0 <= i < r@.len() ==> !(#[trigger] r@[i]).releasing,
    {
        self.matrix.spawn_voices_release(control, key, vel)
    }
}

/// The parts of the channel invariant that do not mention the compiled
/// program (used while a rebuild is in progress).
pub open spec fn channel_sf_wf_core(c: &ChannelSoundfont) -> bool {
    &&& matrix_wf(&c.matrix)
    &&& forall|i: int|
        0 <= i < c.soundfonts@.len() ==> soundfont_inv(*(#[trigger] c.soundfonts@[i]))
}

} // verus!
