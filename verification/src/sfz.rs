use crate::sampler::LoopMode;
use vstd::prelude::*;
use vstd::string::StringExecFns;
use vstd::string::StrSliceExecFns;

verus! {

/// Largest level value the SFZ loader stores: one hundred percent in
/// thousandths of a percent.
pub const PERCENT_MILLI_MAX: u32 = 100_000;

/// Amplitude envelope opcodes of one SFZ region, as the tokenizer hands
/// them over: times in microseconds, levels in thousandths of a percent.
#[derive(Clone, Copy, PartialEq, Eq, Structural, Debug)]
pub struct AmpegEnvelopeParams {
    pub ampeg_start: u32,
    pub ampeg_delay: u64,
    pub ampeg_attack: u64,
    pub ampeg_hold: u64,
    pub ampeg_decay: u64,
    pub ampeg_sustain: u32,
    pub ampeg_release: u64,
}

impl Default for AmpegEnvelopeParams {
    /// SFZ defaults: everything at zero except a sustain of one (percent)
    /// and a release of one millisecond.
    fn default() -> (d: Self)
        ensures
            d == AmpegEnvelopeParams::default_spec(),
    {
        AmpegEnvelopeParams {
            ampeg_start: 0,
            ampeg_delay: 0,
            ampeg_attack: 0,
            ampeg_hold: 0,
            ampeg_decay: 0,
            ampeg_sustain: 1_000,
            ampeg_release: 1_000,
        }
    }
}

impl AmpegEnvelopeParams {
    pub open spec fn default_spec() -> AmpegEnvelopeParams {
        AmpegEnvelopeParams {
            ampeg_start: 0,
            ampeg_delay: 0,
            ampeg_attack: 0,
            ampeg_hold: 0,
            ampeg_decay: 0,
            ampeg_sustain: 1_000,
            ampeg_release: 1_000,
        }
    }

    /// What one envelope opcode does to the builder state.
    pub open spec fn updated_spec(self, flag: SfzAmpegEnvelope) -> AmpegEnvelopeParams {
        match flag {
            SfzAmpegEnvelope::AmpegStart(val) => AmpegEnvelopeParams {
                ampeg_start: val,
                ..self
            },
            SfzAmpegEnvelope::AmpegDelay(val) => AmpegEnvelopeParams {
                ampeg_delay: val,
                ..self
            },
            SfzAmpegEnvelope::AmpegAttack(val) => AmpegEnvelopeParams {
                ampeg_attack: val,
                ..self
            },
            SfzAmpegEnvelope::AmpegHold(val) => AmpegEnvelopeParams { ampeg_hold: val, ..self },
            SfzAmpegEnvelope::AmpegDecay(val) => AmpegEnvelopeParams {
                ampeg_decay: val,
                ..self
            },
            SfzAmpegEnvelope::AmpegSustain(val) => AmpegEnvelopeParams {
                ampeg_sustain: val,
                ..self
            },
            SfzAmpegEnvelope::AmpegRelease(val) => AmpegEnvelopeParams {
                ampeg_release: val,
                ..self
            },
        }
    }

    fn update_from_flag(&mut self, flag: SfzAmpegEnvelope)
        ensures
            *final(self) == old(self).updated_spec(flag),
    {
        match flag {
            SfzAmpegEnvelope::AmpegStart(val) => self.ampeg_start = val,
            SfzAmpegEnvelope::AmpegDelay(val) => self.ampeg_delay = val,
            SfzAmpegEnvelope::AmpegAttack(val) => self.ampeg_attack = val,
            SfzAmpegEnvelope::AmpegHold(val) => self.ampeg_hold = val,
            SfzAmpegEnvelope::AmpegDecay(val) => self.ampeg_decay = val,
            SfzAmpegEnvelope::AmpegSustain(val) => self.ampeg_sustain = val,
            SfzAmpegEnvelope::AmpegRelease(val) => self.ampeg_release = val,
        }
    }
}

/// One amplitude-envelope opcode.
#[derive(Clone, Copy, PartialEq, Eq, Structural, Debug)]
pub enum SfzAmpegEnvelope {
    AmpegStart(u32),
    AmpegDelay(u64),
    AmpegAttack(u64),
    AmpegHold(u64),
    AmpegDecay(u64),
    AmpegSustain(u32),
    AmpegRelease(u64),
}

/// One region-level opcode.
#[derive(Clone, PartialEq, Eq, Debug)]
pub enum SfzRegionFlags {
    Lovel(u8),
    Hivel(u8),
    Key(u8),
    PitchKeycenter(u8),
    Pan(i8),
    Sample(String),
    LoopMode(LoopMode),
    Cutoff(u32),
    DefaultPath(String),
    AmpegEnvelope(SfzAmpegEnvelope),
}

/// The group headers an SFZ file is organised under.
#[derive(Clone, Copy, PartialEq, Eq, Structural, Debug)]
pub enum SfzGroupType {
    Region,
    Group,
    Master,
    Control,
    Other,
}

/// One token of a lexed SFZ file: a group header or an opcode.
#[derive(Clone, PartialEq, Eq, Debug)]
pub enum SfzToken {
    Group(SfzGroupType),
    RegionFlag(SfzRegionFlags),
}

/// Nesting depth of each group header in the group stack; headers that do
/// not open a group have none.
pub open spec fn group_level_spec(group_type: SfzGroupType) -> Option<usize> {
    match group_type {
        SfzGroupType::Control => Some(1usize),
        SfzGroupType::Master => Some(2usize),
        SfzGroupType::Group => Some(3usize),
        SfzGroupType::Region => Some(4usize),
        SfzGroupType::Other => None,
    }
}

pub fn get_group_level(group_type: SfzGroupType) -> (r: Option<usize>)
    ensures
        r == group_level_spec(group_type),
{
    match group_type {
        SfzGroupType::Control => Some(1),
        SfzGroupType::Master => Some(2),
        SfzGroupType::Group => Some(3),
        SfzGroupType::Region => Some(4),
        SfzGroupType::Other => None,
    }
}

/// The opcodes gathered for one region before it is built.
#[derive(Clone, PartialEq, Eq, Debug)]
pub struct RegionParamsBuilder {
    pub lovel: u8,
    pub hivel: u8,
    pub key: Option<u8>,
    pub pitch_keycenter: Option<u8>,
    pub pan: i8,
    pub sample: Option<String>,
    pub default_path: Option<String>,
    pub loop_mode: LoopMode,
    pub cutoff: Option<u32>,
    pub ampeg_envelope: AmpegEnvelopeParams,
}

impl Default for RegionParamsBuilder {
    fn default() -> (d: Self)
        ensures
            d == RegionParamsBuilder::default_spec(),
    {
        RegionParamsBuilder {
            lovel: 0,
            hivel: 127,
            key: None,
            pitch_keycenter: None,
            pan: 0,
            sample: None,
            default_path: None,
            loop_mode: LoopMode::NoLoop,
            cutoff: None,
            ampeg_envelope: AmpegEnvelopeParams::default(),
        }
    }
}

impl RegionParamsBuilder {
    pub open spec fn default_spec() -> RegionParamsBuilder {
        RegionParamsBuilder {
            lovel: 0,
            hivel: 127,
            key: None,
            pitch_keycenter: None,
            pan: 0,
            sample: None,
            default_path: None,
            loop_mode: LoopMode::NoLoop,
            cutoff: None,
            ampeg_envelope: AmpegEnvelopeParams::default_spec(),
        }
    }

    /// Apply one opcode; the builder's snapshot takes the opcode's value.
    fn update_from_flag(&mut self, flag: &SfzRegionFlags)
        ensures
            builder_snapshot(*final(self)) == apply_flag_spec(
                builder_snapshot(*old(self)),
                *flag,
            ),
    {
        match flag {
            SfzRegionFlags::Lovel(val) => self.lovel = *val,
            SfzRegionFlags::Hivel(val) => self.hivel = *val,
            SfzRegionFlags::Key(val) => self.key = Some(*val),
            SfzRegionFlags::PitchKeycenter(val) => self.pitch_keycenter = Some(*val),
            SfzRegionFlags::Pan(val) => self.pan = *val,
            SfzRegionFlags::Sample(val) => self.sample = Some(val.clone()),
            SfzRegionFlags::LoopMode(val) => self.loop_mode = *val,
            SfzRegionFlags::Cutoff(val) => self.cutoff = Some(*val),
            SfzRegionFlags::DefaultPath(val) => self.default_path = Some(val.clone()),
            SfzRegionFlags::AmpegEnvelope(flag) => self.ampeg_envelope.update_from_flag(*flag),
        }
    }
}

/// A private copy of a builder for a deeper group level; the snapshot is
/// preserved exactly.
fn copy_builder(b: &RegionParamsBuilder) -> (r: RegionParamsBuilder)
    ensures
        builder_snapshot(r) == builder_snapshot(*b),
{
    RegionParamsBuilder {
        lovel: b.lovel,
        hivel: b.hivel,
        key: b.key,
        pitch_keycenter: b.pitch_keycenter,
        pan: b.pan,
        sample: match &b.sample {
            Some(sample) => Some(sample.clone()),
            None => None,
        },
        default_path: match &b.default_path {
            Some(path) => Some(path.clone()),
            None => None,
        },
        loop_mode: b.loop_mode,
        cutoff: b.cutoff,
        ampeg_envelope: b.ampeg_envelope,
    }
}

/// One region of a parsed SFZ file, its sample path resolved against the
/// file's directory and the region's default path.
#[derive(Clone, PartialEq, Eq, Debug)]
pub struct RegionParams {
    pub lovel: u8,
    pub hivel: u8,
    pub key: u8,
    pub pitch_keycenter: Option<u8>,
    pub pan: i8,
    pub sample_path: String,
    pub loop_mode: LoopMode,
    pub cutoff: Option<u32>,
    pub ampeg_envelope: AmpegEnvelopeParams,
}

/// Paths are joined textually with a single separator; empty components
/// disappear. Resolving the result against the file system is the host's
/// concern.
pub open spec fn join_path_spec(base: Seq<char>, rel: Seq<char>) -> Seq<char> {
    if base.len() == 0 {
        rel
    } else {
        base + seq!['/'] + rel
    }
}

pub fn join_path(base: &String, rel: &String) -> (r: String)
    ensures
        r@ == join_path_spec(base@, rel@),
{
    if base.as_str().unicode_len() == 0 {
        rel.clone()
    } else {
        let mut out = base.clone();
        out.append("/");
        out.append(rel.as_str());
        proof {
            reveal_strlit("/");
        }
        out
    }
}

// The token walk below is specified over snapshots: the value of a builder
// or a region with every string taken as its character sequence, so the
// specification is insensitive to string identity.

/// A builder's snapshot: lovel, hivel, key, pitch keycenter, pan, sample,
/// default path, loop mode, cutoff, envelope opcodes.
pub type BuilderSnapshot = (
    u8,
    u8,
    Option<u8>,
    Option<u8>,
    i8,
    Option<Seq<char>>,
    Option<Seq<char>>,
    LoopMode,
    Option<u32>,
    AmpegEnvelopeParams,
);

/// A region's snapshot: lovel, hivel, key, pitch keycenter, pan, sample
/// path, loop mode, cutoff, envelope opcodes.
pub type RegionSnapshot = (u8, u8, u8, Option<u8>, i8, Seq<char>, LoopMode, Option<u32>, AmpegEnvelopeParams);

pub open spec fn opt_str_view(o: Option<String>) -> Option<Seq<char>> {
    match o {
        Some(s) => Some(s@),
        None => None,
    }
}

pub open spec fn builder_snapshot(b: RegionParamsBuilder) -> BuilderSnapshot {
    (
        b.lovel,
        b.hivel,
        b.key,
        b.pitch_keycenter,
        b.pan,
        opt_str_view(b.sample),
        opt_str_view(b.default_path),
        b.loop_mode,
        b.cutoff,
        b.ampeg_envelope,
    )
}

pub open spec fn default_builder_snapshot() -> BuilderSnapshot {
    (0u8, 127u8, None, None, 0i8, None, None, LoopMode::NoLoop, None, AmpegEnvelopeParams::default_spec())
}

pub open spec fn region_snapshot(r: RegionParams) -> RegionSnapshot {
    (r.lovel, r.hivel, r.key, r.pitch_keycenter, r.pan, r.sample_path@, r.loop_mode, r.cutoff, r.ampeg_envelope)
}

pub open spec fn region_snapshots(rs: Seq<RegionParams>) -> Seq<RegionSnapshot> {
    Seq::new(rs.len(), |i: int| region_snapshot(rs[i]))
}

pub open spec fn builder_snapshots(bs: Seq<RegionParamsBuilder>) -> Seq<BuilderSnapshot> {
    Seq::new(bs.len(), |i: int| builder_snapshot(bs[i]))
}

/// What one opcode does to a builder's snapshot.
pub open spec fn apply_flag_spec(v: BuilderSnapshot, flag: SfzRegionFlags) -> BuilderSnapshot {
    match flag {
        SfzRegionFlags::Lovel(val) => (val, v.1, v.2, v.3, v.4, v.5, v.6, v.7, v.8, v.9),
        SfzRegionFlags::Hivel(val) => (v.0, val, v.2, v.3, v.4, v.5, v.6, v.7, v.8, v.9),
        SfzRegionFlags::Key(val) => (v.0, v.1, Some(val), v.3, v.4, v.5, v.6, v.7, v.8, v.9),
        SfzRegionFlags::PitchKeycenter(val) => (
            v.0,
            v.1,
            v.2,
            Some(val),
            v.4,
            v.5,
            v.6,
            v.7,
            v.8,
            v.9,
        ),
        SfzRegionFlags::Pan(val) => (v.0, v.1, v.2, v.3, val, v.5, v.6, v.7, v.8, v.9),
        SfzRegionFlags::Sample(val) => (v.0, v.1, v.2, v.3, v.4, Some(val@), v.6, v.7, v.8, v.9),
        SfzRegionFlags::LoopMode(val) => (v.0, v.1, v.2, v.3, v.4, v.5, v.6, val, v.8, v.9),
        SfzRegionFlags::Cutoff(val) => (v.0, v.1, v.2, v.3, v.4, v.5, v.6, v.7, Some(val), v.9),
        SfzRegionFlags::DefaultPath(val) => (
            v.0,
            v.1,
            v.2,
            v.3,
            v.4,
            v.5,
            Some(val@),
            v.7,
            v.8,
            v.9,
        ),
        SfzRegionFlags::AmpegEnvelope(flag) => (
            v.0,
            v.1,
            v.2,
            v.3,
            v.4,
            v.5,
            v.6,
            v.7,
            v.8,
            v.9.updated_spec(flag),
        ),
    }
}

/// The region a builder snapshot yields: nothing without both a key and a
/// sample, else every gathered opcode with the sample path resolved against
/// the default path and the file's directory.
pub open spec fn build_spec(v: BuilderSnapshot, base: Seq<char>) -> Option<RegionSnapshot> {
    if v.5 is None || v.2 is None {
        None
    } else {
        let rel = match v.6 {
            Some(dp) => join_path_spec(dp, v.5->0),
            None => v.5->0,
        };
        Some((v.0, v.1, v.2->0, v.3, v.4, join_path_spec(base, rel), v.7, v.8, v.9))
    }
}

/// Leaving a region group: the top builder comes off the stack and, if it
/// builds, its region joins the output.
pub open spec fn finish_region_spec(
    current: Option<SfzGroupType>,
    stack: Seq<BuilderSnapshot>,
    base: Seq<char>,
    acc: Seq<RegionSnapshot>,
) -> (Seq<BuilderSnapshot>, Seq<RegionSnapshot>) {
    if current == Some(SfzGroupType::Region) && stack.len() > 0 {
        match build_spec(stack.last(), base) {
            Some(rv) => (stack.drop_last(), acc.push(rv)),
            None => (stack.drop_last(), acc),
        }
    } else {
        (stack, acc)
    }
}

/// Entering a deeper level: each new level starts from a copy of its
/// parent's gathered opcodes (or the defaults at the bottom).
pub open spec fn grow_stack_spec(stack: Seq<BuilderSnapshot>, level: int) -> Seq<BuilderSnapshot>
    decreases level - stack.len(),
{
    if stack.len() >= level {
        stack
    } else {
        let parent = if stack.len() == 0 {
            default_builder_snapshot()
        } else {
            stack.last()
        };
        grow_stack_spec(stack.push(parent), level)
    }
}

/// The stack brought to a group header's level: deeper levels are dropped,
/// missing levels inherit from their parent.
pub open spec fn resize_stack_spec(stack: Seq<BuilderSnapshot>, level: int) -> Seq<
    BuilderSnapshot,
> {
    if stack.len() > level {
        stack.subrange(0, level)
    } else {
        grow_stack_spec(stack, level)
    }
}

/// The regions a token stream parses to, from a walk state: the scope the
/// walk is in, the builder stack of the enclosing levels, and the regions
/// already emitted. Region flags land on the innermost builder; a header
/// first finishes an open region group, then moves the stack to its level.
pub open spec fn parse_root_spec(
    tokens: Seq<SfzToken>,
    base: Seq<char>,
    current: Option<SfzGroupType>,
    stack: Seq<BuilderSnapshot>,
    acc: Seq<RegionSnapshot>,
) -> Seq<RegionSnapshot>
    decreases tokens.len(),
{
    if tokens.len() == 0 {
        finish_region_spec(current, stack, base, acc).1
    } else {
        let rest = tokens.subrange(1, tokens.len() as int);
        match tokens[0] {
            SfzToken::Group(group) => {
                let stepped = finish_region_spec(current, stack, base, acc);
                match group_level_spec(group) {
                    Some(level) => parse_root_spec(
                        rest,
                        base,
                        Some(group),
                        resize_stack_spec(stepped.0, level as int),
                        stepped.1,
                    ),
                    None => parse_root_spec(rest, base, None, stepped.0, stepped.1),
                }
            },
            SfzToken::RegionFlag(flag) => {
                let stack2 = if current is Some && stack.len() > 0 {
                    stack.update(stack.len() - 1, apply_flag_spec(stack.last(), flag))
                } else {
                    stack
                };
                parse_root_spec(rest, base, current, stack2, acc)
            },
        }
    }
}

impl RegionParamsBuilder {
    pub fn build(self, base_path: &String) -> (r: Option<RegionParams>)
        ensures
            match r {
                Some(region) => {
                    &&& self.sample is Some
                    &&& self.key is Some
                    &&& region.lovel == self.lovel
                    &&& region.hivel == self.hivel
                    &&& region.key == self.key->0
                    &&& region.pitch_keycenter == self.pitch_keycenter
                    &&& region.pan == self.pan
                    &&& region.loop_mode == self.loop_mode
                    &&& region.cutoff == self.cutoff
                    &&& region.ampeg_envelope == self.ampeg_envelope
                    &&& region.sample_path@ == join_path_spec(
                        base_path@,
                        if self.default_path is Some {
                            join_path_spec(self.default_path->0@, self.sample->0@)
                        } else {
                            self.sample->0@
                        },
                    )
                },
                None => self.sample is None || self.key is None,
            },
            match r {
                Some(region) => build_spec(builder_snapshot(self), base_path@) == Some(
                    region_snapshot(region),
                ),
                None => build_spec(builder_snapshot(self), base_path@) is None,
            },
    {
        let key = match &self.key {
            Some(k) => *k,
            None => {
                return None;
            },
        };
        let sample = match self.sample {
            Some(s) => s,
            None => {
                return None;
            },
        };
        let relative_sample_path = match &self.default_path {
            Some(default_path) => join_path(default_path, &sample),
            None => sample,
        };
        let sample_path = join_path(base_path, &relative_sample_path);
        Some(
            RegionParams {
                lovel: self.lovel,
                hivel: self.hivel,
                key,
                pitch_keycenter: self.pitch_keycenter,
                pan: self.pan,
                sample_path,
                loop_mode: self.loop_mode,
                cutoff: self.cutoff,
                ampeg_envelope: self.ampeg_envelope,
            },
        )
    }
}

/// Walks the token stream of an SFZ file, keeping a stack of builder states
/// for the nested group levels; every completed region group yields one
/// region, exactly as the token-walk specification describes.
pub fn parse_sf_root(tokens: Vec<SfzToken>, base_path: &String) -> (regions: Vec<RegionParams>)
    ensures
        region_snapshots(regions@) == parse_root_spec(
            tokens@,
            base_path@,
            None,
            Seq::empty(),
            Seq::empty(),
        ),
{
    let mut current_group: Option<SfzGroupType> = None;
    let mut group_data_stack: Vec<RegionParamsBuilder> = Vec::new();
    let mut regions: Vec<RegionParams> = Vec::new();

    let n = tokens.len();
    proof {
        assert(builder_snapshots(group_data_stack@) =~= Seq::<BuilderSnapshot>::empty());
        assert(region_snapshots(regions@) =~= Seq::<RegionSnapshot>::empty());
        assert(tokens@.subrange(0, n as int) =~= tokens@);
    }
    let mut t: usize = 0;
    while t < n
        invariant
            t <= n,
            n == tokens@.len(),
            parse_root_spec(
                tokens@.subrange(t as int, n as int),
                base_path@,
                current_group,
                builder_snapshots(group_data_stack@),
                region_snapshots(regions@),
            ) == parse_root_spec(tokens@, base_path@, None, Seq::empty(), Seq::empty()),
        decreases n - t,
    {
        let ghost sub = tokens@.subrange(t as int, n as int);
        let ghost cur0 = current_group;
        let ghost sv0 = builder_snapshots(group_data_stack@);
        let ghost rv0 = region_snapshots(regions@);
        proof {
            assert(sub[0] == tokens@[t as int]);
            assert(sub.subrange(1, sub.len() as int) =~= tokens@.subrange(t + 1, n as int));
        }
        let token = &tokens[t];
        match token {
            SfzToken::Group(group) => {
                // Stepping out of a region group: build and keep it.
                if matches!(current_group, Some(SfzGroupType::Region)) {
                    if let Some(next_region) = group_data_stack.pop() {
                        let ghost bv = builder_snapshot(next_region);
                        proof {
                            assert(bv == sv0.last());
                            assert(builder_snapshots(group_data_stack@) =~= sv0.drop_last());
                        }
                        if let Some(built) = next_region.build(base_path) {
                            let ghost pre = region_snapshots(regions@);
                            regions.push(built);
                            proof {
                                assert(region_snapshots(regions@) =~= pre.push(
                                    region_snapshot(built),
                                ));
                            }
                        }
                    }
                }
                proof {
                    assert(builder_snapshots(group_data_stack@) == finish_region_spec(
                        cur0,
                        sv0,
                        base_path@,
                        rv0,
                    ).0);
                    assert(region_snapshots(regions@) == finish_region_spec(
                        cur0,
                        sv0,
                        base_path@,
                        rv0,
                    ).1);
                }
                match get_group_level(*group) {
                    Some(group_level) => {
                        current_group = Some(*group);
                        let ghost sv1 = builder_snapshots(group_data_stack@);
                        // Stepping inside: each new level starts from its
                        // parent's accumulated opcodes.
                        while group_data_stack.len() < group_level
                            invariant
                                group_level <= 4,
                                grow_stack_spec(
                                    builder_snapshots(group_data_stack@),
                                    group_level as int,
                                ) == grow_stack_spec(sv1, group_level as int),
                                sv1.len() <= group_level ==> group_data_stack@.len()
                                    <= group_level,
                                sv1.len() > group_level ==> builder_snapshots(group_data_stack@)
                                    == sv1,
                            decreases group_level - group_data_stack@.len(),
                        {
                            let ghost svc = builder_snapshots(group_data_stack@);
                            let parent_group = if group_data_stack.len() == 0 {
                                RegionParamsBuilder::default()
                            } else {
                                copy_builder(&group_data_stack[group_data_stack.len() - 1])
                            };
                            proof {
                                if svc.len() == 0 {
                                    assert(builder_snapshot(parent_group)
                                        == default_builder_snapshot());
                                } else {
                                    assert(builder_snapshot(parent_group) == svc.last());
                                }
                            }
                            group_data_stack.push(parent_group);
                            proof {
                                assert(builder_snapshots(group_data_stack@) =~= svc.push(
                                    builder_snapshot(parent_group),
                                ));
                            }
                        }
                        proof {
                            if sv1.len() <= group_level {
                                assert(builder_snapshots(group_data_stack@) == grow_stack_spec(
                                    builder_snapshots(group_data_stack@),
                                    group_level as int,
                                ));
                            }
                        }
                        // Stepping outside: drop the deeper levels.
                        let ghost sv2 = builder_snapshots(group_data_stack@);
                        while group_data_stack.len() > group_level
                            invariant
                                group_data_stack@.len() >= group_level,
                                builder_snapshots(group_data_stack@) =~= sv2.subrange(
                                    0,
                                    group_data_stack@.len() as int,
                                ),
                                sv2.len() >= group_data_stack@.len(),
                                sv1.len() <= group_level ==> sv2 == grow_stack_spec(
                                    sv1,
                                    group_level as int,
                                ) && sv2.len() == group_level,
                                sv1.len() > group_level ==> sv2 == sv1,
                            decreases group_data_stack@.len(),
                        {
                            let ghost svc = builder_snapshots(group_data_stack@);
                            group_data_stack.pop();
                            proof {
                                assert(builder_snapshots(group_data_stack@) =~= svc.drop_last());
                            }
                        }
                        proof {
                            if sv1.len() > group_level {
                                assert(builder_snapshots(group_data_stack@) =~= resize_stack_spec(
                                    sv1,
                                    group_level as int,
                                ));
                            } else {
                                assert(builder_snapshots(group_data_stack@) =~= sv2.subrange(
                                    0,
                                    sv2.len() as int,
                                ));
                                assert(sv2.subrange(0, sv2.len() as int) =~= sv2);
                                assert(builder_snapshots(group_data_stack@) =~= resize_stack_spec(
                                    sv1,
                                    group_level as int,
                                ));
                            }
                            assert(parse_root_spec(sub, base_path@, cur0, sv0, rv0)
                                == parse_root_spec(
                                tokens@.subrange(t + 1, n as int),
                                base_path@,
                                current_group,
                                builder_snapshots(group_data_stack@),
                                region_snapshots(regions@),
                            ));
                        }
                    },
                    None => {
                        current_group = None;
                        proof {
                            assert(parse_root_spec(sub, base_path@, cur0, sv0, rv0)
                                == parse_root_spec(
                                tokens@.subrange(t + 1, n as int),
                                base_path@,
                                current_group,
                                builder_snapshots(group_data_stack@),
                                region_snapshots(regions@),
                            ));
                        }
                    },
                }
            },
            SfzToken::RegionFlag(flag) => {
                if current_group.is_some() && group_data_stack.len() > 0 {
                    if let Some(mut top) = group_data_stack.pop() {
                        proof {
                            assert(builder_snapshot(top) == sv0.last());
                            assert(builder_snapshots(group_data_stack@) =~= sv0.drop_last());
                        }
                        top.update_from_flag(flag);
                        group_data_stack.push(top);
                        proof {
                            assert(builder_snapshots(group_data_stack@) =~= sv0.update(
                                sv0.len() - 1,
                                apply_flag_spec(sv0.last(), tokens@[t as int]->RegionFlag_0),
                            ));
                        }
                    }
                }
                proof {
                    assert(parse_root_spec(sub, base_path@, cur0, sv0, rv0) == parse_root_spec(
                        tokens@.subrange(t + 1, n as int),
                        base_path@,
                        current_group,
                        builder_snapshots(group_data_stack@),
                        region_snapshots(regions@),
                    ));
                }
            },
        }
        t = t + 1;
    }

    // The stream may end inside a region group: build and keep it.
    let ghost curf = current_group;
    let ghost svf = builder_snapshots(group_data_stack@);
    let ghost rvf = region_snapshots(regions@);
    if matches!(current_group, Some(SfzGroupType::Region)) {
        if let Some(next_region) = group_data_stack.pop() {
            proof {
                assert(builder_snapshot(next_region) == svf.last());
            }
            if let Some(built) = next_region.build(base_path) {
                let ghost pre = region_snapshots(regions@);
                regions.push(built);
                proof {
                    assert(region_snapshots(regions@) =~= pre.push(region_snapshot(built)));
                }
            }
        }
    }
    proof {
        assert(tokens@.subrange(n as int, n as int).len() == 0);
        assert(region_snapshots(regions@) == finish_region_spec(curf, svf, base_path@, rvf).1);
    }

    regions
}

} // verus!
