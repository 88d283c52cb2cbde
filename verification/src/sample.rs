use std::sync::Arc;
use vstd::prelude::*;

verus! {

/// Largest magnitude of a stored PCM value: one in the Q15 sample scale.
pub const SAMPLE_ONE: i32 = 32768;

/// A key identifying one decoded sample file in the loader's cache.
#[derive(Clone, PartialEq, Eq, Hash, Debug)]
pub struct SampleCache {
    pub path: String,
}

impl SampleCache {
    pub fn new(path: String) -> (r: Self)
        ensures
            r.path == path,
    {
        Self { path }
    }
}

/// Relies on std's Arc::clone: the returned handle is the same shared value.
#[verifier::external_body]
pub fn arc_share<T>(a: &Arc<T>) -> (r: Arc<T>)
    ensures
        r == *a,
{
    Arc::clone(a)
}

/// The value a buffer hands out at an index: the stored value inside the
/// buffer, silence outside it.
pub open spec fn sample_at(s: Seq<i32>, i: int) -> i32 {
    if 0 <= i < s.len() {
        s[i]
    } else {
        0
    }
}

pub open spec fn sample_values_bounded(s: Seq<i32>) -> bool {
    forall|i: int| 0 <= i < s.len() ==> -SAMPLE_ONE <= #[trigger] s[i] <= SAMPLE_ONE
}

pub open spec fn clamp_q15_spec(v: int) -> i32 {
    if v < -32768 {
        (-32768) as i32
    } else if v > 32768 {
        32768 as i32
    } else {
        v as i32
    }
}

pub open spec fn clamped_seq(s: Seq<i32>) -> Seq<i32> {
    Seq::new(s.len(), |i: int| clamp_q15_spec(s[i] as int))
}

/// A decoded PCM sample: one shared array of Q15 values per output channel.
/// Many voices alias the same arrays; they are never written after load.
pub struct SampleData {
    pub channels: Vec<Arc<Vec<i32>>>,
}

pub open spec fn sample_data_wf(s: &SampleData) -> bool {
    &&& s.channels@.len() == 2
    &&& s.channels@[0]@.len() == s.channels@[1]@.len()
    &&& sample_values_bounded(s.channels@[0]@)
    &&& sample_values_bounded(s.channels@[1]@)
}

fn clamp_channel(v: &Vec<i32>) -> (r: Vec<i32>)
    ensures
        r@ == clamped_seq(v@),
{
    let mut out: Vec<i32> = Vec::new();
    let mut i: usize = 0;
    while i < v.len()
        invariant
            i <= v@.len(),
            out@.len() == i,
            forall|j: int| 0 <= j < i ==> out@[j] == clamp_q15_spec(v@[j] as int),
        decreases v@.len() - i,
    {
        let x = v[i];
        let c = if x < -32768 {
            -32768
        } else if x > 32768 {
            32768
        } else {
            x
        };
        out.push(c);
        i = i + 1;
    }
    proof {
        assert(out@ =~= clamped_seq(v@));
    }
    out
}

impl SampleData {
    /// Build a stereo sample from two decoded channels, clamping every value
    /// into the Q15 range.
    pub fn new(left: Vec<i32>, right: Vec<i32>) -> (r: SampleData)
        requires
            left@.len() == right@.len(),
        ensures
            sample_data_wf(&r),
            r.channels@[0]@ == clamped_seq(left@),
            r.channels@[1]@ == clamped_seq(right@),
    {
        let l = clamp_channel(&left);
        let rr = clamp_channel(&right);
        let mut channels: Vec<Arc<Vec<i32>>> = Vec::new();
        channels.push(Arc::new(l));
        channels.push(Arc::new(rr));
        SampleData { channels }
    }

    /// Number of frames in the sample.
    pub fn length(&self) -> (l: usize)
        requires
            sample_data_wf(self),
        ensures
            l == self.channels@[0]@.len(),
    {
        self.channels[0].len()
    }
}

/// A PCM buffer sampler: hands out the stored Q15 value at an index, and
/// silence past the end of the buffer.
pub struct PcmBufferSampler {
    pub data: Arc<Vec<i32>>,
}

/// The closed set of buffer sampler kinds.
pub enum BufferSamplers {
    Pcm(PcmBufferSampler),
}

impl BufferSamplers {
    pub fn new_pcm(data: Arc<Vec<i32>>) -> (r: BufferSamplers)
        ensures
            r == BufferSamplers::Pcm(PcmBufferSampler { data }),
            r.values() == data@,
    {
        BufferSamplers::Pcm(PcmBufferSampler { data })
    }

    /// The sequence of stored values.
    pub open spec fn values(&self) -> Seq<i32> {
        match self {
            BufferSamplers::Pcm(s) => s.data@,
        }
    }

    pub fn get(&self, pos: u64) -> (v: i32)
        ensures
            v == sample_at(self.values(), pos as int),
    {
        match self {
            BufferSamplers::Pcm(s) => {
                if pos < s.data.len() as u64 {
                    s.data[pos as usize]
                } else {
                    0
                }
            },
        }
    }

    pub fn length(&self) -> (l: usize)
        ensures
            l == self.values().len(),
    {
        match self {
            BufferSamplers::Pcm(s) => s.data.len(),
        }
    }
}

} // verus!
