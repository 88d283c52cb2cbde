use crate::intdiv::i64_div_mod_floor;
use vstd::prelude::*;

verus! {

/// One in the Q32 fixed-point scale used for playback-rate ratios and for
/// sample positions: 4294967296 stands for a ratio of 1.0.
pub const PITCH_ONE: u64 = 0x1_0000_0000;

/// Largest playback-rate ratio a spawner can carry (keys span at most ten
/// octaves and a fraction, so ratios stay under 2^43).
pub const SPEED_MULT_MAX: u64 = 0x800_0000_0000;

pub open spec fn pow2_spec(e: nat) -> nat
    decreases e,
{
    if e == 0 {
        1
    } else {
        2 * pow2_spec((e - 1) as nat)
    }
}

proof fn lemma_pow2_bound(e: nat)
    requires
        e <= 11,
    ensures
        1 <= pow2_spec(e) <= 2048,
{
    reveal_with_fuel(pow2_spec, 13);
}

fn pow2_u64(e: u64) -> (r: u64)
    requires
        e <= 11,
    ensures
        r == pow2_spec(e as nat),
        1 <= r <= 2048,
{
    let mut r: u64 = 1;
    let mut i: u64 = 0;
    while i < e
        invariant
            i <= e <= 11,
            r == pow2_spec(i as nat),
            1 <= r <= 2048,
        decreases e - i,
    {
        proof {
            lemma_pow2_bound((i + 1) as nat);
        }
        r = r * 2;
        i = i + 1;
    }
    r
}

/// Ratio of the equal-tempered semitone step `i` above a key, in Q32:
/// the nearest integer to `2^(i/12) * 2^32`.
pub open spec fn semitone_ratio_spec(i: int) -> int {
    if i == 0 {
        0x1_0000_0000
    } else if i == 1 {
        4550359342
    } else if i == 2 {
        4820937788
    } else if i == 3 {
        5107605667
    } else if i == 4 {
        5411319705
    } else if i == 5 {
        5733093519
    } else if i == 6 {
        6074001000
    } else if i == 7 {
        6435179895
    } else if i == 8 {
        6817835604
    } else if i == 9 {
        7223245206
    } else if i == 10 {
        7652761717
    } else {
        8107818609
    }
}

fn semitone_ratio(i: u64) -> (r: u64)
    requires
        i < 12,
    ensures
        r == semitone_ratio_spec(i as int),
        0x1_0000_0000 <= r <= 8107818609,
{
    if i == 0 {
        0x1_0000_0000
    } else if i == 1 {
        4550359342
    } else if i == 2 {
        4820937788
    } else if i == 3 {
        5107605667
    } else if i == 4 {
        5411319705
    } else if i == 5 {
        5733093519
    } else if i == 6 {
        6074001000
    } else if i == 7 {
        6435179895
    } else if i == 8 {
        6817835604
    } else if i == 9 {
        7223245206
    } else if i == 10 {
        7652761717
    } else {
        8107818609
    }
}

/// Playback-rate ratio `2^(d/12)` in Q32, for a signed distance of `d`
/// semitones: the octave part is an exact power of two, the remainder
/// comes from the semitone table.
pub open spec fn key_ratio_spec(d: int) -> int {
    let q = d / 12;
    let r = d % 12;
    if q >= 0 {
        semitone_ratio_spec(r) * pow2_spec(q as nat)
    } else {
        semitone_ratio_spec(r) / pow2_spec((-q) as nat) as int
    }
}

/// Playback-rate ratio for a signed semitone distance.
pub fn key_ratio(d: i64) -> (r: u64)
    requires
        -128 <= d <= 128,
    ensures
        r == key_ratio_spec(d as int),
        0x20_0000 <= r <= SPEED_MULT_MAX,
{
    let (q, rem) = i64_div_mod_floor(d, 12);
    let s = semitone_ratio(rem);
    if q >= 0 {
        let p = pow2_u64(q as u64);
        proof {
            assert(d as int / 12 <= 10) by {
                assert((d as int / 12 >= 11) ==> ((d as int) >= 132)) by {
                    vstd::arithmetic::div_mod::lemma_fundamental_div_mod(d as int, 12);
                };
            };
            assert(pow2_spec((q as u64) as nat) <= 1024) by {
                reveal_with_fuel(pow2_spec, 12);
            };
            assert(s * p <= 8107818609 * 1024) by (nonlinear_arith)
                requires
                    0 <= s <= 8107818609,
                    0 <= p <= 1024,
            ;
            assert(s * p >= s * 1) by (nonlinear_arith)
                requires
                    s >= 0,
                    p >= 1,
            ;
        }
        s * p
    } else {
        let p = pow2_u64((-q) as u64);
        proof {
            assert(d as int / 12 >= -11) by {
                assert((d as int / 12 <= -12) ==> ((d as int) < (-132))) by {
                    vstd::arithmetic::div_mod::lemma_fundamental_div_mod(d as int, 12);
                };
            };
            assert(s / p >= 0x1_0000_0000int / 2048) by {
                vstd::arithmetic::div_mod::lemma_div_is_ordered(
                    0x1_0000_0000,
                    s as int,
                    p as int,
                );
                vstd::arithmetic::div_mod::lemma_div_is_ordered_by_denominator(
                    0x1_0000_0000,
                    p as int,
                    2048,
                );
            };
        }
        s / p
    }
}

/// Playback-rate ratio between a played key and the region's pitch keycenter:
/// the frequency of `key` over the frequency of `base_key` in twelve-tone
/// equal temperament, in Q32.
pub fn get_speed_mult_from_keys(key: u8, base_key: u8) -> (r: u64)
    requires
        key < 128,
        base_key < 128,
    ensures
        r == key_ratio_spec(key as int - base_key as int),
        0x20_0000 <= r <= SPEED_MULT_MAX,
{
    key_ratio(key as i64 - base_key as i64)
}

/// Pitch law, unison part: the ratio between a key and itself is exactly one.
pub proof fn lemma_speed_mult_unison()
    ensures
        key_ratio_spec(0) == PITCH_ONE,
{
    reveal_with_fuel(pow2_spec, 2);
}

/// Pitch law, octave part: the ratio across twelve semitones is exactly two.
pub proof fn lemma_speed_mult_octave()
    ensures
        key_ratio_spec(12) == 2 * PITCH_ONE,
{
    assert(12int / 12 == 1 && 12int % 12 == 0);
    reveal_with_fuel(pow2_spec, 2);
}

/// Pitch-bend ratio `2^(cents/1200)` in Q32, linearly interpolated between
/// the neighbouring semitone ratios.
pub open spec fn bend_ratio_spec(cents: int) -> int {
    let s = cents / 100;
    let c = cents % 100;
    let r0 = key_ratio_spec(s);
    let r1 = key_ratio_spec(s + 1);
    if r1 >= r0 {
        r0 + (r1 - r0) * c / 100
    } else {
        r0 - (r0 - r1) * c / 100
    }
}

/// Bound on the pitch-bend ratio (the bend itself spans at most four
/// octaves either way).
pub const BEND_RATIO_MAX: u64 = 0x800_0000_0000;

/// Pitch-bend ratio for a bend given in cents, clamped to four octaves
/// either way.
pub fn bend_ratio(cents: i64) -> (r: u64)
    requires
        -4800 <= cents <= 4800,
    ensures
        r == bend_ratio_spec(cents as int),
        1 <= r <= BEND_RATIO_MAX,
{
    let (s, c) = i64_div_mod_floor(cents, 100);
    let r0 = key_ratio(s);
    let r1 = key_ratio(s + 1);
    proof {
        assert(cents as int / 100 >= -48 && cents as int / 100 <= 48) by {
            vstd::arithmetic::div_mod::lemma_fundamental_div_mod(cents as int, 100);
        };
    }
    if r1 >= r0 {
        let diff = r1 - r0;
        proof {
            assert(diff * c <= diff * 100 && diff * c >= 0) by (nonlinear_arith)
                requires
                    diff >= 0,
                    0 <= c < 100,
            ;
            assert(diff * 100 / 100 == diff) by {
                vstd::arithmetic::div_mod::lemma_div_multiples_vanish(diff as int, 100);
            };
            vstd::arithmetic::div_mod::lemma_div_is_ordered(
                (diff * c) as int,
                (diff * 100) as int,
                100,
            );
        }
        let step = diff * c / 100;
        r0 + step
    } else {
        let diff = r0 - r1;
        proof {
            assert(diff * c <= diff * 100 && diff * c >= 0) by (nonlinear_arith)
                requires
                    diff >= 0,
                    0 <= c < 100,
            ;
            assert(diff * 100 / 100 == diff) by {
                vstd::arithmetic::div_mod::lemma_div_multiples_vanish(diff as int, 100);
            };
            vstd::arithmetic::div_mod::lemma_div_is_ordered(
                (diff * c) as int,
                (diff * 100) as int,
                100,
            );
        }
        let step = diff * c / 100;
        r0 - step
    }
}

/// A centered pitch bend leaves the playback rate exactly unchanged.
pub proof fn lemma_bend_ratio_center()
    ensures
        bend_ratio_spec(0) == PITCH_ONE,
{
    lemma_speed_mult_unison();
    assert(0int / 100 == 0 && 0int % 100 == 0);
}

} // verus!
