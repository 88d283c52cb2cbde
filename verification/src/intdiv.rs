use vstd::arithmetic::div_mod::{lemma_fundamental_div_mod, lemma_fundamental_div_mod_converse};
use vstd::prelude::*;

verus! {

// The DSP code divides signed fixed-point values by positive constants and
// always wants the mathematical (floored) quotient, which for a positive
// divisor is exactly the Euclidean quotient that specifications use. Rust's
// `/` on signed integers truncates towards zero instead, so the executable
// code computes the quotient from unsigned magnitudes.

/// Floored quotient and remainder of `-(n)` by `d`.
pub fn euclid_div_mod_neg(n: u64, d: u64) -> (res: (u64, u64))
    requires
        d >= 1,
    ensures
        -(n as int) / (d as int) == -(res.0 as int),
        -(n as int) % (d as int) == res.1 as int,
        res.1 < d,
        res.0 <= n,
{
    let q0 = n / d;
    let r0 = n % d;
    proof {
        lemma_fundamental_div_mod(n as int, d as int);
        assert(q0 <= n) by (nonlinear_arith)
            requires
                n as int == (d as int) * (q0 as int) + (r0 as int),
                d >= 1,
                q0 >= 0,
                r0 >= 0,
        ;
    }
    if r0 == 0 {
        proof {
            assert(-(n as int) == (-(q0 as int)) * (d as int) + 0) by (nonlinear_arith)
                requires
                    n as int == (d as int) * (q0 as int) + (r0 as int),
                    r0 == 0,
            ;
            lemma_fundamental_div_mod_converse(-(n as int), d as int, -(q0 as int), 0);
        }
        (q0, 0)
    } else {
        proof {
            assert(-(n as int) == (-(q0 as int) - 1) * (d as int) + ((d - r0) as int))
                by (nonlinear_arith)
                requires
                    n as int == (d as int) * (q0 as int) + (r0 as int),
                    0 < r0 < d,
            ;
            assert(q0 + 1 <= n) by (nonlinear_arith)
                requires
                    n as int == (d as int) * (q0 as int) + (r0 as int),
                    d >= 1,
                    q0 >= 0,
                    r0 >= 1,
            ;
            lemma_fundamental_div_mod_converse(
                -(n as int),
                d as int,
                -(q0 as int) - 1,
                (d - r0) as int,
            );
        }
        (q0 + 1, d - r0)
    }
}

/// Floored quotient and remainder of a signed value by a positive divisor.
pub fn i64_div_mod_floor(x: i64, d: u64) -> (res: (i64, u64))
    requires
        d >= 1,
        -0x4000_0000_0000_0000 <= x < 0x4000_0000_0000_0000,
    ensures
        res.0 == x as int / d as int,
        res.1 == x as int % d as int,
        res.1 < d,
{
    if x >= 0 {
        let q = (x as u64) / d;
        let r = (x as u64) % d;
        proof {
            lemma_fundamental_div_mod(x as int, d as int);
        }
        (q as i64, r)
    } else {
        let (qn, r) = euclid_div_mod_neg((-x) as u64, d);
        (-(qn as i64), r)
    }
}

/// Scaling a magnitude by a proper fraction `pos / len` keeps it between
/// zero and the magnitude itself.
pub proof fn lemma_scale_le(d: int, pos: int, len: int)
    requires
        0 <= d,
        0 <= pos <= len,
        1 <= len,
    ensures
        0 <= d * pos / len <= d,
{
    assert(0 <= d * pos <= d * len) by (nonlinear_arith)
        requires
            0 <= d,
            0 <= pos <= len,
    ;
    vstd::arithmetic::div_mod::lemma_div_is_ordered(0, d * pos, len);
    vstd::arithmetic::div_mod::lemma_div_is_ordered(d * pos, d * len, len);
    assert(d * len == len * d) by (nonlinear_arith);
    assert(len * d / len == d) by {
        vstd::arithmetic::div_mod::lemma_div_multiples_vanish(d, len);
    };
}

/// Scaling a signed value by a fraction `g / k` of at most one keeps it
/// between the value and zero.
pub proof fn lemma_scale_signed(s: int, g: int, k: int)
    requires
        0 <= g <= k,
        1 <= k,
    ensures
        s >= 0 ==> 0 <= s * g / k <= s,
        s < 0 ==> s <= s * g / k <= 0,
{
    if s >= 0 {
        lemma_scale_le(s, g, k);
    } else {
        assert(s * k <= s * g <= 0) by (nonlinear_arith)
            requires
                s < 0,
                0 <= g <= k,
        ;
        vstd::arithmetic::div_mod::lemma_div_is_ordered(s * g, 0, k);
        vstd::arithmetic::div_mod::lemma_div_is_ordered(s * k, s * g, k);
        assert(s * k == k * s) by (nonlinear_arith);
        assert(k * s / k == s) by {
            vstd::arithmetic::div_mod::lemma_div_multiples_vanish(s, k);
        };
    }
}

/// Floored quotient of a signed value by a positive divisor.
pub fn i64_div_floor(x: i64, d: u64) -> (q: i64)
    requires
        d >= 1,
        -0x4000_0000_0000_0000 <= x < 0x4000_0000_0000_0000,
    ensures
        q == x as int / d as int,
{
    let (q, _r) = i64_div_mod_floor(x, d);
    q
}

} // verus!
