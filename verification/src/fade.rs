//! Linear volume ramps over 16-bit samples.
//!
//! Every smoothing transition in the pipeline (fade-in on recovery, fade-out
//! on imminent starvation, crossfades on loss and overflow) attenuates a
//! sample by a rational factor `num / den`, where `den` is the batch length
//! in frames and `num` walks from `0` to `den` across the batch. The
//! magnitude is rounded toward zero, so a ramp never amplifies.

use vstd::prelude::*;
use vstd::arithmetic::div_mod::lemma_div_is_ordered;
use vstd::arithmetic::div_mod::lemma_div_multiples_vanish;
use vstd::arithmetic::div_mod::lemma_div_pos_is_pos;
use vstd::arithmetic::div_mod::lemma_fundamental_div_mod;
use vstd::arithmetic::div_mod::lemma_mod_division_less_than_divisor;
use vstd::arithmetic::div_mod::lemma_multiply_divide_le;
use vstd::arithmetic::mul::lemma_mul_inequality;
use vstd::arithmetic::mul::lemma_mul_is_commutative;
use vstd::arithmetic::mul::lemma_mul_is_distributive_add_other_way;
use vstd::arithmetic::mul::lemma_mul_nonnegative;
use vstd::arithmetic::mul::lemma_mul_upper_bound;

verus! {

/// One sample attenuated by the volume factor `num / den`, magnitude rounded
/// toward zero.
pub open spec fn spec_scale(s: int, num: int, den: int) -> int {
    if s >= 0 {
        (s * num) / den
    } else {
        -(((-s) * num) / den)
    }
}

/// One crossfaded sample: `a` ramped up by `num / den` plus `b` ramped down
/// by the complementary factor `(den - num) / den`.
pub open spec fn spec_mix(a: int, b: int, num: int, den: int) -> int {
    spec_scale(a, num, den) + spec_scale(b, den - num, den)
}

/// An attenuated sample keeps the sign of the source and never exceeds its
/// magnitude, so it stays within the 16-bit sample range.
pub proof fn lemma_scale_magnitude(s: int, num: int, den: int)
    requires
        -0x8000 <= s <= 0x7fff,
        0 < den,
        0 <= num <= den,
    ensures
        s >= 0 ==> 0 <= spec_scale(s, num, den) <= s,
        s < 0 ==> s <= spec_scale(s, num, den) <= 0,
        -0x8000 <= spec_scale(s, num, den) <= 0x7fff,
{
    if s >= 0 {
        lemma_mul_nonnegative(s, num);
        lemma_div_pos_is_pos(s * num, den);
        lemma_mul_inequality(num, den, s);
        lemma_mul_is_commutative(num, s);
        lemma_mul_is_commutative(den, s);
        lemma_multiply_divide_le(s * num, den, s);
    } else {
        let m = -s;
        lemma_mul_nonnegative(m, num);
        lemma_div_pos_is_pos(m * num, den);
        lemma_mul_inequality(num, den, m);
        lemma_mul_is_commutative(num, m);
        lemma_mul_is_commutative(den, m);
        lemma_multiply_divide_le(m * num, den, m);
    }
}

/// Division by a positive denominator is superadditive on non-negative
/// dividends: the sum of the rounded parts never exceeds the rounded sum.
proof fn lemma_div_sum_le(x: int, y: int, d: int)
    requires
        0 <= x,
        0 <= y,
        0 < d,
    ensures
        x / d + y / d <= (x + y) / d,
{
    let q1 = x / d;
    let q2 = y / d;
    lemma_fundamental_div_mod(x, d);
    lemma_fundamental_div_mod(y, d);
    lemma_mod_division_less_than_divisor(x, d);
    lemma_mod_division_less_than_divisor(y, d);
    assert(d * q1 <= x);
    assert(d * q2 <= y);
    lemma_mul_is_distributive_add_other_way(d, q1, q2);
    assert(d * (q1 + q2) <= x + y);
    lemma_mul_is_commutative(d, q1 + q2);
    lemma_div_is_ordered((q1 + q2) * d, x + y, d);
    lemma_mul_is_commutative(q1 + q2, d);
    lemma_div_multiples_vanish(q1 + q2, d);
}

/// Attenuation is monotone in the source magnitude: a sample closer to zero
/// stays closer to zero under the same ramp factor.
proof fn lemma_scale_le(m1: int, m2: int, num: int, den: int)
    requires
        0 <= m1 <= m2,
        0 <= num,
        0 < den,
    ensures
        (m1 * num) / den <= (m2 * num) / den,
{
    lemma_mul_inequality(m1, m2, num);
    lemma_div_is_ordered(m1 * num, m2 * num, den);
}

/// A crossfaded sample stays within the 16-bit sample range: the rising and
/// falling ramp factors are complementary, so the two contributions together
/// never exceed the louder source.
pub proof fn lemma_mix_in_range(a: int, b: int, num: int, den: int)
    requires
        -0x8000 <= a <= 0x7fff,
        -0x8000 <= b <= 0x7fff,
        0 < den,
        0 <= num <= den,
    ensures
        -0x8000 <= spec_mix(a, b, num, den) <= 0x7fff,
{
    let sa = spec_scale(a, num, den);
    let sb = spec_scale(b, den - num, den);
    lemma_scale_magnitude(a, num, den);
    lemma_scale_magnitude(b, den - num, den);
    if a >= 0 && b >= 0 {
        lemma_scale_le(a, 0x7fff, num, den);
        lemma_scale_le(b, 0x7fff, den - num, den);
        lemma_div_sum_le(0x7fff * num, 0x7fff * (den - num), den);
        lemma_mul_is_distributive_add_other_way(0x7fff, num, den - num);
        assert(0x7fff * num + 0x7fff * (den - num) == 0x7fff * den) by {
            lemma_mul_is_distributive_add_other_way(0x7fff, num, den - num);
        }
        lemma_mul_is_commutative(0x7fff, den);
        lemma_div_multiples_vanish(0x7fff, den);
        assert(sa + sb <= 0x7fff);
    } else if a < 0 && b < 0 {
        lemma_scale_le(-a, 0x8000, num, den);
        lemma_scale_le(-b, 0x8000, den - num, den);
        lemma_div_sum_le(0x8000 * num, 0x8000 * (den - num), den);
        assert(0x8000 * num + 0x8000 * (den - num) == 0x8000 * den) by {
            lemma_mul_is_distributive_add_other_way(0x8000, num, den - num);
        }
        lemma_mul_is_commutative(0x8000, den);
        lemma_div_multiples_vanish(0x8000, den);
        assert(-(sa + sb) <= 0x8000);
    }
}

/// Ramps are exact at their endpoints: at ramp position `0` a sample is fully
/// silenced, at position `den` it passes through unchanged.
pub proof fn lemma_fade_endpoints(s: int, den: int)
    requires
        -0x8000 <= s <= 0x7fff,
        0 < den,
    ensures
        spec_scale(s, 0, den) == 0,
        spec_scale(s, den, den) == s,
{
    if s >= 0 {
        lemma_mul_is_commutative(s, den);
        lemma_div_multiples_vanish(s, den);
    } else {
        lemma_mul_is_commutative(-s, den);
        lemma_div_multiples_vanish(-s, den);
    }
}

/// Ramps are monotonic across their span: a later ramp position never yields
/// a sample farther from silence on a fade-in, for either sign of the source.
pub proof fn lemma_fade_monotonic(s: int, num1: int, num2: int, den: int)
    requires
        -0x8000 <= s <= 0x7fff,
        0 < den,
        0 <= num1 <= num2 <= den,
    ensures
        s >= 0 ==> spec_scale(s, num1, den) <= spec_scale(s, num2, den),
        s < 0 ==> spec_scale(s, num1, den) >= spec_scale(s, num2, den),
{
    if s >= 0 {
        lemma_mul_inequality(num1, num2, s);
        lemma_mul_is_commutative(num1, s);
        lemma_mul_is_commutative(num2, s);
        lemma_div_is_ordered(s * num1, s * num2, den);
    } else {
        lemma_mul_inequality(num1, num2, -s);
        lemma_mul_is_commutative(num1, -s);
        lemma_mul_is_commutative(num2, -s);
        lemma_div_is_ordered((-s) * num1, (-s) * num2, den);
    }
}

/// At the ends of a crossfade exactly one source is heard: at position `0`
/// only the fading-out source, at position `den` only the fading-in one, so
/// the two complementary ramps always account for the full volume.
pub proof fn lemma_crossfade_endpoints(a: int, b: int, den: int)
    requires
        -0x8000 <= a <= 0x7fff,
        -0x8000 <= b <= 0x7fff,
        0 < den,
    ensures
        spec_mix(a, b, 0, den) == b,
        spec_mix(a, b, den, den) == a,
{
    lemma_fade_endpoints(a, den);
    lemma_fade_endpoints(b, den);
}

/// Attenuate one sample by the volume factor `num / den`.
pub fn scale_sample(s: i16, num: usize, den: usize) -> (r: i16)
    requires
        0 < den <= 0x4000_0000,
        num <= den,
    ensures
        r as int == spec_scale(s as int, num as int, den as int),
{
    proof {
        lemma_scale_magnitude(s as int, num as int, den as int);
    }
    if s >= 0 {
        proof {
            lemma_mul_upper_bound(s as int, 0x7fff, num as int, 0x4000_0000);
        }
        let prod: u64 = (s as u64) * (num as u64);
        let q: u64 = prod / (den as u64);
        q as i16
    } else {
        let mag: u64 = (-(s as i32)) as u64;
        proof {
            lemma_mul_upper_bound(mag as int, 0x8000, num as int, 0x4000_0000);
        }
        let prod: u64 = mag * (num as u64);
        let q: u64 = prod / (den as u64);
        (-(q as i64)) as i16
    }
}

/// Render one crossfaded sample: `a` ramping up, `b` ramping down.
pub fn mix_sample(a: i16, b: i16, num: usize, den: usize) -> (r: i16)
    requires
        0 < den <= 0x4000_0000,
        num <= den,
    ensures
        r as int == spec_mix(a as int, b as int, num as int, den as int),
{
    let sa = scale_sample(a, num, den);
    let sb = scale_sample(b, den - num, den);
    proof {
        lemma_mix_in_range(a as int, b as int, num as int, den as int);
    }
    ((sa as i32) + (sb as i32)) as i16
}

} // verus!
