//! Fixed-point arithmetic for probabilities and exponential decay.
//!
//! A probability is a `u32` in parts per billion: `PROBABILITY_ONE` stands for 1.
//! A decay factor uses the same scale. Intensities are `u64` values in
//! billionths of an event per second.
use vstd::prelude::*;

verus! {

/// The fixed-point representation of probability 1.
pub const PROBABILITY_ONE: u32 = 1_000_000_000;

/// The fixed-point representation of probability 1/2.
pub const PROBABILITY_HALF: u32 = 500_000_000;

/// `ln 2` multiplied by 10^18, rounded down.
pub const LN2_E18: u64 = 693_147_180_559_945_309;

/// Number of interpolation steps per half-life in `decay_factor`.
pub const DECAY_STEPS: u64 = 16;

/// `2^(-i/16)` in parts per billion, rounded to nearest, for `0 <= i <= 16`.
pub open spec fn decay_table(i: int) -> int {
    if i <= 0 {
        1_000_000_000
    } else if i == 1 {
        957_603_281
    } else if i == 2 {
        917_004_043
    } else if i == 3 {
        878_126_080
    } else if i == 4 {
        840_896_415
    } else if i == 5 {
        805_245_166
    } else if i == 6 {
        771_105_413
    } else if i == 7 {
        738_413_073
    } else if i == 8 {
        707_106_781
    } else if i == 9 {
        677_127_773
    } else if i == 10 {
        648_419_777
    } else if i == 11 {
        620_928_906
    } else if i == 12 {
        594_603_558
    } else if i == 13 {
        569_394_317
    } else if i == 14 {
        545_253_866
    } else if i == 15 {
        522_136_891
    } else {
        500_000_000
    }
}

/// `2^(-r/h)` for `0 <= r < h`, by linear interpolation between the points of
/// `decay_table`.
pub open spec fn fraction_of_half_life(r: int, h: int) -> int
    recommends
        0 <= r < h,
{
    let j = (DECAY_STEPS * r) / h;
    let rem = (DECAY_STEPS * r) % h;
    decay_table(j) - (decay_table(j) - decay_table(j + 1)) * rem / h
}

/// `x` halved (rounding down) `k` times.
pub open spec fn halve_times(x: int, k: nat) -> int
    decreases k,
{
    if k == 0 {
        x
    } else {
        halve_times(x / 2, (k - 1) as nat)
    }
}

/// The factor `2^(-elapsed / half_life)` in parts per billion: whole half-lives
/// halve it, the rest of a half-life is interpolated. After 32 half-lives it is 0.
pub open spec fn decay_factor(elapsed: int, half_life: int) -> int
    recommends
        elapsed >= 0,
        half_life > 0,
{
    let k = elapsed / half_life;
    if k >= 32 {
        0
    } else {
        halve_times(fraction_of_half_life(elapsed % half_life, half_life), k as nat)
    }
}

/// `x` multiplied by the fixed-point factor `f`, rounded down.
pub open spec fn scale_by(x: int, f: int) -> int {
    x * f / (PROBABILITY_ONE as int)
}

/// The share of `favorable` in `favorable + hazard`, in parts per billion
/// (rounded down); one half when both are zero.
pub open spec fn favorable_share(favorable: int, hazard: int) -> int {
    if favorable + hazard > 0 {
        favorable * (PROBABILITY_ONE as int) / (favorable + hazard)
    } else {
        PROBABILITY_HALF as int
    }
}

/// `a + b`, capped at `u64::MAX`.
pub open spec fn saturating_sum(a: u64, b: u64) -> u64 {
    if a + b > u64::MAX {
        u64::MAX
    } else {
        (a + b) as u64
    }
}

proof fn lemma_decay_table_decreasing(i: int)
    requires
        0 <= i < 16,
    ensures
        decay_table(i + 1) <= decay_table(i),
        decay_table(i) <= PROBABILITY_ONE,
        decay_table(i + 1) >= PROBABILITY_HALF,
{
}

proof fn lemma_halve_times_bounded(x: int, k: nat)
    requires
        x >= 0,
    ensures
        0 <= halve_times(x, k) <= x,
    decreases k,
{
    if k > 0 {
        lemma_halve_times_bounded(x / 2, (k - 1) as nat);
    }
}

proof fn lemma_fraction_bounded(r: int, h: int)
    requires
        0 <= r < h,
    ensures
        0 <= fraction_of_half_life(r, h) <= PROBABILITY_ONE,
{
    let j = (DECAY_STEPS * r) / h;
    let rem = (DECAY_STEPS * r) % h;
    assert(0 <= j < 16) by (nonlinear_arith)
        requires
            j == (16 * r) / h,
            0 <= r < h,
    {
        assert(16 * r < 16 * h);
        vstd::arithmetic::div_mod::lemma_div_pos_is_pos(16 * r, h);
        vstd::arithmetic::div_mod::lemma_div_by_multiple_is_strongly_ordered(16 * r, 16 * h, 16, h);
        vstd::arithmetic::div_mod::lemma_div_by_multiple(16, h);
    }
    lemma_decay_table_decreasing(j);
    let d = decay_table(j) - decay_table(j + 1);
    assert(0 <= rem < h) by {
        vstd::arithmetic::div_mod::lemma_mod_pos_bound(DECAY_STEPS * r, h);
    }
    assert(0 <= d * rem / h <= d) by {
        vstd::arithmetic::mul::lemma_mul_nonnegative(d, rem);
        vstd::arithmetic::mul::lemma_mul_inequality(rem, h, d);
        vstd::arithmetic::div_mod::lemma_div_pos_is_pos(d * rem, h);
        vstd::arithmetic::div_mod::lemma_div_is_ordered(d * rem, d * h, h);
        vstd::arithmetic::div_mod::lemma_div_multiples_vanish(d, h);
        vstd::arithmetic::mul::lemma_mul_is_commutative(d, h);
        vstd::arithmetic::mul::lemma_mul_is_commutative(rem, d);
    }
}

/// A decay factor lies between 0 and 1, and is 1 when no time has passed.
pub proof fn lemma_decay_factor_bounded(elapsed: int, half_life: int)
    requires
        elapsed >= 0,
        half_life > 0,
    ensures
        0 <= decay_factor(elapsed, half_life) <= PROBABILITY_ONE,
        elapsed == 0 ==> decay_factor(elapsed, half_life) == PROBABILITY_ONE,
{
    let k = elapsed / half_life;
    vstd::arithmetic::div_mod::lemma_div_pos_is_pos(elapsed, half_life);
    vstd::arithmetic::div_mod::lemma_mod_pos_bound(elapsed, half_life);
    if k < 32 {
        lemma_fraction_bounded(elapsed % half_life, half_life);
        lemma_halve_times_bounded(fraction_of_half_life(elapsed % half_life, half_life), k as nat);
    }
    if elapsed == 0 {
        assert(0int / half_life == 0);
        assert(0int % half_life == 0);
        assert((DECAY_STEPS * 0) / half_life == 0);
        assert((DECAY_STEPS * 0) % half_life == 0);
    }
}

/// Scaling by a factor of at most 1 never increases a value.
pub proof fn lemma_scale_by_bounded(x: int, f: int)
    requires
        x >= 0,
        0 <= f <= PROBABILITY_ONE,
    ensures
        0 <= scale_by(x, f) <= x,
        f == PROBABILITY_ONE ==> scale_by(x, f) == x,
{
    let one = PROBABILITY_ONE as int;
    vstd::arithmetic::mul::lemma_mul_nonnegative(x, f);
    vstd::arithmetic::mul::lemma_mul_inequality(f, one, x);
    vstd::arithmetic::mul::lemma_mul_is_commutative(x, f);
    vstd::arithmetic::div_mod::lemma_div_pos_is_pos(x * f, one);
    vstd::arithmetic::div_mod::lemma_div_is_ordered(x * f, x * one, one);
    vstd::arithmetic::div_mod::lemma_div_multiples_vanish(x, one);
    vstd::arithmetic::mul::lemma_mul_is_commutative(x, one);
}

/// A share lies between 0 and 1.
pub proof fn lemma_share_bounded(favorable: int, hazard: int)
    requires
        favorable >= 0,
        hazard >= 0,
    ensures
        0 <= favorable_share(favorable, hazard) <= PROBABILITY_ONE,
{
    if favorable + hazard > 0 {
        let one = PROBABILITY_ONE as int;
        let s = favorable + hazard;
        vstd::arithmetic::mul::lemma_mul_nonnegative(favorable, one);
        vstd::arithmetic::mul::lemma_mul_inequality(favorable, s, one);
        vstd::arithmetic::div_mod::lemma_div_pos_is_pos(favorable * one, s);
        vstd::arithmetic::div_mod::lemma_div_is_ordered(favorable * one, s * one, s);
        vstd::arithmetic::div_mod::lemma_div_multiples_vanish(one, s);
        vstd::arithmetic::mul::lemma_mul_is_commutative(s, one);
    }
}

/// Equal intensities give a share of exactly one half.
pub proof fn lemma_share_balanced(x: int)
    requires
        x >= 0,
    ensures
        favorable_share(x, x) == PROBABILITY_HALF,
{
    if x > 0 {
        let half = PROBABILITY_HALF as int;
        assert(x * (PROBABILITY_ONE as int) == (x + x) * half);
        vstd::arithmetic::div_mod::lemma_div_multiples_vanish(half, x + x);
        vstd::arithmetic::mul::lemma_mul_is_commutative(x + x, half);
    }
}

/// If `a / b >= c / d` as fractions, then also `(s * a) / b >= (s * c) / d`
/// with both divisions rounded down.
proof fn lemma_scaled_quotients_ordered(s: int, a: int, b: int, c: int, d: int)
    requires
        s >= 0,
        a >= 0,
        c >= 0,
        b > 0,
        d > 0,
        a * d >= c * b,
    ensures
        (s * a) / b >= (s * c) / d,
{
    let q = (s * c) / d;
    let big_q = (s * a) / b;
    vstd::arithmetic::div_mod::lemma_fundamental_div_mod(s * c, d);
    vstd::arithmetic::div_mod::lemma_mod_pos_bound(s * c, d);
    vstd::arithmetic::div_mod::lemma_fundamental_div_mod(s * a, b);
    vstd::arithmetic::div_mod::lemma_mod_pos_bound(s * a, b);
    vstd::arithmetic::mul::lemma_mul_nonnegative(s, c);
    vstd::arithmetic::div_mod::lemma_div_pos_is_pos(s * c, d);
    assert(q * d <= s * c);
    assert(q * d * b <= s * a * d) by (nonlinear_arith)
        requires
            q * d <= s * c,
            b > 0,
            s >= 0,
            a * d >= c * b,
    ;
    assert(q * b <= s * a) by (nonlinear_arith)
        requires
            q * d * b <= s * a * d,
            d > 0,
    ;
    assert(q <= big_q) by (nonlinear_arith)
        requires
            q * b <= s * a,
            s * a == b * big_q + (s * a) % b,
            (s * a) % b < b,
            b > 0,
    ;
}

/// Raising the favorable side relative to the hazard side (`f2 / h2 >= f / h`)
/// never lowers the share.
pub proof fn lemma_share_monotone(f: int, h: int, f2: int, h2: int)
    requires
        f >= 0,
        h >= 0,
        f2 > 0,
        h2 >= 0,
        f2 * h >= f * h2,
        f + h == 0 ==> h2 == 0,
    ensures
        favorable_share(f2, h2) >= favorable_share(f, h),
{
    let one = PROBABILITY_ONE as int;
    if f + h == 0 {
        vstd::arithmetic::div_mod::lemma_div_multiples_vanish(one, f2);
        vstd::arithmetic::mul::lemma_mul_is_commutative(one, f2);
    } else {
        assert(f2 * (f + h) >= f * (f2 + h2)) by (nonlinear_arith)
            requires
                f2 * h >= f * h2,
        ;
        lemma_scaled_quotients_ordered(one, f2, f2 + h2, f, f + h);
        vstd::arithmetic::mul::lemma_mul_is_commutative(f2, one);
        vstd::arithmetic::mul::lemma_mul_is_commutative(f, one);
    }
}

fn decay_table_point(i: u64) -> (r: u64)
    requires
        i <= 16,
    ensures
        r == decay_table(i as int),
{
    match i {
        0 => 1_000_000_000,
        1 => 957_603_281,
        2 => 917_004_043,
        3 => 878_126_080,
        4 => 840_896_415,
        5 => 805_245_166,
        6 => 771_105_413,
        7 => 738_413_073,
        8 => 707_106_781,
        9 => 677_127_773,
        10 => 648_419_777,
        11 => 620_928_906,
        12 => 594_603_558,
        13 => 569_394_317,
        14 => 545_253_866,
        15 => 522_136_891,
        _ => 500_000_000,
    }
}

/// Computes `decay_factor(elapsed, half_life)`.
pub fn compute_decay_factor(elapsed: u64, half_life: u64) -> (r: u64)
    requires
        half_life > 0,
    ensures
        r == decay_factor(elapsed as int, half_life as int),
        r <= PROBABILITY_ONE,
{
    proof {
        lemma_decay_factor_bounded(elapsed as int, half_life as int);
    }
    let k: u64 = elapsed / half_life;
    if k >= 32 {
        return 0;
    }
    let rest: u64 = elapsed % half_life;
    let stretched: u128 = (DECAY_STEPS as u128) * (rest as u128);
    let j: u128 = stretched / (half_life as u128);
    let rem: u128 = stretched % (half_life as u128);
    proof {
        lemma_fraction_bounded(rest as int, half_life as int);
        assert(j < 16) by (nonlinear_arith)
            requires
                j == stretched / (half_life as u128),
                stretched == 16 * rest,
                rest < half_life,
        {
            vstd::arithmetic::div_mod::lemma_div_by_multiple_is_strongly_ordered(
                16 * rest as int,
                16 * half_life as int,
                16,
                half_life as int,
            );
            vstd::arithmetic::div_mod::lemma_div_by_multiple(16, half_life as int);
        }
        lemma_decay_table_decreasing(j as int);
        vstd::arithmetic::div_mod::lemma_mod_pos_bound(stretched as int, half_life as int);
    }
    let upper: u64 = decay_table_point(j as u64);
    let lower: u64 = decay_table_point((j + 1) as u64);
    proof {
        assert(rem < half_life);
        assert(upper - lower <= 1_000_000_000);
        vstd::arithmetic::mul::lemma_mul_inequality(
            (upper - lower) as int,
            1_000_000_000,
            rem as int,
        );
        vstd::arithmetic::mul::lemma_mul_inequality(rem as int, u64::MAX as int, 1_000_000_000);
        vstd::arithmetic::mul::lemma_mul_is_commutative(rem as int, 1_000_000_000);
    }
    let drop: u128 = ((upper - lower) as u128) * rem;
    let step: u128 = drop / (half_life as u128);
    proof {
        assert(step <= (upper - lower)) by {
            vstd::arithmetic::mul::lemma_mul_inequality(
                rem as int,
                half_life as int,
                (upper - lower) as int,
            );
            vstd::arithmetic::mul::lemma_mul_is_commutative(rem as int, (upper - lower) as int);
            vstd::arithmetic::div_mod::lemma_div_is_ordered(
                drop as int,
                (upper - lower) as int * half_life as int,
                half_life as int,
            );
            vstd::arithmetic::div_mod::lemma_div_multiples_vanish(
                (upper - lower) as int,
                half_life as int,
            );
            vstd::arithmetic::mul::lemma_mul_is_commutative(
                half_life as int,
                (upper - lower) as int,
            );
        }
    }
    let mut value: u64 = upper - step as u64;
    let mut i: u64 = 0;
    while i < k
        invariant
            i <= k < 32,
            value == halve_times(
                fraction_of_half_life(rest as int, half_life as int),
                i as nat,
            ),
            halve_times(fraction_of_half_life(rest as int, half_life as int), k as nat)
                == halve_times(value as int, (k - i) as nat),
        decreases k - i,
    {
        proof {
            lemma_halve_times_shift(
                fraction_of_half_life(rest as int, half_life as int),
                i as nat,
            );
        }
        value = value / 2;
        i = i + 1;
    }
    value
}

/// Halving `i + 1` times is halving `i` times, then once more.
proof fn lemma_halve_times_shift(x: int, i: nat)
    ensures
        halve_times(x, i + 1) == halve_times(x, i) / 2,
    decreases i,
{
    if i > 0 {
        lemma_halve_times_shift(x / 2, (i - 1) as nat);
        assert(halve_times(x, i + 1) == halve_times(x / 2, i));
        assert(halve_times(x, i) == halve_times(x / 2, (i - 1) as nat));
    } else {
        assert(halve_times(x, 1) == halve_times(x / 2, 0));
    }
}

/// Computes `scale_by(x, f)` for a factor of at most 1.
pub fn scale(x: u64, f: u64) -> (r: u64)
    requires
        f <= PROBABILITY_ONE,
    ensures
        r == scale_by(x as int, f as int),
        r <= x,
{
    proof {
        lemma_scale_by_bounded(x as int, f as int);
    }
    let product: u128 = (x as u128) * (f as u128);
    (product / (PROBABILITY_ONE as u128)) as u64
}

/// Computes `favorable_share(favorable, hazard)`.
pub fn share(favorable: u64, hazard: u64) -> (r: u32)
    ensures
        r == favorable_share(favorable as int, hazard as int),
        r <= PROBABILITY_ONE,
{
    proof {
        lemma_share_bounded(favorable as int, hazard as int);
    }
    let total: u128 = (favorable as u128) + (hazard as u128);
    if total > 0 {
        (((favorable as u128) * (PROBABILITY_ONE as u128)) / total) as u32
    } else {
        PROBABILITY_HALF
    }
}

} // verus!
