//! WCAG relative luminance and contrast ratio in exact fixed-point
//! arithmetic.
//!
//! Luminance is scaled by `LUM_SCALE` (one million), so a channel value of
//! 255 linearises to exactly `LUM_SCALE`. The sRGB transfer curve raises
//! `(c/255 + 0.055)/1.055` to the power 2.4 = 12/5; with `v` that rational
//! base, the library computes `v^2 * (v^2)^(1/5)` using an exact integer
//! fifth root, so every result is a deterministic function of the channel.

use vstd::prelude::*;
use vstd::arithmetic::mul::lemma_mul_inequality;
use vstd::arithmetic::div_mod::lemma_div_is_ordered;
use vstd::arithmetic::div_mod::lemma_div_multiples_vanish;

verus! {

/// One luminance unit: the fixed-point value of 1.0.
pub const LUM_SCALE: u64 = 1_000_000;

/// The fixed-point value of the 0.05 offset in the contrast-ratio formula.
pub const RATIO_OFFSET: u64 = 50_000;

pub open spec fn pow5(x: int) -> int {
    x * x * x * x * x
}

/// The floor of the fifth root, defined constructively by counting up.
pub open spec fn fifth_root(n: nat) -> nat
    decreases n,
{
    if n == 0 {
        0
    } else {
        let r = fifth_root((n - 1) as nat);
        if pow5(r as int + 1) <= n {
            (r + 1) as nat
        } else {
            r
        }
    }
}

pub proof fn lemma_pow5_increases(a: int, b: int)
    requires
        0 <= a <= b,
    ensures
        pow5(a) <= pow5(b),
        a < b ==> pow5(a) < pow5(a + 1) && pow5(a + 1) <= pow5(b),
{
    if a < b {
        assert(pow5(a) < pow5(a + 1) && pow5(a + 1) <= pow5(b)) by (nonlinear_arith)
            requires
                0 <= a,
                a + 1 <= b,
        ;
    }
}

/// The defining property of `fifth_root`: it is the floor of the fifth root.
pub proof fn lemma_fifth_root_bounds(n: nat)
    ensures
        pow5(fifth_root(n) as int) <= n < pow5(fifth_root(n) as int + 1),
    decreases n,
{
    if n == 0 {
        assert(pow5(0) == 0);
        assert(pow5(1) == 1);
    } else {
        lemma_fifth_root_bounds((n - 1) as nat);
        let r = fifth_root((n - 1) as nat);
        if pow5(r as int + 1) <= n {
            lemma_pow5_increases(r as int + 1, r as int + 2);
        }
    }
}

/// A value with the floor-root bounds is the fifth root: uniqueness.
pub proof fn lemma_fifth_root_unique(n: nat, r: nat)
    requires
        pow5(r as int) <= n < pow5(r as int + 1),
    ensures
        r == fifth_root(n),
{
    let f = fifth_root(n);
    lemma_fifth_root_bounds(n);
    if r < f {
        lemma_pow5_increases(r as int + 1, f as int);
    }
    if f < r {
        lemma_pow5_increases(f as int + 1, r as int);
    }
}

/// The fifth root is monotone non-decreasing.
pub proof fn lemma_fifth_root_monotone(a: nat, b: nat)
    requires
        a <= b,
    ensures
        fifth_root(a) <= fifth_root(b),
{
    let ra = fifth_root(a);
    let rb = fifth_root(b);
    lemma_fifth_root_bounds(a);
    lemma_fifth_root_bounds(b);
    if rb < ra {
        lemma_pow5_increases(rb as int + 1, ra as int);
    }
}

/// The floor of the fifth root of `n`, by binary search.
pub fn fifth_root_u128(n: u128) -> (r: u64)
    requires
        n <= 1_000_000_000_000_000_000_000_000_000_000,
    ensures
        r as nat == fifth_root(n as nat),
        r <= 1_000_000,
{
    let mut lo: u64 = 0;
    let mut hi: u64 = 1_000_001;
    proof {
        assert(pow5(0) == 0);
        assert(pow5(1_000_001) > 1_000_000_000_000_000_000_000_000_000_000);
    }
    while hi - lo > 1
        invariant
            lo < hi <= 1_000_001,
            pow5(lo as int) <= n as int && (n as int) < pow5(hi as int),
            n <= 1_000_000_000_000_000_000_000_000_000_000,
        decreases hi - lo,
    {
        let mid: u64 = lo + (hi - lo) / 2;
        let m: u128 = mid as u128;
        proof {
            assert(m <= 1_000_001);
            assert(m * m <= 1_000_001 * 1_000_001) by (nonlinear_arith)
                requires
                    m <= 1_000_001,
            ;
            assert((m * m) * (m * m) <= 1_000_002_000_001 * 1_000_002_000_001) by (nonlinear_arith)
                requires
                    m * m <= 1_000_002_000_001,
            ;
            assert(((m * m) * (m * m)) * m <= 1_000_004_000_006_000_004_000_001 * 1_000_001)
                by (nonlinear_arith)
                requires
                    (m * m) * (m * m) <= 1_000_004_000_006_000_004_000_001,
                    m <= 1_000_001,
            ;
        }
        let m2: u128 = m * m;
        let m4: u128 = m2 * m2;
        let p: u128 = m4 * m;
        proof {
            assert(p as int == pow5(mid as int)) by (nonlinear_arith)
                requires
                    p == ((m * m) * (m * m)) * m,
                    m == mid as int,
            ;
        }
        if p <= n {
            lo = mid;
        } else {
            hi = mid;
        }
    }
    proof {
        lemma_fifth_root_unique(n as nat, lo as nat);
    }
    lo
}

/// The linearised value of an eight-bit sRGB channel, scaled by `LUM_SCALE`.
///
/// For `c/255 <= 0.03928` (that is, `c <= 10`) the curve is `c/255/12.92`,
/// otherwise `v^2.4` with `v = (c/255 + 0.055)/1.055 = (40c + 561)/10761`;
/// `v^2.4` is computed exactly as `v^2 * (v^2)^(1/5)` over the common
/// denominator `10761^2 = 115799121`.
pub open spec fn linear_spec(c: int) -> int {
    if c <= 10 {
        c * 10_000_000 / 32946
    } else {
        let a = (40 * c + 561) * (40 * c + 561);
        let t = fifth_root((a * 1_000_000_000_000_000_000_000_000_000_000 / 115_799_121) as nat);
        a * t / 115_799_121
    }
}

/// The linearised channel value, in `0 ..= LUM_SCALE`.
pub fn linear_channel(c: u8) -> (r: u64)
    ensures
        r as int == linear_spec(c as int),
        r <= 1_000_000,
{
    if c <= 10 {
        let r = (c as u64) * 10_000_000 / 32946;
        proof {
            lemma_div_is_ordered(c as int * 10_000_000, 10int * 10_000_000, 32946);
        }
        r
    } else {
        let n: u64 = 40 * (c as u64) + 561;
        proof {
            assert(n * n <= 115_799_121) by (nonlinear_arith)
                requires
                    n <= 10_761,
            ;
        }
        let a: u64 = n * n;
        proof {
            lemma_mul_inequality(
                a as int,
                115_799_121,
                1_000_000_000_000_000_000_000_000_000_000,
            );
            lemma_div_is_ordered(
                a as int * 1_000_000_000_000_000_000_000_000_000_000,
                115_799_121int * 1_000_000_000_000_000_000_000_000_000_000,
                115_799_121,
            );
            lemma_div_multiples_vanish(1_000_000_000_000_000_000_000_000_000_000, 115_799_121);
        }
        let x: u128 = (a as u128) * 1_000_000_000_000_000_000_000_000_000_000 / 115_799_121;
        let t: u64 = fifth_root_u128(x);
        proof {
            lemma_mul_inequality(t as int, 1_000_000, a as int);
            lemma_mul_inequality(a as int, 115_799_121, 1_000_000);
            lemma_div_is_ordered(a as int * t as int, 115_799_121int * 1_000_000, 115_799_121);
            lemma_div_multiples_vanish(1_000_000, 115_799_121);
            assert(a as int * t as int <= 115_799_121 * 1_000_000) by (nonlinear_arith)
                requires
                    a <= 115_799_121,
                    t <= 1_000_000,
            ;
        }
        a * t / 115_799_121
    }
}

/// WCAG relative luminance of an RGB triple, scaled by `LUM_SCALE`:
/// `0.2126 R + 0.7152 G + 0.0722 B` over the linearised channels.
pub open spec fn lum_rgb_spec(r: int, g: int, b: int) -> int {
    (2126 * linear_spec(r) + 7152 * linear_spec(g) + 722 * linear_spec(b)) / 10_000
}

/// The relative luminance of an RGB triple, in `0 ..= LUM_SCALE`.
pub fn lum_rgb(r: u8, g: u8, b: u8) -> (l: u64)
    ensures
        l as int == lum_rgb_spec(r as int, g as int, b as int),
        l <= 1_000_000,
{
    let lr = linear_channel(r);
    let lg = linear_channel(g);
    let lb = linear_channel(b);
    let sum: u64 = 2126 * lr + 7152 * lg + 722 * lb;
    proof {
        lemma_div_is_ordered(sum as int, 10_000_000_000, 10_000);
    }
    sum / 10_000
}

/// The WCAG contrast ratio of two luminances, scaled by `LUM_SCALE`:
/// `(max + 0.05) / (min + 0.05)`, a value between 1 and 21.
pub open spec fn ratio_spec(l1: int, l2: int) -> int {
    let hi = if l1 >= l2 { l1 } else { l2 };
    let lo = if l1 >= l2 { l2 } else { l1 };
    (hi + 50_000) * 1_000_000 / (lo + 50_000)
}

/// The contrast ratio of two luminances, in `1_000_000 ..= 21_000_000`.
pub fn ratio_for_luminances(l1: u64, l2: u64) -> (r: u64)
    requires
        l1 <= 1_000_000,
        l2 <= 1_000_000,
    ensures
        r as int == ratio_spec(l1 as int, l2 as int),
        1_000_000 <= r <= 21_000_000,
{
    let hi: u64 = if l1 >= l2 { l1 } else { l2 };
    let lo: u64 = if l1 >= l2 { l2 } else { l1 };
    let num: u64 = (hi + 50_000) * 1_000_000;
    proof {
        lemma_div_is_ordered((lo + 50_000) * 1_000_000, num as int, lo as int + 50_000);
        lemma_div_multiples_vanish(1_000_000, lo as int + 50_000);
        vstd::arithmetic::div_mod::lemma_div_is_ordered_by_denominator(
            num as int,
            50_000,
            lo as int + 50_000,
        );
        lemma_div_is_ordered(num as int, 1_050_000_000_000, 50_000);
    }
    num / (lo + 50_000)
}

/// The contrast ratio does not depend on the order of its two arguments.
pub proof fn lemma_ratio_symmetric(l1: int, l2: int)
    ensures
        ratio_spec(l1, l2) == ratio_spec(l2, l1),
{
}

/// A luminance against itself gives contrast ratio exactly one.
pub proof fn lemma_ratio_self(l: int)
    requires
        0 <= l,
    ensures
        ratio_spec(l, l) == 1_000_000,
{
    lemma_div_multiples_vanish(1_000_000, l + 50_000);
}

/// The two branches of the transfer curve agree in order where they meet.
proof fn lemma_linear_boundary()
    ensures
        linear_spec(10) <= linear_spec(11),
{
    vstd::arithmetic::div_mod::lemma_fundamental_div_mod_converse_div(
        10int * 10_000_000,
        32946,
        3035,
        8890,
    );
    assert(10int * 10_000_000 == 3035int * 32946 + 8890) by (nonlinear_arith);
    assert(linear_spec(10) == 3035);
    assert((40int * 11 + 561) * (40int * 11 + 561) == 1_002_001) by (nonlinear_arith);
    let a: int = (40int * 11 + 561) * (40int * 11 + 561);
    let x: int = a * 1_000_000_000_000_000_000_000_000_000_000 / 115_799_121;
    lemma_div_pos(a * 1_000_000_000_000_000_000_000_000_000_000, 115_799_121);
    let t = fifth_root(x as nat) as int;
    lemma_fifth_root_bounds(x as nat);
    assert(pow5(386_000) == 8_569_125_894_176_000_000_000_000_000) by (nonlinear_arith);
    assert(pow5(386_000) <= x) by {
        assert(8_569_125_894_176_000_000_000_000_000int * 115_799_121 <= 1_002_001int
            * 1_000_000_000_000_000_000_000_000_000_000) by (nonlinear_arith);
        lemma_div_is_ordered(
            8_569_125_894_176_000_000_000_000_000int * 115_799_121,
            a * 1_000_000_000_000_000_000_000_000_000_000,
            115_799_121,
        );
        lemma_div_multiples_vanish(8_569_125_894_176_000_000_000_000_000, 115_799_121);
        assert(8_569_125_894_176_000_000_000_000_000int * 115_799_121 == 115_799_121int
            * 8_569_125_894_176_000_000_000_000_000) by (nonlinear_arith);
    }
    if t < 386_000 {
        lemma_pow5_increases(t + 1, 386_000);
        assert(false);
    }
    assert(a * 386_000 <= a * t) by (nonlinear_arith)
        requires
            386_000 <= t,
            0 <= a,
            a == 1_002_001,
    ;
    lemma_div_is_ordered(a * 386_000, a * t, 115_799_121);
    assert(a * 386_000 == 386_772_386_000) by (nonlinear_arith)
        requires
            a == 1_002_001,
    ;
    vstd::arithmetic::div_mod::lemma_fundamental_div_mod_converse_div(
        386_772_386_000,
        115_799_121,
        3340,
        3_321_860,
    );
    assert(386_772_386_000int == 3340int * 115_799_121 + 3_321_860) by (nonlinear_arith);
    assert(a * 386_000 / 115_799_121 == 3340);
}

/// Nonnegative over positive is nonnegative.
proof fn lemma_div_pos(x: int, d: int)
    requires
        0 <= x,
        0 < d,
    ensures
        0 <= x / d,
{
    vstd::arithmetic::div_mod::lemma_div_pos_is_pos(x, d);
}

/// The linearised channel value never decreases as the channel grows.
pub proof fn lemma_linear_monotone(c1: int, c2: int)
    requires
        0 <= c1 <= c2 <= 255,
    ensures
        linear_spec(c1) <= linear_spec(c2),
    decreases c2 - c1,
{
    if c2 <= 10 {
        lemma_mul_inequality(c1, c2, 10_000_000);
        lemma_div_is_ordered(c1 * 10_000_000, c2 * 10_000_000, 32946);
    } else if c1 > 10 {
        let n1 = 40 * c1 + 561;
        let n2 = 40 * c2 + 561;
        let a1 = n1 * n1;
        let a2 = n2 * n2;
        assert(0 <= a1 && a1 <= a2) by (nonlinear_arith)
            requires
                0 <= n1 <= n2,
                a1 == n1 * n1,
                a2 == n2 * n2,
        ;
        lemma_mul_inequality(a1, a2, 1_000_000_000_000_000_000_000_000_000_000);
        let x1 = a1 * 1_000_000_000_000_000_000_000_000_000_000 / 115_799_121;
        let x2 = a2 * 1_000_000_000_000_000_000_000_000_000_000 / 115_799_121;
        lemma_div_is_ordered(
            a1 * 1_000_000_000_000_000_000_000_000_000_000,
            a2 * 1_000_000_000_000_000_000_000_000_000_000,
            115_799_121,
        );
        lemma_div_pos(a1 * 1_000_000_000_000_000_000_000_000_000_000, 115_799_121);
        lemma_fifth_root_monotone(x1 as nat, x2 as nat);
        let t1 = fifth_root(x1 as nat) as int;
        let t2 = fifth_root(x2 as nat) as int;
        assert(a1 * t1 <= a2 * t2) by (nonlinear_arith)
            requires
                0 <= a1 <= a2,
                0 <= t1 <= t2,
        ;
        lemma_div_is_ordered(a1 * t1, a2 * t2, 115_799_121);
    } else {
        lemma_linear_monotone(c1, 10);
        lemma_linear_boundary();
        lemma_linear_monotone(11, c2);
    }
}

/// The linearised channel value is nonnegative.
pub proof fn lemma_linear_nonneg(c: int)
    requires
        0 <= c,
    ensures
        0 <= linear_spec(c),
{
    if c <= 10 {
        lemma_div_pos(c * 10_000_000, 32946);
    } else {
        let n = 40 * c + 561;
        let a = n * n;
        assert(0 <= a) by (nonlinear_arith)
            requires
                0 <= n,
                a == n * n,
        ;
        lemma_div_pos(a * 1_000_000_000_000_000_000_000_000_000_000, 115_799_121);
        let x = a * 1_000_000_000_000_000_000_000_000_000_000 / 115_799_121;
        let t = fifth_root(x as nat) as int;
        assert(0 <= a * t) by (nonlinear_arith)
            requires
                0 <= a,
                0 <= t,
        ;
        lemma_div_pos(a * t, 115_799_121);
    }
}

/// Relative luminance is nonnegative.
pub proof fn lemma_lum_nonneg(r: int, g: int, b: int)
    requires
        0 <= r,
        0 <= g,
        0 <= b,
    ensures
        0 <= lum_rgb_spec(r, g, b),
{
    lemma_linear_nonneg(r);
    lemma_linear_nonneg(g);
    lemma_linear_nonneg(b);
    lemma_div_pos(2126 * linear_spec(r) + 7152 * linear_spec(g) + 722 * linear_spec(b), 10_000);
}

/// Relative luminance never decreases when any channel grows while the
/// others stay put (stated jointly over all three channels).
pub proof fn lemma_lum_monotone(r1: int, g1: int, b1: int, r2: int, g2: int, b2: int)
    requires
        0 <= r1 <= r2 <= 255,
        0 <= g1 <= g2 <= 255,
        0 <= b1 <= b2 <= 255,
    ensures
        lum_rgb_spec(r1, g1, b1) <= lum_rgb_spec(r2, g2, b2),
{
    lemma_linear_monotone(r1, r2);
    lemma_linear_monotone(g1, g2);
    lemma_linear_monotone(b1, b2);
    lemma_div_is_ordered(
        2126 * linear_spec(r1) + 7152 * linear_spec(g1) + 722 * linear_spec(b1),
        2126 * linear_spec(r2) + 7152 * linear_spec(g2) + 722 * linear_spec(b2),
        10_000,
    );
}

/// Pure white against pure black has contrast ratio exactly 21.
pub proof fn lemma_extreme_contrast()
    ensures
        lum_rgb_spec(255, 255, 255) == 1_000_000,
        lum_rgb_spec(0, 0, 0) == 0,
        ratio_spec(lum_rgb_spec(255, 255, 255), lum_rgb_spec(0, 0, 0)) == 21_000_000,
{
    assert(linear_spec(0) == 0);
    assert((40int * 255 + 561) * (40int * 255 + 561) == 115_799_121) by (nonlinear_arith);
    let a: int = (40int * 255 + 561) * (40int * 255 + 561);
    lemma_div_multiples_vanish(1_000_000_000_000_000_000_000_000_000_000, 115_799_121);
    let x: int = a * 1_000_000_000_000_000_000_000_000_000_000 / 115_799_121;
    assert(x == 1_000_000_000_000_000_000_000_000_000_000);
    assert(pow5(1_000_000) == 1_000_000_000_000_000_000_000_000_000_000) by (nonlinear_arith);
    assert(pow5(1_000_001) == 1_000_005_000_010_000_010_000_005_000_001) by (nonlinear_arith);
    lemma_fifth_root_unique(x as nat, 1_000_000);
    lemma_div_multiples_vanish(1_000_000, 115_799_121);
    assert(a * 1_000_000 / 115_799_121 == 1_000_000) by {
        assert(a * 1_000_000 == 115_799_121int * 1_000_000) by (nonlinear_arith)
            requires
                a == 115_799_121,
        ;
    }
    assert(linear_spec(255) == 1_000_000);
    vstd::arithmetic::div_mod::lemma_fundamental_div_mod_converse_div(
        10_000_000_000,
        10_000,
        1_000_000,
        0,
    );
    assert(lum_rgb_spec(255, 255, 255) == 1_000_000);
    assert(lum_rgb_spec(0, 0, 0) == 0);
    vstd::arithmetic::div_mod::lemma_fundamental_div_mod_converse_div(
        1_050_000_000_000,
        50_000,
        21_000_000,
        0,
    );
}

} // verus!
