//! Arithmetic on raw fixed-point words.
//!
//! A real number `x` is held as the integer `x * 2^48`, rounded towards zero.
//! The functions here work on those integers; `Fixed` in the sibling module
//! wraps them in a type.
use vstd::arithmetic::div_mod::*;
use vstd::arithmetic::mul::*;
use vstd::prelude::*;

verus! {

/// The raw word that stands for 1.
pub const SCALE: i128 = 0x1_0000_0000_0000;

/// The largest magnitude a raw word may have: 2^120, about 4.7e21 as a number.
pub const MAX_RAW: i128 = 0x100_0000_0000_0000_0000_0000_0000_0000;

/// The largest integer part a raw word may have: `MAX_RAW / SCALE`.
pub const MAX_WHOLE: u128 = 0x1_0000_0000_0000_0000_00;

/// Roots are taken of words below this bound only: 2^79, about 2.1e9 as a number.
pub const ROOT_LIMIT: i128 = 0x8000_0000_0000_0000_0000;

/// Whether a raw word is within the range that the library represents.
pub open spec fn fits(a: int) -> bool {
    -MAX_RAW <= a <= MAX_RAW
}

/// The absolute value of a word.
pub open spec fn magnitude(a: int) -> int {
    if a < 0 {
        -a
    } else {
        a
    }
}

/// Product of two non-negative raw words, rounded down.
pub open spec fn mul_floor(a: int, b: int) -> int {
    (a * b) / (SCALE as int)
}

/// Quotient of a non-negative raw word by a positive one, rounded down.
pub open spec fn div_floor(a: int, b: int) -> int {
    (a * SCALE) / b
}

/// Product of two raw words, rounded towards zero.
pub open spec fn mul_raw(a: int, b: int) -> int {
    if (a < 0) == (b < 0) {
        mul_floor(magnitude(a), magnitude(b))
    } else {
        -mul_floor(magnitude(a), magnitude(b))
    }
}

/// Quotient of two raw words, rounded towards zero. Meaningful for `b != 0`.
pub open spec fn div_raw(a: int, b: int) -> int {
    if (a < 0) == (b < 0) {
        div_floor(magnitude(a), magnitude(b))
    } else {
        -div_floor(magnitude(a), magnitude(b))
    }
}

/// `r` is the square root of the raw word `x`, rounded down.
pub open spec fn is_root(x: int, r: int) -> bool {
    &&& 0 <= r
    &&& r * r <= x * SCALE
    &&& x * SCALE < (r + 1) * (r + 1)
}

/// The square root of a non-negative raw word, rounded down.
pub open spec fn root_raw(x: int) -> int {
    choose|r: int| is_root(x, r)
}

/// A word has one root only.
pub proof fn lemma_root_unique(x: int, r1: int, r2: int)
    requires
        is_root(x, r1),
        is_root(x, r2),
    ensures
        r1 == r2,
{
    if r1 < r2 {
        assert((r1 + 1) * (r1 + 1) <= r2 * r2) by (nonlinear_arith)
            requires
                0 <= r1,
                r1 + 1 <= r2,
        ;
    } else if r2 < r1 {
        assert((r2 + 1) * (r2 + 1) <= r1 * r1) by (nonlinear_arith)
            requires
                0 <= r2,
                r2 + 1 <= r1,
        ;
    }
}

/// The rounded product of words that are not negative is not negative.
pub proof fn lemma_mul_floor_nonneg(a: int, b: int)
    requires
        0 <= a,
        0 <= b,
    ensures
        0 <= mul_floor(a, b),
{
    lemma_mul_nonnegative(a, b);
    lemma_div_pos_is_pos(a * b, SCALE as int);
}

/// The rounded product grows with either factor.
pub proof fn lemma_mul_floor_monotone(a1: int, b1: int, a2: int, b2: int)
    requires
        0 <= a1 <= a2,
        0 <= b1 <= b2,
    ensures
        mul_floor(a1, b1) <= mul_floor(a2, b2),
{
    lemma_mul_upper_bound(a1, a2, b1, b2);
    lemma_div_is_ordered(a1 * b1, a2 * b2, SCALE as int);
}

/// Multiplying by a number of at most 1 does not enlarge.
pub proof fn lemma_mul_floor_shrinks(a: int, b: int)
    requires
        0 <= a,
        0 <= b <= SCALE,
    ensures
        0 <= mul_floor(a, b) <= a,
{
    lemma_mul_floor_nonneg(a, b);
    lemma_mul_upper_bound(a, a, b, SCALE as int);
    lemma_div_is_ordered(a * b, a * SCALE, SCALE as int);
    lemma_div_multiples_vanish(a, SCALE as int);
    lemma_mul_is_commutative(a, SCALE as int);
}

/// Multiplying by a number of at least 1 does not reduce.
pub proof fn lemma_mul_floor_grows(a: int, b: int)
    requires
        0 <= a,
        SCALE <= b,
    ensures
        a <= mul_floor(a, b),
{
    lemma_mul_upper_bound(a, a, SCALE as int, b);
    lemma_div_is_ordered(a * SCALE, a * b, SCALE as int);
    lemma_div_multiples_vanish(a, SCALE as int);
    lemma_mul_is_commutative(a, SCALE as int);
}

/// Multiplying by 1 changes nothing.
pub proof fn lemma_mul_floor_one(a: int)
    requires
        0 <= a,
    ensures
        mul_floor(a, SCALE as int) == a,
        mul_floor(SCALE as int, a) == a,
{
    lemma_div_multiples_vanish(a, SCALE as int);
    lemma_mul_is_commutative(a, SCALE as int);
}

/// A weighted mean of two non-negative words, with weights that add up to 1,
/// stays below any bound on both.
pub proof fn lemma_weighted_mean_bounded(p: int, lower: int, upper: int, bound: int)
    requires
        0 <= p <= SCALE,
        0 <= lower <= bound,
        0 <= upper <= bound,
    ensures
        0 <= mul_floor(p, upper) + mul_floor(SCALE - p, lower) <= bound,
{
    let s = SCALE as int;
    let q = s - p;
    lemma_mul_floor_nonneg(p, upper);
    lemma_mul_floor_nonneg(q, lower);
    lemma_mul_upper_bound(p, p, upper, bound);
    lemma_mul_upper_bound(q, q, lower, bound);
    lemma_mul_nonnegative(p, upper);
    lemma_mul_nonnegative(q, lower);
    assert(p * bound + q * bound == s * bound) by (nonlinear_arith)
        requires
            q == s - p,
    ;
    // floor(x / s) + floor(y / s) <= floor((x + y) / s)
    let x = p * upper;
    let y = q * lower;
    lemma_fundamental_div_mod(x, s);
    lemma_fundamental_div_mod(y, s);
    lemma_mod_bound(x, s);
    lemma_mod_bound(y, s);
    assert(x + y >= s * (x / s + y / s)) by (nonlinear_arith)
        requires
            x == s * (x / s) + x % s,
            y == s * (y / s) + y % s,
            0 <= x % s,
            0 <= y % s,
    ;
    lemma_div_is_ordered(s * (x / s + y / s), x + y, s);
    lemma_div_multiples_vanish(x / s + y / s, s);
    lemma_div_is_ordered(x + y, s * bound, s);
    lemma_div_multiples_vanish(bound, s);
}

/// Splitting both factors at the binary point gives the rounded product exactly.
pub proof fn lemma_split_product(ah: int, al: int, bh: int, bl: int)
    requires
        0 <= ah,
        0 <= bh,
        0 <= al < SCALE,
        0 <= bl < SCALE,
    ensures
        mul_floor(ah * SCALE + al, bh * SCALE + bl) == ah * bh * SCALE + ah * bl + al * bh + (al
            * bl) / (SCALE as int),
{
    let s = SCALE as int;
    let whole = ah * bh * s + ah * bl + al * bh;
    assert((ah * s + al) * (bh * s + bl) == s * whole + al * bl) by (nonlinear_arith)
        requires
            whole == ah * bh * s + ah * bl + al * bh,
    ;
    lemma_mul_nonnegative(al, bl);
    lemma_fundamental_div_mod(al * bl, s);
    lemma_mod_bound(al * bl, s);
    let low = (al * bl) / s;
    assert(s * whole + al * bl == s * (whole + low) + (al * bl) % s) by (nonlinear_arith)
        requires
            al * bl == s * low + (al * bl) % s,
    ;
    lemma_fundamental_div_mod_converse(s * whole + al * bl, s, whole + low, (al * bl) % s);
}

} // verus!
