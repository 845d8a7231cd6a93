//! The exponential function on raw fixed-point words.
//!
//! Below 1 the exponential is a power series of twenty terms, evaluated from
//! the innermost term outwards. From 1 upwards it is the square of the
//! exponential of half the argument. Below 0 it is the reciprocal of the
//! exponential of the negated argument.
use crate::arith::{
    div_floor, fits, lemma_mul_floor_grows, lemma_mul_floor_monotone, lemma_mul_floor_nonneg,
    lemma_mul_floor_one, lemma_mul_floor_shrinks, mul_floor, MAX_RAW, SCALE,
};
use crate::raw_ops::{div_mag, mul_mag};
use vstd::arithmetic::div_mod::*;
use vstd::arithmetic::mul::*;
use vstd::prelude::*;

verus! {

/// The number of terms of the power series after the leading 1.
pub const SERIES_TERMS: i128 = 20;

/// The tail `1 + x/i * (1 + x/(i+1) * (...))` of the power series, cut after
/// the term of index `SERIES_TERMS`.
pub open spec fn exp_series(x: int, i: nat) -> int
    decreases SERIES_TERMS + 1 - i,
{
    if i > SERIES_TERMS || i == 0 {
        SCALE as int
    } else {
        SCALE + mul_floor(x, exp_series(x, i + 1)) / (i as int)
    }
}

/// The exponential of a non-negative raw word.
pub open spec fn exp_pos(x: int) -> int
    decreases x,
{
    if x < SCALE {
        exp_series(x, 1)
    } else {
        mul_floor(exp_pos(x / 2), exp_pos(x / 2))
    }
}

/// The exponential of a raw word.
pub open spec fn exp_raw(x: int) -> int {
    if x >= 0 {
        exp_pos(x)
    } else {
        div_floor(SCALE as int, exp_pos(-x))
    }
}

/// Every tail of the series is at least 1.
pub proof fn lemma_series_at_least_one(x: int, i: nat)
    requires
        0 <= x,
    ensures
        SCALE <= exp_series(x, i),
    decreases SERIES_TERMS + 1 - i,
{
    if i > SERIES_TERMS || i == 0 {
    } else {
        lemma_series_at_least_one(x, i + 1);
        lemma_mul_floor_nonneg(x, exp_series(x, i + 1));
        lemma_div_pos_is_pos(mul_floor(x, exp_series(x, i + 1)), i as int);
    }
}

/// The exponential of a non-negative number is at least 1.
pub proof fn lemma_exp_pos_at_least_one(x: int)
    requires
        0 <= x,
    ensures
        SCALE <= exp_pos(x),
    decreases x,
{
    if x < SCALE {
        lemma_series_at_least_one(x, 1);
    } else {
        lemma_exp_pos_at_least_one(x / 2);
        lemma_mul_floor_grows(exp_pos(x / 2), exp_pos(x / 2));
    }
}

/// The exponential of a number is at least 1 from 0 upwards, and between 0 and 1 below.
pub proof fn lemma_exp_raw_sign(x: int)
    ensures
        x >= 0 ==> SCALE <= exp_raw(x),
        x < 0 ==> 0 <= exp_raw(x) <= SCALE,
{
    if x >= 0 {
        lemma_exp_pos_at_least_one(x);
    } else {
        let h = exp_pos(-x);
        lemma_exp_pos_at_least_one(-x);
        lemma_reciprocal_at_most_one(h);
    }
}

/// The reciprocal of a number of at least 1 lies between 0 and 1.
pub proof fn lemma_reciprocal_at_most_one(h: int)
    requires
        SCALE <= h,
    ensures
        0 <= div_floor(SCALE as int, h) <= SCALE,
{
    let s = SCALE as int;
    lemma_mul_nonnegative(s, s);
    lemma_div_pos_is_pos(s * s, h);
    lemma_div_is_ordered_by_denominator(s * s, s, h);
    lemma_div_multiples_vanish(s, s);
}

/// From its second term on, the series at a number below 1 is at most 2.
proof fn lemma_series_at_most_two(x: int, i: nat)
    requires
        0 <= x < SCALE,
        2 <= i,
    ensures
        exp_series(x, i) <= 2 * SCALE,
    decreases SERIES_TERMS + 1 - i,
{
    if i <= SERIES_TERMS {
        lemma_series_at_most_two(x, i + 1);
        lemma_series_at_least_one(x, i + 1);
        let h = exp_series(x, i + 1);
        lemma_mul_floor_shrinks(h, x);
        lemma_mul_is_commutative(h, x);
        lemma_div_is_ordered_by_denominator(mul_floor(x, h), 2, i as int);
    }
}

/// Below 1 the exponential lies between `1 + x` and `1 + 2 * x`, as the real one does.
pub proof fn law_exp_near_zero(x: int)
    requires
        0 <= x < SCALE,
    ensures
        SCALE + x <= exp_raw(x) <= SCALE + 2 * x,
        exp_raw(0) == SCALE,
{
    let h = exp_series(x, 2);
    lemma_series_at_least_one(x, 2);
    lemma_series_at_most_two(x, 2);
    lemma_mul_floor_monotone(x, SCALE as int, x, h);
    lemma_mul_floor_monotone(x, h, x, 2 * SCALE);
    lemma_mul_floor_one(x);
    assert(mul_floor(x, 2 * SCALE) == 2 * x) by {
        lemma_mul_is_associative(x, 2, SCALE as int);
        lemma_div_multiples_vanish(x * 2, SCALE as int);
        lemma_mul_is_commutative(x * 2, SCALE as int);
    }
    assert(exp_series(x, 1) == SCALE + mul_floor(x, h) / 1);
    assert(exp_series(0, 1) == SCALE) by {
        lemma_series_at_least_one(0, 2);
        lemma_mul_basics(exp_series(0, 2));
    }
}

/// The power series at a word below 1.
fn series_word(x: i128) -> (h: i128)
    requires
        0 <= x < SCALE,
    ensures
        h == exp_series(x as int, 1),
        SCALE <= h <= 3 * SCALE,
{
    let mut h: i128 = SCALE;
    let mut i: i128 = SERIES_TERMS;
    while i >= 1
        invariant
            0 <= i <= SERIES_TERMS,
            0 <= x < SCALE,
            h == exp_series(x as int, (i + 1) as nat),
            SCALE <= h <= 3 * SCALE,
            i >= 1 ==> h <= 2 * SCALE,
        decreases i,
    {
        proof {
            lemma_mul_floor_shrinks(h as int, x as int);
            lemma_mul_is_commutative(h as int, x as int);
            lemma_mul_upper_bound(x as int, SCALE as int, h as int, 2 * SCALE);
            lemma_mul_nonnegative(x as int, h as int);
            lemma_div_pos_is_pos(mul_floor(x as int, h as int), i as int);
            lemma_div_is_ordered_by_denominator(mul_floor(x as int, h as int), 1, i as int);
            if i >= 2 {
                lemma_div_is_ordered_by_denominator(mul_floor(x as int, h as int), 2, i as int);
            }
        }
        let t = (x * h) / SCALE;
        h = SCALE + t / i;
        i = i - 1;
    }
    h
}

/// The exponential of a non-negative word; `None` when it leaves the range.
pub(crate) fn exp_pos_word(x: i128) -> (r: Option<i128>)
    requires
        0 <= x <= MAX_RAW,
    ensures
        r is Some <==> exp_pos(x as int) <= MAX_RAW,
        r is Some ==> r->0 == exp_pos(x as int),
        r is Some ==> SCALE <= r->0 <= MAX_RAW,
    decreases x,
{
    proof {
        lemma_exp_pos_at_least_one(x as int);
    }
    if x < SCALE {
        Some(series_word(x))
    } else {
        proof {
            lemma_exp_pos_at_least_one(x as int / 2);
            lemma_mul_floor_grows(exp_pos(x as int / 2), exp_pos(x as int / 2));
        }
        match exp_pos_word(x / 2) {
            None => None,
            Some(h) => match mul_mag(h as u128, h as u128) {
                None => None,
                Some(p) => Some(p as i128),
            },
        }
    }
}

/// The exponential of a word; `None` when it leaves the range.
pub(crate) fn exp_word(x: i128) -> (r: Option<i128>)
    requires
        fits(x as int),
    ensures
        r is Some <==> exp_raw(x as int) <= MAX_RAW,
        r is Some ==> r->0 == exp_raw(x as int),
        r is Some ==> 0 <= r->0 <= MAX_RAW,
{
    if x >= 0 {
        exp_pos_word(x)
    } else {
        proof {
            lemma_exp_pos_at_least_one(-x as int);
            lemma_exp_raw_sign(x as int);
        }
        match exp_pos_word(-x) {
            Some(h) => {
                let q = div_mag(SCALE as u128, h as u128);
                match q {
                    Some(v) => Some(v as i128),
                    None => None,
                }
            },
            None => {
                proof {
                    lemma_basic_div(SCALE * SCALE, exp_pos(-x as int));
                }
                Some(0)
            },
        }
    }
}

} // verus!
