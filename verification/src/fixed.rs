//! Signed fixed-point numbers with 48 binary places.
use crate::arith::{div_raw, fits, magnitude, mul_raw, root_raw, MAX_RAW, ROOT_LIMIT, SCALE};
use crate::exp::{exp_raw, exp_word};
use crate::raw_ops::{div_mag, mul_mag, root_mag};
use vstd::arithmetic::div_mod::*;
use vstd::arithmetic::mul::*;
use vstd::prelude::*;

verus! {

/// A real number held as a multiple of 2^-48, between -2^72 and 2^72.
///
/// The view of a number is its raw word: the number times 2^48.
#[derive(Clone, Copy, Debug, PartialEq, Eq, Structural)]
pub struct Fixed {
    pub(crate) raw: i128,
}

impl View for Fixed {
    type V = int;

    closed spec fn view(&self) -> int {
        self.raw as int
    }
}

/// The magnitude of a word, as an unsigned word.
pub(crate) fn word_magnitude(a: i128) -> (r: u128)
    requires
        fits(a as int),
    ensures
        r == magnitude(a as int),
        r <= MAX_RAW,
{
    if a < 0 {
        (-a) as u128
    } else {
        a as u128
    }
}

/// The product of two words, rounded towards zero; `None` when it leaves the range.
pub(crate) fn mul_word(a: i128, b: i128) -> (r: Option<i128>)
    requires
        fits(a as int),
        fits(b as int),
    ensures
        r is Some <==> fits(mul_raw(a as int, b as int)),
        r is Some ==> r->0 == mul_raw(a as int, b as int),
{
    proof {
        lemma_mul_nonnegative(magnitude(a as int), magnitude(b as int));
        lemma_div_pos_is_pos(magnitude(a as int) * magnitude(b as int), SCALE as int);
    }
    match mul_mag(word_magnitude(a), word_magnitude(b)) {
        None => None,
        Some(m) => if (a < 0) == (b < 0) {
            Some(m as i128)
        } else {
            Some(-(m as i128))
        },
    }
}

/// The quotient of two words, rounded towards zero; `None` when the divisor is zero or the
/// quotient leaves the range.
pub(crate) fn div_word(a: i128, b: i128) -> (r: Option<i128>)
    requires
        fits(a as int),
        fits(b as int),
    ensures
        r is Some <==> b != 0 && fits(div_raw(a as int, b as int)),
        r is Some ==> r->0 == div_raw(a as int, b as int),
{
    if b == 0 {
        return None;
    }
    proof {
        lemma_mul_nonnegative(magnitude(a as int), SCALE as int);
        lemma_div_pos_is_pos(magnitude(a as int) * SCALE, magnitude(b as int));
    }
    match div_mag(word_magnitude(a), word_magnitude(b)) {
        None => None,
        Some(m) => if (a < 0) == (b < 0) {
            Some(m as i128)
        } else {
            Some(-(m as i128))
        },
    }
}

impl Fixed {
    /// Every number lies within the range.
    #[verifier::type_invariant]
    pub closed spec fn within_range(self) -> bool {
        fits(self.raw as int)
    }

    /// The number whose raw word is `raw`; `None` when that is out of range.
    pub fn from_raw(raw: i128) -> (r: Option<Fixed>)
        ensures
            r is Some <==> fits(raw as int),
            r is Some ==> r->0@ == raw,
    {
        if -MAX_RAW <= raw && raw <= MAX_RAW {
            Some(Fixed { raw })
        } else {
            None
        }
    }

    /// The number whose raw word is `raw`, which is known to be within the range.
    pub(crate) fn from_word(raw: i128) -> (r: Fixed)
        requires
            fits(raw as int),
        ensures
            r@ == raw,
    {
        Fixed { raw }
    }

    /// The raw word of the number.
    pub fn raw(&self) -> (r: i128)
        ensures
            r == self@,
            fits(r as int),
    {
        proof {
            use_type_invariant(self);
        }
        self.raw
    }

    /// The number 0.
    pub fn zero() -> (r: Fixed)
        ensures
            r@ == 0,
    {
        Fixed { raw: 0 }
    }

    /// The number 1.
    pub fn one() -> (r: Fixed)
        ensures
            r@ == SCALE,
    {
        Fixed { raw: SCALE }
    }

    /// The whole number `n`.
    pub fn from_int(n: i64) -> (r: Fixed)
        ensures
            r@ == n * SCALE,
    {
        proof {
            lemma_mul_upper_bound(
                magnitude(n as int),
                0x8000_0000_0000_0000,
                SCALE as int,
                SCALE as int,
            );
            lemma_mul_nonnegative(magnitude(n as int), SCALE as int);
            lemma_mul_unary_negation(n as int, SCALE as int);
        }
        Fixed { raw: (n as i128) * SCALE }
    }

    /// The fraction `num / den`, rounded towards zero; `None` when `den` is zero.
    pub fn from_ratio(num: i64, den: i64) -> (r: Option<Fixed>)
        ensures
            r is Some <==> den != 0,
            r is Some ==> r->0@ == div_raw(num * SCALE, den * SCALE),
    {
        let n = Fixed::from_int(num);
        let d = Fixed::from_int(den);
        proof {
            lemma_mul_nonzero(den as int, SCALE as int);
            if den != 0 {
                // |num / den| <= |num| <= 2^63, far within the range
                let a = magnitude(num * SCALE);
                let b = magnitude(den * SCALE);
                lemma_mul_unary_negation(num as int, SCALE as int);
                lemma_mul_unary_negation(den as int, SCALE as int);
                lemma_mul_nonnegative(magnitude(num as int), SCALE as int);
                lemma_mul_nonnegative(magnitude(den as int), SCALE as int);
                lemma_mul_inequality(1, magnitude(den as int), SCALE as int);
                lemma_mul_nonnegative(a, SCALE as int);
                lemma_div_pos_is_pos(a * SCALE, b);
                lemma_div_is_ordered_by_denominator(a * SCALE, SCALE as int, b);
                lemma_div_multiples_vanish(a, SCALE as int);
                lemma_mul_is_commutative(a, SCALE as int);
                lemma_mul_upper_bound(
                    magnitude(num as int),
                    0x8000_0000_0000_0000,
                    SCALE as int,
                    SCALE as int,
                );
            }
        }
        n.div(d)
    }

    /// The negated number.
    pub fn neg(self) -> (r: Fixed)
        ensures
            r@ == -self@,
    {
        proof {
            use_type_invariant(&self);
        }
        Fixed { raw: -self.raw }
    }

    /// The absolute value.
    pub fn abs(self) -> (r: Fixed)
        ensures
            r@ == magnitude(self@),
    {
        proof {
            use_type_invariant(&self);
        }
        if self.raw < 0 {
            Fixed { raw: -self.raw }
        } else {
            self
        }
    }

    /// The sum; `None` when it leaves the range.
    pub fn add(self, rhs: Fixed) -> (r: Option<Fixed>)
        ensures
            r is Some <==> fits(self@ + rhs@),
            r is Some ==> r->0@ == self@ + rhs@,
    {
        proof {
            use_type_invariant(&self);
            use_type_invariant(&rhs);
        }
        Fixed::from_raw(self.raw + rhs.raw)
    }

    /// The difference; `None` when it leaves the range.
    pub fn sub(self, rhs: Fixed) -> (r: Option<Fixed>)
        ensures
            r is Some <==> fits(self@ - rhs@),
            r is Some ==> r->0@ == self@ - rhs@,
    {
        proof {
            use_type_invariant(&self);
            use_type_invariant(&rhs);
        }
        Fixed::from_raw(self.raw - rhs.raw)
    }

    /// The product, rounded towards zero; `None` when it leaves the range.
    pub fn mul(self, rhs: Fixed) -> (r: Option<Fixed>)
        ensures
            r is Some <==> fits(mul_raw(self@, rhs@)),
            r is Some ==> r->0@ == mul_raw(self@, rhs@),
    {
        proof {
            use_type_invariant(&self);
            use_type_invariant(&rhs);
        }
        match mul_word(self.raw, rhs.raw) {
            None => None,
            Some(w) => Some(Fixed { raw: w }),
        }
    }

    /// The quotient, rounded towards zero; `None` when `rhs` is zero or the quotient leaves
    /// the range.
    pub fn div(self, rhs: Fixed) -> (r: Option<Fixed>)
        ensures
            r is Some <==> rhs@ != 0 && fits(div_raw(self@, rhs@)),
            r is Some ==> r->0@ == div_raw(self@, rhs@),
    {
        proof {
            use_type_invariant(&self);
            use_type_invariant(&rhs);
        }
        match div_word(self.raw, rhs.raw) {
            None => None,
            Some(w) => Some(Fixed { raw: w }),
        }
    }

    /// The square root, rounded down; `None` for a negative number and from `ROOT_LIMIT` upwards.
    pub fn sqrt(self) -> (r: Option<Fixed>)
        ensures
            r is Some <==> 0 <= self@ < ROOT_LIMIT,
            r is Some ==> r->0@ == root_raw(self@),
    {
        if self.raw < 0 || self.raw >= ROOT_LIMIT {
            None
        } else {
            let w = root_mag(self.raw as u128);
            Some(Fixed { raw: w as i128 })
        }
    }

    /// The exponential; `None` when it leaves the range.
    pub fn exp(self) -> (r: Option<Fixed>)
        ensures
            r is Some <==> exp_raw(self@) <= MAX_RAW,
            r is Some ==> r->0@ == exp_raw(self@),
    {
        proof {
            use_type_invariant(&self);
        }
        match exp_word(self.raw) {
            None => None,
            Some(w) => Some(Fixed { raw: w }),
        }
    }

    /// Whether the number is less than `rhs`.
    pub fn lt(self, rhs: Fixed) -> (r: bool)
        ensures
            r == (self@ < rhs@),
    {
        self.raw < rhs.raw
    }

    /// Whether the number is at most `rhs`.
    pub fn le(self, rhs: Fixed) -> (r: bool)
        ensures
            r == (self@ <= rhs@),
    {
        self.raw <= rhs.raw
    }
}

} // verus!
