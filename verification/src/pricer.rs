//! Pricing an American option: deriving the lattice from market data and valuing it.
use crate::arith::{lemma_mul_floor_nonneg, MAX_RAW, ROOT_LIMIT, SCALE};
use crate::exp::{exp_word, lemma_exp_raw_sign, lemma_reciprocal_at_most_one};
use crate::fixed::{mul_word, Fixed};
use crate::lattice::{lattice_price, STEP_LIMIT};
use crate::lattice_spec::payoff;
use crate::pricer_spec::{
    derivable, discount_factor, down_factor, lemma_lattice_consistent, lemma_share_bounds,
    price_at, price_of, scalar_price, up_factor, up_probability,
};
use crate::raw_ops::{div_mag, mul_checked, root_mag};
use crate::types::{OptionType, PriceError, TimeDuration};
use vstd::prelude::*;

verus! {

/// The factors of a lattice whose parameters can be derived.
struct Factors {
    up: i128,
    down: i128,
    prob: i128,
    discount: i128,
}

/// Derives the factors of the lattice from rate, volatility and time step; `None` where
/// they cannot be derived.
fn derive_factors(r: i128, sigma: i128, dt: i128) -> (f: Option<Factors>)
    requires
        0 < dt <= MAX_RAW,
        0 < sigma <= MAX_RAW,
        -MAX_RAW <= r <= MAX_RAW,
    ensures
        f is Some <==> derivable(r as int, sigma as int, dt as int),
        f matches Some(x) ==> {
            &&& x.up == up_factor(sigma as int, dt as int)
            &&& x.down == down_factor(sigma as int, dt as int)
            &&& x.prob == up_probability(r as int, sigma as int, dt as int)
            &&& x.discount == discount_factor(r as int, dt as int)
        },
{
    if dt >= ROOT_LIMIT {
        return None;
    }
    let root = root_mag(dt as u128) as i128;
    proof {
        lemma_mul_floor_nonneg(sigma as int, root as int);
    }
    let exponent = match mul_checked(sigma, root) {
        Some(x) => x,
        None => {
            return None;
        },
    };
    let up = match exp_word(exponent) {
        Some(x) => x,
        None => {
            return None;
        },
    };
    proof {
        lemma_exp_raw_sign(exponent as int);
        lemma_reciprocal_at_most_one(up as int);
    }
    let down = match div_mag(SCALE as u128, up as u128) {
        Some(x) => x as i128,
        None => {
            return None;
        },
    };
    if down >= up {
        return None;
    }
    let interest = match mul_word(r, dt) {
        Some(x) => x,
        None => {
            return None;
        },
    };
    let growth = match exp_word(interest) {
        Some(x) => x,
        None => {
            return None;
        },
    };
    let discount = match exp_word(-interest) {
        Some(x) => x,
        None => {
            return None;
        },
    };
    if growth < down || growth > up {
        return None;
    }
    proof {
        lemma_share_bounds(growth - down, up - down);
    }
    let prob = match div_mag((growth - down) as u128, (up - down) as u128) {
        Some(x) => x as i128,
        None => {
            return None;
        },
    };
    Some(Factors { up, down, prob, discount })
}

/// What exercising pays now.
fn immediate_value(cp: OptionType, k: i128, s: i128) -> (r: i128)
    requires
        0 <= s <= MAX_RAW,
        0 <= k <= MAX_RAW,
    ensures
        r == payoff(cp, k as int, s as int),
        0 <= r <= MAX_RAW,
{
    match cp {
        OptionType::Call => if s > k {
            s - k
        } else {
            0
        },
        OptionType::Put => if k > s {
            k - s
        } else {
            0
        },
    }
}

/// The price on raw words; `None` where the request is rejected.
pub(crate) fn price_word(
    s: i128,
    k: i128,
    dt: i128,
    r: i128,
    sigma: i128,
    cp: OptionType,
    n: usize,
) -> (p: Option<i128>)
    requires
        -MAX_RAW <= s <= MAX_RAW,
        -MAX_RAW <= k <= MAX_RAW,
        -MAX_RAW <= dt <= MAX_RAW,
        -MAX_RAW <= r <= MAX_RAW,
        -MAX_RAW <= sigma <= MAX_RAW,
    ensures
        p is Some <==> price_of(s as int, k as int, dt as int, r as int, sigma as int, cp, n as nat)
            is Some,
        p matches Some(v) ==> price_of(
            s as int,
            k as int,
            dt as int,
            r as int,
            sigma as int,
            cp,
            n as nat,
        ) == Some(v as int) && 0 <= v <= MAX_RAW,
{
    if s <= 0 || k <= 0 || dt < 0 || sigma <= 0 || n == 0 || n > STEP_LIMIT {
        return None;
    }
    if dt == 0 {
        return Some(immediate_value(cp, k, s));
    }
    let f = match derive_factors(r, sigma, dt) {
        Some(f) => f,
        None => {
            return None;
        },
    };
    proof {
        lemma_lattice_consistent(s as int, k as int, dt as int, r as int, sigma as int, cp, n as nat);
    }
    lattice_price(s, k, f.up, f.down, f.prob, f.discount, cp, n)
}

/// Whether a value and an error are the answer to a request whose price is `expected`:
/// the price without an error, or zero and `BadParams`.
pub open spec fn answers(value: Fixed, error: PriceError, expected: Option<int>) -> bool {
    match expected {
        Some(v) => value@ == v && error == PriceError::NoError,
        None => value@ == 0 && error == PriceError::BadParams,
    }
}

/// The price of an American option on a lattice of `n` steps of `delta_t` years each.
///
/// The request is rejected with `BadParams` where spot, strike or volatility is not
/// positive, the time step is negative, `n` is zero or above `STEP_LIMIT`, the lattice
/// cannot be derived with a risk-neutral probability in [0, 1], or a number of the lattice
/// leaves the range.
pub fn option_price_(
    s: Fixed,
    k: Fixed,
    delta_t: Fixed,
    r: Fixed,
    sigma: Fixed,
    cp: OptionType,
    n: usize,
) -> (res: (Fixed, PriceError))
    ensures
        answers(res.0, res.1, price_of(s@, k@, delta_t@, r@, sigma@, cp, n as nat)),
        res.0@ >= 0,
{
    match price_word(s.raw(), k.raw(), delta_t.raw(), r.raw(), sigma.raw(), cp, n) {
        Some(v) => (Fixed::from_word(v), PriceError::NoError),
        None => (Fixed::zero(), PriceError::BadParams),
    }
}

/// The price on raw words of an option with `years` to expiry, valued in `n` steps.
pub(crate) fn price_at_word(
    s: i128,
    k: i128,
    years: i128,
    r: i128,
    sigma: i128,
    cp: OptionType,
    n: usize,
) -> (p: Option<i128>)
    requires
        -MAX_RAW <= s <= MAX_RAW,
        -MAX_RAW <= k <= MAX_RAW,
        -MAX_RAW <= years <= MAX_RAW,
        -MAX_RAW <= r <= MAX_RAW,
        -MAX_RAW <= sigma <= MAX_RAW,
    ensures
        p is Some <==> price_at(
            s as int,
            k as int,
            years as int,
            r as int,
            sigma as int,
            cp,
            n as nat,
        ) is Some,
        p matches Some(v) ==> price_at(
            s as int,
            k as int,
            years as int,
            r as int,
            sigma as int,
            cp,
            n as nat,
        ) == Some(v as int) && 0 <= v <= MAX_RAW,
{
    if years < 0 || n == 0 || n > STEP_LIMIT {
        return None;
    }
    let dt = years / (n as i128);
    price_word(s, k, dt, r, sigma, cp, n)
}

/// The price of an American option with time `t` to expiry, valued in `precision` steps.
///
/// Beyond the rejections of `option_price_`, the request is rejected where the duration
/// has a basis that is not positive or stands for a negative time.
pub fn option_price_scalar(
    s: Fixed,
    k: Fixed,
    t: &TimeDuration,
    r: Fixed,
    sigma: Fixed,
    cp: OptionType,
    precision: usize,
) -> (res: (Fixed, PriceError))
    ensures
        answers(
            res.0,
            res.1,
            scalar_price(s@, k@, t.value@, t.factor@, r@, sigma@, cp, precision as nat),
        ),
        res.0@ >= 0,
{
    let years = match t.to_years() {
        Some(y) => y,
        None => {
            return (Fixed::zero(), PriceError::BadParams);
        },
    };
    match price_at_word(s.raw(), k.raw(), years.raw(), r.raw(), sigma.raw(), cp, precision) {
        Some(v) => (Fixed::from_word(v), PriceError::NoError),
        None => (Fixed::zero(), PriceError::BadParams),
    }
}

} // verus!
