//! Implied volatility: inverting the lattice price by Newton's method.
//!
//! Each step prices at the candidate, stops where the price is within the tolerance of
//! the target, estimates the slope by a centred difference, stops where that is too flat
//! to divide by, and otherwise moves the candidate, kept within [`VOL_MIN`, `VOL_MAX`].
use crate::arith::{div_raw, fits, magnitude, MAX_RAW};
use crate::fixed::{div_word, word_magnitude, Fixed};
use crate::pricer::price_at_word;
use crate::pricer_spec::{price_at, years_of};
use crate::types::{OptionType, PriceError, TimeDuration};
use vstd::prelude::*;

verus! {

/// The number of Newton steps after which the solver gives up.
pub const MAX_ITER: usize = 100;

/// The price error below which the solver has converged: 1e-5.
pub const TOLERANCE: i128 = 2814749767;

/// The volatility bump of the slope estimate: 0.001.
pub const VEGA_BUMP: i128 = 281474976711;

/// The slope below which the solver does not divide: 1e-10.
pub const VEGA_FLOOR: i128 = 28147;

/// The smallest candidate volatility: 0.002, twice the bump.
pub const VOL_MIN: i128 = 562949953421;

/// The largest candidate volatility: 5.
pub const VOL_MAX: i128 = 1407374883553280;

/// The number of steps where the caller names none.
pub const DEFAULT_STEPS: usize = 500;

/// The centred difference of the price in volatility, per unit of volatility; `None`
/// where a bumped price is rejected, the bump is zero, or a number leaves the range.
pub open spec fn vega_estimate(
    s: int,
    k: int,
    years: int,
    r: int,
    sigma: int,
    cp: OptionType,
    n: nat,
    bump: int,
) -> Option<int> {
    if bump == 0 || !fits(2 * bump) || !fits(sigma + bump) || !fits(sigma - bump) {
        None
    } else {
        match (
            price_at(s, k, years, r, sigma + bump, cp, n),
            price_at(s, k, years, r, sigma - bump, cp, n),
        ) {
            (Some(up), Some(down)) => if fits(div_raw(up - down, 2 * bump)) {
                Some(div_raw(up - down, 2 * bump))
            } else {
                None
            },
            _ => None,
        }
    }
}

/// A candidate volatility, kept within [`VOL_MIN`, `VOL_MAX`].
pub open spec fn clamp_vol(x: int) -> int {
    if x < VOL_MIN {
        VOL_MIN as int
    } else if x > VOL_MAX {
        VOL_MAX as int
    } else {
        x
    }
}

/// The candidate after a Newton step from `sigma` with price error `err` and slope `v`.
pub open spec fn next_candidate(sigma: int, err: int, v: int) -> int {
    clamp_vol(sigma - div_raw(err, v))
}

/// The result of Newton's method from the candidate `sigma` with `budget` steps left:
/// the final candidate and how the search ended.
pub open spec fn newton(
    target: int,
    s: int,
    k: int,
    years: int,
    r: int,
    sigma: int,
    cp: OptionType,
    n: nat,
    budget: nat,
) -> (int, PriceError)
    decreases budget,
{
    match price_at(s, k, years, r, sigma, cp, n) {
        None => (0, PriceError::BadParams),
        Some(p) => if magnitude(p - target) < TOLERANCE {
            (sigma, PriceError::NoError)
        } else if budget == 0 {
            (sigma, PriceError::NonConvergence)
        } else {
            match vega_estimate(s, k, years, r, sigma, cp, n, VEGA_BUMP as int) {
                None => (0, PriceError::BadParams),
                Some(v) => if magnitude(v) < VEGA_FLOOR {
                    (sigma, PriceError::NonConvergence)
                } else {
                    newton(
                        target,
                        s,
                        k,
                        years,
                        r,
                        next_candidate(sigma, p - target, v),
                        cp,
                        n,
                        (budget - 1) as nat,
                    )
                },
            }
        },
    }
}

/// The volatility implied by the market price `target`, searched from the guess `sigma`.
pub open spec fn implied_vol(
    target: int,
    s: int,
    k: int,
    years: int,
    r: int,
    sigma: int,
    cp: OptionType,
    n: nat,
) -> (int, PriceError) {
    if target <= 0 || target > MAX_RAW {
        (0, PriceError::BadParams)
    } else {
        newton(target, s, k, years, r, sigma, cp, n, MAX_ITER as nat)
    }
}

/// The volatility implied by a market price, the time to expiry given as a duration.
pub open spec fn scalar_implied_vol(
    target: int,
    s: int,
    k: int,
    value: int,
    factor: int,
    r: int,
    sigma: int,
    cp: OptionType,
    n: nat,
) -> (int, PriceError) {
    match years_of(value, factor) {
        None => (0, PriceError::BadParams),
        Some(years) => implied_vol(target, s, k, years, r, sigma, cp, n),
    }
}

/// The slope estimate for a time to expiry given as a duration.
pub open spec fn scalar_vega_estimate(
    s: int,
    k: int,
    value: int,
    factor: int,
    r: int,
    sigma: int,
    cp: OptionType,
    n: nat,
    bump: int,
) -> Option<int> {
    match years_of(value, factor) {
        None => None,
        Some(years) => vega_estimate(s, k, years, r, sigma, cp, n, bump),
    }
}

/// A hundredth of a word, rounded towards zero.
pub open spec fn per_cent(v: int) -> int {
    if v >= 0 {
        v / 100
    } else {
        -((-v) / 100)
    }
}

/// The slope estimate on raw words.
pub(crate) fn vega_word(
    s: i128,
    k: i128,
    years: i128,
    r: i128,
    sigma: i128,
    cp: OptionType,
    n: usize,
    bump: i128,
) -> (v: Option<i128>)
    requires
        fits(s as int),
        fits(k as int),
        fits(years as int),
        fits(r as int),
        fits(sigma as int),
        fits(bump as int),
    ensures
        v == match vega_estimate(
            s as int,
            k as int,
            years as int,
            r as int,
            sigma as int,
            cp,
            n as nat,
            bump as int,
        ) {
            Some(x) => Some(x as i128),
            None => None,
        },
        v matches Some(x) ==> fits(x as int),
{
    let twice = 2 * bump;
    let high = sigma + bump;
    let low = sigma - bump;
    if bump == 0 || twice > MAX_RAW || twice < -MAX_RAW || high > MAX_RAW || high < -MAX_RAW || low
        > MAX_RAW || low < -MAX_RAW {
        return None;
    }
    let up = match price_at_word(s, k, years, r, high, cp, n) {
        Some(p) => p,
        None => {
            return None;
        },
    };
    let down = match price_at_word(s, k, years, r, low, cp, n) {
        Some(p) => p,
        None => {
            return None;
        },
    };
    div_word(up - down, twice)
}

/// The candidate after a Newton step, on raw words.
fn step_word(sigma: i128, err: i128, v: i128) -> (next: i128)
    requires
        0 < sigma <= MAX_RAW,
        fits(err as int),
        fits(v as int),
        v != 0,
    ensures
        next == next_candidate(sigma as int, err as int, v as int),
        VOL_MIN <= next <= VOL_MAX,
{
    match div_word(err, v) {
        Some(q) => {
            let moved = sigma - q;
            if moved < VOL_MIN {
                VOL_MIN
            } else if moved > VOL_MAX {
                VOL_MAX
            } else {
                moved
            }
        },
        None => {
            if (err < 0) == (v < 0) {
                VOL_MIN
            } else {
                VOL_MAX
            }
        },
    }
}

/// Newton's method on raw words.
fn newton_word(
    target: i128,
    s: i128,
    k: i128,
    years: i128,
    r: i128,
    guess: i128,
    cp: OptionType,
    n: usize,
) -> (res: (i128, PriceError))
    requires
        0 < target <= MAX_RAW,
        fits(s as int),
        fits(k as int),
        fits(years as int),
        fits(r as int),
        fits(guess as int),
    ensures
        res.0 == newton(
            target as int,
            s as int,
            k as int,
            years as int,
            r as int,
            guess as int,
            cp,
            n as nat,
            MAX_ITER as nat,
        ).0,
        res.1 == newton(
            target as int,
            s as int,
            k as int,
            years as int,
            r as int,
            guess as int,
            cp,
            n as nat,
            MAX_ITER as nat,
        ).1,
        fits(res.0 as int),
{
    let mut sigma = guess;
    let mut budget: usize = MAX_ITER;
    loop
        invariant
            0 < target <= MAX_RAW,
            fits(s as int),
            fits(k as int),
            fits(years as int),
            fits(r as int),
            fits(sigma as int),
            budget <= MAX_ITER,
            newton(
                target as int,
                s as int,
                k as int,
                years as int,
                r as int,
                guess as int,
                cp,
                n as nat,
                MAX_ITER as nat,
            ) == newton(
                target as int,
                s as int,
                k as int,
                years as int,
                r as int,
                sigma as int,
                cp,
                n as nat,
                budget as nat,
            ),
        decreases budget,
    {
        let price = match price_at_word(s, k, years, r, sigma, cp, n) {
            Some(p) => p,
            None => {
                return (0, PriceError::BadParams);
            },
        };
        let err = price - target;
        if word_magnitude(err) < TOLERANCE as u128 {
            return (sigma, PriceError::NoError);
        }
        if budget == 0 {
            return (sigma, PriceError::NonConvergence);
        }
        let slope = match vega_word(s, k, years, r, sigma, cp, n, VEGA_BUMP) {
            Some(v) => v,
            None => {
                return (0, PriceError::BadParams);
            },
        };
        if word_magnitude(slope) < VEGA_FLOOR as u128 {
            return (sigma, PriceError::NonConvergence);
        }
        sigma = step_word(sigma, err, slope);
        budget = budget - 1;
    }
}

/// The centred difference of the price in volatility with the given bump, per unit of
/// volatility. `BadParams` and zero where it cannot be had.
pub fn vega_iv_finder(
    s: Fixed,
    k: Fixed,
    t: &TimeDuration,
    r: Fixed,
    sigma: Fixed,
    cp: OptionType,
    n: usize,
    bump: Fixed,
) -> (res: (Fixed, PriceError))
    ensures
        match scalar_vega_estimate(
            s@,
            k@,
            t.value@,
            t.factor@,
            r@,
            sigma@,
            cp,
            n as nat,
            bump@,
        ) {
            Some(v) => res.0@ == v && res.1 == PriceError::NoError,
            None => res.0@ == 0 && res.1 == PriceError::BadParams,
        },
{
    let years = match t.to_years() {
        Some(y) => y,
        None => {
            return (Fixed::zero(), PriceError::BadParams);
        },
    };
    match vega_word(s.raw(), k.raw(), years.raw(), r.raw(), sigma.raw(), cp, n, bump.raw()) {
        Some(v) => (Fixed::from_word(v), PriceError::NoError),
        None => (Fixed::zero(), PriceError::BadParams),
    }
}

/// A hundredth of a word, rounded towards zero.
pub(crate) fn per_cent_word(v: i128) -> (r: i128)
    requires
        fits(v as int),
    ensures
        r == per_cent(v as int),
        fits(r as int),
{
    if v >= 0 {
        v / 100
    } else {
        -((-v) / 100)
    }
}

/// The change of the price for a move of one percentage point in volatility: the centred
/// difference with the given bump, divided by 100.
pub fn vega(
    s: Fixed,
    k: Fixed,
    t: &TimeDuration,
    r: Fixed,
    sigma: Fixed,
    cp: OptionType,
    n: usize,
    bump: Fixed,
) -> (res: (Fixed, PriceError))
    ensures
        match scalar_vega_estimate(
            s@,
            k@,
            t.value@,
            t.factor@,
            r@,
            sigma@,
            cp,
            n as nat,
            bump@,
        ) {
            Some(v) => res.0@ == per_cent(v) && res.1 == PriceError::NoError,
            None => res.0@ == 0 && res.1 == PriceError::BadParams,
        },
{
    let (v, e) = vega_iv_finder(s, k, t, r, sigma, cp, n, bump);
    match e {
        PriceError::NoError => (Fixed::from_word(per_cent_word(v.raw())), PriceError::NoError),
        _ => (Fixed::zero(), PriceError::BadParams),
    }
}

/// The volatility at which the lattice price meets the market price `price`, searched
/// from `candidate_sigma` in at most `MAX_ITER` Newton steps, on a lattice of `precision`
/// steps (`DEFAULT_STEPS` where none is named).
///
/// `NoError` with a volatility whose price is within `TOLERANCE` of the market price;
/// `NonConvergence` with the last candidate where the steps ran out or the slope fell
/// below `VEGA_FLOOR`; `BadParams` and zero where the market price is not positive or a
/// price that the search needs is rejected.
pub fn option_iv_(
    price: Fixed,
    s: Fixed,
    k: Fixed,
    t: &TimeDuration,
    r: Fixed,
    candidate_sigma: Fixed,
    cp: OptionType,
    precision: Option<usize>,
) -> (res: (Fixed, PriceError))
    ensures
        res.0@ == scalar_implied_vol(
            price@,
            s@,
            k@,
            t.value@,
            t.factor@,
            r@,
            candidate_sigma@,
            cp,
            steps_or_default(precision) as nat,
        ).0,
        res.1 == scalar_implied_vol(
            price@,
            s@,
            k@,
            t.value@,
            t.factor@,
            r@,
            candidate_sigma@,
            cp,
            steps_or_default(precision) as nat,
        ).1,
{
    let n = match precision {
        Some(n) => n,
        None => DEFAULT_STEPS,
    };
    let years = match t.to_years() {
        Some(y) => y,
        None => {
            return (Fixed::zero(), PriceError::BadParams);
        },
    };
    if price.raw() <= 0 {
        return (Fixed::zero(), PriceError::BadParams);
    }
    let (v, e) = newton_word(
        price.raw(),
        s.raw(),
        k.raw(),
        years.raw(),
        r.raw(),
        candidate_sigma.raw(),
        cp,
        n,
    );
    (Fixed::from_word(v), e)
}

/// The number of steps that a request names, or `DEFAULT_STEPS`.
pub open spec fn steps_or_default(precision: Option<usize>) -> usize {
    match precision {
        Some(n) => n,
        None => DEFAULT_STEPS,
    }
}

/// The implied volatility on a lattice of `precision` steps.
pub fn option_iv_scalar(
    price: Fixed,
    s: Fixed,
    k: Fixed,
    t: &TimeDuration,
    r: Fixed,
    candidate_sigma: Fixed,
    cp: OptionType,
    precision: usize,
) -> (res: (Fixed, PriceError))
    ensures
        res.0@ == scalar_implied_vol(
            price@,
            s@,
            k@,
            t.value@,
            t.factor@,
            r@,
            candidate_sigma@,
            cp,
            precision as nat,
        ).0,
        res.1 == scalar_implied_vol(
            price@,
            s@,
            k@,
            t.value@,
            t.factor@,
            r@,
            candidate_sigma@,
            cp,
            precision as nat,
        ).1,
{
    option_iv_(price, s, k, t, r, candidate_sigma, cp, Some(precision))
}

} // verus!
