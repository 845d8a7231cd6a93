//! Sensitivities of the price by finite differences of lattice prices.
use crate::arith::{div_raw, fits, MAX_RAW};
use crate::fixed::{div_word, Fixed};
use crate::implied_vol::{per_cent, per_cent_word, vega_estimate, vega_word, VEGA_BUMP};
use crate::pricer::price_at_word;
use crate::pricer_spec::{price_at, years_of};
use crate::types::{OptionType, PriceError, TimeDuration};
use vstd::prelude::*;

verus! {

/// The spot bump of delta and gamma: 0.001.
pub const SPOT_BUMP: i128 = 281474976711;

/// The square of the spot bump: 0.000001.
pub const SPOT_BUMP_SQUARED: i128 = 281474977;

/// One calendar day in years: 1/365.
pub const ONE_DAY: i128 = 771164319755;

/// The number of calendar days in a year.
pub const DAYS_PER_YEAR: i128 = 365;

/// The sensitivities of a price.
#[derive(Clone, Copy, Debug)]
pub struct Greeks {
    /// Per unit of spot.
    pub delta: Fixed,
    /// Per unit of spot, squared.
    pub gamma: Fixed,
    /// Per percentage point of volatility.
    pub vega: Fixed,
    /// Per year of additional time to expiry.
    pub theta: Fixed,
}

/// The sensitivities of a price, as raw words.
pub struct GreeksModel {
    pub delta: int,
    pub gamma: int,
    pub vega: int,
    pub theta: int,
}

impl View for Greeks {
    type V = GreeksModel;

    open spec fn view(&self) -> GreeksModel {
        GreeksModel {
            delta: self.delta@,
            gamma: self.gamma@,
            vega: self.vega@,
            theta: self.theta@,
        }
    }
}

/// The change of the price over one more calendar day to expiry, per year: the price
/// with a day more, less the price `base`, times 365. `None` where the later price is
/// rejected or a number leaves the range.
pub open spec fn theta_from(
    s: int,
    k: int,
    years: int,
    r: int,
    sigma: int,
    cp: OptionType,
    n: nat,
    base: int,
) -> Option<int> {
    if !fits(years + ONE_DAY) {
        None
    } else {
        match price_at(s, k, years + ONE_DAY, r, sigma, cp, n) {
            None => None,
            Some(later) => if fits((later - base) * DAYS_PER_YEAR) {
                Some((later - base) * DAYS_PER_YEAR)
            } else {
                None
            },
        }
    }
}

/// Theta from a price that the caller supplies, or from the lattice price where none is.
pub open spec fn theta_of(
    s: int,
    k: int,
    years: int,
    r: int,
    sigma: int,
    cp: OptionType,
    n: nat,
    given: Option<int>,
) -> Option<int> {
    match given {
        Some(base) => theta_from(s, k, years, r, sigma, cp, n, base),
        None => match price_at(s, k, years, r, sigma, cp, n) {
            None => None,
            Some(base) => theta_from(s, k, years, r, sigma, cp, n, base),
        },
    }
}

/// Theta for a time to expiry given as a duration.
pub open spec fn scalar_theta(
    s: int,
    k: int,
    value: int,
    factor: int,
    r: int,
    sigma: int,
    cp: OptionType,
    n: nat,
    given: Option<int>,
) -> Option<int> {
    match years_of(value, factor) {
        None => None,
        Some(years) => theta_of(s, k, years, r, sigma, cp, n, given),
    }
}

/// Delta: the centred difference of the price in spot.
pub open spec fn delta_from(up: int, down: int) -> Option<int> {
    if fits(div_raw(up - down, 2 * SPOT_BUMP)) {
        Some(div_raw(up - down, 2 * SPOT_BUMP))
    } else {
        None
    }
}

/// Gamma: the second difference of the price in spot.
pub open spec fn gamma_from(up: int, base: int, down: int) -> Option<int> {
    if fits(up - 2 * base + down) && fits(div_raw(up - 2 * base + down, SPOT_BUMP_SQUARED as int)) {
        Some(div_raw(up - 2 * base + down, SPOT_BUMP_SQUARED as int))
    } else {
        None
    }
}

/// The four sensitivities at one step count, from six lattice prices: the base price, two
/// with the spot bumped, two with the volatility bumped and one with a day more to expiry.
/// `None` where one of the prices is rejected or a number leaves the range.
pub open spec fn greeks_of(
    s: int,
    k: int,
    years: int,
    r: int,
    sigma: int,
    cp: OptionType,
    n: nat,
) -> Option<GreeksModel> {
    if !fits(s + SPOT_BUMP) {
        None
    } else {
        match (
            price_at(s, k, years, r, sigma, cp, n),
            price_at(s + SPOT_BUMP, k, years, r, sigma, cp, n),
            price_at(s - SPOT_BUMP, k, years, r, sigma, cp, n),
        ) {
            (Some(base), Some(up), Some(down)) => match (
                delta_from(up, down),
                gamma_from(up, base, down),
                vega_estimate(s, k, years, r, sigma, cp, n, VEGA_BUMP as int),
                theta_from(s, k, years, r, sigma, cp, n, base),
            ) {
                (Some(delta), Some(gamma), Some(slope), Some(theta)) => Some(
                    GreeksModel { delta, gamma, vega: per_cent(slope), theta },
                ),
                _ => None,
            },
            _ => None,
        }
    }
}

/// The sensitivities for a time to expiry given as a duration.
pub open spec fn scalar_greeks(
    s: int,
    k: int,
    value: int,
    factor: int,
    r: int,
    sigma: int,
    cp: OptionType,
    n: nat,
) -> Option<GreeksModel> {
    match years_of(value, factor) {
        None => None,
        Some(years) => greeks_of(s, k, years, r, sigma, cp, n),
    }
}

/// Theta on raw words, from the base price `base`.
fn theta_word(
    s: i128,
    k: i128,
    years: i128,
    r: i128,
    sigma: i128,
    cp: OptionType,
    n: usize,
    base: i128,
) -> (v: Option<i128>)
    requires
        fits(s as int),
        fits(k as int),
        fits(years as int),
        fits(r as int),
        fits(sigma as int),
        fits(base as int),
    ensures
        v == match theta_from(
            s as int,
            k as int,
            years as int,
            r as int,
            sigma as int,
            cp,
            n as nat,
            base as int,
        ) {
            Some(x) => Some(x as i128),
            None => None,
        },
        v matches Some(x) ==> fits(x as int),
{
    let extended = years + ONE_DAY;
    if extended > MAX_RAW {
        return None;
    }
    let later = match price_at_word(s, k, extended, r, sigma, cp, n) {
        Some(p) => p,
        None => {
            return None;
        },
    };
    let diff = later - base;
    if diff > MAX_RAW / DAYS_PER_YEAR || diff < -(MAX_RAW / DAYS_PER_YEAR) {
        return None;
    }
    Some(diff * DAYS_PER_YEAR)
}

/// The sensitivities on raw words.
fn greeks_word(s: i128, k: i128, years: i128, r: i128, sigma: i128, cp: OptionType, n: usize) -> (g:
    Option<(i128, i128, i128, i128)>)
    requires
        fits(s as int),
        fits(k as int),
        fits(years as int),
        fits(r as int),
        fits(sigma as int),
    ensures
        g is Some <==> greeks_of(
            s as int,
            k as int,
            years as int,
            r as int,
            sigma as int,
            cp,
            n as nat,
        ) is Some,
        g matches Some(x) ==> {
            let m = greeks_of(
                s as int,
                k as int,
                years as int,
                r as int,
                sigma as int,
                cp,
                n as nat,
            )->0;
            &&& x.0 == m.delta
            &&& x.1 == m.gamma
            &&& x.2 == m.vega
            &&& x.3 == m.theta
            &&& fits(x.0 as int)
            &&& fits(x.1 as int)
            &&& fits(x.2 as int)
            &&& fits(x.3 as int)
        },
{
    let raised = s + SPOT_BUMP;
    if raised > MAX_RAW {
        return None;
    }
    let base = match price_at_word(s, k, years, r, sigma, cp, n) {
        Some(p) => p,
        None => {
            return None;
        },
    };
    let up = match price_at_word(raised, k, years, r, sigma, cp, n) {
        Some(p) => p,
        None => {
            return None;
        },
    };
    let down = match price_at_word(s - SPOT_BUMP, k, years, r, sigma, cp, n) {
        Some(p) => p,
        None => {
            return None;
        },
    };
    let delta = match div_word(up - down, 2 * SPOT_BUMP) {
        Some(x) => x,
        None => {
            return None;
        },
    };
    let curve = up - 2 * base + down;
    if curve > MAX_RAW || curve < -MAX_RAW {
        return None;
    }
    let gamma = match div_word(curve, SPOT_BUMP_SQUARED) {
        Some(x) => x,
        None => {
            return None;
        },
    };
    let slope = match vega_word(s, k, years, r, sigma, cp, n, VEGA_BUMP) {
        Some(x) => x,
        None => {
            return None;
        },
    };
    let theta = match theta_word(s, k, years, r, sigma, cp, n, base) {
        Some(x) => x,
        None => {
            return None;
        },
    };
    Some((delta, gamma, per_cent_word(slope), theta))
}

/// The change of the price over one more calendar day to expiry, per year, from the
/// price `price` where one is given and from the lattice price where none is.
///
/// The sign is that of a growing time to expiry: the negative of time decay.
pub fn theta(
    s: Fixed,
    k: Fixed,
    t: &TimeDuration,
    r: Fixed,
    sigma: Fixed,
    cp: OptionType,
    precision: usize,
    price: Option<Fixed>,
) -> (res: (Fixed, PriceError))
    ensures
        match scalar_theta(
            s@,
            k@,
            t.value@,
            t.factor@,
            r@,
            sigma@,
            cp,
            precision as nat,
            match price {
                Some(p) => Some(p@),
                None => None,
            },
        ) {
            Some(v) => res.0@ == v && res.1 == PriceError::NoError,
            None => res.0@ == 0 && res.1 == PriceError::BadParams,
        },
{
    let years = match t.to_years() {
        Some(y) => y,
        None => {
            return (Fixed::zero(), PriceError::BadParams);
        },
    };
    let base = match price {
        Some(p) => p.raw(),
        None => match price_at_word(
            s.raw(),
            k.raw(),
            years.raw(),
            r.raw(),
            sigma.raw(),
            cp,
            precision,
        ) {
            Some(p) => p,
            None => {
                return (Fixed::zero(), PriceError::BadParams);
            },
        },
    };
    match theta_word(s.raw(), k.raw(), years.raw(), r.raw(), sigma.raw(), cp, precision, base) {
        Some(v) => (Fixed::from_word(v), PriceError::NoError),
        None => (Fixed::zero(), PriceError::BadParams),
    }
}

/// Whether sensitivities and an error are the answer to a request whose sensitivities
/// are `expected`: those without an error, or zeros and `BadParams`.
pub open spec fn answers_greeks(
    value: Greeks,
    error: PriceError,
    expected: Option<GreeksModel>,
) -> bool {
    match expected {
        Some(m) => value@ == m && error == PriceError::NoError,
        None => value@ == (GreeksModel { delta: 0, gamma: 0, vega: 0, theta: 0 }) && error
            == PriceError::BadParams,
    }
}

/// The sensitivities of one option.
pub fn greeks_scalar(
    s: Fixed,
    k: Fixed,
    t: &TimeDuration,
    r: Fixed,
    sigma: Fixed,
    cp: OptionType,
    precision: usize,
) -> (res: (Greeks, PriceError))
    ensures
        answers_greeks(
            res.0,
            res.1,
            scalar_greeks(s@, k@, t.value@, t.factor@, r@, sigma@, cp, precision as nat),
        ),
{
    let zero = Fixed::zero();
    let none = Greeks { delta: zero, gamma: zero, vega: zero, theta: zero };
    let years = match t.to_years() {
        Some(y) => y,
        None => {
            return (none, PriceError::BadParams);
        },
    };
    match greeks_word(s.raw(), k.raw(), years.raw(), r.raw(), sigma.raw(), cp, precision) {
        Some((delta, gamma, vega, theta)) => (
            Greeks {
                delta: Fixed::from_word(delta),
                gamma: Fixed::from_word(gamma),
                vega: Fixed::from_word(vega),
                theta: Fixed::from_word(theta),
            },
            PriceError::NoError,
        ),
        None => (none, PriceError::BadParams),
    }
}

} // verus!
