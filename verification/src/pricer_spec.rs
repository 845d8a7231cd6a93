//! What the pricing functions compute, as mathematics over raw fixed-point words.
use crate::arith::{
    div_floor, div_raw, fits, is_root, lemma_mul_floor_nonneg, mul_floor, mul_raw, root_raw,
    MAX_RAW, ROOT_LIMIT, SCALE,
};
use crate::exp::{exp_raw, lemma_exp_raw_sign, lemma_reciprocal_at_most_one};
use crate::lattice::STEP_LIMIT;
use crate::lattice_spec::{payoff, LatticeModel};
use crate::types::OptionType;
use vstd::arithmetic::div_mod::*;
use vstd::arithmetic::mul::*;
use vstd::prelude::*;

verus! {

/// The market data of a request make sense: positive spot, strike and volatility, a
/// time step that is not negative, and a number of steps between 1 and `STEP_LIMIT`.
pub open spec fn valid_market(s: int, k: int, dt: int, r: int, sigma: int, n: nat) -> bool {
    &&& 0 < s <= MAX_RAW
    &&& 0 < k <= MAX_RAW
    &&& 0 <= dt <= MAX_RAW
    &&& fits(r)
    &&& 0 < sigma <= MAX_RAW
    &&& 1 <= n <= STEP_LIMIT
}

/// The exponent of the up factor: volatility times the root of the time step.
pub open spec fn up_exponent(sigma: int, dt: int) -> int {
    mul_floor(sigma, root_raw(dt))
}

/// The factor of an up move.
pub open spec fn up_factor(sigma: int, dt: int) -> int {
    exp_raw(up_exponent(sigma, dt))
}

/// The factor of a down move: the reciprocal of the up factor.
pub open spec fn down_factor(sigma: int, dt: int) -> int {
    div_floor(SCALE as int, up_factor(sigma, dt))
}

/// What a unit of money grows to over one time step.
pub open spec fn growth_factor(r: int, dt: int) -> int {
    exp_raw(mul_raw(r, dt))
}

/// What a unit of money one time step ahead is worth now.
pub open spec fn discount_factor(r: int, dt: int) -> int {
    exp_raw(-mul_raw(r, dt))
}

/// The risk-neutral probability of an up move.
pub open spec fn up_probability(r: int, sigma: int, dt: int) -> int {
    div_floor(
        growth_factor(r, dt) - down_factor(sigma, dt),
        up_factor(sigma, dt) - down_factor(sigma, dt),
    )
}

/// The parameters of the lattice can be derived within the range, the up factor exceeds
/// the down factor, and the growth factor lies between the two, so that the risk-neutral
/// probability lies in [0, 1].
pub open spec fn derivable(r: int, sigma: int, dt: int) -> bool {
    &&& dt < ROOT_LIMIT
    &&& up_exponent(sigma, dt) <= MAX_RAW
    &&& up_factor(sigma, dt) <= MAX_RAW
    &&& down_factor(sigma, dt) < up_factor(sigma, dt)
    &&& fits(mul_raw(r, dt))
    &&& growth_factor(r, dt) <= MAX_RAW
    &&& discount_factor(r, dt) <= MAX_RAW
    &&& down_factor(sigma, dt) <= growth_factor(r, dt) <= up_factor(sigma, dt)
}

/// The lattice that a request describes.
pub open spec fn lattice_for(
    s: int,
    k: int,
    dt: int,
    r: int,
    sigma: int,
    cp: OptionType,
    n: nat,
) -> LatticeModel {
    LatticeModel {
        spot: s,
        strike: k,
        up: up_factor(sigma, dt),
        down: down_factor(sigma, dt),
        prob: up_probability(r, sigma, dt),
        discount: discount_factor(r, dt),
        kind: cp,
        steps: n,
    }
}

/// The price of an American option with time step `dt` and `n` steps; `None` where the
/// request is rejected.
///
/// With no time left the option is worth what exercising pays now.
pub open spec fn price_of(
    s: int,
    k: int,
    dt: int,
    r: int,
    sigma: int,
    cp: OptionType,
    n: nat,
) -> Option<int> {
    if !valid_market(s, k, dt, r, sigma, n) {
        None
    } else if dt == 0 {
        Some(payoff(cp, k, s))
    } else if !derivable(r, sigma, dt) {
        None
    } else if !lattice_for(s, k, dt, r, sigma, cp, n).representable() {
        None
    } else {
        Some(lattice_for(s, k, dt, r, sigma, cp, n).price())
    }
}

/// The years that a duration stands for; `None` where the basis is not positive or the
/// quotient leaves the range.
pub open spec fn years_of(value: int, factor: int) -> Option<int> {
    if factor > 0 && fits(div_raw(value, factor)) {
        Some(div_raw(value, factor))
    } else {
        None
    }
}

/// The price of an American option with `years` to expiry, valued in `n` steps.
pub open spec fn price_at(
    s: int,
    k: int,
    years: int,
    r: int,
    sigma: int,
    cp: OptionType,
    n: nat,
) -> Option<int> {
    if years < 0 || n == 0 {
        None
    } else {
        price_of(s, k, years / (n as int), r, sigma, cp, n)
    }
}

/// The price of an American option whose time to expiry is given as a duration.
pub open spec fn scalar_price(
    s: int,
    k: int,
    value: int,
    factor: int,
    r: int,
    sigma: int,
    cp: OptionType,
    n: nat,
) -> Option<int> {
    match years_of(value, factor) {
        None => None,
        Some(years) => price_at(s, k, years, r, sigma, cp, n),
    }
}

/// A quotient of a part by the whole lies between 0 and 1.
pub proof fn lemma_share_bounds(part: int, whole: int)
    requires
        0 <= part <= whole,
        0 < whole,
    ensures
        0 <= div_floor(part, whole) <= SCALE,
{
    let s = SCALE as int;
    lemma_mul_nonnegative(part, s);
    lemma_div_pos_is_pos(part * s, whole);
    lemma_mul_inequality(part, whole, s);
    lemma_div_is_ordered(part * s, whole * s, whole);
    lemma_mul_is_commutative(whole, s);
    lemma_div_multiples_vanish(s, whole);
}

/// The lattice of a request whose parameters can be derived is consistent.
pub proof fn lemma_lattice_consistent(
    s: int,
    k: int,
    dt: int,
    r: int,
    sigma: int,
    cp: OptionType,
    n: nat,
)
    requires
        valid_market(s, k, dt, r, sigma, n),
        derivable(r, sigma, dt),
    ensures
        lattice_for(s, k, dt, r, sigma, cp, n).consistent(),
{
    let x = up_exponent(sigma, dt);
    lemma_root_nonneg(dt);
    lemma_mul_floor_nonneg(sigma, root_raw(dt));
    lemma_exp_raw_sign(x);
    lemma_reciprocal_at_most_one(up_factor(sigma, dt));
    lemma_exp_raw_sign(-mul_raw(r, dt));
    lemma_share_bounds(
        growth_factor(r, dt) - down_factor(sigma, dt),
        up_factor(sigma, dt) - down_factor(sigma, dt),
    );
}

/// Every word that is not negative has a root, and the root is not negative.
pub proof fn lemma_root_nonneg(x: int)
    requires
        0 <= x,
    ensures
        is_root(x, root_raw(x)),
        0 <= root_raw(x),
{
    lemma_root_exists(x, 0);
}

/// Searching upwards from a number whose square does not exceed `x * SCALE` finds the root.
proof fn lemma_root_exists(x: int, r: int)
    requires
        0 <= x,
        0 <= r,
        r * r <= x * SCALE,
    ensures
        is_root(x, root_raw(x)),
    decreases x * SCALE - r * r,
{
    if x * SCALE < (r + 1) * (r + 1) {
        assert(is_root(x, r));
    } else {
        assert((r + 1) * (r + 1) > r * r) by (nonlinear_arith)
            requires
                0 <= r,
        ;
        lemma_root_exists(x, r + 1);
    }
}

} // verus!
