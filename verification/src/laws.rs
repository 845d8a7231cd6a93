//! What holds of the prices for all requests.
use crate::arith::{
    lemma_mul_floor_monotone, lemma_mul_floor_nonneg, lemma_mul_floor_one, magnitude, mul_floor,
    SCALE,
};
use crate::implied_vol::{
    newton, next_candidate, vega_estimate, TOLERANCE, VEGA_BUMP, VOL_MAX, VOL_MIN,
};
use crate::lattice_spec::{
    larger, lemma_pow_rises, lemma_pow_stays_small, payoff, pow_fixed, LatticeModel,
};
use crate::pricer_spec::{
    lattice_for, lemma_lattice_consistent, price_at, price_of, scalar_price, years_of,
};
use crate::types::{OptionType, PriceError};
use vstd::prelude::*;

verus! {

/// Two lattices that differ in nothing but the spot.
pub open spec fn same_but_spot(a: LatticeModel, b: LatticeModel) -> bool {
    &&& a.strike == b.strike
    &&& a.up == b.up
    &&& a.down == b.down
    &&& a.prob == b.prob
    &&& a.discount == b.discount
    &&& a.kind == b.kind
    &&& a.steps == b.steps
}

/// `x` and `y` are ordered as the prices of an option of kind `kind` are with the spot:
/// a call is worth no less at the higher spot, a put no more.
pub open spec fn ordered_with_spot(kind: OptionType, lower_spot: int, higher_spot: int) -> bool {
    match kind {
        OptionType::Call => lower_spot <= higher_spot,
        OptionType::Put => lower_spot >= higher_spot,
    }
}

/// Every node at expiry stands no lower in the lattice with the higher spot.
proof fn lemma_terminal_monotone(a: LatticeModel, b: LatticeModel, i: nat)
    requires
        a.consistent(),
        b.consistent(),
        same_but_spot(a, b),
        a.spot <= b.spot,
    ensures
        0 <= a.terminal_spot(i) <= b.terminal_spot(i),
    decreases a.steps - i,
{
    a.lemma_ratio_small();
    a.lemma_terminal_bounds(i);
    lemma_pow_rises(a.up, 0, a.steps);
    if i >= a.steps {
        lemma_mul_floor_monotone(
            a.spot,
            pow_fixed(a.up, a.steps),
            b.spot,
            pow_fixed(a.up, a.steps),
        );
    } else {
        lemma_terminal_monotone(a, b, i + 1);
        lemma_mul_floor_monotone(
            a.terminal_spot(i + 1),
            a.ratio(),
            b.terminal_spot(i + 1),
            a.ratio(),
        );
    }
}

/// Every node stands no lower in the lattice with the higher spot.
proof fn lemma_node_monotone(a: LatticeModel, b: LatticeModel, t: nat, j: nat)
    requires
        a.consistent(),
        b.consistent(),
        same_but_spot(a, b),
        a.spot <= b.spot,
        j <= t <= a.steps,
    ensures
        0 <= a.node_spot(t, j) <= b.node_spot(t, j),
{
    lemma_pow_rises(a.up, 0, j);
    lemma_pow_stays_small(a.down, (t - j) as nat);
    lemma_mul_floor_monotone(a.spot, pow_fixed(a.up, j), b.spot, pow_fixed(a.up, j));
    lemma_mul_floor_nonneg(a.spot, pow_fixed(a.up, j));
    lemma_mul_floor_monotone(
        a.lifted(j),
        pow_fixed(a.down, (t - j) as nat),
        b.lifted(j),
        pow_fixed(a.down, (t - j) as nat),
    );
    lemma_mul_floor_nonneg(a.lifted(j), pow_fixed(a.down, (t - j) as nat));
}

/// The continuation value does not fall when the two values after it do not.
proof fn lemma_continuation_monotone(
    m: LatticeModel,
    lower1: int,
    upper1: int,
    lower2: int,
    upper2: int,
)
    requires
        m.consistent(),
        0 <= lower1 <= lower2,
        0 <= upper1 <= upper2,
    ensures
        m.continuation(lower1, upper1) <= m.continuation(lower2, upper2),
{
    lemma_mul_floor_monotone(m.prob, upper1, m.prob, upper2);
    lemma_mul_floor_monotone(SCALE - m.prob, lower1, SCALE - m.prob, lower2);
    lemma_mul_floor_nonneg(m.prob, upper1);
    lemma_mul_floor_nonneg(SCALE - m.prob, lower1);
    lemma_mul_floor_monotone(
        m.discount,
        mul_floor(m.prob, upper1) + mul_floor(SCALE - m.prob, lower1),
        m.discount,
        mul_floor(m.prob, upper2) + mul_floor(SCALE - m.prob, lower2),
    );
}

/// At every node, a call is worth no less in the lattice with the higher spot and a put
/// no more.
pub proof fn lemma_value_monotone(a: LatticeModel, b: LatticeModel, t: nat, j: nat)
    requires
        a.consistent(),
        b.consistent(),
        same_but_spot(a, b),
        a.spot <= b.spot,
        j <= t <= a.steps,
    ensures
        ordered_with_spot(a.kind, a.value(t, j), b.value(t, j)),
    decreases a.steps - t,
{
    if t >= a.steps {
        lemma_terminal_monotone(a, b, j);
    } else {
        lemma_node_monotone(a, b, t, j);
        lemma_value_monotone(a, b, t + 1, j);
        lemma_value_monotone(a, b, t + 1, j + 1);
        a.lemma_value_bounds(t + 1, j);
        a.lemma_value_bounds(t + 1, j + 1);
        b.lemma_value_bounds(t + 1, j);
        b.lemma_value_bounds(t + 1, j + 1);
        match a.kind {
            OptionType::Call => {
                lemma_continuation_monotone(
                    a,
                    a.value(t + 1, j),
                    a.value(t + 1, j + 1),
                    b.value(t + 1, j),
                    b.value(t + 1, j + 1),
                );
            },
            OptionType::Put => {
                lemma_continuation_monotone(
                    a,
                    b.value(t + 1, j),
                    b.value(t + 1, j + 1),
                    a.value(t + 1, j),
                    a.value(t + 1, j + 1),
                );
            },
        }
        assert(a.continuation(b.value(t + 1, j), b.value(t + 1, j + 1)) == b.continuation(
            b.value(t + 1, j),
            b.value(t + 1, j + 1),
        ));
    }
}

/// With strike, rate, volatility, time step and step count fixed, the price of a call
/// does not fall as the spot rises, and the price of a put does not rise: wherever both
/// requests are answered.
pub proof fn law_price_monotone_in_spot(
    s1: int,
    s2: int,
    k: int,
    dt: int,
    r: int,
    sigma: int,
    cp: OptionType,
    n: nat,
)
    requires
        s1 <= s2,
        price_of(s1, k, dt, r, sigma, cp, n) is Some,
        price_of(s2, k, dt, r, sigma, cp, n) is Some,
    ensures
        ordered_with_spot(
            cp,
            price_of(s1, k, dt, r, sigma, cp, n)->0,
            price_of(s2, k, dt, r, sigma, cp, n)->0,
        ),
{
    if dt != 0 {
        lemma_lattice_consistent(s1, k, dt, r, sigma, cp, n);
        lemma_lattice_consistent(s2, k, dt, r, sigma, cp, n);
        lemma_value_monotone(
            lattice_for(s1, k, dt, r, sigma, cp, n),
            lattice_for(s2, k, dt, r, sigma, cp, n),
            0,
            0,
        );
    }
}

/// The same for a time to expiry given as a duration: with strike, rate, volatility,
/// duration and step count fixed, a call is worth no less at the higher spot and a put
/// no more, wherever both requests are answered.
pub proof fn law_scalar_price_monotone_in_spot(
    s1: int,
    s2: int,
    k: int,
    value: int,
    factor: int,
    r: int,
    sigma: int,
    cp: OptionType,
    n: nat,
)
    requires
        s1 <= s2,
        scalar_price(s1, k, value, factor, r, sigma, cp, n) is Some,
        scalar_price(s2, k, value, factor, r, sigma, cp, n) is Some,
    ensures
        ordered_with_spot(
            cp,
            scalar_price(s1, k, value, factor, r, sigma, cp, n)->0,
            scalar_price(s2, k, value, factor, r, sigma, cp, n)->0,
        ),
{
    let years = years_of(value, factor)->0;
    law_price_monotone_in_spot(s1, s2, k, years / (n as int), r, sigma, cp, n);
}

/// The value today on a lattice of one step: the larger of what exercising pays now and
/// the discounted mean of what it pays at the two nodes at expiry.
pub open spec fn single_step_value(m: LatticeModel) -> int {
    larger(
        payoff(m.kind, m.strike, m.spot),
        m.continuation(
            payoff(m.kind, m.strike, mul_floor(mul_floor(m.spot, m.up), m.ratio())),
            payoff(m.kind, m.strike, mul_floor(m.spot, m.up)),
        ),
    )
}

/// On a lattice of one step the price is the one-step backward induction: the upper node
/// at expiry is the spot times the up factor, the lower node is the upper node times the
/// ratio of the down factor to the up factor, and today's node is the spot itself.
pub proof fn law_single_step(m: LatticeModel)
    requires
        m.consistent(),
        m.steps == 1,
    ensures
        m.price() == single_step_value(m),
{
    reveal_with_fuel(pow_fixed, 2);
    lemma_mul_floor_one(m.up);
    lemma_mul_floor_one(m.spot);
    assert(m.value(1, 0) == payoff(m.kind, m.strike, m.terminal_spot(0)));
    assert(m.value(1, 1) == payoff(m.kind, m.strike, m.terminal_spot(1)));
}

/// The price of a request valued in one step, wherever it is answered and time is left:
/// the one-step backward induction on the lattice of the request.
pub proof fn law_single_step_price(
    s: int,
    k: int,
    dt: int,
    r: int,
    sigma: int,
    cp: OptionType,
)
    requires
        dt != 0,
        price_of(s, k, dt, r, sigma, cp, 1) is Some,
    ensures
        price_of(s, k, dt, r, sigma, cp, 1) == Some(
            single_step_value(lattice_for(s, k, dt, r, sigma, cp, 1)),
        ),
{
    lemma_lattice_consistent(s, k, dt, r, sigma, cp, 1);
    law_single_step(lattice_for(s, k, dt, r, sigma, cp, 1));
}

/// Every price is at least what exercising pays now, and never negative.
pub proof fn law_price_at_least_exercise(
    s: int,
    k: int,
    dt: int,
    r: int,
    sigma: int,
    cp: OptionType,
    n: nat,
)
    requires
        price_of(s, k, dt, r, sigma, cp, n) is Some,
    ensures
        price_of(s, k, dt, r, sigma, cp, n)->0 >= payoff(cp, k, s),
        price_of(s, k, dt, r, sigma, cp, n)->0 >= 0,
{
    if dt != 0 {
        let m = lattice_for(s, k, dt, r, sigma, cp, n);
        lemma_lattice_consistent(s, k, dt, r, sigma, cp, n);
        reveal_with_fuel(pow_fixed, 1);
        lemma_mul_floor_one(m.spot);
        m.lemma_value_bounds(0, 0);
    }
}

/// Where the search for an implied volatility ends without an error, the lattice price at
/// the volatility it returns is within the tolerance of the market price.
pub proof fn law_converged_meets_tolerance(
    target: int,
    s: int,
    k: int,
    years: int,
    r: int,
    sigma: int,
    cp: OptionType,
    n: nat,
    budget: nat,
)
    requires
        newton(target, s, k, years, r, sigma, cp, n, budget).1 == PriceError::NoError,
    ensures
        price_at(s, k, years, r, newton(target, s, k, years, r, sigma, cp, n, budget).0, cp, n)
            is Some,
        magnitude(
            price_at(
                s,
                k,
                years,
                r,
                newton(target, s, k, years, r, sigma, cp, n, budget).0,
                cp,
                n,
            )->0 - target,
        ) < TOLERANCE,
    decreases budget,
{
    let p = price_at(s, k, years, r, sigma, cp, n);
    if p is Some && magnitude(p->0 - target) >= TOLERANCE && budget > 0 {
        let v = vega_estimate(s, k, years, r, sigma, cp, n, VEGA_BUMP as int);
        if v is Some {
            law_converged_meets_tolerance(
                target,
                s,
                k,
                years,
                r,
                next_candidate(sigma, p->0 - target, v->0),
                cp,
                n,
                (budget - 1) as nat,
            );
        }
    }
}

/// The search for an implied volatility ends at the guess itself or at a candidate within
/// [`VOL_MIN`, `VOL_MAX`]; a rejected search ends at zero.
pub proof fn law_candidate_stays_in_domain(
    target: int,
    s: int,
    k: int,
    years: int,
    r: int,
    sigma: int,
    cp: OptionType,
    n: nat,
    budget: nat,
)
    ensures
        ({
            let end = newton(target, s, k, years, r, sigma, cp, n, budget);
            if end.1 == PriceError::BadParams {
                end.0 == 0
            } else {
                end.0 == sigma || VOL_MIN <= end.0 <= VOL_MAX
            }
        }),
    decreases budget,
{
    let p = price_at(s, k, years, r, sigma, cp, n);
    if p is Some && magnitude(p->0 - target) >= TOLERANCE && budget > 0 {
        let v = vega_estimate(s, k, years, r, sigma, cp, n, VEGA_BUMP as int);
        if v is Some {
            let next = next_candidate(sigma, p->0 - target, v->0);
            law_candidate_stays_in_domain(target, s, k, years, r, next, cp, n, (budget - 1) as nat);
        }
    }
}

} // verus!
