//! The lattice engine: backward induction over a recombining binomial tree.
use crate::arith::{MAX_RAW, SCALE};
use crate::lattice_spec::{
    grown, lemma_grown_rises, lemma_pow_rises, lemma_pow_stays_small, payoff, pow_fixed,
    LatticeModel,
};
use crate::raw_ops::{div_mag, mul_checked, mul_fit};
use crate::types::OptionType;
use vstd::prelude::*;

verus! {

/// The largest number of time steps that the engine takes: 2^20.
pub const STEP_LIMIT: usize = 0x10_0000;

/// What exercising pays at the price `s`.
fn exercise_value(kind: OptionType, strike: i128, s: i128) -> (r: i128)
    requires
        0 <= strike <= MAX_RAW,
        0 <= s <= MAX_RAW,
    ensures
        r == payoff(kind, strike as int, s as int),
        0 <= r <= MAX_RAW,
{
    match kind {
        OptionType::Call => if s > strike {
            s - strike
        } else {
            0
        },
        OptionType::Put => if strike > s {
            strike - s
        } else {
            0
        },
    }
}

/// The powers `b^0, .., b^n`; `None` when one of them leaves the range.
fn power_table(b: i128, n: usize) -> (r: Option<Vec<i128>>)
    requires
        0 <= b <= MAX_RAW,
        n <= STEP_LIMIT,
    ensures
        r is Some <==> (forall|i: nat| i <= n ==> #[trigger] pow_fixed(b as int, i) <= MAX_RAW),
        r is Some ==> r->0@.len() == n + 1,
        r is Some ==> forall|i: int|
            0 <= i <= n ==> 0 <= #[trigger] r->0@[i] <= MAX_RAW && r->0@[i] == pow_fixed(
                b as int,
                i as nat,
            ),
{
    let mut table: Vec<i128> = Vec::new();
    table.push(SCALE);
    let mut cur: i128 = SCALE;
    let mut i: usize = 0;
    while i < n
        invariant
            i <= n <= STEP_LIMIT,
            0 <= b <= MAX_RAW,
            table@.len() == i + 1,
            cur == pow_fixed(b as int, i as nat),
            0 <= cur <= MAX_RAW,
            forall|k: int|
                0 <= k <= i ==> 0 <= #[trigger] table@[k] <= MAX_RAW && table@[k] == pow_fixed(
                    b as int,
                    k as nat,
                ),
        decreases n - i,
    {
        match mul_checked(cur, b) {
            None => {
                assert(pow_fixed(b as int, (i + 1) as nat) > MAX_RAW);
                return None;
            },
            Some(next) => {
                cur = next;
                table.push(cur);
                i = i + 1;
            },
        }
    }
    assert forall|k: nat| k <= n implies #[trigger] pow_fixed(b as int, k) <= MAX_RAW by {
        assert(table@[k as int] == pow_fixed(b as int, k));
    }
    Some(table)
}

/// Whether the bound on values `n` steps before expiry is within the range.
fn bound_fits(ceiling: i128, discount: i128, n: usize) -> (r: bool)
    requires
        0 <= ceiling <= MAX_RAW,
        0 <= discount <= MAX_RAW,
    ensures
        r == (grown(ceiling as int, discount as int, n as nat) <= MAX_RAW),
{
    let mut g: i128 = ceiling;
    let mut k: usize = 0;
    while k < n
        invariant
            k <= n,
            0 <= ceiling <= MAX_RAW,
            0 <= discount <= MAX_RAW,
            g == grown(ceiling as int, discount as int, k as nat),
            0 <= g <= MAX_RAW,
        decreases n - k,
    {
        match mul_checked(discount, g) {
            None => {
                proof {
                    lemma_grown_rises(ceiling as int, discount as int, (k + 1) as nat, n as nat);
                }
                return false;
            },
            Some(x) => {
                g = if x > ceiling {
                    x
                } else {
                    ceiling
                };
                k = k + 1;
            },
        }
    }
    true
}

/// The spot times each power of the up factor.
fn lifted_table(spot: i128, ups: &Vec<i128>, n: usize, Ghost(m): Ghost<LatticeModel>) -> (r: Vec<
    i128,
>)
    requires
        m.consistent(),
        m.representable(),
        m.spot == spot,
        m.steps == n,
        n <= STEP_LIMIT,
        ups@.len() == n + 1,
        forall|i: int|
            0 <= i <= n ==> 0 <= #[trigger] ups@[i] <= MAX_RAW && ups@[i] == pow_fixed(
                m.up,
                i as nat,
            ),
    ensures
        r@.len() == n + 1,
        forall|j: int|
            0 <= j <= n ==> 0 <= #[trigger] r@[j] <= MAX_RAW && r@[j] == m.lifted(j as nat),
{
    let mut table: Vec<i128> = Vec::new();
    let mut j: usize = 0;
    while j <= n
        invariant
            j <= n + 1,
            n <= STEP_LIMIT,
            m.consistent(),
            m.representable(),
            m.spot == spot,
            m.steps == n,
            ups@.len() == n + 1,
            forall|i: int|
                0 <= i <= n ==> 0 <= #[trigger] ups@[i] <= MAX_RAW && ups@[i] == pow_fixed(
                    m.up,
                    i as nat,
                ),
            table@.len() == j,
            forall|i: int|
                0 <= i < j ==> 0 <= #[trigger] table@[i] <= MAX_RAW && table@[i] == m.lifted(
                    i as nat,
                ),
        decreases n + 1 - j,
    {
        proof {
            m.lemma_lifted_bounds(j as nat);
        }
        let x = mul_fit(spot, ups[j]);
        table.push(x);
        j = j + 1;
    }
    table
}

/// What exercising pays at each node at expiry.
fn terminal_values(
    top: i128,
    ratio: i128,
    strike: i128,
    kind: OptionType,
    n: usize,
    Ghost(m): Ghost<LatticeModel>,
) -> (r: Vec<i128>)
    requires
        m.consistent(),
        m.representable(),
        m.steps == n,
        m.strike == strike,
        m.kind == kind,
        top == m.top(),
        ratio == m.ratio(),
        n <= STEP_LIMIT,
    ensures
        r@.len() == n + 1,
        forall|j: int| 0 <= j <= n ==> #[trigger] r@[j] == m.value(n as nat, j as nat),
{
    let mut values: Vec<i128> = Vec::new();
    let mut k: usize = 0;
    while k <= n
        invariant
            k <= n + 1,
            n <= STEP_LIMIT,
            values@.len() == k,
        decreases n + 1 - k,
    {
        values.push(0);
        k = k + 1;
    }
    proof {
        m.lemma_terminal_bounds(n as nat);
        m.lemma_ratio_small();
    }
    let mut s: i128 = top;
    let mut i: usize = n;
    values.set(n, exercise_value(kind, strike, s));
    while i > 0
        invariant
            i <= n,
            m.consistent(),
            m.representable(),
            m.steps == n,
            m.strike == strike,
            m.kind == kind,
            ratio == m.ratio(),
            0 <= ratio <= SCALE,
            s == m.terminal_spot(i as nat),
            0 <= s <= MAX_RAW,
            values@.len() == n + 1,
            forall|j: int| i <= j <= n ==> #[trigger] values@[j] == m.value(n as nat, j as nat),
        decreases i,
    {
        proof {
            m.lemma_terminal_bounds((i - 1) as nat);
        }
        s = mul_fit(s, ratio);
        i = i - 1;
        values.set(i, exercise_value(kind, strike, s));
    }
    values
}

/// Steps back from expiry to today, replacing the values of one time step by those of the
/// step before it, node by node.
fn backward_induction(
    values: Vec<i128>,
    lifts: &Vec<i128>,
    downs: &Vec<i128>,
    strike: i128,
    prob: i128,
    discount: i128,
    kind: OptionType,
    n: usize,
    Ghost(m): Ghost<LatticeModel>,
) -> (r: i128)
    requires
        m.consistent(),
        m.representable(),
        m.steps == n,
        m.strike == strike,
        m.prob == prob,
        m.discount == discount,
        m.kind == kind,
        values@.len() == n + 1,
        lifts@.len() == n + 1,
        downs@.len() == n + 1,
        forall|j: int| 0 <= j <= n ==> #[trigger] values@[j] == m.value(n as nat, j as nat),
        forall|j: int|
            0 <= j <= n ==> 0 <= #[trigger] lifts@[j] <= MAX_RAW && lifts@[j] == m.lifted(
                j as nat,
            ),
        forall|k: int|
            0 <= k <= n ==> 0 <= #[trigger] downs@[k] <= MAX_RAW && downs@[k] == pow_fixed(
                m.down,
                k as nat,
            ),
    ensures
        r == m.price(),
        0 <= r <= MAX_RAW,
{
    let mut values = values;
    let rest = SCALE - prob;
    let mut t: usize = n;
    while t > 0
        invariant
            t <= n,
            m.consistent(),
            m.representable(),
            m.steps == n,
            m.strike == strike,
            m.prob == prob,
            m.discount == discount,
            m.kind == kind,
            rest == SCALE - prob,
            values@.len() == n + 1,
            lifts@.len() == n + 1,
            downs@.len() == n + 1,
            forall|j: int| 0 <= j <= t ==> #[trigger] values@[j] == m.value(t as nat, j as nat),
            forall|j: int|
                0 <= j <= n ==> 0 <= #[trigger] lifts@[j] <= MAX_RAW && lifts@[j] == m.lifted(
                    j as nat,
                ),
            forall|k: int|
                0 <= k <= n ==> 0 <= #[trigger] downs@[k] <= MAX_RAW && downs@[k] == pow_fixed(
                    m.down,
                    k as nat,
                ),
        decreases t,
    {
        let mut j: usize = 0;
        while j < t
            invariant
                j <= t,
                1 <= t <= n,
                m.consistent(),
                m.representable(),
                m.steps == n,
                m.strike == strike,
                m.prob == prob,
                m.discount == discount,
                m.kind == kind,
                rest == SCALE - prob,
                values@.len() == n + 1,
                lifts@.len() == n + 1,
                downs@.len() == n + 1,
                forall|i: int|
                    0 <= i < j ==> #[trigger] values@[i] == m.value((t - 1) as nat, i as nat),
                forall|i: int|
                    j <= i <= t ==> #[trigger] values@[i] == m.value(t as nat, i as nat),
                forall|i: int|
                    0 <= i <= n ==> 0 <= #[trigger] lifts@[i] <= MAX_RAW && lifts@[i] == m.lifted(
                        i as nat,
                    ),
                forall|k: int|
                    0 <= k <= n ==> 0 <= #[trigger] downs@[k] <= MAX_RAW && downs@[k]
                        == pow_fixed(m.down, k as nat),
            decreases t - j,
        {
            let lower = values[j];
            let upper = values[j + 1];
            proof {
                let k = (n - t) as nat;
                m.lemma_value_bounds(t as nat, j as nat);
                m.lemma_value_bounds(t as nat, (j + 1) as nat);
                m.lemma_lifted_bounds(n as nat);
                lemma_grown_rises(m.ceiling(), m.discount, k, n as nat);
                lemma_grown_rises(m.ceiling(), m.discount, k + 1, n as nat);
                m.lemma_continuation_bounds(lower as int, upper as int, k);
                m.lemma_node_spot_bounds((t - 1) as nat, j as nat);
            }
            let mean = mul_fit(prob, upper) + mul_fit(rest, lower);
            let held = mul_fit(discount, mean);
            let node = mul_fit(lifts[j], downs[t - 1 - j]);
            let exercised = exercise_value(kind, strike, node);
            let v = if exercised >= held {
                exercised
            } else {
                held
            };
            values.set(j, v);
            j = j + 1;
        }
        t = t - 1;
    }
    proof {
        m.lemma_value_fits(0, 0);
    }
    values[0]
}

/// The lattice with the given parameters.
pub open spec fn lattice_model(
    spot: int,
    strike: int,
    up: int,
    down: int,
    prob: int,
    discount: int,
    kind: OptionType,
    steps: nat,
) -> LatticeModel {
    LatticeModel { spot, strike, up, down, prob, discount, kind, steps }
}

/// The value today of an American option on the lattice with the given parameters;
/// `None` when a number of the lattice leaves the range.
pub(crate) fn lattice_price(
    spot: i128,
    strike: i128,
    up: i128,
    down: i128,
    prob: i128,
    discount: i128,
    kind: OptionType,
    steps: usize,
) -> (r: Option<i128>)
    requires
        lattice_model(
            spot as int,
            strike as int,
            up as int,
            down as int,
            prob as int,
            discount as int,
            kind,
            steps as nat,
        ).consistent(),
        steps <= STEP_LIMIT,
    ensures
        r is Some <==> lattice_model(
            spot as int,
            strike as int,
            up as int,
            down as int,
            prob as int,
            discount as int,
            kind,
            steps as nat,
        ).representable(),
        r is Some ==> r->0 == lattice_model(
            spot as int,
            strike as int,
            up as int,
            down as int,
            prob as int,
            discount as int,
            kind,
            steps as nat,
        ).price(),
        r is Some ==> 0 <= r->0 <= MAX_RAW,
{
    let ghost m = lattice_model(
        spot as int,
        strike as int,
        up as int,
        down as int,
        prob as int,
        discount as int,
        kind,
        steps as nat,
    );
    let ups = match power_table(up, steps) {
        Some(t) => t,
        None => {
            proof {
                if pow_fixed(m.up, m.steps) <= MAX_RAW {
                    assert forall|i: nat| i <= steps implies #[trigger] pow_fixed(up as int, i)
                        <= MAX_RAW by {
                        lemma_pow_rises(m.up, i, m.steps);
                    }
                }
            }
            return None;
        },
    };
    let top = match mul_checked(spot, ups[steps]) {
        Some(x) => x,
        None => {
            return None;
        },
    };
    let ceiling = if top >= strike {
        top
    } else {
        strike
    };
    if !bound_fits(ceiling, discount, steps) {
        return None;
    }
    proof {
        assert forall|k: nat| k <= steps implies #[trigger] pow_fixed(down as int, k)
            <= MAX_RAW by {
            lemma_pow_stays_small(m.down, k);
        }
        m.lemma_ratio_small();
    }
    let downs = match power_table(down, steps) {
        Some(t) => t,
        None => {
            return None;
        },
    };
    let ratio = match div_mag(down as u128, up as u128) {
        Some(x) => x as i128,
        None => {
            return None;
        },
    };
    let lifts = lifted_table(spot, &ups, steps, Ghost(m));
    let values = terminal_values(top, ratio, strike, kind, steps, Ghost(m));
    let price = backward_induction(
        values,
        &lifts,
        &downs,
        strike,
        prob,
        discount,
        kind,
        steps,
        Ghost(m),
    );
    Some(price)
}

} // verus!
