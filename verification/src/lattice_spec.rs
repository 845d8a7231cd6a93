//! The recombining binomial lattice, as mathematics over raw fixed-point words.
//!
//! A node is named by its time step `t` and its number of up moves `j`, with
//! `0 <= j <= t <= steps`. The value of an American option at a node is the
//! larger of what exercising pays there and the discounted mean of the values
//! at the two nodes that follow it.
use crate::arith::{
    div_floor, lemma_mul_floor_grows, lemma_mul_floor_monotone, lemma_mul_floor_nonneg,
    lemma_mul_floor_shrinks, lemma_weighted_mean_bounded, mul_floor, MAX_RAW, SCALE,
};
use crate::types::OptionType;
use vstd::arithmetic::div_mod::*;
use vstd::arithmetic::mul::*;
use vstd::prelude::*;

verus! {

/// The larger of two words.
pub open spec fn larger(a: int, b: int) -> int {
    if a >= b {
        a
    } else {
        b
    }
}

/// `b` to the power `n`, each product rounded down.
pub open spec fn pow_fixed(b: int, n: nat) -> int
    decreases n,
{
    if n == 0 {
        SCALE as int
    } else {
        mul_floor(pow_fixed(b, (n - 1) as nat), b)
    }
}

/// A bound on option values `k` steps before expiry, given the bound `bound` on what
/// exercising pays: discounting by more than 1 can enlarge a value at each step.
pub open spec fn grown(bound: int, discount: int, k: nat) -> int
    decreases k,
{
    if k == 0 {
        bound
    } else {
        larger(bound, mul_floor(discount, grown(bound, discount, (k - 1) as nat)))
    }
}

/// What exercising an option pays when the underlying stands at `s`.
pub open spec fn payoff(kind: OptionType, strike: int, s: int) -> int {
    match kind {
        OptionType::Call => larger(s - strike, 0),
        OptionType::Put => larger(strike - s, 0),
    }
}

/// The parameters of a lattice, as raw words.
pub struct LatticeModel {
    pub spot: int,
    pub strike: int,
    /// The factor of an up move.
    pub up: int,
    /// The factor of a down move.
    pub down: int,
    /// The risk-neutral probability of an up move.
    pub prob: int,
    /// The discount factor of one step.
    pub discount: int,
    pub kind: OptionType,
    pub steps: nat,
}

impl LatticeModel {
    /// The factor between neighbouring nodes at expiry.
    pub open spec fn ratio(self) -> int {
        div_floor(self.down, self.up)
    }

    /// The spot after `j` up moves and no down move.
    pub open spec fn lifted(self, j: nat) -> int {
        mul_floor(self.spot, pow_fixed(self.up, j))
    }

    /// The highest price of the underlying in the lattice.
    pub open spec fn top(self) -> int {
        self.lifted(self.steps)
    }

    /// The price of the underlying at expiry after `i` up moves: the top node for
    /// `i == steps`, and each node below it the node above times `ratio`.
    pub open spec fn terminal_spot(self, i: nat) -> int
        decreases self.steps - i,
    {
        if i >= self.steps {
            self.top()
        } else {
            mul_floor(self.terminal_spot(i + 1), self.ratio())
        }
    }

    /// The price of the underlying at time step `t` after `j` up moves.
    pub open spec fn node_spot(self, t: nat, j: nat) -> int {
        mul_floor(self.lifted(j), pow_fixed(self.down, (t - j) as nat))
    }

    /// The discounted risk-neutral mean of the values at the two following nodes.
    pub open spec fn continuation(self, lower: int, upper: int) -> int {
        mul_floor(
            self.discount,
            mul_floor(self.prob, upper) + mul_floor(SCALE - self.prob, lower),
        )
    }

    /// The value of the option at time step `t` after `j` up moves.
    pub open spec fn value(self, t: nat, j: nat) -> int
        decreases self.steps - t,
    {
        if t >= self.steps {
            payoff(self.kind, self.strike, self.terminal_spot(j))
        } else {
            larger(
                payoff(self.kind, self.strike, self.node_spot(t, j)),
                self.continuation(self.value(t + 1, j), self.value(t + 1, j + 1)),
            )
        }
    }

    /// The value of the option today.
    pub open spec fn price(self) -> int {
        self.value(0, 0)
    }

    /// A bound on what exercising can pay anywhere in the lattice.
    pub open spec fn ceiling(self) -> int {
        larger(self.top(), self.strike)
    }

    /// The parameters make sense: prices are positive, an up move does not lower the
    /// price, a down move does not raise it, and the probability lies in [0, 1].
    pub open spec fn consistent(self) -> bool {
        &&& 0 < self.spot <= MAX_RAW
        &&& 0 < self.strike <= MAX_RAW
        &&& SCALE <= self.up <= MAX_RAW
        &&& 0 <= self.down <= SCALE
        &&& 0 <= self.prob <= SCALE
        &&& 0 <= self.discount <= MAX_RAW
        &&& 1 <= self.steps
    }

    /// Every number that the lattice holds is within the range: the largest power of the
    /// up factor, the top node, and the bound on the values today.
    pub open spec fn representable(self) -> bool {
        &&& pow_fixed(self.up, self.steps) <= MAX_RAW
        &&& self.top() <= MAX_RAW
        &&& grown(self.ceiling(), self.discount, self.steps) <= MAX_RAW
    }
}

/// Powers of a factor of at least 1 do not fall.
pub proof fn lemma_pow_rises(u: int, i: nat, j: nat)
    requires
        SCALE <= u,
        i <= j,
    ensures
        SCALE <= pow_fixed(u, i) <= pow_fixed(u, j),
    decreases j,
{
    if j == 0 {
    } else if i == j {
        lemma_pow_rises(u, 0, (j - 1) as nat);
        lemma_mul_floor_grows(pow_fixed(u, (j - 1) as nat), u);
    } else {
        lemma_pow_rises(u, i, (j - 1) as nat);
        lemma_mul_floor_grows(pow_fixed(u, (j - 1) as nat), u);
    }
}

/// Powers of a factor between 0 and 1 stay between 0 and 1.
pub proof fn lemma_pow_stays_small(d: int, k: nat)
    requires
        0 <= d <= SCALE,
    ensures
        0 <= pow_fixed(d, k) <= SCALE,
    decreases k,
{
    if k > 0 {
        lemma_pow_stays_small(d, (k - 1) as nat);
        lemma_mul_floor_shrinks(pow_fixed(d, (k - 1) as nat), d);
    }
}

/// The bound on values does not fall as the time to expiry grows.
pub proof fn lemma_grown_rises(bound: int, discount: int, i: nat, j: nat)
    requires
        0 <= bound,
        0 <= discount,
        i <= j,
    ensures
        bound <= grown(bound, discount, i) <= grown(bound, discount, j),
    decreases j, j - i,
{
    if j == 0 {
    } else if i == j {
        lemma_grown_rises(bound, discount, 0, (j - 1) as nat);
    } else if i == 0 {
        lemma_grown_rises(bound, discount, 0, (j - 1) as nat);
    } else {
        // grown(i) = larger(bound, discount * grown(i - 1)), and likewise grown(j)
        lemma_grown_rises(bound, discount, (i - 1) as nat, (j - 1) as nat);
        lemma_mul_floor_monotone(
            discount,
            grown(bound, discount, (i - 1) as nat),
            discount,
            grown(bound, discount, (j - 1) as nat),
        );
    }
}

impl LatticeModel {
    /// The factor between neighbouring nodes at expiry lies between 0 and 1.
    pub proof fn lemma_ratio_small(self)
        requires
            self.consistent(),
        ensures
            0 <= self.ratio() <= SCALE,
    {
        let s = SCALE as int;
        lemma_mul_nonnegative(self.down, s);
        lemma_div_pos_is_pos(self.down * s, self.up);
        lemma_mul_upper_bound(self.down, s, s, s);
        lemma_div_is_ordered(self.down * s, s * s, self.up);
        lemma_div_is_ordered_by_denominator(s * s, s, self.up);
        lemma_div_multiples_vanish(s, s);
    }

    /// The spot after `j` up moves lies between the spot and the top node.
    pub proof fn lemma_lifted_bounds(self, j: nat)
        requires
            self.consistent(),
            j <= self.steps,
        ensures
            self.spot <= self.lifted(j) <= self.top(),
    {
        lemma_pow_rises(self.up, j, self.steps);
        lemma_mul_floor_monotone(
            self.spot,
            pow_fixed(self.up, j),
            self.spot,
            pow_fixed(self.up, self.steps),
        );
        lemma_mul_floor_grows(self.spot, pow_fixed(self.up, j));
    }

    /// Every node of the lattice lies between 0 and the top node.
    pub proof fn lemma_node_spot_bounds(self, t: nat, j: nat)
        requires
            self.consistent(),
            j <= t <= self.steps,
        ensures
            0 <= self.node_spot(t, j) <= self.lifted(j) <= self.top(),
    {
        self.lemma_lifted_bounds(j);
        lemma_pow_stays_small(self.down, (t - j) as nat);
        lemma_mul_floor_shrinks(self.lifted(j), pow_fixed(self.down, (t - j) as nat));
    }

    /// Every node at expiry lies between 0 and the top node.
    pub proof fn lemma_terminal_bounds(self, i: nat)
        requires
            self.consistent(),
        ensures
            0 <= self.terminal_spot(i) <= self.top(),
        decreases self.steps - i,
    {
        self.lemma_lifted_bounds(self.steps);
        if i < self.steps {
            self.lemma_terminal_bounds(i + 1);
            self.lemma_ratio_small();
            lemma_mul_floor_shrinks(self.terminal_spot(i + 1), self.ratio());
        }
    }

    /// Exercising pays between 0 and the ceiling at every price up to the top node.
    pub proof fn lemma_payoff_bounds(self, s: int)
        requires
            self.consistent(),
            0 <= s <= self.top(),
        ensures
            0 <= payoff(self.kind, self.strike, s) <= self.ceiling(),
    {
    }

    /// The continuation value lies between 0 and the next bound on values.
    pub proof fn lemma_continuation_bounds(self, lower: int, upper: int, k: nat)
        requires
            self.consistent(),
            0 <= lower <= grown(self.ceiling(), self.discount, k),
            0 <= upper <= grown(self.ceiling(), self.discount, k),
        ensures
            0 <= mul_floor(self.prob, upper),
            0 <= mul_floor(SCALE - self.prob, lower),
            mul_floor(self.prob, upper) + mul_floor(SCALE - self.prob, lower) <= grown(
                self.ceiling(),
                self.discount,
                k,
            ),
            0 <= self.continuation(lower, upper) <= grown(self.ceiling(), self.discount, k + 1),
    {
        let g = grown(self.ceiling(), self.discount, k);
        lemma_weighted_mean_bounded(self.prob, lower, upper, g);
        lemma_mul_floor_nonneg(self.prob, upper);
        lemma_mul_floor_nonneg(SCALE - self.prob, lower);
        let mean = mul_floor(self.prob, upper) + mul_floor(SCALE - self.prob, lower);
        lemma_mul_floor_nonneg(self.discount, mean);
        lemma_mul_floor_monotone(self.discount, mean, self.discount, g);
    }

    /// The value at every node lies between 0 and the bound for its time to expiry.
    pub proof fn lemma_value_bounds(self, t: nat, j: nat)
        requires
            self.consistent(),
            j <= t <= self.steps,
        ensures
            0 <= self.value(t, j) <= grown(
                self.ceiling(),
                self.discount,
                (self.steps - t) as nat,
            ),
        decreases self.steps - t,
    {
        self.lemma_lifted_bounds(self.steps);
        if t >= self.steps {
            self.lemma_terminal_bounds(j);
            self.lemma_payoff_bounds(self.terminal_spot(j));
        } else {
            let k = (self.steps - t - 1) as nat;
            self.lemma_value_bounds(t + 1, j);
            self.lemma_value_bounds(t + 1, j + 1);
            self.lemma_continuation_bounds(self.value(t + 1, j), self.value(t + 1, j + 1), k);
            self.lemma_node_spot_bounds(t, j);
            self.lemma_payoff_bounds(self.node_spot(t, j));
            lemma_grown_rises(self.ceiling(), self.discount, 0, k + 1);
        }
    }

    /// In a lattice whose numbers are within the range, so is the value at every node.
    pub proof fn lemma_value_fits(self, t: nat, j: nat)
        requires
            self.consistent(),
            self.representable(),
            j <= t <= self.steps,
        ensures
            0 <= self.value(t, j) <= MAX_RAW,
    {
        self.lemma_value_bounds(t, j);
        self.lemma_lifted_bounds(self.steps);
        lemma_grown_rises(self.ceiling(), self.discount, (self.steps - t) as nat, self.steps);
    }
}

} // verus!
