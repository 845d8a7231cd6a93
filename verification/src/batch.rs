//! Batches: one request per position of parallel sequences, one step count for all.
//!
//! A batch has as many requests as its longest sequence. A request is complete where
//! every sequence has an entry for it, that is below the length of the shortest
//! sequence; it is then answered as the scalar function answers it. A request that lacks
//! an entry is answered with zero and `BadParams`, and no sequence is read at its
//! position.
use crate::fixed::Fixed;
use crate::greeks::{answers_greeks, greeks_scalar, scalar_greeks, Greeks};
use crate::implied_vol::{option_iv_scalar, scalar_implied_vol};
use crate::pricer::{answers, option_price_scalar};
use crate::pricer_spec::scalar_price;
use crate::types::{OptionType, PriceError, TimeDuration};
use vstd::prelude::*;

verus! {

/// The smaller of two lengths.
pub open spec fn least(a: int, b: int) -> int {
    if a <= b {
        a
    } else {
        b
    }
}

/// The larger of two lengths.
pub open spec fn most(a: int, b: int) -> int {
    if a >= b {
        a
    } else {
        b
    }
}

/// The length of the shortest of six sequences: the number of complete requests.
pub open spec fn shortest(a: int, b: int, c: int, d: int, e: int, f: int) -> int {
    least(least(least(a, b), least(c, d)), least(e, f))
}

/// The length of the longest of six sequences: the number of requests.
pub open spec fn longest(a: int, b: int, c: int, d: int, e: int, f: int) -> int {
    most(most(most(a, b), most(c, d)), most(e, f))
}

/// The smaller of two lengths.
fn smaller(a: usize, b: usize) -> (r: usize)
    ensures
        r == least(a as int, b as int),
{
    if a <= b {
        a
    } else {
        b
    }
}

/// The larger of two lengths.
fn larger(a: usize, b: usize) -> (r: usize)
    ensures
        r == most(a as int, b as int),
{
    if a >= b {
        a
    } else {
        b
    }
}

/// The numbers of complete requests and of requests in a batch of six sequences.
fn batch_span(a: usize, b: usize, c: usize, d: usize, e: usize, f: usize) -> (r: (usize, usize))
    ensures
        r.0 == shortest(a as int, b as int, c as int, d as int, e as int, f as int),
        r.1 == longest(a as int, b as int, c as int, d as int, e as int, f as int),
        r.0 <= r.1,
        r.0 <= a && r.0 <= b && r.0 <= c && r.0 <= d && r.0 <= e && r.0 <= f,
{
    (
        smaller(smaller(smaller(a, b), smaller(c, d)), smaller(e, f)),
        larger(larger(larger(a, b), larger(c, d)), larger(e, f)),
    )
}

/// The prices of a batch of options, valued in `precision` steps each.
pub fn option_price_vector(
    s_vec: &[Fixed],
    k_vec: &[Fixed],
    t_vec: &[TimeDuration],
    r_vec: &[Fixed],
    sigma_vec: &[Fixed],
    cp_vec: &[OptionType],
    precision: usize,
) -> (res: (Vec<Fixed>, Vec<PriceError>))
    ensures
        res.0@.len() == res.1@.len(),
        res.0@.len() == longest(
            s_vec@.len() as int,
            k_vec@.len() as int,
            t_vec@.len() as int,
            r_vec@.len() as int,
            sigma_vec@.len() as int,
            cp_vec@.len() as int,
        ),
        forall|i: int|
            0 <= i < shortest(
                s_vec@.len() as int,
                k_vec@.len() as int,
                t_vec@.len() as int,
                r_vec@.len() as int,
                sigma_vec@.len() as int,
                cp_vec@.len() as int,
            ) ==> answers(
                #[trigger] res.0@[i],
                res.1@[i],
                scalar_price(
                    s_vec@[i]@,
                    k_vec@[i]@,
                    t_vec@[i].value@,
                    t_vec@[i].factor@,
                    r_vec@[i]@,
                    sigma_vec@[i]@,
                    cp_vec@[i],
                    precision as nat,
                ),
            ),
        forall|i: int|
            shortest(
                s_vec@.len() as int,
                k_vec@.len() as int,
                t_vec@.len() as int,
                r_vec@.len() as int,
                sigma_vec@.len() as int,
                cp_vec@.len() as int,
            ) <= i < res.0@.len() ==> answers(#[trigger] res.0@[i], res.1@[i], None),
{
    let (complete, total) = batch_span(
        s_vec.len(),
        k_vec.len(),
        t_vec.len(),
        r_vec.len(),
        sigma_vec.len(),
        cp_vec.len(),
    );
    let mut prices: Vec<Fixed> = Vec::new();
    let mut errors: Vec<PriceError> = Vec::new();
    let mut i: usize = 0;
    while i < total
        invariant
            i <= total,
            complete <= total,
            complete <= s_vec@.len(),
            complete <= k_vec@.len(),
            complete <= t_vec@.len(),
            complete <= r_vec@.len(),
            complete <= sigma_vec@.len(),
            complete <= cp_vec@.len(),
            prices@.len() == i,
            errors@.len() == i,
            forall|j: int|
                0 <= j < i && j < complete ==> answers(
                    #[trigger] prices@[j],
                    errors@[j],
                    scalar_price(
                        s_vec@[j]@,
                        k_vec@[j]@,
                        t_vec@[j].value@,
                        t_vec@[j].factor@,
                        r_vec@[j]@,
                        sigma_vec@[j]@,
                        cp_vec@[j],
                        precision as nat,
                    ),
                ),
            forall|j: int|
                complete <= j < i ==> answers(#[trigger] prices@[j], errors@[j], None),
        decreases total - i,
    {
        if i < complete {
            let (p, e) = option_price_scalar(
                s_vec[i],
                k_vec[i],
                &t_vec[i],
                r_vec[i],
                sigma_vec[i],
                cp_vec[i],
                precision,
            );
            prices.push(p);
            errors.push(e);
        } else {
            prices.push(Fixed::zero());
            errors.push(PriceError::BadParams);
        }
        i = i + 1;
    }
    (prices, errors)
}

/// The implied volatilities of a batch of market prices, on lattices of `precision`
/// steps each. Seven sequences run in parallel here; the guesses are in `sigma_vec`.
pub fn option_iv_vector(
    price_vec: &[Fixed],
    s_vec: &[Fixed],
    k_vec: &[Fixed],
    t_vec: &[TimeDuration],
    r_vec: &[Fixed],
    sigma_vec: &[Fixed],
    cp_vec: &[OptionType],
    precision: usize,
) -> (res: (Vec<Fixed>, Vec<PriceError>))
    ensures
        res.0@.len() == res.1@.len(),
        res.0@.len() == most(
            price_vec@.len() as int,
            longest(
                s_vec@.len() as int,
                k_vec@.len() as int,
                t_vec@.len() as int,
                r_vec@.len() as int,
                sigma_vec@.len() as int,
                cp_vec@.len() as int,
            ),
        ),
        forall|i: int|
            0 <= i < least(
                price_vec@.len() as int,
                shortest(
                    s_vec@.len() as int,
                    k_vec@.len() as int,
                    t_vec@.len() as int,
                    r_vec@.len() as int,
                    sigma_vec@.len() as int,
                    cp_vec@.len() as int,
                ),
            ) ==> (#[trigger] res.0@[i])@ == scalar_implied_vol(
                price_vec@[i]@,
                s_vec@[i]@,
                k_vec@[i]@,
                t_vec@[i].value@,
                t_vec@[i].factor@,
                r_vec@[i]@,
                sigma_vec@[i]@,
                cp_vec@[i],
                precision as nat,
            ).0 && res.1@[i] == scalar_implied_vol(
                price_vec@[i]@,
                s_vec@[i]@,
                k_vec@[i]@,
                t_vec@[i].value@,
                t_vec@[i].factor@,
                r_vec@[i]@,
                sigma_vec@[i]@,
                cp_vec@[i],
                precision as nat,
            ).1,
        forall|i: int|
            least(
                price_vec@.len() as int,
                shortest(
                    s_vec@.len() as int,
                    k_vec@.len() as int,
                    t_vec@.len() as int,
                    r_vec@.len() as int,
                    sigma_vec@.len() as int,
                    cp_vec@.len() as int,
                ),
            ) <= i < res.0@.len() ==> answers(#[trigger] res.0@[i], res.1@[i], None),
{
    let (inner_complete, inner_total) = batch_span(
        s_vec.len(),
        k_vec.len(),
        t_vec.len(),
        r_vec.len(),
        sigma_vec.len(),
        cp_vec.len(),
    );
    let complete = smaller(price_vec.len(), inner_complete);
    let total = larger(price_vec.len(), inner_total);
    let mut vols: Vec<Fixed> = Vec::new();
    let mut errors: Vec<PriceError> = Vec::new();
    let mut i: usize = 0;
    while i < total
        invariant
            i <= total,
            complete <= total,
            complete <= price_vec@.len(),
            complete <= s_vec@.len(),
            complete <= k_vec@.len(),
            complete <= t_vec@.len(),
            complete <= r_vec@.len(),
            complete <= sigma_vec@.len(),
            complete <= cp_vec@.len(),
            vols@.len() == i,
            errors@.len() == i,
            forall|j: int|
                0 <= j < i && j < complete ==> (#[trigger] vols@[j])@ == scalar_implied_vol(
                    price_vec@[j]@,
                    s_vec@[j]@,
                    k_vec@[j]@,
                    t_vec@[j].value@,
                    t_vec@[j].factor@,
                    r_vec@[j]@,
                    sigma_vec@[j]@,
                    cp_vec@[j],
                    precision as nat,
                ).0 && errors@[j] == scalar_implied_vol(
                    price_vec@[j]@,
                    s_vec@[j]@,
                    k_vec@[j]@,
                    t_vec@[j].value@,
                    t_vec@[j].factor@,
                    r_vec@[j]@,
                    sigma_vec@[j]@,
                    cp_vec@[j],
                    precision as nat,
                ).1,
            forall|j: int|
                complete <= j < i ==> answers(#[trigger] vols@[j], errors@[j], None),
        decreases total - i,
    {
        if i < complete {
            let (v, e) = option_iv_scalar(
                price_vec[i],
                s_vec[i],
                k_vec[i],
                &t_vec[i],
                r_vec[i],
                sigma_vec[i],
                cp_vec[i],
                precision,
            );
            vols.push(v);
            errors.push(e);
        } else {
            vols.push(Fixed::zero());
            errors.push(PriceError::BadParams);
        }
        i = i + 1;
    }
    (vols, errors)
}

/// The sensitivities of a batch of options, on lattices of `precision` steps each.
pub fn greeks(
    s_vec: &[Fixed],
    k_vec: &[Fixed],
    t_vec: &[TimeDuration],
    r_vec: &[Fixed],
    sigma_vec: &[Fixed],
    cp_vec: &[OptionType],
    precision: usize,
) -> (res: (Vec<Greeks>, Vec<PriceError>))
    ensures
        res.0@.len() == res.1@.len(),
        res.0@.len() == longest(
            s_vec@.len() as int,
            k_vec@.len() as int,
            t_vec@.len() as int,
            r_vec@.len() as int,
            sigma_vec@.len() as int,
            cp_vec@.len() as int,
        ),
        forall|i: int|
            0 <= i < shortest(
                s_vec@.len() as int,
                k_vec@.len() as int,
                t_vec@.len() as int,
                r_vec@.len() as int,
                sigma_vec@.len() as int,
                cp_vec@.len() as int,
            ) ==> answers_greeks(
                #[trigger] res.0@[i],
                res.1@[i],
                scalar_greeks(
                    s_vec@[i]@,
                    k_vec@[i]@,
                    t_vec@[i].value@,
                    t_vec@[i].factor@,
                    r_vec@[i]@,
                    sigma_vec@[i]@,
                    cp_vec@[i],
                    precision as nat,
                ),
            ),
        forall|i: int|
            shortest(
                s_vec@.len() as int,
                k_vec@.len() as int,
                t_vec@.len() as int,
                r_vec@.len() as int,
                sigma_vec@.len() as int,
                cp_vec@.len() as int,
            ) <= i < res.0@.len() ==> answers_greeks(#[trigger] res.0@[i], res.1@[i], None),
{
    let (complete, total) = batch_span(
        s_vec.len(),
        k_vec.len(),
        t_vec.len(),
        r_vec.len(),
        sigma_vec.len(),
        cp_vec.len(),
    );
    let mut results: Vec<Greeks> = Vec::new();
    let mut errors: Vec<PriceError> = Vec::new();
    let mut i: usize = 0;
    while i < total
        invariant
            i <= total,
            complete <= total,
            complete <= s_vec@.len(),
            complete <= k_vec@.len(),
            complete <= t_vec@.len(),
            complete <= r_vec@.len(),
            complete <= sigma_vec@.len(),
            complete <= cp_vec@.len(),
            results@.len() == i,
            errors@.len() == i,
            forall|j: int|
                0 <= j < i && j < complete ==> answers_greeks(
                    #[trigger] results@[j],
                    errors@[j],
                    scalar_greeks(
                        s_vec@[j]@,
                        k_vec@[j]@,
                        t_vec@[j].value@,
                        t_vec@[j].factor@,
                        r_vec@[j]@,
                        sigma_vec@[j]@,
                        cp_vec@[j],
                        precision as nat,
                    ),
                ),
            forall|j: int|
                complete <= j < i ==> answers_greeks(#[trigger] results@[j], errors@[j], None),
        decreases total - i,
    {
        if i < complete {
            let (g, e) = greeks_scalar(
                s_vec[i],
                k_vec[i],
                &t_vec[i],
                r_vec[i],
                sigma_vec[i],
                cp_vec[i],
                precision,
            );
            results.push(g);
            errors.push(e);
        } else {
            let zero = Fixed::zero();
            results.push(Greeks { delta: zero, gamma: zero, vega: zero, theta: zero });
            errors.push(PriceError::BadParams);
        }
        i = i + 1;
    }
    (results, errors)
}

} // verus!
