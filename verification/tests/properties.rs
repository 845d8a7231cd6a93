use mzpricer_core::{
    greeks, greeks_scalar, option_iv_, option_iv_scalar, option_iv_vector, option_price_,
    option_price_scalar, option_price_vector, theta, vega, vega_iv_finder, Fixed, OptionType,
    PriceError, StockPrice, TimeDuration,
};

const ONE: f64 = 281474976710656.0;

fn fx(x: f64) -> Fixed {
    Fixed::from_raw((x * ONE).round() as i128).unwrap()
}

fn fl(x: Fixed) -> f64 {
    x.raw() as f64 / ONE
}

fn fxs(xs: &[f64]) -> Vec<Fixed> {
    xs.iter().map(|x| fx(*x)).collect()
}

fn span(value: f64, factor: f64) -> TimeDuration {
    TimeDuration { value: fx(value), factor: fx(factor) }
}

fn price(s: f64, k: f64, t: &TimeDuration, r: f64, sigma: f64, cp: OptionType, n: usize) -> f64 {
    let (p, e) = option_price_scalar(fx(s), fx(k), t, fx(r), fx(sigma), cp, n);
    assert_eq!(e, PriceError::NoError);
    fl(p)
}

fn rejected(res: (Fixed, PriceError)) -> bool {
    res.0.raw() == 0 && res.1 == PriceError::BadParams
}

#[test]
fn prices_agree_with_the_real_valued_lattice() {
    let year = span(365.0, 365.0);
    assert!((price(100.0, 100.0, &year, 0.05, 0.2, OptionType::Call, 500) - 10.446585136446286)
        .abs() < 1e-7);
    assert!((price(100.0, 100.0, &year, 0.05, 0.2, OptionType::Put, 500) - 6.088810110703037)
        .abs() < 1e-7);
    let half = span(126.0, 252.0);
    assert!((price(100.0, 110.0, &half, 0.03, 0.35, OptionType::Call, 50) - 6.647967561477551)
        .abs() < 1e-7);
    assert!((price(100.0, 110.0, &half, 0.03, 0.35, OptionType::Put, 50) - 15.260397908446905)
        .abs() < 1e-7);
}

#[test]
fn one_step_price_is_the_hand_computed_value() {
    let year = span(365.0, 365.0);
    assert!((price(100.0, 100.0, &year, 0.05, 0.2, OptionType::Call, 1) - 12.162284964623943)
        .abs() < 1e-9);
    assert!((price(100.0, 100.0, &year, 0.05, 0.2, OptionType::Put, 1) - 7.285227414695341)
        .abs() < 1e-9);

    // the same by hand, in the library's own arithmetic: the result must agree to the word
    let one = Fixed::one();
    let (s, k, r, sigma) = (fx(100.0), fx(100.0), fx(0.05), fx(0.2));
    let dt = one;
    let up = sigma.mul(dt.sqrt().unwrap()).unwrap().exp().unwrap();
    let down = one.div(up).unwrap();
    let growth = r.mul(dt).unwrap().exp().unwrap();
    let discount = r.mul(dt).unwrap().neg().exp().unwrap();
    let prob = growth.sub(down).unwrap().div(up.sub(down).unwrap()).unwrap();
    let rest = one.sub(prob).unwrap();
    let high = s.mul(up).unwrap();
    let low = high.mul(down.div(up).unwrap()).unwrap();
    let pay = |x: Fixed| if k.raw() > x.raw() { k.sub(x).unwrap() } else { Fixed::zero() };
    let mean = prob.mul(pay(high)).unwrap().add(rest.mul(pay(low)).unwrap()).unwrap();
    let held = discount.mul(mean).unwrap();
    let by_hand = if pay(s).raw() > held.raw() { pay(s) } else { held };
    let (p, e) = option_price_(s, k, dt, r, sigma, OptionType::Put, 1);
    assert_eq!(e, PriceError::NoError);
    assert_eq!(p.raw(), by_hand.raw());
}

#[test]
fn call_rises_and_put_falls_with_the_spot() {
    let t = span(180.0, 365.0);
    let mut last_call = -1.0;
    let mut last_put = f64::MAX;
    for i in 0..40 {
        let s = 60.0 + 2.0 * i as f64;
        let c = price(s, 100.0, &t, 0.04, 0.3, OptionType::Call, 60);
        let p = price(s, 100.0, &t, 0.04, 0.3, OptionType::Put, 60);
        assert!(c >= last_call);
        assert!(p <= last_put);
        last_call = c;
        last_put = p;
    }
}

#[test]
fn price_is_never_below_what_exercising_pays() {
    let t = span(90.0, 365.0);
    for i in 0..20 {
        let s = 50.0 + 5.0 * i as f64;
        let c = price(s, 100.0, &t, 0.08, 0.25, OptionType::Call, 40);
        let p = price(s, 100.0, &t, 0.08, 0.25, OptionType::Put, 40);
        assert!(c >= 0.0 && c >= s - 100.0);
        assert!(p >= 0.0 && p >= 100.0 - s);
    }
}

#[test]
fn no_time_left_pays_the_exercise_value() {
    let now = span(0.0, 365.0);
    assert_eq!(price(120.0, 100.0, &now, 0.05, 0.2, OptionType::Call, 10), 20.0);
    assert_eq!(price(120.0, 100.0, &now, 0.05, 0.2, OptionType::Put, 10), 0.0);
    assert_eq!(price(80.0, 100.0, &now, 0.05, 0.2, OptionType::Put, 10), 20.0);
}

#[test]
fn bad_market_data_is_rejected() {
    let year = span(365.0, 365.0);
    let call = OptionType::Call;
    let ok = option_price_scalar(fx(100.0), fx(100.0), &year, fx(0.05), fx(0.2), call, 10);
    assert_eq!(ok.1, PriceError::NoError);
    assert!(rejected(option_price_scalar(fx(0.0), fx(100.0), &year, fx(0.05), fx(0.2), call, 10)));
    assert!(rejected(option_price_scalar(fx(-1.0), fx(100.0), &year, fx(0.05), fx(0.2), call, 10)));
    assert!(rejected(option_price_scalar(fx(100.0), fx(0.0), &year, fx(0.05), fx(0.2), call, 10)));
    assert!(rejected(option_price_scalar(fx(100.0), fx(100.0), &year, fx(0.05), fx(0.0), call, 10)));
    assert!(rejected(option_price_scalar(fx(100.0), fx(100.0), &year, fx(0.05), fx(-0.2), call, 10)));
    assert!(rejected(option_price_scalar(fx(100.0), fx(100.0), &year, fx(0.05), fx(0.2), call, 0)));
    let no_basis = span(365.0, 0.0);
    assert!(rejected(option_price_scalar(fx(100.0), fx(100.0), &no_basis, fx(0.05), fx(0.2), call, 10)));
    let negative_basis = span(365.0, -365.0);
    assert!(rejected(option_price_scalar(
        fx(100.0),
        fx(100.0),
        &negative_basis,
        fx(0.05),
        fx(0.2),
        call,
        10
    )));
    let past = span(-10.0, 365.0);
    assert!(rejected(option_price_scalar(fx(100.0), fx(100.0), &past, fx(0.05), fx(0.2), call, 10)));
    assert!(rejected(option_price_scalar(
        fx(100.0),
        fx(100.0),
        &year,
        fx(0.05),
        fx(0.2),
        call,
        (1 << 20) + 1
    )));
}

#[test]
fn inconsistent_lattice_is_rejected() {
    let year = span(365.0, 365.0);
    // growth per step far below the down factor: the probability would be negative
    assert!(rejected(option_price_scalar(
        fx(100.0),
        fx(100.0),
        &year,
        fx(-5.0),
        fx(0.01),
        OptionType::Put,
        10
    )));
    // growth per step above the up factor: the probability would exceed one
    assert!(rejected(option_price_scalar(
        fx(100.0),
        fx(100.0),
        &year,
        fx(5.0),
        fx(0.01),
        OptionType::Put,
        10
    )));
}

#[test]
fn lattice_beyond_the_range_is_rejected() {
    let year = span(365.0, 365.0);
    assert!(rejected(option_price_scalar(
        fx(100.0),
        fx(100.0),
        &year,
        fx(0.05),
        fx(5.0),
        OptionType::Call,
        2000
    )));
}

#[test]
fn price_batch_with_mismatched_lengths() {
    let s = fxs(&[100.0, 100.0, 100.0]);
    let k = fxs(&[100.0, 100.0]);
    let t = vec![span(365.0, 365.0); 4];
    let r = fxs(&[0.05, 0.05, 0.05]);
    let sigma = fxs(&[0.2, 0.2, 0.2]);
    let cp = vec![OptionType::Call, OptionType::Put, OptionType::Call];
    let (prices, errors) = option_price_vector(&s, &k, &t, &r, &sigma, &cp, 50);
    assert_eq!(prices.len(), 4);
    assert_eq!(errors.len(), 4);
    let year = span(365.0, 365.0);
    assert_eq!(errors[0], PriceError::NoError);
    assert_eq!(errors[1], PriceError::NoError);
    assert_eq!(fl(prices[0]), price(100.0, 100.0, &year, 0.05, 0.2, OptionType::Call, 50));
    assert_eq!(fl(prices[1]), price(100.0, 100.0, &year, 0.05, 0.2, OptionType::Put, 50));
    for i in 2..4 {
        assert_eq!(errors[i], PriceError::BadParams);
        assert_eq!(prices[i].raw(), 0);
    }
    let (none, no_errors) = option_price_vector(&[], &[], &[], &[], &[], &[], 50);
    assert!(none.is_empty() && no_errors.is_empty());
}

#[test]
fn one_bad_element_leaves_its_siblings_alone() {
    let s = fxs(&[100.0, -100.0, 100.0]);
    let k = fxs(&[100.0, 100.0, 100.0]);
    let t = vec![span(365.0, 365.0); 3];
    let r = fxs(&[0.05, 0.05, 0.05]);
    let sigma = fxs(&[0.2, 0.2, 0.2]);
    let cp = vec![OptionType::Call; 3];
    let (prices, errors) = option_price_vector(&s, &k, &t, &r, &sigma, &cp, 50);
    assert_eq!(errors, vec![PriceError::NoError, PriceError::BadParams, PriceError::NoError]);
    assert_eq!(prices[0], prices[2]);
    assert!(prices[0].raw() > 0);
    assert_eq!(prices[1].raw(), 0);
}

#[test]
fn implied_volatility_batch_with_mismatched_lengths() {
    let year = span(365.0, 365.0);
    let target = option_price_scalar(fx(100.0), fx(100.0), &year, fx(0.05), fx(0.2), OptionType::Call, 50).0;
    let px = vec![target];
    let s = fxs(&[100.0, 100.0]);
    let k = fxs(&[100.0, 100.0]);
    let t = vec![year, year];
    let r = fxs(&[0.05, 0.05]);
    let guess = fxs(&[0.4, 0.4]);
    let cp = vec![OptionType::Call, OptionType::Call];
    let (ivs, errors) = option_iv_vector(&px, &s, &k, &t, &r, &guess, &cp, 50);
    assert_eq!(ivs.len(), 2);
    assert_eq!(errors, vec![PriceError::NoError, PriceError::BadParams]);
    assert!((fl(ivs[0]) - 0.2).abs() < 0.002);
    assert_eq!(ivs[1].raw(), 0);
}

#[test]
fn greeks_batch_with_mismatched_lengths() {
    let s = fxs(&[100.0]);
    let k = fxs(&[100.0, 100.0]);
    let t = vec![span(365.0, 365.0); 2];
    let r = fxs(&[0.05, 0.05]);
    let sigma = fxs(&[0.2, 0.2]);
    let cp = vec![OptionType::Call, OptionType::Put];
    let (results, errors) = greeks(&s, &k, &t, &r, &sigma, &cp, 20);
    assert_eq!(results.len(), 2);
    assert_eq!(errors, vec![PriceError::NoError, PriceError::BadParams]);
    assert!(results[0].delta.raw() > 0);
    assert_eq!(results[1].delta.raw(), 0);
    assert_eq!(results[1].gamma.raw(), 0);
    assert_eq!(results[1].vega.raw(), 0);
    assert_eq!(results[1].theta.raw(), 0);
}

#[test]
fn implied_volatility_round_trip() {
    let year = span(365.0, 365.0);
    for (cp, k) in [(OptionType::Call, 100.0), (OptionType::Put, 110.0)] {
        let (target, _) = option_price_scalar(fx(100.0), fx(k), &year, fx(0.05), fx(0.2), cp, 500);
        let (iv, e) =
            option_iv_scalar(target, fx(100.0), fx(k), &year, fx(0.05), fx(0.4), cp, 500);
        assert_eq!(e, PriceError::NoError);
        assert!((fl(iv) - 0.2).abs() < 0.002);
        // converged means: the price at the answer is within the tolerance of the target
        let (back, _) = option_price_scalar(fx(100.0), fx(k), &year, fx(0.05), iv, cp, 500);
        assert!((fl(back) - fl(target)).abs() < 1e-5);
    }
}

#[test]
fn implied_volatility_uses_five_hundred_steps_by_default() {
    let year = span(365.0, 365.0);
    let (target, _) =
        option_price_scalar(fx(100.0), fx(100.0), &year, fx(0.05), fx(0.2), OptionType::Call, 500);
    let by_default =
        option_iv_(target, fx(100.0), fx(100.0), &year, fx(0.05), fx(0.4), OptionType::Call, None);
    let named = option_iv_(
        target,
        fx(100.0),
        fx(100.0),
        &year,
        fx(0.05),
        fx(0.4),
        OptionType::Call,
        Some(500),
    );
    assert_eq!(by_default, named);
    assert_eq!(by_default.1, PriceError::NoError);
}

#[test]
fn implied_volatility_gives_up_where_the_slope_is_flat() {
    // far out of the money: the price is zero at the guess and on both sides of it
    let t = span(30.0, 365.0);
    let (iv, e) =
        option_iv_scalar(fx(1.0), fx(1.0), fx(1000.0), &t, fx(0.05), fx(0.1), OptionType::Call, 20);
    assert_eq!(e, PriceError::NonConvergence);
    assert_eq!(iv, fx(0.1));
}

#[test]
fn implied_volatility_gives_up_after_a_hundred_steps() {
    // no volatility up to the cap prices this call as high as the target
    let year = span(365.0, 365.0);
    let (iv, e) = option_iv_scalar(
        fx(99.5),
        fx(100.0),
        fx(100.0),
        &year,
        fx(0.05),
        fx(0.4),
        OptionType::Call,
        10,
    );
    assert_eq!(e, PriceError::NonConvergence);
    assert!(fl(iv) >= 0.002 && fl(iv) <= 5.0);
}

#[test]
fn implied_volatility_rejects_bad_input() {
    let year = span(365.0, 365.0);
    let call = OptionType::Call;
    assert!(rejected(option_iv_scalar(fx(0.0), fx(100.0), fx(100.0), &year, fx(0.05), fx(0.4), call, 20)));
    assert!(rejected(option_iv_scalar(fx(-3.0), fx(100.0), fx(100.0), &year, fx(0.05), fx(0.4), call, 20)));
    assert!(rejected(option_iv_scalar(fx(10.0), fx(100.0), fx(100.0), &year, fx(0.05), fx(0.0), call, 20)));
    assert!(rejected(option_iv_scalar(fx(10.0), fx(100.0), fx(100.0), &year, fx(0.05), fx(-0.4), call, 20)));
    assert!(rejected(option_iv_scalar(fx(10.0), fx(-100.0), fx(100.0), &year, fx(0.05), fx(0.4), call, 20)));
    assert!(rejected(option_iv_scalar(fx(10.0), fx(100.0), fx(100.0), &year, fx(0.05), fx(0.4), call, 0)));
    let no_basis = span(365.0, 0.0);
    assert!(rejected(option_iv_scalar(fx(10.0), fx(100.0), fx(100.0), &no_basis, fx(0.05), fx(0.4), call, 20)));
}

#[test]
fn delta_parity_fails_and_vega_parity_holds() {
    let year = span(365.0, 365.0);
    let (c, e1) =
        greeks_scalar(fx(100.0), fx(100.0), &year, fx(0.05), fx(0.2), OptionType::Call, 500);
    let (p, e2) =
        greeks_scalar(fx(100.0), fx(100.0), &year, fx(0.05), fx(0.2), OptionType::Put, 500);
    assert_eq!(e1, PriceError::NoError);
    assert_eq!(e2, PriceError::NoError);
    assert!((fl(c.delta) - fl(p.delta) - 1.0).abs() > 0.001);
    assert!((fl(c.vega) - fl(p.vega)).abs() < 0.0005);
}

#[test]
fn greeks_agree_with_the_real_valued_differences() {
    let year = span(365.0, 365.0);
    let (c, e) =
        greeks_scalar(fx(100.0), fx(100.0), &year, fx(0.05), fx(0.2), OptionType::Call, 200);
    assert_eq!(e, PriceError::NoError);
    assert!((fl(c.delta) - 0.6366712104268757).abs() < 1e-5);
    assert!((fl(c.vega) - 0.37476966770211284).abs() < 1e-6);
    assert!((fl(c.theta) - 6.406158867002025).abs() < 1e-4);
    let (p, e) =
        greeks_scalar(fx(100.0), fx(100.0), &year, fx(0.05), fx(0.2), OptionType::Put, 200);
    assert_eq!(e, PriceError::NoError);
    assert!((fl(p.delta) - -0.41962040950815904).abs() < 1e-5);
    assert!((fl(p.vega) - 0.37457004957803347).abs() < 1e-6);
    assert!((fl(p.theta) - 2.2347338754939594).abs() < 1e-4);
}

#[test]
fn greeks_are_the_stated_differences_of_prices() {
    let year = span(365.0, 365.0);
    let (s, k, r, sigma, cp, n) = (100.0, 95.0, 0.03, 0.25, OptionType::Put, 30);
    let (g, e) = greeks_scalar(fx(s), fx(k), &year, fx(r), fx(sigma), cp, n);
    assert_eq!(e, PriceError::NoError);
    let bump = Fixed::from_raw(281474976711).unwrap();
    let at = |spot: Fixed| option_price_scalar(spot, fx(k), &year, fx(r), fx(sigma), cp, n).0;
    let base = at(fx(s));
    let up = at(fx(s).add(bump).unwrap());
    let down = at(fx(s).sub(bump).unwrap());
    let two_bumps = Fixed::from_raw(2 * 281474976711).unwrap();
    assert_eq!(g.delta, up.sub(down).unwrap().div(two_bumps).unwrap());
    let curve = Fixed::from_raw(up.raw() - 2 * base.raw() + down.raw()).unwrap();
    assert_eq!(g.gamma, curve.div(Fixed::from_raw(281474977).unwrap()).unwrap());
    let (slope, _) = vega_iv_finder(fx(s), fx(k), &year, fx(r), fx(sigma), cp, n, bump);
    assert_eq!(g.vega.raw(), slope.raw() / 100);
    let (th, _) = theta(fx(s), fx(k), &year, fx(r), fx(sigma), cp, n, Some(base));
    assert_eq!(g.theta, th);
}

#[test]
fn vega_is_a_hundredth_of_the_slope() {
    let year = span(365.0, 365.0);
    let bump = fx(0.001);
    let (slope, e1) =
        vega_iv_finder(fx(100.0), fx(100.0), &year, fx(0.05), fx(0.2), OptionType::Call, 50, bump);
    let (v, e2) = vega(fx(100.0), fx(100.0), &year, fx(0.05), fx(0.2), OptionType::Call, 50, bump);
    assert_eq!(e1, PriceError::NoError);
    assert_eq!(e2, PriceError::NoError);
    assert_eq!(v.raw(), slope.raw() / 100);
    let up = price(100.0, 100.0, &year, 0.05, 0.201, OptionType::Call, 50);
    let down = price(100.0, 100.0, &year, 0.05, 0.199, OptionType::Call, 50);
    assert!((fl(slope) - (up - down) / 0.002).abs() < 1e-6);
    // a bump of zero, or one that takes the volatility to zero, has no slope
    assert!(rejected(vega_iv_finder(
        fx(100.0),
        fx(100.0),
        &year,
        fx(0.05),
        fx(0.2),
        OptionType::Call,
        50,
        fx(0.0)
    )));
    assert!(rejected(vega(fx(100.0), fx(100.0), &year, fx(0.05), fx(0.2), OptionType::Call, 50, fx(0.2))));
}

#[test]
fn theta_is_the_change_over_one_more_day_times_the_days_of_a_year() {
    let year = span(365.0, 365.0);
    let later = span(366.0, 365.0);
    let (th, e) = theta(fx(100.0), fx(100.0), &year, fx(0.05), fx(0.2), OptionType::Call, 50, None);
    assert_eq!(e, PriceError::NoError);
    let now = price(100.0, 100.0, &year, 0.05, 0.2, OptionType::Call, 50);
    let then = price(100.0, 100.0, &later, 0.05, 0.2, OptionType::Call, 50);
    assert!((fl(th) - (then - now) * 365.0).abs() < 1e-6);
    assert!(fl(th) > 0.0);
    // a price that the caller supplies takes the place of the base price
    let (shifted, e) = theta(
        fx(100.0),
        fx(100.0),
        &year,
        fx(0.05),
        fx(0.2),
        OptionType::Call,
        50,
        Some(fx(now - 1.0)),
    );
    assert_eq!(e, PriceError::NoError);
    assert!((fl(shifted) - fl(th) - 365.0).abs() < 1e-6);
    assert!(rejected(theta(fx(100.0), fx(100.0), &year, fx(0.05), fx(0.2), OptionType::Call, 0, None)));
}

#[test]
fn dividend_adjusted_spot() {
    let stock = StockPrice {
        spot_price: fx(100.0),
        dividend_amout: fx(2.0),
        time_to_dividend_days: fx(30.0),
        rate: fx(0.05),
    };
    assert!((fl(stock.s_prime().unwrap()) - 98.0082023124716).abs() < 1e-10);
    let none = StockPrice {
        spot_price: fx(100.0),
        dividend_amout: fx(0.0),
        time_to_dividend_days: fx(30.0),
        rate: fx(0.05),
    };
    assert_eq!(none.s_prime().unwrap(), fx(100.0));
    let huge = StockPrice {
        spot_price: fx(100.0),
        dividend_amout: fx(2.0),
        time_to_dividend_days: fx(365000.0),
        rate: fx(-1.0),
    };
    assert!(huge.s_prime().is_none());
}

#[test]
fn duration_in_years() {
    assert_eq!(span(365.0, 365.0).to_years().unwrap(), Fixed::one());
    assert_eq!(span(126.0, 252.0).to_years().unwrap(), fx(0.5));
    assert_eq!(span(-73.0, 365.0).to_years().unwrap(), fx(-0.2));
    assert!(span(1.0, 0.0).to_years().is_none());
    assert!(span(1.0, -252.0).to_years().is_none());
}

#[test]
fn fixed_point_arithmetic() {
    assert_eq!(Fixed::one().raw(), 1 << 48);
    assert_eq!(Fixed::from_int(-3).raw(), -3 * (1 << 48));
    assert_eq!(Fixed::from_ratio(1, 4).unwrap(), fx(0.25));
    assert_eq!(Fixed::from_ratio(-7, 2).unwrap(), fx(-3.5));
    assert!(Fixed::from_ratio(1, 0).is_none());
    assert_eq!(fx(1.5).mul(fx(-2.5)).unwrap(), fx(-3.75));
    assert_eq!(fx(-1.5).mul(fx(-2.5)).unwrap(), fx(3.75));
    assert_eq!(fx(7.0).div(fx(-2.0)).unwrap(), fx(-3.5));
    assert!(fx(7.0).div(fx(0.0)).is_none());
    assert_eq!(fx(1.25).add(fx(2.5)).unwrap(), fx(3.75));
    assert_eq!(fx(1.25).sub(fx(2.5)).unwrap(), fx(-1.25));
    assert_eq!(fx(-1.25).abs(), fx(1.25));
    assert_eq!(fx(1.25).neg(), fx(-1.25));
    assert!(fx(1.0).lt(fx(2.0)) && fx(2.0).le(fx(2.0)) && !fx(2.0).lt(fx(2.0)));
    // rounding is towards zero
    assert_eq!(Fixed::from_raw(1).unwrap().mul(fx(0.5)).unwrap().raw(), 0);
    assert_eq!(Fixed::from_raw(-1).unwrap().mul(fx(0.5)).unwrap().raw(), 0);
    assert_eq!(Fixed::from_raw(3).unwrap().div(fx(2.0)).unwrap().raw(), 1);
    assert_eq!(Fixed::from_raw(-3).unwrap().div(fx(2.0)).unwrap().raw(), -1);
}

#[test]
fn fixed_point_range() {
    let max: i128 = 1 << 120;
    assert!(Fixed::from_raw(max).is_some());
    assert!(Fixed::from_raw(-max).is_some());
    assert!(Fixed::from_raw(max + 1).is_none());
    assert!(Fixed::from_raw(-max - 1).is_none());
    let top = Fixed::from_raw(max).unwrap();
    assert!(top.add(Fixed::from_raw(1).unwrap()).is_none());
    assert!(top.mul(fx(1.5)).is_none());
    assert_eq!(top.mul(Fixed::one()).unwrap(), top);
    assert_eq!(top.div(Fixed::one()).unwrap(), top);
    assert!(top.div(fx(0.5)).is_none());
    assert_eq!(top.div(top).unwrap(), Fixed::one());
    // products of large numbers go through the wide multiplication
    let big = fx(3.0e9);
    assert_eq!(big.mul(big).unwrap(), fx(9.0e18));
    assert_eq!(fx(9.0e18).div(big).unwrap(), big);
    assert!(fx(3.0e11).mul(fx(3.0e11)).is_none());
}

#[test]
fn square_root() {
    assert_eq!(fx(4.0).sqrt().unwrap(), fx(2.0));
    assert_eq!(fx(0.0).sqrt().unwrap(), fx(0.0));
    assert_eq!(fx(0.25).sqrt().unwrap(), fx(0.5));
    assert!((fl(fx(2.0).sqrt().unwrap()) - 1.4142135623730951).abs() < 1e-14);
    let r = fx(2.0).sqrt().unwrap().raw();
    let two = 2i128 << 96;
    assert!(r * r <= two && two < (r + 1) * (r + 1));
    assert!(fx(-1.0).sqrt().is_none());
    assert!(Fixed::from_raw(1 << 79).unwrap().sqrt().is_none());
    assert!(Fixed::from_raw((1 << 79) - 1).unwrap().sqrt().is_some());
}

#[test]
fn exponential() {
    assert_eq!(fx(0.0).exp().unwrap(), Fixed::one());
    assert!((fl(fx(1.0).exp().unwrap()) - 2.718281828459045).abs() < 1e-12);
    assert!((fl(fx(-2.5).exp().unwrap()) - 0.0820849986238988).abs() < 1e-13);
    assert!((fl(fx(10.0).exp().unwrap()) / 22026.465794806718 - 1.0).abs() < 1e-12);
    assert!((fl(fx(0.001).exp().unwrap()) - 1.0010005001667084).abs() < 1e-14);
    assert!(fx(60.0).exp().is_none());
    assert_eq!(fx(-60.0).exp().unwrap().raw(), 0);
}
