use mzpricer_core::{
    greeks, option_iv_vector, option_price_vector, Fixed, OptionType, PriceError, TimeDuration,
};

const ONE: f64 = 281474976710656.0;

fn fx(x: f64) -> Fixed {
    Fixed::from_raw((x * ONE).round() as i128).unwrap()
}

fn fl(x: Fixed) -> f64 {
    x.raw() as f64 / ONE
}

fn fxs(xs: &[f64]) -> Vec<Fixed> {
    xs.iter().map(|x| fx(*x)).collect()
}

fn year() -> TimeDuration {
    TimeDuration { value: fx(365.0), factor: fx(365.0) }
}

#[test]
fn test_vector_pricing() {
    let s = fxs(&[100.0, 100.0]);
    let k = fxs(&[100.0, 100.0]);
    let t = vec![year(), year()];
    let r = fxs(&[0.05, 0.05]);
    let sigma = fxs(&[0.20, 0.20]);
    let cp = vec![OptionType::Call, OptionType::Put];
    let precision = 500;

    let (prices, errors) = option_price_vector(&s, &k, &t, &r, &sigma, &cp, precision);

    assert!(errors.iter().all(|e| matches!(e, PriceError::NoError)));

    println!("Prices: {:?}", prices);
    assert!((fl(prices[0]) - 10.44658514).abs() < 0.10);
    assert!((fl(prices[1]) - 6.088810110703188).abs() < 0.10);
}

#[test]
fn test_vector_iv() {
    let s = fxs(&[100.0, 100.0]);
    let k = fxs(&[100.0, 110.0]);
    let t = vec![year(), year()];
    let r = fxs(&[0.05, 0.05]);
    let sigma = fxs(&[0.20, 0.20]);
    let cp = vec![OptionType::Call, OptionType::Put];
    let precision = 500;

    let (px, _) = option_price_vector(&s, &k, &t, &r, &sigma, &cp, precision);

    let guess = fxs(&[0.40, 0.40]);

    let (ivs, _) = option_iv_vector(&px, &s, &k, &t, &r, &guess, &cp, precision);

    assert!((fl(ivs[0]) - 0.20).abs() < 0.002);
}

#[test]
fn test_delta_and_vega() {
    let s = fxs(&[100.0, 100.0]);
    let k = fxs(&[100.0, 100.0]);
    let t = vec![year(), year()];
    let r = fxs(&[0.05, 0.05]);
    let sigma = fxs(&[0.20, 0.20]);
    let cp = vec![OptionType::Call, OptionType::Put];
    let precision = 2000;

    let (greeks_results, errors) = greeks(&s, &k, &t, &r, &sigma, &cp, precision);
    let call_greeks = &greeks_results[0];
    let put_greeks = &greeks_results[1];

    println!("Call Delta: {}", fl(call_greeks.delta));
    println!("Put Delta: {}", fl(put_greeks.delta));

    assert!(errors.iter().all(|e| matches!(e, PriceError::NoError)));

    assert!(fl(call_greeks.delta) > 0.0 && fl(call_greeks.delta) < 1.0);
    assert!(fl(put_greeks.delta) < 0.0 && fl(put_greeks.delta) > -1.0);

    let delta_sum = fl(call_greeks.delta) - fl(put_greeks.delta);

    assert!(
        (delta_sum - 1.0).abs() > 0.001,
        "Delta sum is too close to 1.0, suggesting European parity: {}",
        delta_sum
    );

    let vega_diff = (fl(call_greeks.vega) - fl(put_greeks.vega)).abs();
    assert!(vega_diff < 0.0005, "Call and Put Vegas differ by more than tolerance: {}", vega_diff);
}
