//! The spot price less the present value of one discrete future dividend.
use crate::arith::{div_raw, fits, mul_raw, MAX_RAW, SCALE};
use crate::exp::exp_raw;
use crate::fixed::Fixed;
use vstd::prelude::*;

verus! {

/// The number of days in the year by which the time to the dividend is counted.
pub const DIVIDEND_YEAR_DAYS: i64 = 365;

/// The time to the dividend in years.
pub open spec fn dividend_years(days: int) -> int {
    div_raw(days, DIVIDEND_YEAR_DAYS * SCALE)
}

/// What a unit of dividend is worth today.
pub open spec fn dividend_discount(rate: int, days: int) -> int {
    exp_raw(mul_raw(-rate, dividend_years(days)))
}

/// The spot less the dividend discounted to today; `None` where a number leaves the range.
pub open spec fn adjusted_spot(spot: int, dividend: int, days: int, rate: int) -> Option<int> {
    if !fits(dividend_years(days)) || !fits(mul_raw(-rate, dividend_years(days)))
        || dividend_discount(rate, days) > MAX_RAW || !fits(
        mul_raw(dividend, dividend_discount(rate, days)),
    ) || !fits(spot - mul_raw(dividend, dividend_discount(rate, days))) {
        None
    } else {
        Some(spot - mul_raw(dividend, dividend_discount(rate, days)))
    }
}

/// A spot price with one dividend ahead of it.
#[derive(Clone, Copy, Debug)]
pub struct StockPrice {
    pub spot_price: Fixed,
    pub dividend_amout: Fixed,
    pub time_to_dividend_days: Fixed,
    pub rate: Fixed,
}

impl StockPrice {
    /// A spot price with a dividend of `dividend_amout` due in `time_to_dividend_days` days.
    pub fn new(
        spot_price: Fixed,
        dividend_amout: Fixed,
        time_to_dividend_days: Fixed,
        rate: Fixed,
    ) -> (r: StockPrice)
        ensures
            r.spot_price == spot_price,
            r.dividend_amout == dividend_amout,
            r.time_to_dividend_days == time_to_dividend_days,
            r.rate == rate,
    {
        StockPrice { spot_price, dividend_amout, time_to_dividend_days, rate }
    }

    /// The time to the dividend in years; `None` where it leaves the range.
    pub fn to_years(&self) -> (r: Option<Fixed>)
        ensures
            r is Some <==> fits(dividend_years(self.time_to_dividend_days@)),
            r matches Some(y) ==> y@ == dividend_years(self.time_to_dividend_days@),
    {
        let basis = Fixed::from_int(DIVIDEND_YEAR_DAYS);
        self.time_to_dividend_days.div(basis)
    }

    /// The spot less the present value of the dividend; `None` where a number leaves the
    /// range.
    pub fn s_prime(&self) -> (r: Option<Fixed>)
        ensures
            r is Some <==> adjusted_spot(
                self.spot_price@,
                self.dividend_amout@,
                self.time_to_dividend_days@,
                self.rate@,
            ) is Some,
            r matches Some(v) ==> adjusted_spot(
                self.spot_price@,
                self.dividend_amout@,
                self.time_to_dividend_days@,
                self.rate@,
            ) == Some(v@),
    {
        let t = match self.to_years() {
            Some(t) => t,
            None => {
                return None;
            },
        };
        let exponent = match self.rate.neg().mul(t) {
            Some(x) => x,
            None => {
                return None;
            },
        };
        let discount = match exponent.exp() {
            Some(x) => x,
            None => {
                return None;
            },
        };
        let present = match self.dividend_amout.mul(discount) {
            Some(x) => x,
            None => {
                return None;
            },
        };
        self.spot_price.sub(present)
    }
}

} // verus!
