//! American option valuation on a binomial lattice, over fixed-point numbers.
//!
//! Prices come from a Cox-Ross-Rubinstein tree with an early-exercise test at every
//! node; implied volatilities from Newton's method on those prices; sensitivities from
//! finite differences of them. Every number is a `Fixed`: a multiple of 2^-48.
pub mod arith;
pub mod batch;
pub mod dividend;
pub mod exp;
pub mod fixed;
pub mod greeks;
pub mod implied_vol;
pub mod lattice;
pub mod lattice_spec;
pub mod laws;
pub mod pricer;
pub mod pricer_spec;
pub mod raw_ops;
pub mod types;

pub use batch::{greeks, option_iv_vector, option_price_vector};
pub use dividend::StockPrice;
pub use fixed::Fixed;
pub use greeks::{greeks_scalar, theta, Greeks};
pub use implied_vol::{option_iv_, option_iv_scalar, vega, vega_iv_finder};
pub use pricer::{option_price_, option_price_scalar};
pub use types::{OptionType, PriceError, TimeDuration};
