//! The value types of a request and of its answer.
use crate::arith::{div_raw, fits};
use crate::fixed::Fixed;
use crate::pricer_spec::years_of;
use vstd::prelude::*;

verus! {

/// Which side of the strike pays.
#[derive(Clone, Copy, Debug, PartialEq, Eq, Structural)]
pub enum OptionType {
    Call,
    Put,
}

/// How a request ended.
#[derive(Clone, Copy, Debug, PartialEq, Eq, Structural)]
pub enum PriceError {
    /// The request was answered.
    NoError,
    /// The solver stopped before it met its tolerance; the value is its best effort.
    NonConvergence,
    /// The request was rejected; the value is zero.
    BadParams,
}

impl OptionType {
    /// The kind that a numeric flag stands for: 0 for a call, anything else for a put.
    pub fn from_flag(flag: usize) -> (r: OptionType)
        ensures
            r == if flag == 0 {
                OptionType::Call
            } else {
                OptionType::Put
            },
    {
        if flag == 0 {
            OptionType::Call
        } else {
            OptionType::Put
        }
    }
}

impl PriceError {
    /// The number that stands for the error: 0, 1, 2 in the order of the variants.
    pub open spec fn code_of(self) -> usize {
        match self {
            PriceError::NoError => 0,
            PriceError::NonConvergence => 1,
            PriceError::BadParams => 2,
        }
    }

    /// The number that stands for the error.
    pub fn code(self) -> (r: usize)
        ensures
            r == self.code_of(),
    {
        match self {
            PriceError::NoError => 0,
            PriceError::NonConvergence => 1,
            PriceError::BadParams => 2,
        }
    }

    /// The error that a number stands for, if any.
    pub fn from_code(code: usize) -> (r: Option<PriceError>)
        ensures
            r is Some <==> code <= 2,
            r matches Some(e) ==> e.code_of() == code,
    {
        if code == 0 {
            Some(PriceError::NoError)
        } else if code == 1 {
            Some(PriceError::NonConvergence)
        } else if code == 2 {
            Some(PriceError::BadParams)
        } else {
            None
        }
    }

    /// The name of the error: "None", "NonConvergence" or "BadParams".
    pub open spec fn name_of(self) -> Seq<char> {
        match self {
            PriceError::NoError => "None"@,
            PriceError::NonConvergence => "NonConvergence"@,
            PriceError::BadParams => "BadParams"@,
        }
    }

    /// The name of the error.
    pub fn name(self) -> (r: &'static str)
        ensures
            r@ == self.name_of(),
    {
        match self {
            PriceError::NoError => "None",
            PriceError::NonConvergence => "NonConvergence",
            PriceError::BadParams => "BadParams",
        }
    }
}

/// A time span: a count of units, and the number of such units in a year (365, 252, ..).
#[derive(Clone, Copy, Debug)]
pub struct TimeDuration {
    pub value: Fixed,
    pub factor: Fixed,
}

impl TimeDuration {
    /// The time span of `value` units, `factor` of which make a year.
    pub fn new(value: Fixed, factor: Fixed) -> (r: TimeDuration)
        ensures
            r.value == value,
            r.factor == factor,
    {
        TimeDuration { value, factor }
    }

    /// The time span in years; `None` where the basis is not positive or the quotient
    /// leaves the range.
    pub fn to_years(&self) -> (r: Option<Fixed>)
        ensures
            r is Some <==> self.factor@ > 0 && fits(div_raw(self.value@, self.factor@)),
            r is Some ==> r->0@ == div_raw(self.value@, self.factor@),
            (r matches Some(y) ==> years_of(self.value@, self.factor@) == Some(y@)),
            r is None ==> years_of(self.value@, self.factor@) is None,
    {
        if self.factor.raw() <= 0 {
            None
        } else {
            self.value.div(self.factor)
        }
    }
}

} // verus!
