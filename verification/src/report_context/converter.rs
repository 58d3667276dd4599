//! A rate together with where it came from.

use crate::facts::exchange_rate::{ExchangeRate, ExchangeRateView};
use vstd::prelude::*;

verus! {

/// The layer that supplied a rate.
#[derive(Debug, Clone, Copy, PartialEq, Eq, Structural)]
pub enum RateSource {
    /// The user's own facts, which take precedence.
    UserProvided,
    /// The reference table that ships with the program.
    IrsProvided,
}

/// A resolved rate as a mathematical value.
pub struct ConverterView {
    pub exchange_rate: ExchangeRateView,
    pub source: RateSource,
}

/// An exchange rate tagged with the layer that supplied it, so that a report
/// can cite, figure by figure, whose rate it used.
#[derive(Debug)]
pub struct Converter {
    exchange_rate: ExchangeRate,
    source: RateSource,
}

impl View for Converter {
    type V = ConverterView;

    closed spec fn view(&self) -> ConverterView {
        ConverterView { exchange_rate: self.exchange_rate@, source: self.source }
    }
}

impl Converter {
    /// Tags `exchange_rate` with `source`.
    pub fn new(exchange_rate: ExchangeRate, source: RateSource) -> (r: Self)
        ensures
            r@ == (ConverterView { exchange_rate: exchange_rate@, source }),
    {
        Self { exchange_rate, source }
    }

    /// The layer that supplied the rate.
    pub fn source(&self) -> (r: &RateSource)
        ensures
            *r == self@.source,
    {
        &self.source
    }

    /// The rate itself.
    pub fn exchange_rate(&self) -> (r: &ExchangeRate)
        ensures
            r@ == self@.exchange_rate,
    {
        &self.exchange_rate
    }
}

} // verus!
