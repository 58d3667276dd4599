//! A single exchange-rate fact: how many units of a currency one US dollar buys.
//!
//! The rate is a binary64 number. The library carries it as its IEEE 754 bit
//! pattern, so that the rules about sign, zero and NaN are statements about
//! integers; arithmetic on rates is left to the caller.

use crate::text::{lowercase, to_lowercase};
use vstd::prelude::*;

verus! {

/// The bit pattern of the sign bit alone (negative zero).
pub const SIGN_BIT: u64 = 0x8000_0000_0000_0000;

/// The bit pattern of positive infinity: every magnitude above it is a NaN.
pub const INFINITY_BITS: u64 = 0x7FF0_0000_0000_0000;

/// The bit pattern with its sign bit cleared.
pub open spec fn magnitude(bits: u64) -> int {
    if bits >= SIGN_BIT {
        bits - SIGN_BIT
    } else {
        bits as int
    }
}

/// The number is negative or negative zero or a NaN with its sign bit set.
pub open spec fn sign_bit_set(bits: u64) -> bool {
    bits >= SIGN_BIT
}

/// The number is a NaN, which compares neither way with anything.
pub open spec fn is_nan(bits: u64) -> bool {
    magnitude(bits) > INFINITY_BITS
}

/// The number is positive or negative zero.
pub open spec fn is_zero(bits: u64) -> bool {
    magnitude(bits) == 0
}

/// `x <= 0` for the binary64 number `x` with these bits.
pub open spec fn rate_le_zero(bits: u64) -> bool {
    !is_nan(bits) && (is_zero(bits) || sign_bit_set(bits))
}

/// `x > 0` for the binary64 number `x` with these bits.
pub open spec fn rate_gt_zero(bits: u64) -> bool {
    !is_nan(bits) && !is_zero(bits) && !sign_bit_set(bits)
}

/// The text of the error for a rate that is not greater than 0.
pub open spec fn non_positive_rate_message() -> Seq<char> {
    "Exchange rate must be greater than 0"@
}

/// An exchange rate as a mathematical value.
pub struct ExchangeRateView {
    pub currency_code: Seq<char>,
    pub rate_bits: u64,
}

/// What making a rate yields: the rate with its code in lowercase where the
/// rate is `> 0`, and the error text for every other rate: zero, a negative
/// number, or a NaN.
pub open spec fn new_rate(currency_code: Seq<char>, rate_bits: u64) -> Result<
    ExchangeRateView,
    Seq<char>,
> {
    if rate_gt_zero(rate_bits) {
        Ok(ExchangeRateView { currency_code: lowercase(currency_code), rate_bits })
    } else {
        Err(non_positive_rate_message())
    }
}

/// The view of the outcome of making a rate.
pub open spec fn made(outcome: Result<ExchangeRate, String>) -> Result<
    ExchangeRateView,
    Seq<char>,
> {
    match outcome {
        Ok(rate) => Ok(rate@),
        Err(text) => Err(text@),
    }
}

/// The exchange rate of one currency against the US dollar.
#[derive(Debug)]
pub struct ExchangeRate {
    /// The currency code, in lowercase when made by [`ExchangeRate::new`].
    pub currency_code: String,
    /// The IEEE 754 binary64 bit pattern of the rate.
    pub rate_bits: u64,
}

impl ExchangeRateView {
    /// The rate is greater than 0, as every rate that [`ExchangeRate::new`]
    /// makes is.
    pub open spec fn well_formed(self) -> bool {
        rate_gt_zero(self.rate_bits)
    }
}

impl View for ExchangeRate {
    type V = ExchangeRateView;

    open spec fn view(&self) -> ExchangeRateView {
        ExchangeRateView { currency_code: self.currency_code@, rate_bits: self.rate_bits }
    }
}

impl Clone for ExchangeRate {
    fn clone(&self) -> (r: Self)
        ensures
            r@ == self@,
    {
        ExchangeRate { currency_code: self.currency_code.clone(), rate_bits: self.rate_bits }
    }
}

impl ExchangeRate {
    /// Tells whether the number with these bits is `<= 0`.
    pub fn is_le_zero(rate_bits: u64) -> (r: bool)
        ensures
            r == rate_le_zero(rate_bits),
    {
        let abs: u64 = if rate_bits >= SIGN_BIT {
            rate_bits - SIGN_BIT
        } else {
            rate_bits
        };
        abs <= INFINITY_BITS && (abs == 0 || rate_bits >= SIGN_BIT)
    }

    /// Tells whether the number with these bits is `> 0`.
    pub fn is_gt_zero(rate_bits: u64) -> (r: bool)
        ensures
            r == rate_gt_zero(rate_bits),
    {
        0 < rate_bits && rate_bits <= INFINITY_BITS
    }

    /// Makes an exchange rate, with the currency code in lowercase.
    ///
    /// Succeeds exactly when the rate is `> 0`. Zero, a negative number and a
    /// NaN are refused.
    pub fn new(currency_code: String, rate_bits: u64) -> (r: Result<Self, String>)
        ensures
            made(r) == new_rate(currency_code@, rate_bits),
            r is Ok <==> rate_gt_zero(rate_bits),
            rate_le_zero(rate_bits) ==> r is Err,
            is_nan(rate_bits) ==> r is Err,
            r is Ok ==> r->Ok_0@.well_formed(),
    {
        if !Self::is_gt_zero(rate_bits) {
            return Err("Exchange rate must be greater than 0".to_string());
        }
        Ok(ExchangeRate { currency_code: to_lowercase(currency_code.as_str()), rate_bits })
    }
}

/// Every rate is either `<= 0`, `> 0` or a NaN, and exactly one of the three.
pub proof fn lemma_rate_trichotomy(bits: u64)
    ensures
        rate_le_zero(bits) || rate_gt_zero(bits) || is_nan(bits),
        !(rate_le_zero(bits) && rate_gt_zero(bits)),
        !(rate_le_zero(bits) && is_nan(bits)),
        !(rate_gt_zero(bits) && is_nan(bits)),
{
}

} // verus!
