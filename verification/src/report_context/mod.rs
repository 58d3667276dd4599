//! Resolution of a year's exchange rate over two layers of facts: the user's
//! own, which win, and the reference table.

pub mod converter;

pub use self::converter::{Converter, RateSource};

use self::converter::ConverterView;
use crate::facts::exchange_rate::ExchangeRateView;
use crate::facts::{lookup_rate, no_facts, Facts, FactsView};
use crate::text::{decimal, lowercase, push_decimal, to_lowercase};
use vstd::prelude::*;

verus! {

/// The failure of a resolution as a mathematical value.
pub struct ResolutionErrorView {
    pub currency_code: Seq<char>,
    pub year: i32,
}

/// No layer holds a rate for the currency in the year.
#[derive(Debug)]
pub struct ResolutionError {
    /// The code as the caller wrote it, before any case folding.
    pub currency_code: String,
    pub year: i32,
}

impl View for ResolutionError {
    type V = ResolutionErrorView;

    open spec fn view(&self) -> ResolutionErrorView {
        ResolutionErrorView { currency_code: self.currency_code@, year: self.year }
    }
}

/// The text of a resolution failure.
pub open spec fn resolution_message(e: ResolutionErrorView) -> Seq<char> {
    "No exchange rate found for "@ + e.currency_code + " in year "@ + decimal(e.year as int)
}

impl ResolutionError {
    /// The failure in words, naming the currency code and the year.
    pub fn message(&self) -> (r: String)
        ensures
            r@ == resolution_message(self@),
    {
        let mut out = "No exchange rate found for ".to_string();
        out.append(self.currency_code.as_str());
        out.append(" in year ");
        push_decimal(&mut out, self.year);
        out
    }
}

/// What a resolution over the two layers yields for a code that is already in
/// lowercase: the override's rate where it has one, else the reference's.
pub open spec fn resolve_normalized(
    reference: FactsView,
    overrides: FactsView,
    year: int,
    code: Seq<char>,
) -> Option<ConverterView> {
    match lookup_rate(overrides, year, code) {
        Some(rate) => Some(ConverterView { exchange_rate: rate, source: RateSource::UserProvided }),
        None => match lookup_rate(reference, year, code) {
            Some(rate) => Some(
                ConverterView { exchange_rate: rate, source: RateSource::IrsProvided },
            ),
            None => None,
        },
    }
}

/// The two layers of facts as a mathematical value.
pub struct ReportContextView {
    pub facts: FactsView,
    pub extensions: FactsView,
}

/// The overrides that a context works with: those given, or none at all.
pub open spec fn overrides_or_empty(extensions: Option<Facts>) -> FactsView {
    match extensions {
        Some(given) => given@,
        None => no_facts(),
    }
}

/// What a resolution yields for a code in any case: the code is put in
/// lowercase and looked up in the overrides, then in the reference. Where
/// neither has a rate, the failure names the code as written, and the year.
pub open spec fn resolve(context: ReportContextView, year: i32, code: Seq<char>) -> Result<
    ConverterView,
    ResolutionErrorView,
> {
    match resolve_normalized(context.facts, context.extensions, year as int, lowercase(code)) {
        Some(found) => Ok(found),
        None => Err(ResolutionErrorView { currency_code: code, year }),
    }
}

/// The view of a resolved rate, if there is one.
pub open spec fn resolved(found: Option<Converter>) -> Option<ConverterView> {
    match found {
        Some(c) => Some(c@),
        None => None,
    }
}

/// The view of the outcome of a resolution.
pub open spec fn resolution(outcome: Result<Converter, ResolutionError>) -> Result<
    ConverterView,
    ResolutionErrorView,
> {
    match outcome {
        Ok(c) => Ok(c@),
        Err(e) => Err(e@),
    }
}

/// The reference facts and the user's overrides, ready for lookups.
pub struct ReportContext {
    facts: Facts,
    extensions: Facts,
}

impl View for ReportContext {
    type V = ReportContextView;

    closed spec fn view(&self) -> ReportContextView {
        ReportContextView { facts: self.facts@, extensions: self.extensions@ }
    }
}

impl ReportContext {
    /// Builds the context. Overrides that were not given count as overrides
    /// without any year.
    pub fn new(facts: Facts, extensions: Option<Facts>) -> (r: Self)
        ensures
            r@.facts == facts@,
            r@.extensions == overrides_or_empty(extensions),
    {
        let extensions = match extensions {
            Some(given) => given,
            None => Facts::empty(),
        };
        Self { facts, extensions }
    }

    /// Resolves a rate for a currency code that is already in lowercase.
    pub fn resolve(&self, year: i32, normalized_code: &str) -> (r: Option<Converter>)
        ensures
            resolved(r) == resolve_normalized(
                self@.facts,
                self@.extensions,
                year as int,
                normalized_code@,
            ),
    {
        if let Some(rate) = self.extensions.lookup(year, normalized_code) {
            Some(Converter::new(rate.clone(), RateSource::UserProvided))
        } else if let Some(rate) = self.facts.lookup(year, normalized_code) {
            Some(Converter::new(rate.clone(), RateSource::IrsProvided))
        } else {
            None
        }
    }

    /// Resolves the rate of a currency in a year, whatever the case of the code:
    /// the override's rate where it has one, else the reference's. Where neither
    /// has one, the failure names the code as it was written, and the year.
    pub fn find_exchange_rate(&self, year: i32, currency_code: &str) -> (r: Result<
        Converter,
        ResolutionError,
    >)
        ensures
            resolution(r) == resolve(self@, year, currency_code@),
    {
        let lookup_code = to_lowercase(currency_code);
        match self.resolve(year, lookup_code.as_str()) {
            Some(found) => Ok(found),
            None => Err(ResolutionError { currency_code: currency_code.to_owned(), year }),
        }
    }
}

/// A rate that the overrides hold wins over whatever the reference holds, and
/// is tagged as the user's.
pub proof fn lemma_override_wins(
    reference: FactsView,
    overrides: FactsView,
    year: int,
    code: Seq<char>,
)
    requires
        lookup_rate(overrides, year, code) is Some,
    ensures
        resolve_normalized(reference, overrides, year, code) == Some(
            ConverterView {
                exchange_rate: lookup_rate(overrides, year, code)->Some_0,
                source: RateSource::UserProvided,
            },
        ),
{
}

/// Where the overrides hold no rate, the reference's rate is taken and tagged
/// as the reference's.
pub proof fn lemma_reference_fills_in(
    reference: FactsView,
    overrides: FactsView,
    year: int,
    code: Seq<char>,
)
    requires
        lookup_rate(overrides, year, code) is None,
        lookup_rate(reference, year, code) is Some,
    ensures
        resolve_normalized(reference, overrides, year, code) == Some(
            ConverterView {
                exchange_rate: lookup_rate(reference, year, code)->Some_0,
                source: RateSource::IrsProvided,
            },
        ),
{
}

/// Without overrides every rate is the reference's.
pub proof fn lemma_without_overrides(reference: FactsView, year: int, code: Seq<char>)
    ensures
        lookup_rate(no_facts(), year, code) is None,
        resolve_normalized(reference, no_facts(), year, code) is Some ==> resolve_normalized(
            reference,
            no_facts(),
            year,
            code,
        )->Some_0.source == RateSource::IrsProvided,
        resolve_normalized(reference, no_facts(), year, code) is Some <==> lookup_rate(
            reference,
            year,
            code,
        ) is Some,
{
}

/// A resolution fails exactly when neither layer holds a rate for the code in
/// lowercase, and the failure then names the code as written, and the year.
pub proof fn lemma_resolution_fails(context: ReportContextView, year: i32, code: Seq<char>)
    ensures
        resolve(context, year, code) is Err <==> lookup_rate(
            context.extensions,
            year as int,
            lowercase(code),
        ) is None && lookup_rate(context.facts, year as int, lowercase(code)) is None,
        resolve(context, year, code) is Err ==> resolve(context, year, code)->Err_0 == (
        ResolutionErrorView { currency_code: code, year }),
{
}

} // verus!
