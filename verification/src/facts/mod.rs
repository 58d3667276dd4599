//! Exchange-rate facts by year, and the lookup of one rate by year and currency.

pub mod exchange_rate;

pub use self::exchange_rate::ExchangeRate;

use self::exchange_rate::ExchangeRateView;
use crate::text::{lowercase, to_lowercase};
use vstd::prelude::*;

verus! {

/// The facts of one year as a mathematical value.
pub struct AnnualFactView {
    pub year: i32,
    pub exchange_rates: Seq<ExchangeRateView>,
}

/// The facts known for one year.
#[derive(Debug)]
pub struct AnnualFact {
    pub year: i32,
    pub exchange_rates: Vec<ExchangeRate>,
}

/// Facts by year as a mathematical value.
pub struct FactsView {
    pub years: Seq<AnnualFactView>,
}

/// Facts by year, in the order in which they were given. Neither a year nor a
/// currency has to be unique: a lookup takes the first match.
#[derive(Debug)]
pub struct Facts {
    pub years: Vec<AnnualFact>,
}

/// The views of the rates of `v`, in order.
pub open spec fn rates_view(v: Seq<ExchangeRate>) -> Seq<ExchangeRateView> {
    Seq::new(v.len(), |i: int| v[i]@)
}

/// The views of the annual facts of `v`, in order.
pub open spec fn years_view(v: Seq<AnnualFact>) -> Seq<AnnualFactView> {
    Seq::new(v.len(), |i: int| v[i]@)
}

impl View for AnnualFact {
    type V = AnnualFactView;

    open spec fn view(&self) -> AnnualFactView {
        AnnualFactView { year: self.year, exchange_rates: rates_view(self.exchange_rates@) }
    }
}

impl View for Facts {
    type V = FactsView;

    open spec fn view(&self) -> FactsView {
        FactsView { years: years_view(self.years@) }
    }
}

/// Facts without any year.
pub open spec fn no_facts() -> FactsView {
    FactsView { years: Seq::empty() }
}

/// The view of a rate that was found, if one was.
pub open spec fn found_rate(found: Option<&ExchangeRate>) -> Option<ExchangeRateView> {
    match found {
        Some(rate) => Some(rate@),
        None => None,
    }
}

/// The view of a year's facts that were found, if any were.
pub open spec fn found_year(found: Option<&AnnualFact>) -> Option<AnnualFactView> {
    match found {
        Some(annual) => Some(annual@),
        None => None,
    }
}

/// The first rate of `rates` for the currency `code`, compared as written.
pub open spec fn first_rate(rates: Seq<ExchangeRateView>, code: Seq<char>) -> Option<
    ExchangeRateView,
>
    decreases rates.len(),
{
    if rates.len() == 0 {
        None
    } else if rates[0].currency_code == code {
        Some(rates[0])
    } else {
        first_rate(rates.drop_first(), code)
    }
}

/// The first entry of `years` for the year `year`.
pub open spec fn first_year(years: Seq<AnnualFactView>, year: int) -> Option<AnnualFactView>
    decreases years.len(),
{
    if years.len() == 0 {
        None
    } else if years[0].year == year {
        Some(years[0])
    } else {
        first_year(years.drop_first(), year)
    }
}

/// The rate that a lookup of `(year, code)` finds: the first rate for `code`
/// in the first entry for `year`. Later entries for the same year are not
/// consulted.
pub open spec fn lookup_rate(facts: FactsView, year: int, code: Seq<char>) -> Option<
    ExchangeRateView,
> {
    match first_year(facts.years, year) {
        Some(annual) => first_rate(annual.exchange_rates, code),
        None => None,
    }
}

/// `first_rate` finds a rate exactly when some rate has the code, and then it
/// is the one at the least such index.
pub proof fn lemma_first_rate(rates: Seq<ExchangeRateView>, code: Seq<char>)
    ensures
        first_rate(rates, code) is None <==> forall|i: int|
            0 <= i < rates.len() ==> rates[i].currency_code != code,
        first_rate(rates, code) is Some ==> exists|i: int|
            0 <= i < rates.len() && rates[i] == first_rate(rates, code)->Some_0
                && rates[i].currency_code == code && forall|j: int|
                0 <= j < i ==> rates[j].currency_code != code,
    decreases rates.len(),
{
    if rates.len() == 0 {
    } else if rates[0].currency_code == code {
        assert(rates[0] == first_rate(rates, code)->Some_0);
    } else {
        let rest = rates.drop_first();
        lemma_first_rate(rest, code);
        assert(forall|i: int| 0 <= i < rest.len() ==> rest[i] == rates[i + 1]);
        if first_rate(rest, code) is Some {
            let k = choose|i: int|
                0 <= i < rest.len() && rest[i] == first_rate(rest, code)->Some_0
                    && rest[i].currency_code == code && forall|j: int|
                    0 <= j < i ==> rest[j].currency_code != code;
            assert forall|j: int| 0 <= j < k + 1 implies rates[j].currency_code != code by {
                if j > 0 {
                    assert(rest[j - 1] == rates[j]);
                }
            }
            assert(rates[k + 1] == first_rate(rates, code)->Some_0);
        } else {
            assert forall|i: int| 0 <= i < rates.len() implies rates[i].currency_code
                != code by {
                if i > 0 {
                    assert(rest[i - 1] == rates[i]);
                }
            }
        }
    }
}

/// `first_year` finds an entry exactly when some entry has the year, and then
/// it is the one at the least such index.
pub proof fn lemma_first_year(years: Seq<AnnualFactView>, year: int)
    ensures
        first_year(years, year) is None <==> forall|i: int|
            0 <= i < years.len() ==> years[i].year != year,
        first_year(years, year) is Some ==> exists|i: int|
            0 <= i < years.len() && years[i] == first_year(years, year)->Some_0 && years[i].year
                == year && forall|j: int| 0 <= j < i ==> years[j].year != year,
    decreases years.len(),
{
    if years.len() == 0 {
    } else if years[0].year == year {
        assert(years[0] == first_year(years, year)->Some_0);
    } else {
        let rest = years.drop_first();
        lemma_first_year(rest, year);
        assert(forall|i: int| 0 <= i < rest.len() ==> rest[i] == years[i + 1]);
        if first_year(rest, year) is Some {
            let k = choose|i: int|
                0 <= i < rest.len() && rest[i] == first_year(rest, year)->Some_0 && rest[i].year
                    == year && forall|j: int| 0 <= j < i ==> rest[j].year != year;
            assert forall|j: int| 0 <= j < k + 1 implies years[j].year != year by {
                if j > 0 {
                    assert(rest[j - 1] == years[j]);
                }
            }
            assert(years[k + 1] == first_year(years, year)->Some_0);
        } else {
            assert forall|i: int| 0 <= i < years.len() implies years[i].year != year by {
                if i > 0 {
                    assert(rest[i - 1] == years[i]);
                }
            }
        }
    }
}

/// Skipping a prefix in which no rate has the code does not change the result.
proof fn lemma_first_rate_skip(rates: Seq<ExchangeRateView>, code: Seq<char>, n: int)
    requires
        0 <= n <= rates.len(),
        forall|j: int| 0 <= j < n ==> rates[j].currency_code != code,
    ensures
        first_rate(rates, code) == first_rate(rates.skip(n), code),
    decreases n,
{
    if n == 0 {
        assert(rates.skip(0) =~= rates);
    } else {
        let rest = rates.drop_first();
        assert(forall|j: int| 0 <= j < rest.len() ==> rest[j] == rates[j + 1]);
        lemma_first_rate_skip(rest, code, n - 1);
        assert(rest.skip(n - 1) =~= rates.skip(n));
    }
}

/// Skipping a prefix in which no entry has the year does not change the result.
proof fn lemma_first_year_skip(years: Seq<AnnualFactView>, year: int, n: int)
    requires
        0 <= n <= years.len(),
        forall|j: int| 0 <= j < n ==> years[j].year != year,
    ensures
        first_year(years, year) == first_year(years.skip(n), year),
    decreases n,
{
    if n == 0 {
        assert(years.skip(0) =~= years);
    } else {
        let rest = years.drop_first();
        assert(forall|j: int| 0 <= j < rest.len() ==> rest[j] == years[j + 1]);
        lemma_first_year_skip(rest, year, n - 1);
        assert(rest.skip(n - 1) =~= years.skip(n));
    }
}

impl Clone for AnnualFact {
    fn clone(&self) -> (r: Self)
        ensures
            r@ == self@,
    {
        let mut exchange_rates: Vec<ExchangeRate> = Vec::new();
        let mut i: usize = 0;
        while i < self.exchange_rates.len()
            invariant
                0 <= i <= self.exchange_rates.len(),
                exchange_rates.len() == i,
                forall|j: int| 0 <= j < i ==> exchange_rates[j]@ == self.exchange_rates[j]@,
            decreases self.exchange_rates.len() - i,
        {
            exchange_rates.push(self.exchange_rates[i].clone());
            i += 1;
        }
        assert(rates_view(exchange_rates@) =~= rates_view(self.exchange_rates@));
        AnnualFact { year: self.year, exchange_rates }
    }
}

impl Clone for Facts {
    fn clone(&self) -> (r: Self)
        ensures
            r@ == self@,
    {
        let mut years: Vec<AnnualFact> = Vec::new();
        let mut i: usize = 0;
        while i < self.years.len()
            invariant
                0 <= i <= self.years.len(),
                years.len() == i,
                forall|j: int| 0 <= j < i ==> years[j]@ == self.years[j]@,
            decreases self.years.len() - i,
        {
            years.push(self.years[i].clone());
            i += 1;
        }
        assert(years_view(years@) =~= years_view(self.years@));
        Facts { years }
    }
}

impl AnnualFact {
    /// The first rate of this year whose currency code is `code` as written.
    pub fn find_rate(&self, code: &str) -> (r: Option<&ExchangeRate>)
        ensures
            found_rate(r) == first_rate(self@.exchange_rates, code@),
    {
        let ghost rates = self@.exchange_rates;
        let wanted: String = code.to_owned();
        let mut i: usize = 0;
        while i < self.exchange_rates.len()
            invariant
                0 <= i <= self.exchange_rates.len(),
                rates == self@.exchange_rates,
                wanted@ == code@,
                forall|j: int| 0 <= j < i ==> rates[j].currency_code != code@,
            decreases self.exchange_rates.len() - i,
        {
            let rate = &self.exchange_rates[i];
            if rate.currency_code == wanted {
                proof {
                    lemma_first_rate_skip(rates, code@, i as int);
                    assert(rates.skip(i as int)[0] == rate@);
                }
                return Some(rate);
            }
            i += 1;
        }
        proof {
            lemma_first_rate_skip(rates, code@, i as int);
        }
        None
    }
}

impl Facts {
    /// Facts without any year: what stands in for an override that was not given.
    pub fn empty() -> (r: Self)
        ensures
            r@ == no_facts(),
    {
        let r = Facts { years: Vec::new() };
        assert(r@.years =~= Seq::empty());
        r
    }

    /// The first entry for `year`.
    pub fn find_year(&self, year: i32) -> (r: Option<&AnnualFact>)
        ensures
            found_year(r) == first_year(self@.years, year as int),
    {
        let ghost years = self@.years;
        let mut i: usize = 0;
        while i < self.years.len()
            invariant
                0 <= i <= self.years.len(),
                years == self@.years,
                forall|j: int| 0 <= j < i ==> years[j].year != year,
            decreases self.years.len() - i,
        {
            let annual = &self.years[i];
            if annual.year == year {
                proof {
                    lemma_first_year_skip(years, year as int, i as int);
                    assert(years.skip(i as int)[0] == annual@);
                }
                return Some(annual);
            }
            i += 1;
        }
        proof {
            lemma_first_year_skip(years, year as int, i as int);
        }
        None
    }

    /// Looks up a rate by a currency code that is already in lowercase: the code
    /// is compared as written.
    pub fn lookup(&self, year: i32, normalized_code: &str) -> (r: Option<&ExchangeRate>)
        ensures
            found_rate(r) == lookup_rate(self@, year as int, normalized_code@),
    {
        match self.find_year(year) {
            Some(annual) => annual.find_rate(normalized_code),
            None => None,
        }
    }

    /// Looks up the rate of a currency in a year, whatever the case of the code.
    pub fn get_exchange_rate(&self, year: i32, currency_code: &str) -> (r: Option<&ExchangeRate>)
        ensures
            found_rate(r) == lookup_rate(self@, year as int, lowercase(currency_code@)),
    {
        let lookup_code = to_lowercase(currency_code);
        self.lookup(year, lookup_code.as_str())
    }
}

} // verus!
