//! Accounts, and when they were open.

use crate::data::date::{date_le, is_calendar_date, year_end, year_start, Date};
use crate::data::provider::{Provider, ProviderView};
use vstd::prelude::*;

verus! {

/// An account as a mathematical value.
pub struct AccountView {
    pub handle: Seq<char>,
    pub provider_handle: Seq<char>,
    pub provider: Option<ProviderView>,
    pub currency_code: Seq<char>,
    pub identifier1: Seq<char>,
    pub identifier1_name: Seq<char>,
    pub identifier2: Option<Seq<char>>,
    pub identifier2_name: Option<Seq<char>>,
    pub joint_holder_names: Seq<Seq<char>>,
    pub opening_date: Date,
    pub closing_date: Option<Date>,
}

/// An account held with a provider.
///
/// The account is open from its opening date on. A closing date, where there
/// is one, is the last day on which it is open.
#[derive(Debug)]
pub struct AccountDefinition {
    pub handle: String,
    /// The handle of the provider that holds the account.
    pub provider_handle: String,
    /// A copy of that provider, attached when the account is loaded.
    pub provider: Option<Provider>,
    pub currency_code: String,
    pub identifier1: String,
    pub identifier1_name: String,
    pub identifier2: Option<String>,
    pub identifier2_name: Option<String>,
    /// The other holders of the account: none for an account held alone.
    pub joint_holder_names: Vec<String>,
    pub opening_date: Date,
    pub closing_date: Option<Date>,
}

/// The view of a text that may be absent.
pub open spec fn text_view(text: Option<String>) -> Option<Seq<char>> {
    match text {
        Some(t) => Some(t@),
        None => None,
    }
}

/// The view of a provider that may be absent.
pub open spec fn attached_view(provider: Option<Provider>) -> Option<ProviderView> {
    match provider {
        Some(p) => Some(p@),
        None => None,
    }
}

/// The views of the texts of `v`, in order.
pub open spec fn texts_view(v: Seq<String>) -> Seq<Seq<char>> {
    Seq::new(v.len(), |i: int| v[i]@)
}

impl View for AccountDefinition {
    type V = AccountView;

    open spec fn view(&self) -> AccountView {
        AccountView {
            handle: self.handle@,
            provider_handle: self.provider_handle@,
            provider: attached_view(self.provider),
            currency_code: self.currency_code@,
            identifier1: self.identifier1@,
            identifier1_name: self.identifier1_name@,
            identifier2: text_view(self.identifier2),
            identifier2_name: text_view(self.identifier2_name),
            joint_holder_names: texts_view(self.joint_holder_names@),
            opening_date: self.opening_date,
            closing_date: self.closing_date,
        }
    }
}

impl AccountView {
    /// The account has more than one holder.
    pub open spec fn is_joint(self) -> bool {
        self.joint_holder_names.len() > 0
    }

    /// The account is open on `date`: not before its opening date, and not
    /// after its closing date where it has one.
    pub open spec fn open_on(self, date: Date) -> bool {
        date_le(self.opening_date, date) && match self.closing_date {
            Some(closing) => date_le(date, closing),
            None => true,
        }
    }

    /// The account is open at some time of `year`: it opens by the last day of
    /// the year and does not close before the first.
    pub open spec fn open_during(self, year: i32) -> bool {
        date_le(self.opening_date, year_end(year)) && match self.closing_date {
            Some(closing) => date_le(year_start(year), closing),
            None => true,
        }
    }

    /// The dates of the account are days of the calendar, and it does not close
    /// before it opens.
    pub open spec fn dates_in_order(self) -> bool {
        &&& is_calendar_date(
            self.opening_date.year as int,
            self.opening_date.month as int,
            self.opening_date.day as int,
        )
        &&& match self.closing_date {
            Some(closing) => is_calendar_date(
                closing.year as int,
                closing.month as int,
                closing.day as int,
            ) && date_le(self.opening_date, closing),
            None => true,
        }
    }
}

impl AccountDefinition {
    /// Tells whether the account has more than one holder.
    pub fn is_joint(&self) -> (r: bool)
        ensures
            r == self@.is_joint(),
    {
        !self.joint_holder_names.is_empty()
    }

    /// Tells whether the account is open at some time of `year`.
    pub fn open_during(&self, year: i32) -> (r: bool)
        ensures
            r == self@.open_during(year),
    {
        let first = Date { year, month: 1, day: 1 };
        let last = Date { year, month: 12, day: 31 };
        self.opening_date.on_or_before(&last) && match self.closing_date {
            Some(closing) => first.on_or_before(&closing),
            None => true,
        }
    }

    /// Tells whether the account is open on `date`. The closing date itself is
    /// a day on which the account is open.
    pub fn open_on(&self, date: Date) -> (r: bool)
        ensures
            r == self@.open_on(date),
    {
        self.opening_date.on_or_before(&date) && match self.closing_date {
            Some(closing) => date.on_or_before(&closing),
            None => true,
        }
    }
}

/// An account that never closes is open on a day exactly when the day is not
/// before its opening date: on the opening date and on every later day.
pub proof fn lemma_open_without_closing(account: AccountView, date: Date)
    requires
        account.closing_date is None,
    ensures
        account.open_on(date) <==> date_le(account.opening_date, date),
        account.open_on(account.opening_date),
{
}

/// An account that closes is open on its closing date, where it does not close
/// before it opens, and on no day after it.
pub proof fn lemma_open_until_closing(account: AccountView, date: Date)
    requires
        account.closing_date is Some,
    ensures
        date_le(account.opening_date, account.closing_date->Some_0) ==> account.open_on(
            account.closing_date->Some_0,
        ),
        account.open_on(date) ==> date_le(date, account.closing_date->Some_0),
        !date_le(date, account.closing_date->Some_0) ==> !account.open_on(date),
{
}

/// The days on which an account is open form an interval: a day between two
/// such days is one too.
pub proof fn lemma_open_days_form_interval(account: AccountView, a: Date, b: Date, c: Date)
    requires
        account.open_on(a),
        account.open_on(c),
        date_le(a, b),
        date_le(b, c),
    ensures
        account.open_on(b),
{
}

/// An account is open during a year exactly when it is open on some day of
/// that year.
pub proof fn lemma_open_during_is_open_on_some_day(account: AccountView, year: i32)
    requires
        account.dates_in_order(),
    ensures
        account.open_during(year) <==> exists|d: Date|
            d.year == year && is_calendar_date(d.year as int, d.month as int, d.day as int)
                && #[trigger] account.open_on(d),
{
    if account.open_during(year) {
        let d = if date_le(year_start(year), account.opening_date) {
            account.opening_date
        } else {
            year_start(year)
        };
        assert(d.year == year);
        assert(account.open_on(d));
    }
}

/// An account is open during a year exactly when the year is not before the
/// year it opened in and not after the year it closed in.
pub proof fn lemma_open_during_by_years(account: AccountView, year: i32)
    requires
        account.dates_in_order(),
    ensures
        account.open_during(year) <==> account.opening_date.year <= year && (
        account.closing_date is Some ==> year <= account.closing_date->Some_0.year),
{
}

} // verus!
