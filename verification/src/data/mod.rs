//! What a user declares: providers, accounts and exchange-rate facts, and the
//! ways in which a declaration can be wrong.

pub mod account;
pub mod date;
pub mod provider;
pub mod user_data_deserializer;

pub use self::account::AccountDefinition;
pub use self::date::Date;
pub use self::provider::Provider;

use self::account::AccountView;
use self::provider::{providers_view, ProviderView};
use crate::facts::{Facts, FactsView};
use vstd::prelude::*;

verus! {

/// A user's data as a mathematical value.
pub struct UserDataView {
    pub providers: Seq<ProviderView>,
    pub fact_extensions: Option<FactsView>,
    pub accounts: Option<Seq<AccountView>>,
}

/// Everything a user declared, with each account tied to its provider.
#[derive(Debug)]
pub struct UserData {
    pub providers: Vec<Provider>,
    /// The user's own exchange rates, which take precedence over the reference
    /// table.
    pub fact_extensions: Option<Facts>,
    pub accounts: Option<Vec<AccountDefinition>>,
}

/// The views of the accounts of `v`, in order.
pub open spec fn accounts_view(v: Seq<AccountDefinition>) -> Seq<AccountView> {
    Seq::new(v.len(), |i: int| v[i]@)
}

/// The view of facts that may be absent.
pub open spec fn optional_facts_view(facts: Option<Facts>) -> Option<FactsView> {
    match facts {
        Some(f) => Some(f@),
        None => None,
    }
}

/// The view of accounts that may be absent.
pub open spec fn optional_accounts_view(accounts: Option<Vec<AccountDefinition>>) -> Option<
    Seq<AccountView>,
> {
    match accounts {
        Some(a) => Some(accounts_view(a@)),
        None => None,
    }
}

/// The view of providers that may be absent.
pub open spec fn optional_providers_view(providers: Option<Vec<Provider>>) -> Option<
    Seq<ProviderView>,
> {
    match providers {
        Some(p) => Some(providers_view(p@)),
        None => None,
    }
}

impl View for UserData {
    type V = UserDataView;

    open spec fn view(&self) -> UserDataView {
        UserDataView {
            providers: providers_view(self.providers@),
            fact_extensions: optional_facts_view(self.fact_extensions),
            accounts: optional_accounts_view(self.accounts),
        }
    }
}

/// A load error as a mathematical value.
pub enum LoadErrorView {
    MissingProviders,
    AccountsBeforeProviders,
    UnknownProvider { account_handle: Seq<char>, provider_handle: Seq<char> },
}

/// Why a user's data was refused.
#[derive(Debug)]
pub enum LoadError {
    /// The data names no providers at all.
    MissingProviders,
    /// Accounts were given before any providers, so that their references
    /// could not be checked as they came.
    AccountsBeforeProviders,
    /// An account refers to a provider that was not declared.
    UnknownProvider { account_handle: String, provider_handle: String },
}

impl View for LoadError {
    type V = LoadErrorView;

    open spec fn view(&self) -> LoadErrorView {
        match self {
            LoadError::MissingProviders => LoadErrorView::MissingProviders,
            LoadError::AccountsBeforeProviders => LoadErrorView::AccountsBeforeProviders,
            LoadError::UnknownProvider { account_handle, provider_handle } => {
                LoadErrorView::UnknownProvider {
                    account_handle: account_handle@,
                    provider_handle: provider_handle@,
                }
            },
        }
    }
}

/// The text of a load error.
pub open spec fn load_message(e: LoadErrorView) -> Seq<char> {
    match e {
        LoadErrorView::MissingProviders => "missing field `providers`"@,
        LoadErrorView::AccountsBeforeProviders => "accounts must come after providers in YAML"@,
        LoadErrorView::UnknownProvider { account_handle, provider_handle } => "account "@
            + account_handle + " references unknown provider "@ + provider_handle,
    }
}

impl LoadError {
    /// The error in words. An unknown provider is reported with the handle of
    /// the account and the handle it refers to.
    pub fn message(&self) -> (r: String)
        ensures
            r@ == load_message(self@),
    {
        match self {
            LoadError::MissingProviders => "missing field `providers`".to_string(),
            LoadError::AccountsBeforeProviders => {
                "accounts must come after providers in YAML".to_string()
            },
            LoadError::UnknownProvider { account_handle, provider_handle } => {
                let mut out = "account ".to_string();
                out.append(account_handle.as_str());
                out.append(" references unknown provider ");
                out.append(provider_handle.as_str());
                out
            },
        }
    }
}

} // verus!
