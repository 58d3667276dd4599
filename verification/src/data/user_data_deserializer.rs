//! Reading a user's data section by section, in the order of the document.
//!
//! The references from accounts to providers are checked as the sections come:
//! accounts are held against the providers read before them. A reader of the
//! document hands each section to a [`UserDataVisitor`] and asks it for the
//! data at the end.

use crate::data::account::{AccountDefinition, AccountView};
use crate::data::provider::{
    find_provider, first_provider, providers_view, Provider, ProviderView,
};
use crate::data::{
    accounts_view, optional_accounts_view, optional_facts_view, optional_providers_view,
    LoadError, LoadErrorView, UserData, UserDataView,
};
use crate::facts::{Facts, FactsView};
use vstd::prelude::*;

verus! {

/// The sections of a user's data.
#[derive(Debug, Clone, Copy, PartialEq, Eq, Structural)]
pub enum Field {
    Providers,
    FactExtensions,
    Accounts,
}

/// The section that a name stands for.
pub open spec fn field_named(name: Seq<char>) -> Option<Field> {
    if name == "providers"@ {
        Some(Field::Providers)
    } else if name == "fact_extensions"@ {
        Some(Field::FactExtensions)
    } else if name == "accounts"@ {
        Some(Field::Accounts)
    } else {
        None
    }
}

impl Field {
    /// The section that `name` stands for, if it names one.
    pub fn from_name(name: &str) -> (r: Option<Field>)
        ensures
            r == field_named(name@),
    {
        let name: String = name.to_owned();
        if name == "providers".to_string() {
            Some(Field::Providers)
        } else if name == "fact_extensions".to_string() {
            Some(Field::FactExtensions)
        } else if name == "accounts".to_string() {
            Some(Field::Accounts)
        } else {
            None
        }
    }
}

/// A section with its content, as a mathematical value.
pub enum EntryView {
    Providers(Seq<ProviderView>),
    FactExtensions(FactsView),
    Accounts(Seq<AccountView>),
}

/// A section of a user's data with its content.
#[derive(Debug)]
pub enum Entry {
    Providers(Vec<Provider>),
    FactExtensions(Facts),
    /// Accounts as written: no provider is attached to them yet.
    Accounts(Vec<AccountDefinition>),
}

impl View for Entry {
    type V = EntryView;

    open spec fn view(&self) -> EntryView {
        match self {
            Entry::Providers(p) => EntryView::Providers(providers_view(p@)),
            Entry::FactExtensions(f) => EntryView::FactExtensions(f@),
            Entry::Accounts(a) => EntryView::Accounts(accounts_view(a@)),
        }
    }
}

impl EntryView {
    /// The section that the entry fills.
    pub open spec fn field(self) -> Field {
        match self {
            EntryView::Providers(_) => Field::Providers,
            EntryView::FactExtensions(_) => Field::FactExtensions,
            EntryView::Accounts(_) => Field::Accounts,
        }
    }
}

/// The views of the entries of `v`, in order.
pub open spec fn entries_view(v: Seq<Entry>) -> Seq<EntryView> {
    Seq::new(v.len(), |i: int| v[i]@)
}

/// The account with the provider that its handle refers to attached: the first
/// of `providers` with that handle, or none.
pub open spec fn attach(providers: Seq<ProviderView>, account: AccountView) -> AccountView {
    AccountView { provider: first_provider(providers, account.provider_handle), ..account }
}

/// The first account that refers to a provider that is not among `providers`.
pub open spec fn first_unknown(providers: Seq<ProviderView>, accounts: Seq<AccountView>) -> Option<
    AccountView,
>
    decreases accounts.len(),
{
    if accounts.len() == 0 {
        None
    } else if first_provider(providers, accounts[0].provider_handle) is None {
        Some(accounts[0])
    } else {
        first_unknown(providers, accounts.drop_first())
    }
}

/// The accounts with their providers attached, or the error for the first
/// account that refers to an unknown provider.
pub open spec fn resolve_accounts(providers: Seq<ProviderView>, accounts: Seq<AccountView>) -> Result<
    Seq<AccountView>,
    LoadErrorView,
> {
    match first_unknown(providers, accounts) {
        Some(account) => Err(
            LoadErrorView::UnknownProvider {
                account_handle: account.handle,
                provider_handle: account.provider_handle,
            },
        ),
        None => Ok(Seq::new(accounts.len(), |i: int| attach(providers, accounts[i]))),
    }
}

/// `first_unknown` finds an account exactly when some account refers to an
/// unknown provider, and then it is the one at the least such index.
pub proof fn lemma_first_unknown(providers: Seq<ProviderView>, accounts: Seq<AccountView>)
    ensures
        first_unknown(providers, accounts) is None <==> forall|i: int|
            0 <= i < accounts.len() ==> first_provider(
                providers,
                #[trigger] accounts[i].provider_handle,
            ) is Some,
        first_unknown(providers, accounts) is Some ==> exists|i: int|
            0 <= i < accounts.len() && #[trigger] accounts[i] == first_unknown(
                providers,
                accounts,
            )->Some_0 && first_provider(providers, accounts[i].provider_handle) is None
                && forall|j: int|
                0 <= j < i ==> first_provider(providers, #[trigger] accounts[j].provider_handle)
                    is Some,
    decreases accounts.len(),
{
    if accounts.len() == 0 {
    } else if first_provider(providers, accounts[0].provider_handle) is None {
        assert(accounts[0] == first_unknown(providers, accounts)->Some_0);
    } else {
        let rest = accounts.drop_first();
        lemma_first_unknown(providers, rest);
        assert(forall|i: int| 0 <= i < rest.len() ==> rest[i] == accounts[i + 1]);
        if first_unknown(providers, rest) is Some {
            let k = choose|i: int|
                0 <= i < rest.len() && #[trigger] rest[i] == first_unknown(providers, rest)->Some_0
                    && first_provider(providers, rest[i].provider_handle) is None
                    && forall|j: int|
                    0 <= j < i ==> first_provider(providers, #[trigger] rest[j].provider_handle)
                        is Some;
            assert forall|j: int| 0 <= j < k + 1 implies first_provider(
                providers,
                #[trigger] accounts[j].provider_handle,
            ) is Some by {
                if j > 0 {
                    assert(rest[j - 1] == accounts[j]);
                }
            }
            assert(accounts[k + 1] == first_unknown(providers, accounts)->Some_0);
        } else {
            assert forall|i: int| 0 <= i < accounts.len() implies first_provider(
                providers,
                #[trigger] accounts[i].provider_handle,
            ) is Some by {
                if i > 0 {
                    assert(rest[i - 1] == accounts[i]);
                }
            }
        }
    }
}

/// Skipping a prefix of accounts whose providers are all known does not change
/// the result.
proof fn lemma_first_unknown_skip(
    providers: Seq<ProviderView>,
    accounts: Seq<AccountView>,
    n: int,
)
    requires
        0 <= n <= accounts.len(),
        forall|j: int|
            0 <= j < n ==> first_provider(providers, #[trigger] accounts[j].provider_handle)
                is Some,
    ensures
        first_unknown(providers, accounts) == first_unknown(providers, accounts.skip(n)),
    decreases n,
{
    if n == 0 {
        assert(accounts.skip(0) =~= accounts);
    } else {
        let rest = accounts.drop_first();
        assert(forall|j: int| 0 <= j < rest.len() ==> rest[j] == accounts[j + 1]);
        assert(first_provider(providers, accounts[0].provider_handle) is Some);
        assert forall|j: int| 0 <= j < n - 1 implies first_provider(
            providers,
            #[trigger] rest[j].provider_handle,
        ) is Some by {
            assert(rest[j] == accounts[j + 1]);
        }
        lemma_first_unknown_skip(providers, rest, n - 1);
        assert(rest.skip(n - 1) =~= accounts.skip(n));
    }
}

/// What attaching providers comes to: the accounts as they stand afterwards,
/// or the error.
pub open spec fn attached(outcome: Result<(), LoadError>, after: Seq<AccountView>) -> Result<
    Seq<AccountView>,
    LoadErrorView,
> {
    match outcome {
        Ok(_) => Ok(after),
        Err(e) => Err(e@),
    }
}

/// Attaches to each account a copy of the provider that its handle refers to.
///
/// Fails at the first account whose provider is not among `providers`, with an
/// error that names the account and the handle it refers to. The accounts are
/// then left as far as the work had come.
pub fn attach_providers(providers: &Vec<Provider>, accounts: &mut Vec<AccountDefinition>) -> (r:
    Result<(), LoadError>)
    ensures
        attached(r, accounts_view(final(accounts)@)) == resolve_accounts(
            providers_view(providers@),
            accounts_view(old(accounts)@),
        ),
{
    let ghost known = providers_view(providers@);
    let ghost raw = accounts_view(accounts@);
    let mut i: usize = 0;
    while i < accounts.len()
        invariant
            0 <= i <= accounts.len(),
            accounts.len() == raw.len(),
            raw == accounts_view(old(accounts)@),
            known == providers_view(providers@),
            forall|j: int| 0 <= j < i ==> #[trigger] accounts[j]@ == attach(known, raw[j]),
            forall|j: int| i <= j < accounts.len() ==> #[trigger] accounts[j]@ == raw[j],
            forall|j: int|
                0 <= j < i ==> first_provider(known, #[trigger] raw[j].provider_handle) is Some,
        decreases accounts.len() - i,
    {
        let ghost before = accounts@;
        assert(before[i as int]@ == raw[i as int]);
        let found = find_provider(providers, &accounts[i].provider_handle);
        match found {
            Some(p) => {
                let copy = p.clone();
                accounts[i].provider = Some(copy);
                assert(accounts[i as int]@ == attach(known, raw[i as int]));
                assert forall|j: int| 0 <= j < i implies #[trigger] accounts[j]@ == attach(
                    known,
                    raw[j],
                ) by {
                    assert(accounts[j] == before[j]);
                }
                assert forall|j: int| i < j < accounts.len() implies #[trigger] accounts[j]@
                    == raw[j] by {
                    assert(accounts[j] == before[j]);
                }
            },
            None => {
                let account_handle = accounts[i].handle.clone();
                let provider_handle = accounts[i].provider_handle.clone();
                proof {
                    lemma_first_unknown_skip(known, raw, i as int);
                    assert(raw.skip(i as int)[0] == raw[i as int]);
                }
                return Err(LoadError::UnknownProvider { account_handle, provider_handle });
            },
        }
        i += 1;
    }
    proof {
        lemma_first_unknown_skip(known, raw, i as int);
        assert(accounts_view(accounts@) =~= Seq::new(raw.len(), |k: int| attach(known, raw[k])));
    }
    Ok(())
}

/// What has been read so far, as a mathematical value.
pub struct VisitorView {
    pub providers: Option<Seq<ProviderView>>,
    pub fact_extensions: Option<FactsView>,
    pub accounts: Option<Seq<AccountView>>,
}

/// Nothing has been read yet.
pub open spec fn nothing_read() -> VisitorView {
    VisitorView { providers: None, fact_extensions: None, accounts: None }
}

/// Whether the content of a section may be read in this state: accounts may
/// not be read before any providers.
pub open spec fn expect_section(state: VisitorView, field: Field) -> Result<(), LoadErrorView> {
    if field == Field::Accounts && state.providers is None {
        Err(LoadErrorView::AccountsBeforeProviders)
    } else {
        Ok(())
    }
}

/// The state after one more section. A section that comes again replaces what
/// was read of it before. Accounts are held against the providers read so far.
pub open spec fn step(state: VisitorView, entry: EntryView) -> Result<VisitorView, LoadErrorView> {
    match entry {
        EntryView::Providers(providers) => Ok(
            VisitorView { providers: Some(providers), ..state },
        ),
        EntryView::FactExtensions(facts) => Ok(
            VisitorView { fact_extensions: Some(facts), ..state },
        ),
        EntryView::Accounts(raw) => match state.providers {
            None => Err(LoadErrorView::AccountsBeforeProviders),
            Some(providers) => match resolve_accounts(providers, raw) {
                Ok(accounts) => Ok(VisitorView { accounts: Some(accounts), ..state }),
                Err(e) => Err(e),
            },
        },
    }
}

/// The state after the sections `entries`, in order, or the first error.
pub open spec fn run(state: VisitorView, entries: Seq<EntryView>) -> Result<
    VisitorView,
    LoadErrorView,
>
    decreases entries.len(),
{
    if entries.len() == 0 {
        Ok(state)
    } else {
        match step(state, entries[0]) {
            Ok(next) => run(next, entries.drop_first()),
            Err(e) => Err(e),
        }
    }
}

/// The data that a state amounts to at the end of the document: providers must
/// have been read.
pub open spec fn finish(state: VisitorView) -> Result<UserDataView, LoadErrorView> {
    match state.providers {
        None => Err(LoadErrorView::MissingProviders),
        Some(providers) => Ok(
            UserDataView {
                providers,
                fact_extensions: state.fact_extensions,
                accounts: state.accounts,
            },
        ),
    }
}

/// The data that the sections of a document amount to, or the first error.
pub open spec fn load(entries: Seq<EntryView>) -> Result<UserDataView, LoadErrorView> {
    match run(nothing_read(), entries) {
        Ok(state) => finish(state),
        Err(e) => Err(e),
    }
}

/// The view of the outcome of a check.
pub open spec fn checked(outcome: Result<(), LoadError>) -> Result<(), LoadErrorView> {
    match outcome {
        Ok(_) => Ok(()),
        Err(e) => Err(e@),
    }
}

/// What a visit comes to: the state as it stands afterwards, or the error.
pub open spec fn visited(outcome: Result<(), LoadError>, after: VisitorView) -> Result<
    VisitorView,
    LoadErrorView,
> {
    match outcome {
        Ok(_) => Ok(after),
        Err(e) => Err(e@),
    }
}

/// The view of the outcome of a load.
pub open spec fn loaded(outcome: Result<UserData, LoadError>) -> Result<
    UserDataView,
    LoadErrorView,
> {
    match outcome {
        Ok(data) => Ok(data@),
        Err(e) => Err(e@),
    }
}

/// Collects the sections of a user's data as they are read.
pub struct UserDataVisitor {
    providers: Option<Vec<Provider>>,
    fact_extensions: Option<Facts>,
    accounts: Option<Vec<AccountDefinition>>,
}

impl View for UserDataVisitor {
    type V = VisitorView;

    closed spec fn view(&self) -> VisitorView {
        VisitorView {
            providers: optional_providers_view(self.providers),
            fact_extensions: optional_facts_view(self.fact_extensions),
            accounts: optional_accounts_view(self.accounts),
        }
    }
}

impl UserDataVisitor {
    /// A visitor that has read nothing.
    pub fn new() -> (r: Self)
        ensures
            r@ == nothing_read(),
    {
        UserDataVisitor { providers: None, fact_extensions: None, accounts: None }
    }

    /// Tells, before the content of a section is read, whether the section may
    /// come now.
    pub fn visit_key(&self, field: Field) -> (r: Result<(), LoadError>)
        ensures
            checked(r) == expect_section(self@, field),
    {
        match field {
            Field::Accounts => {
                if self.providers.is_none() {
                    Err(LoadError::AccountsBeforeProviders)
                } else {
                    Ok(())
                }
            },
            _ => Ok(()),
        }
    }

    /// Takes in one section. After an error the visitor is of no further use.
    pub fn visit(&mut self, entry: Entry) -> (r: Result<(), LoadError>)
        ensures
            visited(r, final(self)@) == step(old(self)@, entry@),
    {
        match entry {
            Entry::Providers(providers) => {
                self.providers = Some(providers);
                Ok(())
            },
            Entry::FactExtensions(facts) => {
                self.fact_extensions = Some(facts);
                Ok(())
            },
            Entry::Accounts(raw) => {
                let mut accounts = raw;
                let outcome = match &self.providers {
                    None => Err(LoadError::AccountsBeforeProviders),
                    Some(providers) => attach_providers(providers, &mut accounts),
                };
                match outcome {
                    Ok(()) => {
                        self.accounts = Some(accounts);
                        Ok(())
                    },
                    Err(e) => Err(e),
                }
            },
        }
    }

    /// The data, once every section has been read.
    pub fn finish(self) -> (r: Result<UserData, LoadError>)
        ensures
            loaded(r) == finish(self@),
    {
        match self.providers {
            None => Err(LoadError::MissingProviders),
            Some(providers) => Ok(
                UserData {
                    providers,
                    fact_extensions: self.fact_extensions,
                    accounts: self.accounts,
                },
            ),
        }
    }

    /// Reads a whole document: its sections in order, then the end. Stops at
    /// the first error.
    pub fn visit_map(entries: Vec<Entry>) -> (r: Result<UserData, LoadError>)
        ensures
            loaded(r) == load(entries_view(entries@)),
    {
        let ghost all = entries_view(entries@);
        let mut visitor = UserDataVisitor::new();
        assert(all.skip(0) =~= all);
        for entry in it: entries
            invariant
                all == entries_view(entries@),
                run(nothing_read(), all) == run(visitor@, all.skip(it.index() as int)),
        {
            let ghost rest = all.skip(it.index() as int);
            assert(rest[0] == entry@);
            assert(rest.drop_first() =~= all.skip(it.index() + 1));
            match visitor.visit(entry) {
                Ok(()) => {},
                Err(e) => {
                    return Err(e);
                },
            }
        }
        assert(all.skip(all.len() as int).len() == 0);
        visitor.finish()
    }
}

/// While no providers have been read, accounts cannot be: the sections up to
/// the first accounts end in the error of their order.
proof fn lemma_run_accounts_first(state: VisitorView, entries: Seq<EntryView>, i: int)
    requires
        state.providers is None,
        0 <= i < entries.len(),
        entries[i].field() == Field::Accounts,
        forall|j: int| 0 <= j < i ==> (#[trigger] entries[j]).field() != Field::Providers,
    ensures
        run(state, entries) == Err::<VisitorView, LoadErrorView>(
            LoadErrorView::AccountsBeforeProviders,
        ),
    decreases entries.len(),
{
    if entries[0].field() == Field::Accounts {
    } else {
        assert(i > 0);
        assert(entries[0].field() != Field::Providers);
        let next = step(state, entries[0])->Ok_0;
        let rest = entries.drop_first();
        assert(rest[i - 1] == entries[i]);
        assert forall|j: int| 0 <= j < i - 1 implies (#[trigger] rest[j]).field()
            != Field::Providers by {
            assert(rest[j] == entries[j + 1]);
        }
        lemma_run_accounts_first(next, rest, i - 1);
    }
}

/// A document in which accounts come before any providers is refused for the
/// order of its sections, whatever the accounts hold and whatever follows.
pub proof fn lemma_accounts_before_providers(entries: Seq<EntryView>, i: int)
    requires
        0 <= i < entries.len(),
        entries[i].field() == Field::Accounts,
        forall|j: int| 0 <= j < i ==> (#[trigger] entries[j]).field() != Field::Providers,
    ensures
        load(entries) == Err::<UserDataView, LoadErrorView>(LoadErrorView::AccountsBeforeProviders),
{
    lemma_run_accounts_first(nothing_read(), entries, i);
}

/// While only facts are read, no providers are.
proof fn lemma_run_facts_only(state: VisitorView, entries: Seq<EntryView>)
    requires
        state.providers is None,
        forall|j: int|
            0 <= j < entries.len() ==> (#[trigger] entries[j]).field() == Field::FactExtensions,
    ensures
        run(state, entries) is Ok,
        run(state, entries)->Ok_0.providers is None,
    decreases entries.len(),
{
    if entries.len() > 0 {
        assert(entries[0].field() == Field::FactExtensions);
        let next = step(state, entries[0])->Ok_0;
        let rest = entries.drop_first();
        assert forall|j: int| 0 <= j < rest.len() implies (#[trigger] rest[j]).field()
            == Field::FactExtensions by {
            assert(rest[j] == entries[j + 1]);
        }
        lemma_run_facts_only(next, rest);
    }
}

/// A document without providers and without accounts is refused for its
/// missing providers.
pub proof fn lemma_missing_providers(entries: Seq<EntryView>)
    requires
        forall|j: int|
            0 <= j < entries.len() ==> (#[trigger] entries[j]).field() == Field::FactExtensions,
    ensures
        load(entries) == Err::<UserDataView, LoadErrorView>(LoadErrorView::MissingProviders),
{
    lemma_run_facts_only(nothing_read(), entries);
}

/// A document of providers followed by accounts loads exactly when every
/// account refers to one of the providers; it then holds the providers as
/// written and the accounts with their providers attached. Otherwise the error
/// names the first account that refers to an unknown provider.
pub proof fn lemma_providers_then_accounts(providers: Seq<ProviderView>, raw: Seq<AccountView>)
    ensures
        load(seq![EntryView::Providers(providers), EntryView::Accounts(raw)]) == (match resolve_accounts(
            providers,
            raw,
        ) {
            Ok(accounts) => Ok(
                UserDataView { providers, fact_extensions: None, accounts: Some(accounts) },
            ),
            Err(e) => Err(e),
        }),
{
    let entries = seq![EntryView::Providers(providers), EntryView::Accounts(raw)];
    let first = step(nothing_read(), entries[0])->Ok_0;
    let rest = entries.drop_first();
    assert(rest[0] == EntryView::Accounts(raw));
    assert(rest.drop_first().len() == 0);
    reveal_with_fuel(run, 3);
}

/// In data loaded from providers followed by accounts, nothing is dropped and
/// every reference is tied to the data itself: the providers are those written,
/// there is one account for each one written, and each account is the one
/// written with the first of the data's providers of its handle attached.
pub proof fn lemma_providers_then_accounts_integrity(
    providers: Seq<ProviderView>,
    raw: Seq<AccountView>,
)
    requires
        load(seq![EntryView::Providers(providers), EntryView::Accounts(raw)]) is Ok,
    ensures
        ({
            let data = load(seq![EntryView::Providers(providers), EntryView::Accounts(raw)])->Ok_0;
            &&& data.providers == providers
            &&& data.accounts is Some
            &&& data.accounts->Some_0.len() == raw.len()
            &&& forall|k: int|
                0 <= k < raw.len() ==> (#[trigger] data.accounts->Some_0[k]) == attach(
                    data.providers,
                    raw[k],
                ) && data.accounts->Some_0[k].provider is Some
        }),
{
    lemma_providers_then_accounts(providers, raw);
    lemma_resolved_accounts(providers, raw);
}

/// Every account of the state has a provider attached whose handle is the one
/// that the account refers to.
pub open spec fn references_resolved(accounts: Option<Seq<AccountView>>) -> bool {
    match accounts {
        Some(a) => forall|k: int|
            0 <= k < a.len() ==> (#[trigger] a[k]).provider is Some && a[k].provider->Some_0.handle
                == a[k].provider_handle,
        None => true,
    }
}

/// Attaching providers leaves no account without one, and each gets a provider
/// with the handle that it refers to.
pub proof fn lemma_resolved_accounts(providers: Seq<ProviderView>, raw: Seq<AccountView>)
    requires
        resolve_accounts(providers, raw) is Ok,
    ensures
        references_resolved(Some(resolve_accounts(providers, raw)->Ok_0)),
        resolve_accounts(providers, raw)->Ok_0.len() == raw.len(),
{
    lemma_first_unknown(providers, raw);
    let resolved = resolve_accounts(providers, raw)->Ok_0;
    assert forall|k: int| 0 <= k < resolved.len() implies (#[trigger] resolved[k]).provider
        is Some && resolved[k].provider->Some_0.handle == resolved[k].provider_handle by {
        assert(first_provider(providers, raw[k].provider_handle) is Some);
        crate::data::provider::lemma_first_provider(providers, raw[k].provider_handle);
    }
}

/// Reading sections keeps the references of the accounts resolved.
proof fn lemma_run_keeps_references(state: VisitorView, entries: Seq<EntryView>)
    requires
        references_resolved(state.accounts),
        run(state, entries) is Ok,
    ensures
        references_resolved(run(state, entries)->Ok_0.accounts),
    decreases entries.len(),
{
    if entries.len() > 0 {
        let next = step(state, entries[0])->Ok_0;
        match entries[0] {
            EntryView::Accounts(raw) => {
                lemma_resolved_accounts(state.providers->Some_0, raw);
            },
            _ => {},
        }
        lemma_run_keeps_references(next, entries.drop_first());
    }
}

/// In data that loaded, every account has a provider attached whose handle is
/// the one that the account refers to: no account loads without its provider.
pub proof fn lemma_loaded_references_resolved(entries: Seq<EntryView>)
    requires
        load(entries) is Ok,
    ensures
        references_resolved(load(entries)->Ok_0.accounts),
{
    lemma_run_keeps_references(nothing_read(), entries);
}

} // verus!
