//! The institutions that hold accounts.

use vstd::prelude::*;

verus! {

/// A provider as a mathematical value.
pub struct ProviderView {
    pub name: Seq<char>,
    pub handle: Seq<char>,
    pub address: Seq<char>,
}

/// A financial institution. Accounts refer to it by its handle.
#[derive(Debug)]
pub struct Provider {
    pub name: String,
    pub handle: String,
    pub address: String,
}

impl View for Provider {
    type V = ProviderView;

    open spec fn view(&self) -> ProviderView {
        ProviderView { name: self.name@, handle: self.handle@, address: self.address@ }
    }
}

impl Clone for Provider {
    fn clone(&self) -> (r: Self)
        ensures
            r@ == self@,
    {
        Provider {
            name: self.name.clone(),
            handle: self.handle.clone(),
            address: self.address.clone(),
        }
    }
}

/// The views of the providers of `v`, in order.
pub open spec fn providers_view(v: Seq<Provider>) -> Seq<ProviderView> {
    Seq::new(v.len(), |i: int| v[i]@)
}

/// The first provider of `providers` whose handle is `handle`, compared as
/// written. Handles are not required to be unique: the first one wins.
pub open spec fn first_provider(providers: Seq<ProviderView>, handle: Seq<char>) -> Option<
    ProviderView,
>
    decreases providers.len(),
{
    if providers.len() == 0 {
        None
    } else if providers[0].handle == handle {
        Some(providers[0])
    } else {
        first_provider(providers.drop_first(), handle)
    }
}

/// `first_provider` finds a provider exactly when some provider has the handle,
/// and then it is the one at the least such index.
pub proof fn lemma_first_provider(providers: Seq<ProviderView>, handle: Seq<char>)
    ensures
        first_provider(providers, handle) is None <==> forall|i: int|
            0 <= i < providers.len() ==> providers[i].handle != handle,
        first_provider(providers, handle) is Some ==> exists|i: int|
            0 <= i < providers.len() && providers[i] == first_provider(providers, handle)->Some_0
                && providers[i].handle == handle && forall|j: int|
                0 <= j < i ==> providers[j].handle != handle,
    decreases providers.len(),
{
    if providers.len() == 0 {
    } else if providers[0].handle == handle {
        assert(providers[0] == first_provider(providers, handle)->Some_0);
    } else {
        let rest = providers.drop_first();
        lemma_first_provider(rest, handle);
        assert(forall|i: int| 0 <= i < rest.len() ==> rest[i] == providers[i + 1]);
        if first_provider(rest, handle) is Some {
            let k = choose|i: int|
                0 <= i < rest.len() && rest[i] == first_provider(rest, handle)->Some_0
                    && rest[i].handle == handle && forall|j: int|
                    0 <= j < i ==> rest[j].handle != handle;
            assert forall|j: int| 0 <= j < k + 1 implies providers[j].handle != handle by {
                if j > 0 {
                    assert(rest[j - 1] == providers[j]);
                }
            }
            assert(providers[k + 1] == first_provider(providers, handle)->Some_0);
        } else {
            assert forall|i: int| 0 <= i < providers.len() implies providers[i].handle
                != handle by {
                if i > 0 {
                    assert(rest[i - 1] == providers[i]);
                }
            }
        }
    }
}

/// Skipping a prefix in which no provider has the handle does not change the
/// result.
proof fn lemma_first_provider_skip(providers: Seq<ProviderView>, handle: Seq<char>, n: int)
    requires
        0 <= n <= providers.len(),
        forall|j: int| 0 <= j < n ==> providers[j].handle != handle,
    ensures
        first_provider(providers, handle) == first_provider(providers.skip(n), handle),
    decreases n,
{
    if n == 0 {
        assert(providers.skip(0) =~= providers);
    } else {
        let rest = providers.drop_first();
        assert(forall|j: int| 0 <= j < rest.len() ==> rest[j] == providers[j + 1]);
        lemma_first_provider_skip(rest, handle, n - 1);
        assert(rest.skip(n - 1) =~= providers.skip(n));
    }
}

/// The view of a provider that was found, if one was.
pub open spec fn found_provider(found: Option<&Provider>) -> Option<ProviderView> {
    match found {
        Some(p) => Some(p@),
        None => None,
    }
}

/// The first provider of `providers` whose handle is `handle`.
pub fn find_provider<'a>(providers: &'a Vec<Provider>, handle: &String) -> (r: Option<
    &'a Provider,
>)
    ensures
        found_provider(r) == first_provider(providers_view(providers@), handle@),
{
    let ghost views = providers_view(providers@);
    let mut i: usize = 0;
    while i < providers.len()
        invariant
            0 <= i <= providers.len(),
            views == providers_view(providers@),
            forall|j: int| 0 <= j < i ==> views[j].handle != handle@,
        decreases providers.len() - i,
    {
        let p = &providers[i];
        if p.handle == *handle {
            proof {
                lemma_first_provider_skip(views, handle@, i as int);
                assert(views.skip(i as int)[0] == p@);
            }
            return Some(p);
        }
        i += 1;
    }
    proof {
        lemma_first_provider_skip(views, handle@, i as int);
    }
    None
}

} // verus!
