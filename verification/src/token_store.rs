//! The shared token store and its compare-and-refresh rule.

use crate::interfaces::{ApiTokens, TokensView};
use vstd::prelude::*;

verus! {

/// The pair that a store holds after a compare-and-refresh: the fresh pair
/// if the store still held what the caller had observed, else what it held.
pub open spec fn store_after(
    current: TokensView,
    observed: TokensView,
    fresh: TokensView,
) -> TokensView {
    if current == observed {
        fresh
    } else {
        current
    }
}

/// The pair that a store holds after several callers, who all observed the
/// same pair, came back one after another with a fresh pair each.
pub open spec fn store_after_all(
    current: TokensView,
    observed: TokensView,
    fresh: Seq<TokensView>,
) -> TokensView
    decreases fresh.len(),
{
    if fresh.len() == 0 {
        current
    } else {
        store_after(store_after_all(current, observed, fresh.drop_last()), observed, fresh.last())
    }
}

/// How many of those callers found the store still holding what they had
/// observed, and so replaced its pair.
pub open spec fn store_mutations(
    current: TokensView,
    observed: TokensView,
    fresh: Seq<TokensView>,
) -> nat
    decreases fresh.len(),
{
    if fresh.len() == 0 {
        0
    } else {
        store_mutations(current, observed, fresh.drop_last()) + if store_after_all(
            current,
            observed,
            fresh.drop_last(),
        ) == observed {
            1nat
        } else {
            0nat
        }
    }
}

/// When several callers observed the same stale pair, only the first to come
/// back changes the store: the store is replaced exactly once and ends with
/// the pair of the first caller, however many follow, provided that pair
/// differs from the stale one.
pub proof fn lemma_single_store_mutation(stale: TokensView, fresh: Seq<TokensView>)
    requires
        fresh.len() > 0,
        fresh[0] != stale,
    ensures
        store_after_all(stale, stale, fresh) == fresh[0],
        store_mutations(stale, stale, fresh) == 1,
    decreases fresh.len(),
{
    if fresh.len() > 1 {
        lemma_single_store_mutation(stale, fresh.drop_last());
        assert(fresh.drop_last()[0] == fresh[0]);
    } else {
        assert(store_after_all(stale, stale, fresh.drop_last()) == stale);
        assert(store_mutations(stale, stale, fresh.drop_last()) == 0);
    }
}

/// The shared holder of the current token pair.
pub struct TokenStore {
    current: ApiTokens,
}

impl View for TokenStore {
    type V = TokensView;

    closed spec fn view(&self) -> TokensView {
        self.current@
    }
}

impl TokenStore {
    /// A store that holds the pair of the first login.
    pub fn new(initial: ApiTokens) -> (store: TokenStore)
        ensures
            store@ == initial@,
    {
        TokenStore { current: initial }
    }

    /// The pair that the store holds now.
    pub fn current(&self) -> (tokens: ApiTokens)
        ensures
            tokens@ == self@,
    {
        self.current.clone()
    }

    /// Takes the pair that a refresh call returned for a caller who had
    /// observed `observed`. The store takes the fresh pair only if it still
    /// holds what the caller observed; the caller gets the fresh pair
    /// either way.
    pub fn refresh_if_matches(&mut self, observed: &ApiTokens, fresh: ApiTokens) -> (mine: ApiTokens)
        ensures
            mine@ == fresh@,
            final(self)@ == store_after(old(self)@, observed@, fresh@),
    {
        if self.current.same_as(observed) {
            self.current = fresh.clone();
        }
        fresh
    }
}

} // verus!
