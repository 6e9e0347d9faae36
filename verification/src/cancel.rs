//! The tokens by which requests that are under way can be cancelled.
use std::collections::HashMap;
use vstd::prelude::*;

verus! {

/// The tokens of requests that are under way, by the ids that were given for them.
pub struct CancelTokenStore<T> {
    pub tokens: HashMap<usize, T>,
}

impl<T> View for CancelTokenStore<T> {
    type V = Map<usize, T>;

    open spec fn view(&self) -> Map<usize, T> {
        self.tokens@
    }
}

/// The tokens after a request has come.
pub open spec fn registered<T>(tokens: Map<usize, T>, cancel_id: Option<usize>, token: T) -> Map<
    usize,
    T,
> {
    match cancel_id {
        Some(id) => tokens.insert(id, token),
        None => tokens,
    }
}

/// The tokens after a request is done with.
pub open spec fn released<T>(tokens: Map<usize, T>, cancel_id: Option<usize>) -> Map<usize, T> {
    match cancel_id {
        Some(id) => tokens.remove(id),
        None => tokens,
    }
}

impl<T> CancelTokenStore<T> {
    /// A store without tokens.
    pub fn new() -> (r: Self)
        ensures
            r@ == Map::<usize, T>::empty(),
    {
        CancelTokenStore { tokens: HashMap::new() }
    }

    /// Keeps the token of a request that has come, where it gave an id, and says whether
    /// the id was in use.
    pub fn create_token(&mut self, cancel_id: Option<usize>, token: T) -> (r: bool)
        ensures
            final(self)@ == registered(old(self)@, cancel_id, token),
            r == (cancel_id matches Some(id) && old(self)@.dom().contains(id)),
    {
        broadcast use vstd::std_specs::hash::group_hash_axioms;

        match cancel_id {
            Some(id) => {
                let before = self.tokens.insert(id, token);
                before.is_some()
            },
            None => false,
        }
    }

    /// Gives out the token of a request that is to be cancelled, where there is one. It
    /// is not kept any longer.
    pub fn cancel_request(&mut self, cancel_id: usize) -> (r: Option<T>)
        ensures
            final(self)@ == old(self)@.remove(cancel_id),
            match r {
                Some(token) => old(self)@.dom().contains(cancel_id) && token
                    == old(self)@[cancel_id],
                None => !old(self)@.dom().contains(cancel_id),
            },
    {
        broadcast use vstd::std_specs::hash::group_hash_axioms;

        let r = self.tokens.remove(&cancel_id);
        assert(self@ =~= old(self)@.remove(cancel_id));
        r
    }

    /// Forgets the token of a request that is done with, where it gave an id.
    pub fn release(&mut self, cancel_id: Option<usize>)
        ensures
            final(self)@ == released(old(self)@, cancel_id),
    {
        if let Some(id) = cancel_id {
            self.cancel_request(id);
        }
    }
}

/// A request that gave an id can be cancelled until it is done with, and not after; the
/// tokens of other requests are not touched.
pub proof fn lemma_token_lives_with_its_request<T>(
    tokens: Map<usize, T>,
    id: usize,
    token: T,
    other: usize,
)
    requires
        other != id,
    ensures
        registered(tokens, Some(id), token).dom().contains(id),
        registered(tokens, Some(id), token)[id] == token,
        !released(registered(tokens, Some(id), token), Some(id)).dom().contains(id),
        registered(tokens, Some(id), token).dom().contains(other) == tokens.dom().contains(other),
        registered(tokens, Some(id), token)[other] == tokens[other],
        released(tokens, Some(id)).dom().contains(other) == tokens.dom().contains(other),
        released(tokens, Some(id))[other] == tokens[other],
{
}

/// Where an id is free, the tokens are the same before a request comes and after it is
/// done with.
pub proof fn lemma_request_leaves_no_token<T>(
    tokens: Map<usize, T>,
    cancel_id: Option<usize>,
    token: T,
)
    requires
        cancel_id matches Some(id) ==> !tokens.dom().contains(id),
    ensures
        released(registered(tokens, cancel_id, token), cancel_id) == tokens,
{
    assert(released(registered(tokens, cancel_id, token), cancel_id) =~= tokens);
}

}
