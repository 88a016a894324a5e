//! The session store: binds an opaque session token to an authenticated
//! identity, makes the binding retrievable on later requests, and revokes it
//! on demand.
//!
//! This binding is the sole source of truth for "who is the caller": no
//! other channel establishes identity. Tokens are never reused within one
//! store: every established binding receives a token strictly above all
//! earlier ones.

use std::collections::HashMap;
use vstd::prelude::*;

verus! {

broadcast use vstd::std_specs::hash::group_hash_axioms;

/// An authenticated identity, as bound to a session token.
pub struct SessionInfo {
    pub user_id: i64,
    pub username: String,
}

/// Binds opaque session tokens to identities.
pub struct SessionStore {
    sessions: HashMap<u64, SessionInfo>,
    next_token: u64,
}

impl View for SessionStore {
    type V = Map<u64, SessionInfo>;

    closed spec fn view(&self) -> Map<u64, SessionInfo> {
        self.sessions@
    }
}

impl SessionStore {
    /// Every token this store ever handed out lies strictly below this
    /// bound, so a token at or above it is fresh.
    pub closed spec fn token_bound(&self) -> u64 {
        self.next_token
    }

    /// The store invariant: every bound token lies below the bound.
    pub open spec fn wf(&self) -> bool {
        forall|t: u64| self@.contains_key(t) ==> t < self.token_bound()
    }

    /// A store with no bindings.
    pub fn new() -> (store: SessionStore)
        ensures
            store.wf(),
            store@ == Map::<u64, SessionInfo>::empty(),
    {
        SessionStore { sessions: HashMap::new(), next_token: 0 }
    }

    /// Whether a fresh token can still be handed out, which `establish`
    /// requires.
    pub fn has_tokens_left(&self) -> (r: bool)
        ensures
            r == (self.token_bound() < u64::MAX),
    {
        self.next_token < u64::MAX
    }

    /// Binds a fresh token to the given identity. Always succeeds, and never
    /// hands out a token that was ever bound before.
    pub fn establish(&mut self, user_id: i64, username: String) -> (token: u64)
        requires
            old(self).wf(),
            old(self).token_bound() < u64::MAX,
        ensures
            final(self).wf(),
            token >= old(self).token_bound(),
            !old(self)@.contains_key(token),
            final(self)@ == old(self)@.insert(token, (SessionInfo { user_id, username })),
            final(self).token_bound() > old(self).token_bound(),
    {
        let token = self.next_token;
        self.next_token = token + 1;
        self.sessions.insert(token, SessionInfo { user_id, username });
        proof {
            let m0 = old(self)@;
            assert forall|t: u64| self@.contains_key(t) implies t < self.token_bound() by {
                if t != token {
                    assert(m0.contains_key(t));
                }
            }
        }
        token
    }

    /// The identity bound to this token, or nothing when no session exists,
    /// the token is stale, or it was revoked. Absence is a normal outcome,
    /// not an error.
    pub fn resolve(&self, token: u64) -> (r: Option<&SessionInfo>)
        ensures
            match r {
                Some(info) => self@.contains_key(token) && *info == self@[token],
                None => !self@.contains_key(token),
            },
    {
        self.sessions.get(&token)
    }

    /// Unbinds this token. Revoking an absent or already-revoked binding is
    /// a no-op, not an error.
    pub fn revoke(&mut self, token: u64)
        requires
            old(self).wf(),
        ensures
            final(self).wf(),
            final(self)@ == old(self)@.remove(token),
            final(self).token_bound() == old(self).token_bound(),
    {
        self.sessions.remove(&token);
        proof {
            assert forall|t: u64| self@.contains_key(t) implies t < self.token_bound() by {
                assert(old(self)@.contains_key(t));
            }
        }
    }
}

} // verus!
