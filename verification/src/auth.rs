use vstd::prelude::*;
use crate::types::Address;

verus! {

/// Failure of the identity check: the execution environment holds no proof
/// that the claimed actor consented to this invocation.
#[derive(Clone, Copy, PartialEq, Eq, Structural, Debug)]
pub enum AuthError {
    NotAuthorized,
}

/// The authorization gate for one invocation: the set of actors whose
/// consent the execution environment has verified before dispatching to the
/// contract. State-mutating operations demand, as a precondition, that the
/// actor whose consent the business rule requires is in this set; a host
/// adapter calls `require_actor` first and aborts the invocation otherwise,
/// so no state is ever touched on behalf of an unauthenticated actor.
pub struct AuthGate {
    pub authenticated: Vec<Address>,
}

impl AuthGate {
    /// Whether the environment has authenticated `actor`.
    pub open spec fn authorizes(&self, actor: Address) -> bool {
        exists|i: int| 0 <= i < self.authenticated@.len() && self.authenticated@[i] == actor
    }

    /// A gate that vouches for nobody.
    pub fn new() -> (r: AuthGate)
        ensures
            forall|a: Address| !r.authorizes(a),
    {
        AuthGate { authenticated: Vec::new() }
    }

    /// Record that the environment has authenticated `actor`.
    pub fn grant(&mut self, actor: Address)
        ensures
            forall|a: Address|
                final(self).authorizes(a) <==> (old(self).authorizes(a) || a == actor),
    {
        let ghost s0 = self.authenticated@;
        self.authenticated.push(actor);
        proof {
            let s1 = self.authenticated@;
            assert forall|a: Address| self.authorizes(a) implies (old(self).authorizes(a) || a
                == actor) by {
                let i = choose|i: int| 0 <= i < s1.len() && s1[i] == a;
                if i < s0.len() {
                    assert(s0[i] == a);
                }
            }
            assert forall|a: Address| (old(self).authorizes(a) || a == actor) implies self
                .authorizes(a) by {
                if old(self).authorizes(a) {
                    let i = choose|i: int| 0 <= i < s0.len() && s0[i] == a;
                    assert(s1[i] == a);
                } else {
                    assert(s1[s1.len() - 1] == a);
                }
            }
        }
    }

    /// Succeeds exactly when the environment holds an authenticated proof
    /// that `claimed` consented to the current invocation.
    pub fn require_actor(&self, claimed: &Address) -> (r: Result<(), AuthError>)
        ensures
            r is Ok <==> self.authorizes(*claimed),
    {
        let n = self.authenticated.len();
        let mut i: usize = 0;
        while i < n
            invariant
                n == self.authenticated@.len(),
                0 <= i <= n,
                forall|j: int| 0 <= j < i ==> self.authenticated@[j] != *claimed,
            decreases n - i,
        {
            if self.authenticated[i] == *claimed {
                return Ok(());
            }
            i = i + 1;
        }
        Err(AuthError::NotAuthorized)
    }
}

} // verus!
