use crate::error::ContractError;
use crate::identity::Identity;
use vstd::prelude::*;

verus! {

/// The identities that have proved control for the call at hand.
///
/// Whoever checks signatures grants them before the call; the ledgers only
/// ask. The model is the set of the identities granted so far.
#[derive(Debug)]
pub struct AuthGate {
    proven: Vec<Identity>,
}

impl View for AuthGate {
    type V = Set<Seq<u8>>;

    closed spec fn view(&self) -> Set<Seq<u8>> {
        Set::new(|id: Seq<u8>| exists|i: int| 0 <= i < self.proven@.len() && self.proven@[i]@ == id)
    }
}

impl AuthGate {
    /// A gate through which nobody has passed.
    pub fn new() -> (gate: AuthGate)
        ensures
            gate@ == Set::<Seq<u8>>::empty(),
    {
        let gate = AuthGate { proven: Vec::new() };
        assert(gate@ =~= Set::<Seq<u8>>::empty());
        gate
    }

    /// Records that `identity` has proved control.
    pub fn grant(&mut self, identity: Identity)
        ensures
            final(self)@ == old(self)@.insert(identity@),
    {
        self.proven.push(identity);
        proof {
            let before = old(self).proven@;
            let after = self.proven@;
            assert forall|id: Seq<u8>| self@.contains(id) == old(self)@.insert(
                identity@,
            ).contains(id) by {
                if old(self)@.contains(id) {
                    let i = choose|i: int| 0 <= i < before.len() && before[i]@ == id;
                    assert(after[i]@ == id);
                }
                if id == identity@ {
                    assert(after[before.len() as int]@ == id);
                }
            }
            assert(self@ =~= old(self)@.insert(identity@));
        }
    }

    /// Whether `identity` has proved control.
    pub fn is_authorized(&self, identity: &Identity) -> (proven: bool)
        ensures
            proven == self@.contains(identity@),
    {
        let mut i: usize = 0;
        while i < self.proven.len()
            invariant
                i <= self.proven.len(),
                forall|j: int| 0 <= j < i ==> self.proven@[j]@ != identity@,
            decreases self.proven.len() - i,
        {
            if self.proven[i] == *identity {
                return true;
            }
            i += 1;
        }
        false
    }

    /// Passes when `identity` has proved control, and refuses the call with
    /// `AuthorizationError` when it has not.
    pub fn require_authorization(&self, identity: &Identity) -> (passed: Result<(), ContractError>)
        ensures
            passed == authorization(self@, identity@),
    {
        if self.is_authorized(identity) {
            Ok(())
        } else {
            Err(ContractError::AuthorizationError)
        }
    }
}

/// Whether a call that needs `identity` may go on, given who has proved
/// control.
pub open spec fn authorization(proven: Set<Seq<u8>>, identity: Seq<u8>) -> Result<
    (),
    ContractError,
> {
    if proven.contains(identity) {
        Ok(())
    } else {
        Err(ContractError::AuthorizationError)
    }
}

} // verus!
