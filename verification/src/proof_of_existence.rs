//! The claim registry: which account owns which content.

use vstd::prelude::*;
use crate::table::Table;
use crate::types::{AccountId, Content};
use crate::utils::{DispatchError, DispatchResult};

verus! {

/// Whether `caller` may claim `claim`: only content without an owner.
pub open spec fn create_result(claims: Map<Seq<char>, Seq<char>>, claim: Seq<char>)
    -> DispatchResult {
    if claims.contains_key(claim) {
        Err(DispatchError::ClaimAlreadyExists)
    } else {
        Ok(())
    }
}

/// The registry after `caller` has asked for `claim`.
pub open spec fn create_claims(
    claims: Map<Seq<char>, Seq<char>>,
    caller: Seq<char>,
    claim: Seq<char>,
) -> Map<Seq<char>, Seq<char>> {
    if create_result(claims, claim) is Ok {
        claims.insert(claim, caller)
    } else {
        claims
    }
}

/// Whether `caller` may give up `claim`: only its owner.
pub open spec fn revoke_result(
    claims: Map<Seq<char>, Seq<char>>,
    caller: Seq<char>,
    claim: Seq<char>,
) -> DispatchResult {
    if !claims.contains_key(claim) {
        Err(DispatchError::ClaimNotExists)
    } else if claims[claim] != caller {
        Err(DispatchError::NotClaimOwner)
    } else {
        Ok(())
    }
}

/// The registry after `caller` has asked to give up `claim`.
pub open spec fn revoke_claims(
    claims: Map<Seq<char>, Seq<char>>,
    caller: Seq<char>,
    claim: Seq<char>,
) -> Map<Seq<char>, Seq<char>> {
    if revoke_result(claims, caller, claim) is Ok {
        claims.remove(claim)
    } else {
        claims
    }
}

/// What the claim registry can be asked to do.
#[derive(Debug)]
pub enum Call {
    /// Claim content for the caller.
    CreateClaim { claim: Content },
    /// Give up content that the caller owns.
    RevokeClaim { claim: Content },
}

/// The result of a call on a registry.
pub open spec fn call_result(claims: Map<Seq<char>, Seq<char>>, caller: Seq<char>, call: Call)
    -> DispatchResult {
    match call {
        Call::CreateClaim { claim } => create_result(claims, claim@),
        Call::RevokeClaim { claim } => revoke_result(claims, caller, claim@),
    }
}

/// The registry after a call.
pub open spec fn call_claims(claims: Map<Seq<char>, Seq<char>>, caller: Seq<char>, call: Call)
    -> Map<Seq<char>, Seq<char>> {
    match call {
        Call::CreateClaim { claim } => create_claims(claims, caller, claim@),
        Call::RevokeClaim { claim } => revoke_claims(claims, caller, claim@),
    }
}

/// Exclusivity: once content is claimed, no second claim on it succeeds, and
/// the owner stays who it was.
pub proof fn lemma_claim_exclusive(
    claims: Map<Seq<char>, Seq<char>>,
    first: Seq<char>,
    second: Seq<char>,
    claim: Seq<char>,
)
    requires
        create_result(claims, claim) is Ok,
    ensures
        create_result(create_claims(claims, first, claim), claim) == Err::<(), DispatchError>(
            DispatchError::ClaimAlreadyExists,
        ),
        create_claims(create_claims(claims, first, claim), second, claim) == create_claims(
            claims,
            first,
            claim,
        ),
        create_claims(claims, first, claim)[claim] == first,
{
}

/// Authorization: only the owner can give up a claim, and content given up
/// can be claimed anew by anyone.
pub proof fn lemma_revoke_by_owner(
    claims: Map<Seq<char>, Seq<char>>,
    owner: Seq<char>,
    other: Seq<char>,
    claim: Seq<char>,
)
    requires
        claims.contains_key(claim),
        claims[claim] == owner,
    ensures
        other != owner ==> revoke_result(claims, other, claim) == Err::<(), DispatchError>(
            DispatchError::NotClaimOwner,
        ) && revoke_claims(claims, other, claim) == claims,
        revoke_result(claims, owner, claim) is Ok,
        create_result(revoke_claims(claims, owner, claim), claim) is Ok,
{
}

/// The claim registry.
#[derive(Debug)]
pub struct Pallet {
    claims: Table<AccountId>,
}

impl View for Pallet {
    type V = Map<Seq<char>, Seq<char>>;

    closed spec fn view(&self) -> Map<Seq<char>, Seq<char>> {
        Map::new(|k: Seq<char>| self.claims@.contains_key(k), |k: Seq<char>| self.claims@[k]@)
    }
}

impl Pallet {
    /// The stored registry is consistent.
    pub closed spec fn wf(&self) -> bool {
        self.claims.wf()
    }

    /// A registry without claims.
    pub fn new() -> (p: Self)
        ensures
            p.wf(),
            p@ == Map::<Seq<char>, Seq<char>>::empty(),
    {
        let p = Pallet { claims: Table::new() };
        proof {
            assert(p@ =~= Map::<Seq<char>, Seq<char>>::empty());
        }
        p
    }

    /// The owner of `claim`, if it has one.
    pub fn get_claim(&self, claim: &Content) -> (r: Option<&AccountId>)
        requires
            self.wf(),
        ensures
            match r {
                Some(owner) => self@.contains_key(claim@) && owner@ == self@[claim@],
                None => !self@.contains_key(claim@),
            },
    {
        self.claims.get(claim)
    }

    /// Records `caller` as the owner of `claim`, unless it has an owner.
    pub fn create_claim(&mut self, caller: AccountId, claim: Content) -> (r: DispatchResult)
        requires
            old(self).wf(),
        ensures
            final(self).wf(),
            r == create_result(old(self)@, claim@),
            final(self)@ == create_claims(old(self)@, caller@, claim@),
    {
        if self.claims.get(&claim).is_some() {
            return Err(DispatchError::ClaimAlreadyExists);
        }
        self.claims.insert(claim, caller);
        proof {
            assert(self@ =~= create_claims(old(self)@, caller@, claim@));
        }
        Ok(())
    }

    /// Removes `claim`, if `caller` owns it.
    pub fn revoke_claim(&mut self, caller: AccountId, claim: Content) -> (r: DispatchResult)
        requires
            old(self).wf(),
        ensures
            final(self).wf(),
            r == revoke_result(old(self)@, caller@, claim@),
            final(self)@ == revoke_claims(old(self)@, caller@, claim@),
    {
        match self.claims.get(&claim) {
            None => {
                return Err(DispatchError::ClaimNotExists);
            },
            Some(owner) => {
                if *owner != caller {
                    return Err(DispatchError::NotClaimOwner);
                }
            },
        }
        let _ = self.claims.remove(&claim);
        proof {
            assert(self@ =~= revoke_claims(old(self)@, caller@, claim@));
        }
        Ok(())
    }

    /// Carries out a call on behalf of `caller`.
    pub fn dispatch(&mut self, caller: AccountId, call: Call) -> (r: DispatchResult)
        requires
            old(self).wf(),
        ensures
            final(self).wf(),
            r == call_result(old(self)@, caller@, call),
            final(self)@ == call_claims(old(self)@, caller@, call),
    {
        match call {
            Call::CreateClaim { claim } => self.create_claim(caller, claim),
            Call::RevokeClaim { claim } => self.revoke_claim(caller, claim),
        }
    }
}

} // verus!
