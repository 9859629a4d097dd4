//! The Proof of Existence pallet: accounts claim content exclusively; a
//! claim has one owner at a time and only its owner can revoke it.

use vstd::prelude::*;

use crate::store;
use crate::support::{DispatchError, DispatchResult};

verus! {

/// Whether `claim` may be created in the claim ledger `claims`: only while
/// the content is unclaimed.
pub open spec fn create_allowed(claims: Map<Seq<char>, Seq<char>>, claim: Seq<char>) -> bool {
    !claims.contains_key(claim)
}

/// What revoking `claim` on behalf of `caller` returns: `ClaimNotFound` when
/// the content is unclaimed, `NotClaimOwner` when someone else owns it, and
/// success only for the owner.
pub open spec fn revoke_outcome(
    claims: Map<Seq<char>, Seq<char>>,
    caller: Seq<char>,
    claim: Seq<char>,
) -> DispatchResult {
    if !claims.contains_key(claim) {
        Err(DispatchError::ClaimNotFound)
    } else if claims[claim] != caller {
        Err(DispatchError::NotClaimOwner)
    } else {
        Ok(())
    }
}

/// The Proof of Existence pallet: the claim ledger, from content to owner.
#[derive(Debug)]
pub struct Pallet {
    claims: Vec<(String, String)>,
}

/// The calls the Proof of Existence pallet exposes to extrinsics. Each call
/// carries its own `caller`, distinct from the extrinsic-level caller.
pub enum Call {
    CreateClaim { caller: String, claim: String },
    RevokeClaim { caller: String, claim: String },
}

impl Pallet {
    /// The claim ledger never stores a piece of content twice.
    pub closed spec fn wf(self) -> bool {
        store::keys_distinct(self.claims@)
    }

    /// The ledger as a map from content to its owner.
    pub closed spec fn claims_map(self) -> Map<Seq<char>, Seq<char>> {
        store::map_of(self.claims@)
    }

    /// Create a new instance of the Proof of Existence pallet: no claims.
    pub fn new() -> (p: Pallet)
        ensures
            p.wf(),
            p.claims_map() == Map::<Seq<char>, Seq<char>>::empty(),
    {
        Pallet { claims: Vec::new() }
    }

    /// Whether the ledger holds no claim at all.
    pub fn is_empty(&self) -> (r: bool)
        requires
            self.wf(),
        ensures
            r <==> self.claims_map() == Map::<Seq<char>, Seq<char>>::empty(),
    {
        proof {
            if self.claims@.len() > 0 {
                assert(self.claims_map().contains_key(self.claims@.last().0@));
            } else {
                assert(self.claims_map() =~= Map::<Seq<char>, Seq<char>>::empty());
            }
        }
        self.claims.len() == 0
    }

    /// Get the owner (if any) of a claim.
    pub fn get_claim(&self, claim: &String) -> (r: Option<&String>)
        requires
            self.wf(),
        ensures
            match r {
                Some(owner) => self.claims_map().contains_key(claim@) && owner@
                    == self.claims_map()[claim@],
                None => !self.claims_map().contains_key(claim@),
            },
    {
        store::lookup(&self.claims, claim)
    }

    /// Create a new claim on behalf of `caller`. Fails with
    /// `ClaimAlreadyExists`, touching nothing, when the content is already
    /// claimed by anyone — including `caller` itself.
    pub fn create_claim(&mut self, caller: String, claim: String) -> (r: DispatchResult)
        requires
            old(self).wf(),
        ensures
            final(self).wf(),
            r is Ok <==> create_allowed(old(self).claims_map(), claim@),
            r == if create_allowed(old(self).claims_map(), claim@) {
                Ok::<(), DispatchError>(())
            } else {
                Err::<(), DispatchError>(DispatchError::ClaimAlreadyExists)
            },
            r is Ok ==> final(self).claims_map() == old(self).claims_map().insert(claim@, caller@),
            r is Err ==> *final(self) == *old(self),
    {
        match store::lookup(&self.claims, &claim) {
            Some(_) => Err(DispatchError::ClaimAlreadyExists),
            None => {
                store::upsert(&mut self.claims, claim, caller);
                Ok(())
            },
        }
    }

    /// Revoke an existing claim. Succeeds, removing the claim entirely, only
    /// when `caller` owns it; otherwise the ledger is untouched and the
    /// error says whether the claim was missing or owned by someone else.
    pub fn revoke_claim(&mut self, caller: String, claim: String) -> (r: DispatchResult)
        requires
            old(self).wf(),
        ensures
            final(self).wf(),
            r == revoke_outcome(old(self).claims_map(), caller@, claim@),
            r is Ok ==> final(self).claims_map() == old(self).claims_map().remove(claim@),
            r is Err ==> *final(self) == *old(self),
    {
        match store::lookup(&self.claims, &claim) {
            Some(owner) => {
                if owner.eq(&caller) {
                    store::delete(&mut self.claims, &claim);
                    Ok(())
                } else {
                    Err(DispatchError::NotClaimOwner)
                }
            },
            None => Err(DispatchError::ClaimNotFound),
        }
    }
}

/// The view of a Proof of Existence call: its fields as mathematical values.
pub enum CallView {
    CreateClaim { caller: Seq<char>, claim: Seq<char> },
    RevokeClaim { caller: Seq<char>, claim: Seq<char> },
}

impl View for Call {
    type V = CallView;

    open spec fn view(&self) -> CallView {
        match self {
            Call::CreateClaim { caller, claim } => CallView::CreateClaim {
                caller: caller@,
                claim: claim@,
            },
            Call::RevokeClaim { caller, claim } => CallView::RevokeClaim {
                caller: caller@,
                claim: claim@,
            },
        }
    }
}

/// What dispatching a Proof of Existence call does to the claim ledger. The
/// caller named inside the call decides ownership, not the extrinsic-level
/// caller.
pub open spec fn dispatch_spec(claims: Map<Seq<char>, Seq<char>>, call: CallView) -> (
    Map<Seq<char>, Seq<char>>,
    DispatchResult,
) {
    match call {
        CallView::CreateClaim { caller, claim } => {
            if create_allowed(claims, claim) {
                (claims.insert(claim, caller), Ok(()))
            } else {
                (claims, Err(DispatchError::ClaimAlreadyExists))
            }
        },
        CallView::RevokeClaim { caller, claim } => {
            let outcome = revoke_outcome(claims, caller, claim);
            if outcome is Ok {
                (claims.remove(claim), outcome)
            } else {
                (claims, outcome)
            }
        },
    }
}

/// Claim uniqueness: once a claim is created, creating it again fails — for
/// any caller — until the claim is revoked, after which it may be created
/// again.
pub proof fn lemma_claim_uniqueness(
    claims: Map<Seq<char>, Seq<char>>,
    owner: Seq<char>,
    claim: Seq<char>,
)
    requires
        create_allowed(claims, claim),
    ensures
        !create_allowed(claims.insert(claim, owner), claim),
        create_allowed(claims.insert(claim, owner).remove(claim), claim),
{
}

/// Ownership-gated revoke: revoking a claim fails with `NotClaimOwner` for
/// every account other than the current owner, and with `ClaimNotFound`
/// when the content is unclaimed.
pub proof fn lemma_revoke_is_owner_gated(
    claims: Map<Seq<char>, Seq<char>>,
    caller: Seq<char>,
    claim: Seq<char>,
)
    ensures
        claims.contains_key(claim) && caller != claims[claim] ==> revoke_outcome(
            claims,
            caller,
            claim,
        ) == Err::<(), DispatchError>(DispatchError::NotClaimOwner),
        !claims.contains_key(claim) ==> revoke_outcome(claims, caller, claim) == Err::<
            (),
            DispatchError,
        >(DispatchError::ClaimNotFound),
{
}

} // verus!
