//! Decentralized identities (DIDs) for creator verification and
//! reputation: registration, updates and verifiable claims.

use vstd::prelude::*;

use crate::ledger::Address;
use crate::table::{list_at, Table};

verus! {

/// DID method supported by the contract.
#[derive(Clone, Copy, PartialEq, Eq, Structural, Debug)]
pub enum DidMethod {
    Web,
    Key,
    Stellar,
}

/// A decentralized identity record.
#[derive(Clone, Debug)]
pub struct Did {
    pub id: u64,
    pub owner: Address,
    pub did_string: String,
    pub method: DidMethod,
    pub created_at: u64,
    pub updated_at: u64,
    pub active: bool,
}

/// An identity claim attached to a DID.
#[derive(Clone, Debug)]
pub struct IdentityClaim {
    pub claim_id: u64,
    pub did_id: u64,
    pub claim_type: String,
    pub claim_value: String,
    pub verified: bool,
    pub verifier: Option<Address>,
    pub created_at: u64,
}

/// Why an update or a verification was refused.
#[derive(Clone, Copy, PartialEq, Eq, Structural, Debug)]
pub enum DidError {
    DidNotFound,
    /// The caller does not own the DID.
    Unauthorized,
    DidInactive,
    ClaimNotFound,
}

fn copy_did(d: &Did) -> (r: Did)
    ensures
        r == *d,
{
    Did {
        id: d.id,
        owner: d.owner,
        did_string: d.did_string.clone(),
        method: d.method,
        created_at: d.created_at,
        updated_at: d.updated_at,
        active: d.active,
    }
}

fn copy_claim(c: &IdentityClaim) -> (r: IdentityClaim)
    ensures
        r == *c,
{
    IdentityClaim {
        claim_id: c.claim_id,
        did_id: c.did_id,
        claim_type: c.claim_type.clone(),
        claim_value: c.claim_value.clone(),
        verified: c.verified,
        verifier: c.verifier,
        created_at: c.created_at,
    }
}

/// The DID records and the claims made about them.
pub struct DidRegistry {
    dids: Table<u64, Did>,
    did_counter: u64,
    owner_dids: Table<Address, Vec<u64>>,
    claims: Table<u64, IdentityClaim>,
    claim_counter: u64,
    did_claims: Table<u64, Vec<u64>>,
}

/// The refusal that an update of `did_id` by `owner` meets, if any.
pub open spec fn update_error(reg: DidRegistry, owner: Address, did_id: u64) -> Option<DidError> {
    if !reg.did_map().contains_key(did_id) {
        Some(DidError::DidNotFound)
    } else if reg.did_map()[did_id].owner != owner {
        Some(DidError::Unauthorized)
    } else if !reg.did_map()[did_id].active {
        Some(DidError::DidInactive)
    } else {
        None
    }
}

/// `d` with a new identifier string, updated at `now`.
pub open spec fn updated(d: Did, did_string: String, now: u64) -> Did {
    Did {
        id: d.id,
        owner: d.owner,
        did_string,
        method: d.method,
        created_at: d.created_at,
        updated_at: now,
        active: d.active,
    }
}

/// `c` marked verified by `verifier`.
pub open spec fn verified_by(c: IdentityClaim, verifier: Address) -> IdentityClaim {
    IdentityClaim {
        claim_id: c.claim_id,
        did_id: c.did_id,
        claim_type: c.claim_type,
        claim_value: c.claim_value,
        verified: true,
        verifier: Some(verifier),
        created_at: c.created_at,
    }
}

impl DidRegistry {
    pub closed spec fn did_map(&self) -> Map<u64, Did> {
        self.dids@
    }

    /// The id the next DID receives.
    pub closed spec fn did_counter(&self) -> u64 {
        self.did_counter
    }

    pub closed spec fn claim_map(&self) -> Map<u64, IdentityClaim> {
        self.claims@
    }

    /// The id the next claim receives.
    pub closed spec fn claim_counter(&self) -> u64 {
        self.claim_counter
    }

    pub closed spec fn owner_map(&self) -> Map<Address, Vec<u64>> {
        self.owner_dids@
    }

    pub closed spec fn did_claim_map(&self) -> Map<u64, Vec<u64>> {
        self.did_claims@
    }

    /// The DIDs registered by `owner`, in order of registration.
    pub open spec fn dids_of(&self, owner: Address) -> Seq<u64> {
        list_at(self.owner_map(), owner)
    }

    /// The claims added to `did_id`, in order.
    pub open spec fn claims_of(&self, did_id: u64) -> Seq<u64> {
        list_at(self.did_claim_map(), did_id)
    }

    /// Each record is stored under its own id, below its counter.
    pub closed spec fn wf(&self) -> bool {
        &&& self.dids.wf()
        &&& self.owner_dids.wf()
        &&& self.claims.wf()
        &&& self.did_claims.wf()
        &&& forall|id: u64| #[trigger]
            self.dids@.contains_key(id) ==> self.dids@[id].id == id && id < self.did_counter
        &&& forall|id: u64| #[trigger]
            self.claims@.contains_key(id) ==> self.claims@[id].claim_id == id && id < self.claim_counter
    }

    /// No DIDs and no claims; the first of each gets id 0.
    pub fn new() -> (s: Self)
        ensures
            s.wf(),
            s.did_map() == Map::<u64, Did>::empty(),
            s.claim_map() == Map::<u64, IdentityClaim>::empty(),
            s.did_counter() == 0,
            s.claim_counter() == 0,
            forall|a: Address| #[trigger] s.dids_of(a).len() == 0,
            forall|d: u64| #[trigger] s.claims_of(d).len() == 0,
    {
        DidRegistry {
            dids: Table::new(),
            did_counter: 0,
            owner_dids: Table::new(),
            claims: Table::new(),
            claim_counter: 0,
            did_claims: Table::new(),
        }
    }

    /// Register a new DID for `owner` at time `now`; returns its id.
    pub fn register_did(&mut self, now: u64, owner: Address, did_string: String, method: DidMethod) -> (id: u64)
        requires
            old(self).wf(),
            old(self).did_counter() < u64::MAX,
        ensures
            final(self).wf(),
            id == old(self).did_counter(),
            final(self).did_counter() == id + 1,
            final(self).did_map() == old(self).did_map().insert(
                id,
                Did { id, owner, did_string, method, created_at: now, updated_at: now, active: true },
            ),
            final(self).dids_of(owner) == old(self).dids_of(owner).push(id),
            forall|a: Address| a != owner ==> #[trigger] final(self).dids_of(a) == old(self).dids_of(a),
            final(self).claim_map() == old(self).claim_map(),
            final(self).claim_counter() == old(self).claim_counter(),
            forall|d: u64| #[trigger] final(self).claims_of(d) == old(self).claims_of(d),
    {
        let id = self.did_counter;
        self.did_counter = id + 1;
        let did = Did { id, owner, did_string, method, created_at: now, updated_at: now, active: true };
        self.dids.insert(id, did);
        self.owner_dids.push_onto(owner, id);
        id
    }

    /// Replace the identifier string of a DID; only its owner may, and only
    /// while it is active.
    pub fn update_did(&mut self, now: u64, owner: Address, did_id: u64, did_string: String) -> (r: Result<(), DidError>)
        requires
            old(self).wf(),
        ensures
            final(self).wf(),
            match update_error(*old(self), owner, did_id) {
                Some(e) => r == Err::<(), DidError>(e) && *final(self) == *old(self),
                None => {
                    &&& r is Ok
                    &&& final(self).did_map() == old(self).did_map().insert(
                        did_id,
                        updated(old(self).did_map()[did_id], did_string, now),
                    )
                    &&& final(self).did_counter() == old(self).did_counter()
                    &&& forall|a: Address| #[trigger] final(self).dids_of(a) == old(self).dids_of(a)
                    &&& final(self).claim_map() == old(self).claim_map()
                    &&& final(self).claim_counter() == old(self).claim_counter()
                    &&& forall|d: u64| #[trigger] final(self).claims_of(d) == old(self).claims_of(d)
                },
            },
    {
        let mut did = match self.dids.get(&did_id) {
            Some(d) => copy_did(d),
            None => {
                return Err(DidError::DidNotFound);
            },
        };
        if did.owner != owner {
            return Err(DidError::Unauthorized);
        }
        if !did.active {
            return Err(DidError::DidInactive);
        }
        did.did_string = did_string;
        did.updated_at = now;
        self.dids.insert(did_id, did);
        proof {
            assert forall|id: u64| #[trigger] self.dids@.contains_key(id) implies self.dids@[id].id == id
                && id < self.did_counter by {
                assert(old(self).did_map().contains_key(id));
            }
        }
        Ok(())
    }

    /// Add a claim to a DID at time `now`; returns the claim's id. The claim
    /// starts unverified.
    pub fn add_claim(&mut self, now: u64, did_id: u64, claim_type: String, claim_value: String) -> (claim_id: u64)
        requires
            old(self).wf(),
            old(self).claim_counter() < u64::MAX,
        ensures
            final(self).wf(),
            claim_id == old(self).claim_counter(),
            final(self).claim_counter() == claim_id + 1,
            final(self).claim_map() == old(self).claim_map().insert(
                claim_id,
                IdentityClaim {
                    claim_id,
                    did_id,
                    claim_type,
                    claim_value,
                    verified: false,
                    verifier: None,
                    created_at: now,
                },
            ),
            final(self).claims_of(did_id) == old(self).claims_of(did_id).push(claim_id),
            forall|d: u64| d != did_id ==> #[trigger] final(self).claims_of(d) == old(self).claims_of(d),
            final(self).did_map() == old(self).did_map(),
            final(self).did_counter() == old(self).did_counter(),
            forall|a: Address| #[trigger] final(self).dids_of(a) == old(self).dids_of(a),
    {
        let claim_id = self.claim_counter;
        self.claim_counter = claim_id + 1;
        let claim = IdentityClaim {
            claim_id,
            did_id,
            claim_type,
            claim_value,
            verified: false,
            verifier: None,
            created_at: now,
        };
        self.claims.insert(claim_id, claim);
        self.did_claims.push_onto(did_id, claim_id);
        claim_id
    }

    /// Mark a claim verified by `verifier`.
    pub fn verify_claim(&mut self, verifier: Address, claim_id: u64) -> (r: Result<(), DidError>)
        requires
            old(self).wf(),
        ensures
            final(self).wf(),
            if !old(self).claim_map().contains_key(claim_id) {
                r == Err::<(), DidError>(DidError::ClaimNotFound) && *final(self) == *old(self)
            } else {
                &&& r is Ok
                &&& final(self).claim_map() == old(self).claim_map().insert(
                    claim_id,
                    verified_by(old(self).claim_map()[claim_id], verifier),
                )
                &&& final(self).claim_counter() == old(self).claim_counter()
                &&& forall|d: u64| #[trigger] final(self).claims_of(d) == old(self).claims_of(d)
                &&& final(self).did_map() == old(self).did_map()
                &&& final(self).did_counter() == old(self).did_counter()
                &&& forall|a: Address| #[trigger] final(self).dids_of(a) == old(self).dids_of(a)
            },
    {
        let mut claim = match self.claims.get(&claim_id) {
            Some(c) => copy_claim(c),
            None => {
                return Err(DidError::ClaimNotFound);
            },
        };
        claim.verified = true;
        claim.verifier = Some(verifier);
        self.claims.insert(claim_id, claim);
        proof {
            assert forall|id: u64| #[trigger] self.claims@.contains_key(id) implies self.claims@[id].claim_id
                == id && id < self.claim_counter by {
                assert(old(self).claim_map().contains_key(id));
            }
        }
        Ok(())
    }

    /// The DID record under `did_id`, if there is one.
    pub fn get_did(&self, did_id: u64) -> (r: Option<Did>)
        requires
            self.wf(),
        ensures
            r == (if self.did_map().contains_key(did_id) {
                Some(self.did_map()[did_id])
            } else {
                None
            }),
    {
        match self.dids.get(&did_id) {
            Some(d) => Some(copy_did(d)),
            None => None,
        }
    }

    /// The ids of the DIDs registered by `owner`.
    pub fn get_owner_dids(&self, owner: Address) -> (r: Vec<u64>)
        requires
            self.wf(),
        ensures
            r@ == self.dids_of(owner),
    {
        self.owner_dids.list_copy(&owner)
    }

    /// The ids of the claims added to `did_id`.
    pub fn get_did_claims(&self, did_id: u64) -> (r: Vec<u64>)
        requires
            self.wf(),
        ensures
            r@ == self.claims_of(did_id),
    {
        self.did_claims.list_copy(&did_id)
    }

    /// The claim record under `claim_id`, if there is one.
    pub fn get_claim(&self, claim_id: u64) -> (r: Option<IdentityClaim>)
        requires
            self.wf(),
        ensures
            r == (if self.claim_map().contains_key(claim_id) {
                Some(self.claim_map()[claim_id])
            } else {
                None
            }),
    {
        match self.claims.get(&claim_id) {
            Some(c) => Some(copy_claim(c)),
            None => None,
        }
    }
}

} // verus!
