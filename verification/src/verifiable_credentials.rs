//! Verifiable credentials: issuance, verification, revocation and
//! lifecycle tracking.

use vstd::prelude::*;

use crate::ledger::Address;
use crate::table::{list_at, Table};

verus! {

/// Status of a verifiable credential.
#[derive(Clone, Copy, PartialEq, Eq, Structural, Debug)]
pub enum CredentialStatus {
    Active,
    Revoked,
    Expired,
}

/// A verifiable credential record.
#[derive(Clone, Debug)]
pub struct VerifiableCredential {
    pub id: u64,
    pub issuer: Address,
    pub subject: Address,
    pub schema: String,
    pub credential_data: String,
    pub issued_at: u64,
    pub expires_at: Option<u64>,
    pub status: CredentialStatus,
}

/// Why a revocation was refused.
#[derive(Clone, Copy, PartialEq, Eq, Structural, Debug)]
pub enum CredentialError {
    CredentialNotFound,
    /// Only the issuer may revoke.
    Unauthorized,
    NotActive,
}

fn copy_credential(c: &VerifiableCredential) -> (r: VerifiableCredential)
    ensures
        r == *c,
{
    VerifiableCredential {
        id: c.id,
        issuer: c.issuer,
        subject: c.subject,
        schema: c.schema.clone(),
        credential_data: c.credential_data.clone(),
        issued_at: c.issued_at,
        expires_at: c.expires_at,
        status: c.status,
    }
}

/// `c` with status `Revoked`.
pub open spec fn revoked(c: VerifiableCredential) -> VerifiableCredential {
    VerifiableCredential {
        id: c.id,
        issuer: c.issuer,
        subject: c.subject,
        schema: c.schema,
        credential_data: c.credential_data,
        issued_at: c.issued_at,
        expires_at: c.expires_at,
        status: CredentialStatus::Revoked,
    }
}

/// A credential is valid at `now` when it exists, is active and has not
/// passed its expiry.
pub open spec fn valid_at(creds: Map<u64, VerifiableCredential>, id: u64, now: u64) -> bool {
    &&& creds.contains_key(id)
    &&& creds[id].status == CredentialStatus::Active
    &&& match creds[id].expires_at {
        Some(t) => now <= t,
        None => true,
    }
}

/// The refusal that a revocation of `id` by `issuer` meets, if any.
pub open spec fn revoke_error(creds: Map<u64, VerifiableCredential>, issuer: Address, id: u64) -> Option<
    CredentialError,
> {
    if !creds.contains_key(id) {
        Some(CredentialError::CredentialNotFound)
    } else if creds[id].issuer != issuer {
        Some(CredentialError::Unauthorized)
    } else if creds[id].status != CredentialStatus::Active {
        Some(CredentialError::NotActive)
    } else {
        None
    }
}

/// The credentials, indexed by subject and by issuer.
pub struct CredentialRegistry {
    creds: Table<u64, VerifiableCredential>,
    counter: u64,
    by_subject: Table<Address, Vec<u64>>,
    by_issuer: Table<Address, Vec<u64>>,
}

impl CredentialRegistry {
    pub closed spec fn cred_map(&self) -> Map<u64, VerifiableCredential> {
        self.creds@
    }

    /// The id the next credential receives.
    pub closed spec fn counter(&self) -> u64 {
        self.counter
    }

    pub closed spec fn subject_map(&self) -> Map<Address, Vec<u64>> {
        self.by_subject@
    }

    pub closed spec fn issuer_map(&self) -> Map<Address, Vec<u64>> {
        self.by_issuer@
    }

    /// The credentials issued to `subject`, in order of issue.
    pub open spec fn subject_creds(&self, subject: Address) -> Seq<u64> {
        list_at(self.subject_map(), subject)
    }

    /// The credentials issued by `issuer`, in order of issue.
    pub open spec fn issuer_creds(&self, issuer: Address) -> Seq<u64> {
        list_at(self.issuer_map(), issuer)
    }

    /// Each credential is stored under its own id, below the counter.
    pub closed spec fn wf(&self) -> bool {
        &&& self.creds.wf()
        &&& self.by_subject.wf()
        &&& self.by_issuer.wf()
        &&& forall|id: u64| #[trigger]
            self.creds@.contains_key(id) ==> self.creds@[id].id == id && id < self.counter
    }

    /// No credentials; the first one issued gets id 0.
    pub fn new() -> (s: Self)
        ensures
            s.wf(),
            s.cred_map() == Map::<u64, VerifiableCredential>::empty(),
            s.counter() == 0,
            forall|a: Address| #[trigger] s.subject_creds(a).len() == 0,
            forall|a: Address| #[trigger] s.issuer_creds(a).len() == 0,
    {
        CredentialRegistry {
            creds: Table::new(),
            counter: 0,
            by_subject: Table::new(),
            by_issuer: Table::new(),
        }
    }

    /// Issue a credential from `issuer` to `subject` at time `now`; returns
    /// its id. It starts active.
    pub fn issue_credential(
        &mut self,
        now: u64,
        issuer: Address,
        subject: Address,
        schema: String,
        credential_data: String,
        expires_at: Option<u64>,
    ) -> (id: u64)
        requires
            old(self).wf(),
            old(self).counter() < u64::MAX,
        ensures
            final(self).wf(),
            id == old(self).counter(),
            final(self).counter() == id + 1,
            final(self).cred_map() == old(self).cred_map().insert(
                id,
                VerifiableCredential {
                    id,
                    issuer,
                    subject,
                    schema,
                    credential_data,
                    issued_at: now,
                    expires_at,
                    status: CredentialStatus::Active,
                },
            ),
            final(self).subject_creds(subject) == old(self).subject_creds(subject).push(id),
            forall|a: Address| a != subject ==> #[trigger] final(self).subject_creds(a) == old(self).subject_creds(a),
            final(self).issuer_creds(issuer) == old(self).issuer_creds(issuer).push(id),
            forall|a: Address| a != issuer ==> #[trigger] final(self).issuer_creds(a) == old(self).issuer_creds(a),
    {
        let id = self.counter;
        self.counter = id + 1;
        let vc = VerifiableCredential {
            id,
            issuer,
            subject,
            schema,
            credential_data,
            issued_at: now,
            expires_at,
            status: CredentialStatus::Active,
        };
        self.creds.insert(id, vc);
        self.by_subject.push_onto(subject, id);
        self.by_issuer.push_onto(issuer, id);
        id
    }

    /// Whether a credential is active and not expired at time `now`.
    pub fn verify_credential(&self, now: u64, credential_id: u64) -> (r: bool)
        requires
            self.wf(),
        ensures
            r == valid_at(self.cred_map(), credential_id, now),
    {
        let vc = match self.creds.get(&credential_id) {
            Some(v) => v,
            None => {
                return false;
            },
        };
        if vc.status != CredentialStatus::Active {
            return false;
        }
        if let Some(expires_at) = vc.expires_at {
            if now > expires_at {
                return false;
            }
        }
        true
    }

    /// Revoke an active credential; only its issuer may.
    pub fn revoke_credential(&mut self, issuer: Address, credential_id: u64) -> (r: Result<(), CredentialError>)
        requires
            old(self).wf(),
        ensures
            final(self).wf(),
            match revoke_error(old(self).cred_map(), issuer, credential_id) {
                Some(e) => r == Err::<(), CredentialError>(e) && *final(self) == *old(self),
                None => {
                    &&& r is Ok
                    &&& final(self).cred_map() == old(self).cred_map().insert(
                        credential_id,
                        revoked(old(self).cred_map()[credential_id]),
                    )
                    &&& final(self).counter() == old(self).counter()
                    &&& forall|a: Address| #[trigger] final(self).subject_creds(a) == old(self).subject_creds(a)
                    &&& forall|a: Address| #[trigger] final(self).issuer_creds(a) == old(self).issuer_creds(a)
                },
            },
    {
        let mut vc = match self.creds.get(&credential_id) {
            Some(v) => copy_credential(v),
            None => {
                return Err(CredentialError::CredentialNotFound);
            },
        };
        if vc.issuer != issuer {
            return Err(CredentialError::Unauthorized);
        }
        if vc.status != CredentialStatus::Active {
            return Err(CredentialError::NotActive);
        }
        vc.status = CredentialStatus::Revoked;
        self.creds.insert(credential_id, vc);
        proof {
            assert forall|id: u64| #[trigger] self.creds@.contains_key(id) implies self.creds@[id].id == id
                && id < self.counter by {
                assert(old(self).cred_map().contains_key(id));
            }
        }
        Ok(())
    }

    /// The credential record under `credential_id`, if there is one.
    pub fn get_credential(&self, credential_id: u64) -> (r: Option<VerifiableCredential>)
        requires
            self.wf(),
        ensures
            r == (if self.cred_map().contains_key(credential_id) {
                Some(self.cred_map()[credential_id])
            } else {
                None
            }),
    {
        match self.creds.get(&credential_id) {
            Some(v) => Some(copy_credential(v)),
            None => None,
        }
    }

    /// The ids of the credentials issued to `subject`.
    pub fn get_subject_credentials(&self, subject: Address) -> (r: Vec<u64>)
        requires
            self.wf(),
        ensures
            r@ == self.subject_creds(subject),
    {
        self.by_subject.list_copy(&subject)
    }

    /// The ids of the credentials issued by `issuer`.
    pub fn get_issuer_credentials(&self, issuer: Address) -> (r: Vec<u64>)
        requires
            self.wf(),
        ensures
            r@ == self.issuer_creds(issuer),
    {
        self.by_issuer.list_copy(&issuer)
    }
}

/// A revoked credential never verifies again, at any time.
pub proof fn lemma_revoked_never_valid(
    before: Map<u64, VerifiableCredential>,
    issuer: Address,
    id: u64,
    now: u64,
)
    requires
        revoke_error(before, issuer, id) is None,
    ensures
        !valid_at(before.insert(id, revoked(before[id])), id, now),
{
}

/// A credential issued without an expiry verifies at any time until it is
/// revoked.
pub proof fn lemma_fresh_credential_valid(
    before: Map<u64, VerifiableCredential>,
    vc: VerifiableCredential,
    now: u64,
)
    requires
        vc.status == CredentialStatus::Active,
        vc.expires_at is None,
    ensures
        valid_at(before.insert(vc.id, vc), vc.id, now),
{
}

} // verus!
