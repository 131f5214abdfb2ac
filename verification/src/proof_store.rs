//! The proof-store capability: a uniform interface for storing,
//! retrieving and verifying Unified Ledger proofs across backends.

use vstd::prelude::*;

verus! {

/// Error raised by a proof store. The capability as specified has no
/// failure mode of its own: the contracts below promise `Ok` from every
/// operation, and the single variant is a placeholder for backends whose
/// operations can fail.
#[derive(Debug)]
pub enum FPoofStoreError {
    /// The backing engine could not serve the request.
    BackendUnavailable,
}

/// An opaque placeholder for a Unified Ledger proof artifact. The
/// concrete cryptographic format is a later design decision, so the type
/// carries no fields; any two values of it are equal.
#[derive(Clone, Debug)]
#[verifier::ext_equal]
pub struct ULProof;

/// An opaque placeholder identifier under which a proof is stored. Like
/// `ULProof` it carries no fields yet; any two values of it are equal.
#[derive(Clone, Debug)]
#[verifier::ext_equal]
pub struct ULProofID;

/// A capability for storing and verifying Unified Ledger proofs.
///
/// The interface is uniform over backends: proofs can be stored,
/// retrieved and verified regardless of the underlying storage
/// mechanism. The abstract state of a backend is the map `proofs()`
/// from identifiers to stored proofs; `set` inserts or overwrites, and
/// `get` and `verify` leave the state unchanged. No failure mode is
/// specified for the capability, so every operation is promised to
/// return `Ok`.
pub trait FPoofStore: Sized {
    /// The map from proof identifiers to currently stored proofs.
    spec fn proofs(&self) -> Map<ULProofID, ULProof>;

    /// Stores a proof under its identifier, overwriting any proof
    /// already stored there.
    fn set(&mut self, key: ULProofID, pf: ULProof) -> (r: Result<(), FPoofStoreError>)
        ensures
            r is Ok,
            final(self).proofs() == old(self).proofs().insert(key, pf),
    ;

    /// Retrieves the proof stored under an identifier, or `None` if no
    /// proof is stored there. The second argument is a proof instance to
    /// validate against, for backends with a verify-on-read semantic; the
    /// stored proofs themselves are not changed.
    fn get(&mut self, key: ULProofID, pf: ULProof) -> (r: Result<
        Option<ULProof>,
        FPoofStoreError,
    >)
        ensures
            r is Ok,
            final(self).proofs() == old(self).proofs(),
            r matches Ok(o) ==> {
                &&& o is Some <==> old(self).proofs().contains_key(key)
                &&& o matches Some(p) ==> p == old(self).proofs()[key]
            },
    ;

    /// Reports whether a proof is valid. Which proofs a backend accepts is
    /// its own affair, since no cryptographic scheme is fixed here, but
    /// checking one never changes the stored proofs.
    fn verify(&mut self, pf: ULProof) -> (r: Result<bool, FPoofStoreError>)
        ensures
            r is Ok,
            final(self).proofs() == old(self).proofs(),
    ;
}

/// An in-memory proof store. The placeholder identifier type has a
/// single value, so a single optional slot holds everything the map
/// `proofs()` can contain.
pub struct InMemoryProofStore {
    stored: Option<ULProof>,
}

impl InMemoryProofStore {
    /// An empty store.
    pub fn new() -> (r: InMemoryProofStore)
        ensures
            r.proofs() == Map::<ULProofID, ULProof>::empty(),
    {
        InMemoryProofStore { stored: None }
    }
}

impl FPoofStore for InMemoryProofStore {
    closed spec fn proofs(&self) -> Map<ULProofID, ULProof> {
        match self.stored {
            None => Map::empty(),
            Some(p) => Map::<ULProofID, ULProof>::empty().insert(ULProofID, p),
        }
    }

    fn set(&mut self, key: ULProofID, pf: ULProof) -> (r: Result<(), FPoofStoreError>) {
        self.stored = Some(pf);
        proof {
            assert(key =~= ULProofID);
            assert(self.proofs() =~= old(self).proofs().insert(key, pf));
        }
        Ok(())
    }

    fn get(&mut self, key: ULProofID, pf: ULProof) -> (r: Result<
        Option<ULProof>,
        FPoofStoreError,
    >) {
        proof {
            assert(key =~= ULProofID);
        }
        match &self.stored {
            Some(_) => {
                proof {
                    assert(ULProof =~= self.proofs()[key]);
                }
                Ok(Some(ULProof))
            },
            None => Ok(None),
        }
    }

    /// With no proof format defined, this backend treats every proof as
    /// valid.
    fn verify(&mut self, pf: ULProof) -> (r: Result<bool, FPoofStoreError>) {
        Ok(true)
    }
}

} // verus!
