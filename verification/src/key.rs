//! The fixed-size content-addressed identifier used as a lookup key by
//! the ledger's storage capabilities.

use vstd::prelude::*;

verus! {

broadcast use vstd::array::group_array_axioms;

/// A 32-byte, fixed-length, opaque content-addressed identifier.
///
/// The identifier carries no internal structure: it is an immutable
/// wrapper around a byte array, compared and hashed by its bytes. Its
/// view is the sequence of those bytes.
#[derive(Debug, Eq, Hash)]
#[verifier::ext_equal]
pub struct FinternetUID([u8; 32]);

impl View for FinternetUID {
    type V = Seq<u8>;

    closed spec fn view(&self) -> Seq<u8> {
        self.0@
    }
}

fn bytes32_eq(a: &[u8; 32], b: &[u8; 32]) -> (r: bool)
    ensures
        r == (a@ == b@),
{
    let mut i: usize = 0;
    while i < 32
        invariant
            i <= 32,
            forall|j: int| 0 <= j < i ==> a@[j] == b@[j],
        decreases 32 - i,
    {
        if a[i] != b[i] {
            return false;
        }
        i += 1;
    }
    proof {
        assert(a@ =~= b@);
    }
    true
}

impl FinternetUID {
    /// Wraps a 32-byte array as an identifier; the identifier's view is
    /// exactly the given bytes.
    pub fn new(bytes: [u8; 32]) -> (r: FinternetUID)
        ensures
            r@ == bytes@,
    {
        FinternetUID(bytes)
    }

    /// Reads the identifier back as the 32-byte array it was built from.
    pub fn as_bytes(&self) -> (r: [u8; 32])
        ensures
            r@ == self@,
    {
        self.0
    }

    /// Compares two identifiers by their bytes: the same comparison that
    /// `==` performs, offered as a named method for the storage backends.
    pub fn eq_bytes(&self, other: &FinternetUID) -> (r: bool)
        ensures
            r == (self@ == other@),
            r == (*self == *other),
    {
        proof {
            lemma_uid_eq_iff_bytes(*self, *other);
        }
        bytes32_eq(&self.0, &other.0)
    }
}

impl Clone for FinternetUID {
    fn clone(&self) -> (r: FinternetUID)
        ensures
            r == *self,
    {
        FinternetUID(self.0)
    }
}

impl PartialEq for FinternetUID {
    fn eq(&self, other: &FinternetUID) -> (r: bool) {
        bytes32_eq(&self.0, &other.0)
    }
}

impl vstd::std_specs::cmp::PartialEqSpecImpl for FinternetUID {
    open spec fn obeys_eq_spec() -> bool {
        true
    }

    open spec fn eq_spec(&self, other: &FinternetUID) -> bool {
        self@ == other@
    }
}

/// Two identifiers are equal values exactly when their byte views are
/// equal; identifiers built from differing arrays therefore compare
/// unequal.
pub proof fn lemma_uid_eq_iff_bytes(x: FinternetUID, y: FinternetUID)
    ensures
        x == y <==> x@ == y@,
{
    if x@ == y@ {
        assert(x.0 =~= y.0);
        assert(x =~= y);
    }
}

/// Round trip: an identifier built from a byte array (its view equals
/// `a@`) and read back as bytes (a result whose view equals the
/// identifier's) yields the array unchanged.
pub proof fn lemma_uid_round_trip(a: [u8; 32], u: FinternetUID, b: [u8; 32])
    requires
        u@ == a@,
        b@ == u@,
    ensures
        b == a,
{
    assert(b =~= a);
}

} // verus!
