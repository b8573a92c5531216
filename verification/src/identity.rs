//! Caller identities and deterministic address derivation.

use vstd::prelude::*;

verus! {

broadcast use vstd::array::group_array_axioms;

/// The number of bytes in an identity.
pub const IDENTITY_LEN: usize = 32;

/// A fixed byte mixed into every derivation, namespacing lock records from
/// any other record kind sharing the same storage substrate.
pub const DOMAIN_TAG: u8 = 0x4c;

/// A fixed-size opaque public identifier.  It is the sole access-control
/// token: whoever controls an identity may create and release the lock that
/// belongs to it.
#[derive(Clone, Copy, Debug)]
pub struct Identity {
    pub bytes: [u8; 32],
}

impl View for Identity {
    type V = Seq<u8>;

    open spec fn view(&self) -> Seq<u8> {
        self.bytes@
    }
}

/// Whether two identities hold the same bytes.
pub fn identities_equal(a: &Identity, b: &Identity) -> (r: bool)
    ensures
        r == (a@ == b@),
{
    let mut i: usize = 0;
    while i < IDENTITY_LEN
        invariant
            0 <= i <= IDENTITY_LEN,
            forall|j: int| 0 <= j < i ==> a.bytes@[j] == b.bytes@[j],
        decreases IDENTITY_LEN - i,
    {
        if a.bytes[i] != b.bytes[i] {
            return false;
        }
        i += 1;
    }
    proof {
        assert(a@ =~= b@);
    }
    true
}

/// The derivation tag of an identity: a one-byte proof that a record sits at
/// the address derived from its owner and the domain tag.  It is a pure
/// function of the owner's bytes.
pub open spec fn spec_derive_tag(owner: Seq<u8>) -> u8
    decreases owner.len(),
{
    if owner.len() == 0 {
        DOMAIN_TAG
    } else {
        spec_derive_tag(owner.drop_last()) ^ owner.last()
    }
}

/// Computes the derivation tag of an identity.
pub fn derive_tag(owner: &Identity) -> (r: u8)
    ensures
        r == spec_derive_tag(owner@),
{
    let mut tag: u8 = DOMAIN_TAG;
    let mut i: usize = 0;
    while i < IDENTITY_LEN
        invariant
            0 <= i <= IDENTITY_LEN,
            tag == spec_derive_tag(owner@.take(i as int)),
        decreases IDENTITY_LEN - i,
    {
        proof {
            assert(owner@.take(i + 1).drop_last() =~= owner@.take(i as int));
            assert(owner@.take(i + 1).last() == owner@[i as int]);
        }
        tag = tag ^ owner.bytes[i];
        i += 1;
    }
    proof {
        assert(owner@.take(IDENTITY_LEN as int) =~= owner@);
    }
    tag
}

} // verus!
