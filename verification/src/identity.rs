//! Opaque fixed-size identities for authors and records.

use vstd::prelude::*;

verus! {

/// A 256-bit identity, the already-authenticated principal attached to an
/// operation and the value records are addressed by. The store never
/// authenticates credentials; it only compares identities.
#[derive(Clone, Copy, PartialEq, Eq, Structural, Debug, Hash)]
pub struct Identity {
    pub hi: u128,
    pub lo: u128,
}

impl Identity {
    /// The all-zero identity, which never names a real record; a post whose
    /// blog back-reference is zero is treated as dangling.
    pub open spec fn spec_zero() -> Identity {
        Identity { hi: 0, lo: 0 }
    }

    /// Builds the all-zero identity.
    pub fn zero() -> (r: Identity)
        ensures
            r == Identity::spec_zero(),
    {
        Identity { hi: 0, lo: 0 }
    }

    /// Builds an identity from its two halves.
    pub fn new(hi: u128, lo: u128) -> (r: Identity)
        ensures
            r == (Identity { hi, lo }),
    {
        Identity { hi, lo }
    }
}

} // verus!
