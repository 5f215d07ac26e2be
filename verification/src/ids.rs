//! User identities.

use vstd::prelude::*;

verus! {

/// An opaque, externally authenticated user identity.
///
/// The transport layer authenticates a connection and hands the hub a
/// `UserId`; the hub never inspects its structure, it only compares
/// identities for equality. The two halves carry a 128-bit external
/// identifier as plain values.
#[derive(Clone, Copy, Debug, PartialEq, Eq, Structural, Hash)]
pub struct UserId {
    pub hi: u64,
    pub lo: u64,
}

impl UserId {
    /// Builds an identity from its two halves.
    pub fn new(hi: u64, lo: u64) -> (r: UserId)
        ensures
            r.hi == hi,
            r.lo == lo,
    {
        UserId { hi, lo }
    }
}

} // verus!
