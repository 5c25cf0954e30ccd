//! The opaque public-key identifier that names authorities, owners and
//! slots.

use vstd::prelude::*;

verus! {

/// A 32-byte public-key identifier, held as four 64-bit words.  Word
/// `w0` covers the first eight bytes of the wire form, in little-endian
/// order, and so on; the identifier itself is opaque and only compared
/// for equality.
#[derive(Clone, Copy, Debug, PartialEq, Eq, Structural)]
pub struct KeyId {
    pub w0: u64,
    pub w1: u64,
    pub w2: u64,
    pub w3: u64,
}

/// The all-zero identifier, the value behind an absent authority on the
/// wire.
pub open spec fn zero_key() -> KeyId {
    KeyId { w0: 0, w1: 0, w2: 0, w3: 0 }
}

impl KeyId {
    /// The all-zero identifier.
    pub fn zero() -> (r: KeyId)
        ensures
            r == zero_key(),
    {
        KeyId { w0: 0, w1: 0, w2: 0, w3: 0 }
    }
}

} // verus!
