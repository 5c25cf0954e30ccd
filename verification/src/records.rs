//! The two record kinds a storage slot can hold, as typed in-memory
//! values.

use vstd::prelude::*;
use crate::keys::KeyId;

verus! {

/// A token type: who may mint new supply, and a reserved freeze
/// authority that no operation here enforces.
#[derive(Clone, Copy, Debug, PartialEq, Eq)]
pub struct Mint {
    pub is_initialized: bool,
    pub mint_authority: Option<KeyId>,
    pub freeze_authority: Option<KeyId>,
}

/// One owner's balance of the token.
#[derive(Clone, Copy, Debug, PartialEq, Eq)]
pub struct TokenAccount {
    pub is_initialized: bool,
    pub owner: KeyId,
    pub amount: u64,
}

/// The record kind a slot is meant to hold; it fixes the wire size and
/// which rent minimum applies.
#[derive(Clone, Copy, Debug, PartialEq, Eq, Structural)]
pub enum RecordKind {
    Mint,
    TokenAccount,
}

/// A Mint is either fully uninitialized, with both authorities absent,
/// or fully initialized, with both present; creation establishes this
/// and no operation disturbs it.
pub open spec fn mint_wf(m: Mint) -> bool {
    if m.is_initialized {
        m.mint_authority is Some && m.freeze_authority is Some
    } else {
        m.mint_authority is None && m.freeze_authority is None
    }
}

} // verus!
