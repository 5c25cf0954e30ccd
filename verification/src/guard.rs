//! The two stateless predicates guarding every mutation: does the
//! supplied signer match a record's declared authority, and does a slot
//! meet the size and funding floor for the record it is to hold.

use vstd::prelude::*;
use crate::codec::{MINT_LEN, TOKEN_ACCOUNT_LEN};
use crate::keys::KeyId;
use crate::records::RecordKind;
use crate::LedgerError;

verus! {

/// The fixed encoded size of a record of the given kind.
pub open spec fn record_size(kind: RecordKind) -> usize {
    match kind {
        RecordKind::Mint => MINT_LEN,
        RecordKind::TokenAccount => TOKEN_ACCOUNT_LEN,
    }
}

/// The fixed encoded size of a record of the given kind.
pub fn record_len(kind: RecordKind) -> (n: usize)
    ensures
        n == record_size(kind),
{
    match kind {
        RecordKind::Mint => MINT_LEN,
        RecordKind::TokenAccount => TOKEN_ACCOUNT_LEN,
    }
}

/// Authority check: passes exactly when an authority is declared and
/// equals the signer.
pub open spec fn spec_check_authority(declared: Option<KeyId>, signer: KeyId) -> Result<
    (),
    LedgerError,
> {
    if declared == Some(signer) {
        Ok(())
    } else {
        Err(LedgerError::IncorrectAuthority)
    }
}

/// Fails with `IncorrectAuthority` unless the declared authority is
/// present and equal to the supplied signer.
pub fn check_authority(declared: &Option<KeyId>, signer: &KeyId) -> (r: Result<(), LedgerError>)
    ensures
        r == spec_check_authority(*declared, *signer),
{
    match declared {
        Option::Some(k) => {
            if k == signer {
                Ok(())
            } else {
                Err(LedgerError::IncorrectAuthority)
            }
        },
        Option::None => Err(LedgerError::IncorrectAuthority),
    }
}

/// Funding check: the slot must first be large enough for the record
/// kind, then funded at or above the rent minimum the host's oracle
/// gave for that size.
pub open spec fn spec_check_funding(
    slot_size: int,
    slot_balance: u64,
    kind: RecordKind,
    rent_minimum: u64,
) -> Result<(), LedgerError> {
    if slot_size < record_size(kind) {
        Err(LedgerError::AccountTooSmall)
    } else if slot_balance < rent_minimum {
        Err(LedgerError::InsufficientFunds)
    } else {
        Ok(())
    }
}

/// Fails with `AccountTooSmall` when the slot's byte length is below
/// the record kind's fixed size, else with `InsufficientFunds` when its
/// balance is below `rent_minimum`, the host rent oracle's answer for
/// that size.
pub fn check_funding(
    slot_size: usize,
    slot_balance: u64,
    kind: RecordKind,
    rent_minimum: u64,
) -> (r: Result<(), LedgerError>)
    ensures
        r == spec_check_funding(slot_size as int, slot_balance, kind, rent_minimum),
{
    if slot_size < record_len(kind) {
        Err(LedgerError::AccountTooSmall)
    } else if slot_balance < rent_minimum {
        Err(LedgerError::InsufficientFunds)
    } else {
        Ok(())
    }
}

} // verus!
