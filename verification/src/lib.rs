//! An account-based ledger core for a single fungible token.
//!
//! The library works directly on the serialized byte buffers of
//! host-provided storage slots: it decodes fixed-layout Mint and
//! TokenAccount records, enforces authority, funding and initialization
//! rules, applies the requested mutation, and re-encodes the result.
//! The host environment (transport, account storage, rent oracle) stays
//! outside; it hands the dispatcher plain slots and instruction bytes.

use vstd::prelude::*;

pub mod codec;
pub mod dispatch;
pub mod guard;
pub mod keys;
pub mod laws;
pub mod records;

verus! {

/// Every way an instruction can fail; each failure leaves all slots
/// byte-for-byte unchanged.
#[derive(Clone, Copy, Debug, PartialEq, Eq, Structural)]
pub enum LedgerError {
    /// The opcode byte is outside the known range.
    UnknownInstruction,
    /// The instruction bytes are empty, or the trailing payload has the
    /// wrong length for the opcode.
    MalformedPayload,
    /// The instruction was handed the wrong number of slots.
    MissingAccount,
    /// The slot's byte buffer is smaller than the record it must hold.
    AccountTooSmall,
    /// The slot's funding balance is below the rent minimum, or a
    /// transfer asks for more than the source balance.
    InsufficientFunds,
    /// The slot's bytes are not a well-formed record of the kind asked.
    CorruptRecord,
    /// A create instruction hit a record that is already initialized.
    AlreadyInitialized,
    /// A mint or transfer instruction hit an uninitialized record.
    UninitializedAccount,
    /// The supplied signer is not the authority the record declares.
    IncorrectAuthority,
    /// The mutation would push a balance past `u64::MAX`.
    Overflow,
}

} // verus!
