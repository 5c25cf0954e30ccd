//! The laws of the ledger, proved over the dispatcher's specification:
//! conservation under transfers, authority enforcement, the funding
//! gate, no overdraft, double-initialization rejection, and what the
//! create operations establish.

use vstd::prelude::*;
use crate::codec::{
    lemma_mint_round_trip_with_tail, lemma_token_round_trip_with_tail, mint_dec, token_dec,
    MINT_LEN, TOKEN_ACCOUNT_LEN,
};
use crate::dispatch::{
    spec_create_mint, spec_create_token_account, spec_mint_to, spec_transfer, SlotV,
};
use crate::keys::KeyId;
use crate::records::{mint_wf, Mint, TokenAccount};
use crate::LedgerError;

verus! {

/// The balance a slot's bytes hold: its decoded TokenAccount amount,
/// or zero where no such record decodes.
pub open spec fn slot_amount(s: SlotV) -> int {
    match token_dec(s.data) {
        Some(t) => t.amount as int,
        None => 0,
    }
}

/// One successful transfer conserves the sum of the two accounts'
/// balances; a failed one changes nothing at all.
pub proof fn lemma_transfer_conserves(
    source: SlotV,
    destination: SlotV,
    signer: KeyId,
    amount: u64,
)
    ensures
        match spec_transfer(source, destination, signer, amount) {
            Ok(pair) => slot_amount(pair.0) + slot_amount(pair.1) == slot_amount(source)
                + slot_amount(destination),
            Err(_) => true,
        },
{
    if spec_transfer(source, destination, signer, amount) is Ok {
        match (token_dec(source.data), token_dec(destination.data)) {
            (Some(s), Some(d)) => {
                let s2 = TokenAccount {
                    is_initialized: s.is_initialized,
                    owner: s.owner,
                    amount: (s.amount - amount) as u64,
                };
                let d2 = TokenAccount {
                    is_initialized: d.is_initialized,
                    owner: d.owner,
                    amount: (d.amount + amount) as u64,
                };
                lemma_token_round_trip_with_tail(s2, source.data.skip(TOKEN_ACCOUNT_LEN as int));
                lemma_token_round_trip_with_tail(
                    d2,
                    destination.data.skip(TOKEN_ACCOUNT_LEN as int),
                );
            },
            _ => {
                assert(false);
            },
        }
    }
}

/// One attempted transfer between the two accounts, in either
/// direction, with whatever signer and amount were supplied.
pub struct TransferStep {
    pub source_first: bool,
    pub signer: KeyId,
    pub amount: u64,
}

/// The two slots after a whole sequence of attempted transfers, each
/// applied where it succeeds and skipped where it fails.
pub open spec fn apply_transfer_steps(a: SlotV, b: SlotV, steps: Seq<TransferStep>) -> (SlotV, SlotV)
    decreases steps.len(),
{
    if steps.len() == 0 {
        (a, b)
    } else {
        let st = steps[0];
        let next = if st.source_first {
            match spec_transfer(a, b, st.signer, st.amount) {
                Ok(p) => p,
                Err(_) => (a, b),
            }
        } else {
            match spec_transfer(b, a, st.signer, st.amount) {
                Ok(p) => (p.1, p.0),
                Err(_) => (a, b),
            }
        };
        apply_transfer_steps(next.0, next.1, steps.skip(1))
    }
}

/// Conservation: across any sequence of transfers between two
/// accounts, with no minting in between, the sum of their balances is
/// invariant.
pub proof fn lemma_transfer_steps_conserve(a: SlotV, b: SlotV, steps: Seq<TransferStep>)
    ensures
        ({
            let p = apply_transfer_steps(a, b, steps);
            slot_amount(p.0) + slot_amount(p.1) == slot_amount(a) + slot_amount(b)
        }),
    decreases steps.len(),
{
    if steps.len() > 0 {
        let st = steps[0];
        lemma_transfer_conserves(a, b, st.signer, st.amount);
        lemma_transfer_conserves(b, a, st.signer, st.amount);
        let next = if st.source_first {
            match spec_transfer(a, b, st.signer, st.amount) {
                Ok(p) => p,
                Err(_) => (a, b),
            }
        } else {
            match spec_transfer(b, a, st.signer, st.amount) {
                Ok(p) => (p.1, p.0),
                Err(_) => (a, b),
            }
        };
        lemma_transfer_steps_conserve(next.0, next.1, steps.skip(1));
    }
}

/// Authority enforcement for minting: whenever the supplied signer
/// differs from the mint's stored authority, MintTo fails with
/// `IncorrectAuthority`.
pub proof fn lemma_mint_to_authority_enforced(
    mint_slot: SlotV,
    token_slot: SlotV,
    m: Mint,
    signer: KeyId,
    amount: u64,
)
    requires
        mint_dec(mint_slot.data) == Some(m),
        m.is_initialized,
        m.mint_authority != Some(signer),
    ensures
        spec_mint_to(mint_slot, token_slot, signer, amount) == Err::<SlotV, LedgerError>(
            LedgerError::IncorrectAuthority,
        ),
{
}

/// Authority enforcement for transfers: whenever the supplied signer
/// differs from the source's owner, Transfer fails with
/// `IncorrectAuthority`.
pub proof fn lemma_transfer_authority_enforced(
    source: SlotV,
    destination: SlotV,
    s: TokenAccount,
    d: TokenAccount,
    signer: KeyId,
    amount: u64,
)
    requires
        token_dec(source.data) == Some(s),
        token_dec(destination.data) == Some(d),
        s.is_initialized,
        d.is_initialized,
        signer != s.owner,
    ensures
        spec_transfer(source, destination, signer, amount) == Err::<(SlotV, SlotV), LedgerError>(
            LedgerError::IncorrectAuthority,
        ),
{
}

/// Funding gate for CreateMint: a slot shorter than the record fails
/// with `AccountTooSmall` regardless of funding, and one long enough
/// but funded under the rent minimum fails with `InsufficientFunds`.
pub proof fn lemma_create_mint_funding_gate(
    slot: SlotV,
    mint_authority: KeyId,
    freeze_authority: KeyId,
    rent_minimum: u64,
)
    ensures
        slot.data.len() < MINT_LEN ==> spec_create_mint(
            slot,
            mint_authority,
            freeze_authority,
            rent_minimum,
        ) == Err::<SlotV, LedgerError>(LedgerError::AccountTooSmall),
        slot.data.len() >= MINT_LEN && slot.lamports < rent_minimum ==> spec_create_mint(
            slot,
            mint_authority,
            freeze_authority,
            rent_minimum,
        ) == Err::<SlotV, LedgerError>(LedgerError::InsufficientFunds),
{
}

/// Funding gate for CreateTokenAccount, as for CreateMint.
pub proof fn lemma_create_token_account_funding_gate(slot: SlotV, owner: KeyId, rent_minimum: u64)
    ensures
        slot.data.len() < TOKEN_ACCOUNT_LEN ==> spec_create_token_account(
            slot,
            owner,
            rent_minimum,
        ) == Err::<SlotV, LedgerError>(LedgerError::AccountTooSmall),
        slot.data.len() >= TOKEN_ACCOUNT_LEN && slot.lamports < rent_minimum
            ==> spec_create_token_account(slot, owner, rent_minimum) == Err::<
            SlotV,
            LedgerError,
        >(LedgerError::InsufficientFunds),
{
}

/// No overdraft: a transfer of more than the source holds fails with
/// `InsufficientFunds`; by the dispatcher's contract every failure
/// leaves both slots byte-for-byte unchanged.
pub proof fn lemma_transfer_no_overdraft(
    source: SlotV,
    destination: SlotV,
    s: TokenAccount,
    d: TokenAccount,
    signer: KeyId,
    amount: u64,
)
    requires
        token_dec(source.data) == Some(s),
        token_dec(destination.data) == Some(d),
        s.is_initialized,
        d.is_initialized,
        signer == s.owner,
        amount > s.amount,
    ensures
        spec_transfer(source, destination, signer, amount) == Err::<(SlotV, SlotV), LedgerError>(
            LedgerError::InsufficientFunds,
        ),
{
}

/// Double-initialization rejection: CreateMint on a slot whose record
/// is already initialized fails with `AlreadyInitialized`, however
/// well funded the slot is.
pub proof fn lemma_create_mint_double_init(
    slot: SlotV,
    m: Mint,
    mint_authority: KeyId,
    freeze_authority: KeyId,
    rent_minimum: u64,
)
    requires
        mint_dec(slot.data) == Some(m),
        m.is_initialized,
        slot.lamports >= rent_minimum,
    ensures
        spec_create_mint(slot, mint_authority, freeze_authority, rent_minimum) == Err::<
            SlotV,
            LedgerError,
        >(LedgerError::AlreadyInitialized),
{
}

/// Double-initialization rejection for CreateTokenAccount, as for
/// CreateMint.
pub proof fn lemma_create_token_account_double_init(
    slot: SlotV,
    t: TokenAccount,
    owner: KeyId,
    rent_minimum: u64,
)
    requires
        token_dec(slot.data) == Some(t),
        t.is_initialized,
        slot.lamports >= rent_minimum,
    ensures
        spec_create_token_account(slot, owner, rent_minimum) == Err::<SlotV, LedgerError>(
            LedgerError::AlreadyInitialized,
        ),
{
}

/// A successful CreateMint leaves the slot's key, funding and length
/// as they were and its bytes holding the fully initialized Mint, both
/// authorities present: the record invariant holds from creation on.
pub proof fn lemma_create_mint_initializes(
    slot: SlotV,
    mint_authority: KeyId,
    freeze_authority: KeyId,
    rent_minimum: u64,
)
    ensures
        match spec_create_mint(slot, mint_authority, freeze_authority, rent_minimum) {
            Ok(v) => {
                let m2 = Mint {
                    is_initialized: true,
                    mint_authority: Some(mint_authority),
                    freeze_authority: Some(freeze_authority),
                };
                v.key == slot.key && v.lamports == slot.lamports && v.data.len()
                    == slot.data.len() && mint_dec(v.data) == Some(m2) && mint_wf(m2)
            },
            Err(_) => true,
        },
{
    if spec_create_mint(slot, mint_authority, freeze_authority, rent_minimum) is Ok {
        let m2 = Mint {
            is_initialized: true,
            mint_authority: Some(mint_authority),
            freeze_authority: Some(freeze_authority),
        };
        lemma_mint_round_trip_with_tail(m2, slot.data.skip(MINT_LEN as int));
    }
}

/// A successful CreateTokenAccount leaves the slot's key, funding and
/// length as they were and its bytes holding the initialized account
/// for the given owner, with the balance the slot already carried.
pub proof fn lemma_create_token_account_initializes(slot: SlotV, owner: KeyId, rent_minimum: u64)
    ensures
        match spec_create_token_account(slot, owner, rent_minimum) {
            Ok(v) => {
                let t = token_dec(slot.data);
                v.key == slot.key && v.lamports == slot.lamports && v.data.len()
                    == slot.data.len() && t is Some && token_dec(v.data) == Some(
                    TokenAccount {
                        is_initialized: true,
                        owner,
                        amount: match t {
                            Some(t0) => t0.amount,
                            None => 0,
                        },
                    },
                )
            },
            Err(_) => true,
        },
{
    if spec_create_token_account(slot, owner, rent_minimum) is Ok {
        match token_dec(slot.data) {
            Some(t0) => {
                let t2 = TokenAccount { is_initialized: true, owner, amount: t0.amount };
                lemma_token_round_trip_with_tail(t2, slot.data.skip(TOKEN_ACCOUNT_LEN as int));
            },
            None => {
                assert(false);
            },
        }
    }
}

} // verus!
