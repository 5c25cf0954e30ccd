//! The instruction dispatcher: one byte of opcode plus payload, an
//! ordered list of storage slots, and the host rent oracle's answers,
//! turned into a validated mutation of the slots' byte buffers.
//!
//! Every instruction is all-or-nothing: each handler validates and
//! prepares every write before touching a slot, so a failure of any
//! kind leaves every slot byte-for-byte as it was.  The whole step is
//! mirrored by the specification function [`spec_step`], and
//! [`process_instruction`] is proved to agree with it exactly.

use vstd::prelude::*;
use vstd::bytes::spec_u64_from_le_bytes;
use crate::codec::{
    decode_mint, decode_token_account, encode_mint, encode_token_account, mint_dec, mint_enc,
    read_word, token_dec, token_enc, MINT_LEN, TOKEN_ACCOUNT_LEN,
};
use crate::guard::{
    check_authority, check_funding, spec_check_authority, spec_check_funding,
};
use crate::keys::KeyId;
use crate::records::{Mint, RecordKind, TokenAccount};
use crate::LedgerError;

verus! {

/// One host-provided storage slot: its address key, its funding
/// balance, and its byte buffer.
pub struct Slot {
    pub key: KeyId,
    pub lamports: u64,
    pub data: Vec<u8>,
}

/// The mathematical value of a slot: the same fields with the buffer
/// as a byte sequence.
pub struct SlotV {
    pub key: KeyId,
    pub lamports: u64,
    pub data: Seq<u8>,
}

impl View for Slot {
    type V = SlotV;

    open spec fn view(&self) -> SlotV {
        SlotV { key: self.key, lamports: self.lamports, data: self.data@ }
    }
}

/// The host rent oracle's minimum balance for each record kind's fixed
/// size; the oracle is a function of storage size alone.
#[derive(Clone, Copy, Debug, PartialEq, Eq, Structural)]
pub struct RentSchedule {
    pub mint_minimum: u64,
    pub token_account_minimum: u64,
}

/// A decoded instruction: the opcode and, for the two moving
/// operations, the little-endian amount that followed it.
#[derive(Clone, Copy, Debug, PartialEq, Eq, Structural)]
pub enum Instruction {
    CreateMint,
    CreateTokenAccount,
    MintTo { amount: u64 },
    Transfer { amount: u64 },
}

/// The values of a sequence of slots.
pub open spec fn slot_views(slots: Seq<Slot>) -> Seq<SlotV> {
    slots.map_values(|s: Slot| s@)
}

/// What instruction bytes mean: opcode 0 and 1 carry no payload, 2 and
/// 3 exactly eight amount bytes; an opcode outside 0..=3 is unknown,
/// and any other shape (empty input included) is malformed.
pub open spec fn parse_instruction_spec(d: Seq<u8>) -> Result<Instruction, LedgerError> {
    if d.len() == 0 {
        Err(LedgerError::MalformedPayload)
    } else if d[0] == 0 {
        if d.len() == 1 {
            Ok(Instruction::CreateMint)
        } else {
            Err(LedgerError::MalformedPayload)
        }
    } else if d[0] == 1 {
        if d.len() == 1 {
            Ok(Instruction::CreateTokenAccount)
        } else {
            Err(LedgerError::MalformedPayload)
        }
    } else if d[0] == 2 {
        if d.len() == 9 {
            Ok(Instruction::MintTo { amount: spec_u64_from_le_bytes(d.subrange(1, 9)) })
        } else {
            Err(LedgerError::MalformedPayload)
        }
    } else if d[0] == 3 {
        if d.len() == 9 {
            Ok(Instruction::Transfer { amount: spec_u64_from_le_bytes(d.subrange(1, 9)) })
        } else {
            Err(LedgerError::MalformedPayload)
        }
    } else {
        Err(LedgerError::UnknownInstruction)
    }
}

/// Decode the opcode byte and its payload.
pub fn parse_instruction(d: &[u8]) -> (r: Result<Instruction, LedgerError>)
    ensures
        r == parse_instruction_spec(d@),
{
    let n = d.len();
    if n == 0 {
        return Err(LedgerError::MalformedPayload);
    }
    let op = *vstd::slice::slice_index_get(d, 0);
    if op == 0 || op == 1 {
        if n != 1 {
            return Err(LedgerError::MalformedPayload);
        }
        if op == 0 {
            Ok(Instruction::CreateMint)
        } else {
            Ok(Instruction::CreateTokenAccount)
        }
    } else if op == 2 || op == 3 {
        if n != 9 {
            return Err(LedgerError::MalformedPayload);
        }
        let amount = read_word(d, 1);
        if op == 2 {
            Ok(Instruction::MintTo { amount })
        } else {
            Ok(Instruction::Transfer { amount })
        }
    } else {
        Err(LedgerError::UnknownInstruction)
    }
}

/// CreateMint on one slot's value: funding gate, decode, double-init
/// gate, then the initialized record written over the first 67 bytes.
pub open spec fn spec_create_mint(
    slot: SlotV,
    mint_authority: KeyId,
    freeze_authority: KeyId,
    rent_minimum: u64,
) -> Result<SlotV, LedgerError> {
    match spec_check_funding(slot.data.len() as int, slot.lamports, RecordKind::Mint, rent_minimum) {
        Err(e) => Err(e),
        Ok(_) => match mint_dec(slot.data) {
            None => Err(LedgerError::CorruptRecord),
            Some(m) => if m.is_initialized {
                Err(LedgerError::AlreadyInitialized)
            } else {
                let m2 = Mint {
                    is_initialized: true,
                    mint_authority: Some(mint_authority),
                    freeze_authority: Some(freeze_authority),
                };
                Ok(
                    SlotV {
                        key: slot.key,
                        lamports: slot.lamports,
                        data: mint_enc(m2) + slot.data.skip(MINT_LEN as int),
                    },
                )
            },
        },
    }
}

/// CreateTokenAccount on one slot's value: funding gate, decode,
/// double-init gate, then the record initialized for the owner with its
/// decoded amount kept.
pub open spec fn spec_create_token_account(
    slot: SlotV,
    owner: KeyId,
    rent_minimum: u64,
) -> Result<SlotV, LedgerError> {
    match spec_check_funding(
        slot.data.len() as int,
        slot.lamports,
        RecordKind::TokenAccount,
        rent_minimum,
    ) {
        Err(e) => Err(e),
        Ok(_) => match token_dec(slot.data) {
            None => Err(LedgerError::CorruptRecord),
            Some(t) => if t.is_initialized {
                Err(LedgerError::AlreadyInitialized)
            } else {
                let t2 = TokenAccount { is_initialized: true, owner, amount: t.amount };
                Ok(
                    SlotV {
                        key: slot.key,
                        lamports: slot.lamports,
                        data: token_enc(t2) + slot.data.skip(TOKEN_ACCOUNT_LEN as int),
                    },
                )
            },
        },
    }
}

/// MintTo on the mint's and the target account's values: both must
/// decode and be initialized, the signer must be the mint authority,
/// and the new balance must fit; only the token slot's value changes.
pub open spec fn spec_mint_to(
    mint_slot: SlotV,
    token_slot: SlotV,
    authority_signer: KeyId,
    amount: u64,
) -> Result<SlotV, LedgerError> {
    match mint_dec(mint_slot.data) {
        None => Err(LedgerError::CorruptRecord),
        Some(m) => if !m.is_initialized {
            Err(LedgerError::UninitializedAccount)
        } else {
            match spec_check_authority(m.mint_authority, authority_signer) {
                Err(e) => Err(e),
                Ok(_) => match token_dec(token_slot.data) {
                    None => Err(LedgerError::CorruptRecord),
                    Some(t) => if !t.is_initialized {
                        Err(LedgerError::UninitializedAccount)
                    } else if t.amount + amount > u64::MAX {
                        Err(LedgerError::Overflow)
                    } else {
                        let t2 = TokenAccount {
                            is_initialized: t.is_initialized,
                            owner: t.owner,
                            amount: (t.amount + amount) as u64,
                        };
                        Ok(
                            SlotV {
                                key: token_slot.key,
                                lamports: token_slot.lamports,
                                data: token_enc(t2) + token_slot.data.skip(
                                    TOKEN_ACCOUNT_LEN as int,
                                ),
                            },
                        )
                    },
                },
            }
        },
    }
}

/// Transfer between the source's and destination's values: both must
/// decode and be initialized, the signer must be the source owner, the
/// source must cover the amount, and the destination must not
/// overflow; on success the amount moves, conserving the sum.
pub open spec fn spec_transfer(
    source: SlotV,
    destination: SlotV,
    owner_signer: KeyId,
    amount: u64,
) -> Result<(SlotV, SlotV), LedgerError> {
    match (token_dec(source.data), token_dec(destination.data)) {
        (Some(s), Some(d)) => if !s.is_initialized || !d.is_initialized {
            Err(LedgerError::UninitializedAccount)
        } else {
            match spec_check_authority(Some(s.owner), owner_signer) {
                Err(e) => Err(e),
                Ok(_) => if s.amount < amount {
                    Err(LedgerError::InsufficientFunds)
                } else if d.amount + amount > u64::MAX {
                    Err(LedgerError::Overflow)
                } else {
                    let s2 = TokenAccount {
                        is_initialized: s.is_initialized,
                        owner: s.owner,
                        amount: (s.amount - amount) as u64,
                    };
                    let d2 = TokenAccount {
                        is_initialized: d.is_initialized,
                        owner: d.owner,
                        amount: (d.amount + amount) as u64,
                    };
                    Ok(
                        (
                            SlotV {
                                key: source.key,
                                lamports: source.lamports,
                                data: token_enc(s2) + source.data.skip(TOKEN_ACCOUNT_LEN as int),
                            },
                            SlotV {
                                key: destination.key,
                                lamports: destination.lamports,
                                data: token_enc(d2) + destination.data.skip(
                                    TOKEN_ACCOUNT_LEN as int,
                                ),
                            },
                        ),
                    )
                },
            }
        },
        _ => Err(LedgerError::CorruptRecord),
    }
}

/// Write a freshly encoded record over the front of a slot's buffer,
/// keeping the bytes after it.
fn splice_record(data: &mut Vec<u8>, record: Vec<u8>)
    requires
        record@.len() <= old(data)@.len(),
    ensures
        final(data)@ == record@ + old(data)@.skip(record@.len() as int),
{
    let ghost rec: Seq<u8> = record@;
    let n = record.len();
    let mut out = record;
    let mut i: usize = n;
    while i < data.len()
        invariant
            n as int == rec.len(),
            rec.len() <= i as int <= data@.len(),
            data@ == old(data)@,
            out@ == rec + data@.subrange(rec.len() as int, i as int),
        decreases data@.len() - i,
    {
        let b = data[i];
        out.push(b);
        i = i + 1;
    }
    proof {
        assert(out@ =~= rec + old(data)@.skip(rec.len() as int));
    }
    *data = out;
}

/// Initialize a Mint record in the slot, declaring both authorities.
pub fn create_mint(
    mint_slot: &mut Slot,
    mint_authority: KeyId,
    freeze_authority: KeyId,
    rent_minimum: u64,
) -> (r: Result<(), LedgerError>)
    ensures
        match spec_create_mint(old(mint_slot)@, mint_authority, freeze_authority, rent_minimum) {
            Ok(v) => r == Ok::<(), LedgerError>(()) && final(mint_slot)@ == v,
            Err(e) => r == Err::<(), LedgerError>(e) && *final(mint_slot) == *old(mint_slot),
        },
{
    match check_funding(mint_slot.data.len(), mint_slot.lamports, RecordKind::Mint, rent_minimum) {
        Ok(_) => {},
        Err(e) => {
            return Err(e);
        },
    }
    let m = match decode_mint(mint_slot.data.as_slice()) {
        Ok(m) => m,
        Err(e) => {
            return Err(e);
        },
    };
    if m.is_initialized {
        return Err(LedgerError::AlreadyInitialized);
    }
    let m2 = Mint {
        is_initialized: true,
        mint_authority: Some(mint_authority),
        freeze_authority: Some(freeze_authority),
    };
    let enc = encode_mint(&m2);
    splice_record(&mut mint_slot.data, enc);
    Ok(())
}

/// Initialize a TokenAccount record in the slot for the given owner.
pub fn create_token_account(token_slot: &mut Slot, owner: KeyId, rent_minimum: u64) -> (r: Result<
    (),
    LedgerError,
>)
    ensures
        match spec_create_token_account(old(token_slot)@, owner, rent_minimum) {
            Ok(v) => r == Ok::<(), LedgerError>(()) && final(token_slot)@ == v,
            Err(e) => r == Err::<(), LedgerError>(e) && *final(token_slot) == *old(token_slot),
        },
{
    match check_funding(
        token_slot.data.len(),
        token_slot.lamports,
        RecordKind::TokenAccount,
        rent_minimum,
    ) {
        Ok(_) => {},
        Err(e) => {
            return Err(e);
        },
    }
    let t = match decode_token_account(token_slot.data.as_slice()) {
        Ok(t) => t,
        Err(e) => {
            return Err(e);
        },
    };
    if t.is_initialized {
        return Err(LedgerError::AlreadyInitialized);
    }
    let t2 = TokenAccount { is_initialized: true, owner, amount: t.amount };
    let enc = encode_token_account(&t2);
    splice_record(&mut token_slot.data, enc);
    Ok(())
}

/// Mint new supply into a token account, on the mint authority's
/// signature; the mint slot itself is only read.
pub fn mint_to(
    mint_slot: &Slot,
    token_slot: &mut Slot,
    authority_signer: KeyId,
    amount: u64,
) -> (r: Result<(), LedgerError>)
    ensures
        match spec_mint_to(mint_slot@, old(token_slot)@, authority_signer, amount) {
            Ok(v) => r == Ok::<(), LedgerError>(()) && final(token_slot)@ == v,
            Err(e) => r == Err::<(), LedgerError>(e) && *final(token_slot) == *old(token_slot),
        },
{
    let m = match decode_mint(mint_slot.data.as_slice()) {
        Ok(m) => m,
        Err(e) => {
            return Err(e);
        },
    };
    if !m.is_initialized {
        return Err(LedgerError::UninitializedAccount);
    }
    match check_authority(&m.mint_authority, &authority_signer) {
        Ok(_) => {},
        Err(e) => {
            return Err(e);
        },
    }
    let t = match decode_token_account(token_slot.data.as_slice()) {
        Ok(t) => t,
        Err(e) => {
            return Err(e);
        },
    };
    if !t.is_initialized {
        return Err(LedgerError::UninitializedAccount);
    }
    if amount > u64::MAX - t.amount {
        return Err(LedgerError::Overflow);
    }
    let t2 = TokenAccount {
        is_initialized: t.is_initialized,
        owner: t.owner,
        amount: t.amount + amount,
    };
    let enc = encode_token_account(&t2);
    splice_record(&mut token_slot.data, enc);
    Ok(())
}

/// Move an amount between two token accounts, on the source owner's
/// signature; both writes are prepared before either slot is touched,
/// so a late failure leaves both unchanged.
pub fn transfer(
    source: &mut Slot,
    destination: &mut Slot,
    owner_signer: KeyId,
    amount: u64,
) -> (r: Result<(), LedgerError>)
    ensures
        match spec_transfer(old(source)@, old(destination)@, owner_signer, amount) {
            Ok(pair) => r == Ok::<(), LedgerError>(()) && final(source)@ == pair.0
                && final(destination)@ == pair.1,
            Err(e) => r == Err::<(), LedgerError>(e) && *final(source) == *old(source)
                && *final(destination) == *old(destination),
        },
{
    let s = match decode_token_account(source.data.as_slice()) {
        Ok(t) => t,
        Err(e) => {
            return Err(e);
        },
    };
    let d = match decode_token_account(destination.data.as_slice()) {
        Ok(t) => t,
        Err(e) => {
            return Err(e);
        },
    };
    if !s.is_initialized || !d.is_initialized {
        return Err(LedgerError::UninitializedAccount);
    }
    match check_authority(&Some(s.owner), &owner_signer) {
        Ok(_) => {},
        Err(e) => {
            return Err(e);
        },
    }
    if s.amount < amount {
        return Err(LedgerError::InsufficientFunds);
    }
    if amount > u64::MAX - d.amount {
        return Err(LedgerError::Overflow);
    }
    let s2 = TokenAccount {
        is_initialized: s.is_initialized,
        owner: s.owner,
        amount: s.amount - amount,
    };
    let d2 = TokenAccount {
        is_initialized: d.is_initialized,
        owner: d.owner,
        amount: d.amount + amount,
    };
    let enc_s = encode_token_account(&s2);
    let enc_d = encode_token_account(&d2);
    splice_record(&mut source.data, enc_s);
    splice_record(&mut destination.data, enc_d);
    Ok(())
}

/// One whole dispatcher step on the slot values: parse the
/// instruction, demand the exact slot count for its opcode, and apply
/// its operation, the roles of the slots fixed by position.
pub open spec fn spec_step(
    slots: Seq<SlotV>,
    instruction_data: Seq<u8>,
    rent: RentSchedule,
) -> Result<Seq<SlotV>, LedgerError> {
    match parse_instruction_spec(instruction_data) {
        Err(e) => Err(e),
        Ok(Instruction::CreateMint) => if slots.len() != 3 {
            Err(LedgerError::MissingAccount)
        } else {
            match spec_create_mint(slots[0], slots[1].key, slots[2].key, rent.mint_minimum) {
                Ok(v) => Ok(slots.update(0, v)),
                Err(e) => Err(e),
            }
        },
        Ok(Instruction::CreateTokenAccount) => if slots.len() != 2 {
            Err(LedgerError::MissingAccount)
        } else {
            match spec_create_token_account(slots[0], slots[1].key, rent.token_account_minimum) {
                Ok(v) => Ok(slots.update(0, v)),
                Err(e) => Err(e),
            }
        },
        Ok(Instruction::MintTo { amount }) => if slots.len() != 3 {
            Err(LedgerError::MissingAccount)
        } else {
            match spec_mint_to(slots[0], slots[1], slots[2].key, amount) {
                Ok(v) => Ok(slots.update(1, v)),
                Err(e) => Err(e),
            }
        },
        Ok(Instruction::Transfer { amount }) => if slots.len() != 3 {
            Err(LedgerError::MissingAccount)
        } else {
            match spec_transfer(slots[0], slots[1], slots[2].key, amount) {
                Ok(pair) => Ok(slots.update(0, pair.0).update(1, pair.1)),
                Err(e) => Err(e),
            }
        },
    }
}

/// Apply one instruction to the ordered slots, as [`spec_step`] says:
/// on success the slots hold the stepped values, on any failure the
/// error comes back with every slot byte-for-byte unchanged.
pub fn process_instruction(
    slots: &mut Vec<Slot>,
    instruction_data: &[u8],
    rent: RentSchedule,
) -> (r: Result<(), LedgerError>)
    ensures
        match spec_step(slot_views(old(slots)@), instruction_data@, rent) {
            Ok(s2) => r == Ok::<(), LedgerError>(()) && slot_views(final(slots)@) == s2,
            Err(e) => r == Err::<(), LedgerError>(e) && final(slots)@ == old(slots)@,
        },
{
    let instr = match parse_instruction(instruction_data) {
        Ok(i) => i,
        Err(e) => {
            return Err(e);
        },
    };
    match instr {
        Instruction::CreateMint => {
            if slots.len() != 3 {
                return Err(LedgerError::MissingAccount);
            }
            let ma = slots[1].key;
            let fa = slots[2].key;
            let slot0 = &mut slots[0];
            let r = create_mint(slot0, ma, fa, rent.mint_minimum);
            proof {
                if r is Ok {
                    assert(slot_views(slots@) =~= slot_views(old(slots)@).update(0, slots@[0]@));
                } else {
                    assert(slots@ =~= old(slots)@);
                }
            }
            r
        },
        Instruction::CreateTokenAccount => {
            if slots.len() != 2 {
                return Err(LedgerError::MissingAccount);
            }
            let owner = slots[1].key;
            let slot0 = &mut slots[0];
            let r = create_token_account(slot0, owner, rent.token_account_minimum);
            proof {
                if r is Ok {
                    assert(slot_views(slots@) =~= slot_views(old(slots)@).update(0, slots@[0]@));
                } else {
                    assert(slots@ =~= old(slots)@);
                }
            }
            r
        },
        Instruction::MintTo { amount } => {
            if slots.len() != 3 {
                return Err(LedgerError::MissingAccount);
            }
            let signer = slots[2].key;
            let mut tok = slots.remove(1);
            let r = mint_to(&slots[0], &mut tok, signer, amount);
            let ghost tv = tok@;
            slots.insert(1, tok);
            proof {
                if r is Ok {
                    assert(slot_views(slots@) =~= slot_views(old(slots)@).update(1, tv));
                } else {
                    assert(slots@ =~= old(slots)@);
                }
            }
            r
        },
        Instruction::Transfer { amount } => {
            if slots.len() != 3 {
                return Err(LedgerError::MissingAccount);
            }
            let signer = slots[2].key;
            let mut src = slots.remove(0);
            let mut dst = slots.remove(0);
            let r = transfer(&mut src, &mut dst, signer, amount);
            let ghost sv = src@;
            let ghost dv = dst@;
            slots.insert(0, dst);
            slots.insert(0, src);
            proof {
                if r is Ok {
                    assert(slot_views(slots@) =~= slot_views(old(slots)@).update(0, sv).update(
                        1,
                        dv,
                    ));
                } else {
                    assert(slots@ =~= old(slots)@);
                }
            }
            r
        },
    }
}

} // verus!
