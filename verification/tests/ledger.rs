use token_ledger::codec::{
    decode_mint, decode_token_account, encode_mint, encode_token_account, MINT_LEN,
    TOKEN_ACCOUNT_LEN,
};
use token_ledger::dispatch::{
    create_mint, create_token_account, mint_to, parse_instruction, process_instruction, transfer,
    Instruction, RentSchedule, Slot,
};
use token_ledger::guard::{check_authority, check_funding};
use token_ledger::keys::KeyId;
use token_ledger::records::{Mint, RecordKind, TokenAccount};
use token_ledger::LedgerError;

fn key(n: u64) -> KeyId {
    KeyId { w0: n, w1: n.wrapping_mul(3), w2: 11, w3: n ^ 7 }
}

fn fresh_slot(k: KeyId, lamports: u64, len: usize) -> Slot {
    Slot { key: k, lamports, data: vec![0u8; len] }
}

fn rent() -> RentSchedule {
    RentSchedule { mint_minimum: 500, token_account_minimum: 300 }
}

fn mint_instruction(opcode: u8, amount: u64) -> Vec<u8> {
    let mut d = vec![opcode];
    d.extend_from_slice(&amount.to_le_bytes());
    d
}

fn initialized_token_slot(k: KeyId, owner: KeyId, amount: u64, lamports: u64) -> Slot {
    let t = TokenAccount { is_initialized: true, owner, amount };
    Slot { key: k, lamports, data: encode_token_account(&t) }
}

fn initialized_mint_slot(k: KeyId, authority: KeyId, freeze: KeyId, lamports: u64) -> Slot {
    let m = Mint {
        is_initialized: true,
        mint_authority: Some(authority),
        freeze_authority: Some(freeze),
    };
    Slot { key: k, lamports, data: encode_mint(&m) }
}

#[test]
fn mint_round_trips_through_codec() {
    let cases = [
        Mint { is_initialized: false, mint_authority: None, freeze_authority: None },
        Mint {
            is_initialized: true,
            mint_authority: Some(key(1)),
            freeze_authority: Some(key(2)),
        },
        Mint { is_initialized: false, mint_authority: Some(key(9)), freeze_authority: None },
    ];
    for m in cases {
        let bytes = encode_mint(&m);
        assert_eq!(bytes.len(), MINT_LEN);
        assert_eq!(decode_mint(&bytes), Ok(m));
    }
}

#[test]
fn token_account_round_trips_through_codec() {
    let cases = [
        TokenAccount { is_initialized: false, owner: key(0), amount: 0 },
        TokenAccount { is_initialized: true, owner: key(4), amount: 123456789 },
        TokenAccount { is_initialized: true, owner: key(5), amount: u64::MAX },
    ];
    for t in cases {
        let bytes = encode_token_account(&t);
        assert_eq!(bytes.len(), TOKEN_ACCOUNT_LEN);
        assert_eq!(decode_token_account(&bytes), Ok(t));
    }
}

#[test]
fn token_account_encoding_is_little_endian() {
    let t = TokenAccount { is_initialized: true, owner: key(0), amount: 0x0102030405060708 };
    let bytes = encode_token_account(&t);
    assert_eq!(&bytes[33..41], &[8, 7, 6, 5, 4, 3, 2, 1]);
}

#[test]
fn encodings_are_canonical() {
    // A hand-built buffer that decodes must re-encode to its own prefix.
    let mut b = vec![0u8; MINT_LEN + 3];
    b[0] = 1;
    b[1] = 1;
    for (i, v) in (2..34).zip(10..42) {
        b[i] = v;
    }
    // freeze authority left absent: flag 0, zero key
    let m = decode_mint(&b).unwrap();
    assert_eq!(encode_mint(&m), &b[..MINT_LEN]);

    let mut b = vec![0u8; TOKEN_ACCOUNT_LEN];
    b[0] = 1;
    for (i, v) in (1..33).zip(100..132) {
        b[i] = v;
    }
    b[33] = 200;
    b[40] = 5;
    let t = decode_token_account(&b).unwrap();
    assert_eq!(encode_token_account(&t), b);
}

#[test]
fn decode_rejects_short_buffers() {
    assert_eq!(decode_mint(&vec![0u8; MINT_LEN - 1]), Err(LedgerError::CorruptRecord));
    assert_eq!(
        decode_token_account(&vec![0u8; TOKEN_ACCOUNT_LEN - 1]),
        Err(LedgerError::CorruptRecord)
    );
}

#[test]
fn decode_accepts_trailing_bytes() {
    let m = Mint { is_initialized: true, mint_authority: Some(key(3)), freeze_authority: Some(key(4)) };
    let mut bytes = encode_mint(&m);
    bytes.extend_from_slice(&[0xAB; 10]);
    assert_eq!(decode_mint(&bytes), Ok(m));
}

#[test]
fn decode_rejects_bad_flag_bytes() {
    let mut b = vec![0u8; MINT_LEN];
    b[0] = 2;
    assert_eq!(decode_mint(&b), Err(LedgerError::CorruptRecord));

    let mut b = vec![0u8; MINT_LEN];
    b[1] = 7; // authority presence flag out of range
    assert_eq!(decode_mint(&b), Err(LedgerError::CorruptRecord));

    let mut b = vec![0u8; MINT_LEN];
    b[5] = 1; // authority absent but key bytes not zero
    assert_eq!(decode_mint(&b), Err(LedgerError::CorruptRecord));

    let mut b = vec![0u8; TOKEN_ACCOUNT_LEN];
    b[0] = 255;
    assert_eq!(decode_token_account(&b), Err(LedgerError::CorruptRecord));
}

#[test]
fn parse_instruction_decodes_each_opcode() {
    assert_eq!(parse_instruction(&[0]), Ok(Instruction::CreateMint));
    assert_eq!(parse_instruction(&[1]), Ok(Instruction::CreateTokenAccount));
    assert_eq!(parse_instruction(&mint_instruction(2, 1)), Ok(Instruction::MintTo { amount: 1 }));
    assert_eq!(
        parse_instruction(&[2, 0, 1, 0, 0, 0, 0, 0, 0]),
        Ok(Instruction::MintTo { amount: 256 })
    );
    assert_eq!(
        parse_instruction(&mint_instruction(3, 987654321)),
        Ok(Instruction::Transfer { amount: 987654321 })
    );
}

#[test]
fn parse_instruction_rejects_bad_shapes() {
    assert_eq!(parse_instruction(&[]), Err(LedgerError::MalformedPayload));
    assert_eq!(parse_instruction(&[4]), Err(LedgerError::UnknownInstruction));
    assert_eq!(parse_instruction(&[255, 1, 2]), Err(LedgerError::UnknownInstruction));
    assert_eq!(parse_instruction(&[0, 9]), Err(LedgerError::MalformedPayload));
    assert_eq!(parse_instruction(&[1, 0, 0]), Err(LedgerError::MalformedPayload));
    assert_eq!(parse_instruction(&[2, 1, 2, 3]), Err(LedgerError::MalformedPayload));
    assert_eq!(parse_instruction(&[3, 1, 2, 3, 4, 5, 6, 7, 8, 9]), Err(LedgerError::MalformedPayload));
}

#[test]
fn check_authority_matches_exactly() {
    assert_eq!(check_authority(&Some(key(1)), &key(1)), Ok(()));
    assert_eq!(check_authority(&Some(key(1)), &key(2)), Err(LedgerError::IncorrectAuthority));
    assert_eq!(check_authority(&None, &key(1)), Err(LedgerError::IncorrectAuthority));
}

#[test]
fn check_funding_orders_its_two_gates() {
    // Too small wins over underfunded, whatever the balance.
    assert_eq!(
        check_funding(MINT_LEN - 1, 0, RecordKind::Mint, 500),
        Err(LedgerError::AccountTooSmall)
    );
    assert_eq!(
        check_funding(MINT_LEN - 1, u64::MAX, RecordKind::Mint, 500),
        Err(LedgerError::AccountTooSmall)
    );
    assert_eq!(
        check_funding(MINT_LEN, 499, RecordKind::Mint, 500),
        Err(LedgerError::InsufficientFunds)
    );
    assert_eq!(check_funding(MINT_LEN, 500, RecordKind::Mint, 500), Ok(()));
    assert_eq!(
        check_funding(TOKEN_ACCOUNT_LEN, 299, RecordKind::TokenAccount, 300),
        Err(LedgerError::InsufficientFunds)
    );
    assert_eq!(check_funding(TOKEN_ACCOUNT_LEN + 10, 300, RecordKind::TokenAccount, 300), Ok(()));
}

#[test]
fn create_mint_initializes_fresh_slot() {
    let mut slot = fresh_slot(key(10), 1000, MINT_LEN);
    assert_eq!(create_mint(&mut slot, key(1), key(2), 500), Ok(()));
    let m = decode_mint(&slot.data).unwrap();
    assert!(m.is_initialized);
    assert_eq!(m.mint_authority, Some(key(1)));
    assert_eq!(m.freeze_authority, Some(key(2)));
}

#[test]
fn create_mint_funding_gates() {
    // Slot too small, regardless of funding.
    let mut small = fresh_slot(key(10), u64::MAX, MINT_LEN - 1);
    let before = small.data.clone();
    assert_eq!(create_mint(&mut small, key(1), key(2), 500), Err(LedgerError::AccountTooSmall));
    assert_eq!(small.data, before);

    // Underfunded slot of the right size.
    let mut poor = fresh_slot(key(10), 499, MINT_LEN);
    let before = poor.data.clone();
    assert_eq!(create_mint(&mut poor, key(1), key(2), 500), Err(LedgerError::InsufficientFunds));
    assert_eq!(poor.data, before);
}

#[test]
fn create_mint_rejects_double_init() {
    let mut slot = fresh_slot(key(10), 1000, MINT_LEN + 5);
    assert_eq!(create_mint(&mut slot, key(1), key(2), 500), Ok(()));
    let before = slot.data.clone();
    assert_eq!(create_mint(&mut slot, key(3), key(4), 500), Err(LedgerError::AlreadyInitialized));
    assert_eq!(slot.data, before);
}

#[test]
fn create_token_account_initializes_and_keeps_amount() {
    let mut slot = fresh_slot(key(20), 1000, TOKEN_ACCOUNT_LEN);
    assert_eq!(create_token_account(&mut slot, key(7), 300), Ok(()));
    let t = decode_token_account(&slot.data).unwrap();
    assert!(t.is_initialized);
    assert_eq!(t.owner, key(7));
    assert_eq!(t.amount, 0);
}

#[test]
fn create_token_account_funding_gates() {
    let mut small = fresh_slot(key(20), u64::MAX, TOKEN_ACCOUNT_LEN - 1);
    assert_eq!(
        create_token_account(&mut small, key(7), 300),
        Err(LedgerError::AccountTooSmall)
    );
    let mut poor = fresh_slot(key(20), 299, TOKEN_ACCOUNT_LEN);
    assert_eq!(
        create_token_account(&mut poor, key(7), 300),
        Err(LedgerError::InsufficientFunds)
    );
}

#[test]
fn create_token_account_rejects_double_init() {
    let mut slot = initialized_token_slot(key(20), key(7), 42, 1000);
    let before = slot.data.clone();
    assert_eq!(create_token_account(&mut slot, key(8), 300), Err(LedgerError::AlreadyInitialized));
    assert_eq!(slot.data, before);
}

#[test]
fn mint_to_credits_the_account() {
    let mint_slot = initialized_mint_slot(key(30), key(1), key(2), 1000);
    let mut acct = initialized_token_slot(key(31), key(7), 0, 1000);
    assert_eq!(mint_to(&mint_slot, &mut acct, key(1), 100), Ok(()));
    assert_eq!(decode_token_account(&acct.data).unwrap().amount, 100);
}

#[test]
fn mint_to_enforces_authority() {
    let mint_slot = initialized_mint_slot(key(30), key(1), key(2), 1000);
    let mut acct = initialized_token_slot(key(31), key(7), 5, 1000);
    let before = acct.data.clone();
    assert_eq!(
        mint_to(&mint_slot, &mut acct, key(2), 100),
        Err(LedgerError::IncorrectAuthority)
    );
    assert_eq!(acct.data, before);
}

#[test]
fn mint_to_requires_initialized_records() {
    let uninit_mint = fresh_slot(key(30), 1000, MINT_LEN);
    let mut acct = initialized_token_slot(key(31), key(7), 5, 1000);
    assert_eq!(
        mint_to(&uninit_mint, &mut acct, key(1), 1),
        Err(LedgerError::UninitializedAccount)
    );

    let mint_slot = initialized_mint_slot(key(30), key(1), key(2), 1000);
    let mut uninit_acct = fresh_slot(key(31), 1000, TOKEN_ACCOUNT_LEN);
    assert_eq!(
        mint_to(&mint_slot, &mut uninit_acct, key(1), 1),
        Err(LedgerError::UninitializedAccount)
    );
}

#[test]
fn mint_to_rejects_overflow() {
    let mint_slot = initialized_mint_slot(key(30), key(1), key(2), 1000);
    let mut acct = initialized_token_slot(key(31), key(7), u64::MAX - 1, 1000);
    let before = acct.data.clone();
    assert_eq!(mint_to(&mint_slot, &mut acct, key(1), 2), Err(LedgerError::Overflow));
    assert_eq!(acct.data, before);
    assert_eq!(mint_to(&mint_slot, &mut acct, key(1), 1), Ok(()));
    assert_eq!(decode_token_account(&acct.data).unwrap().amount, u64::MAX);
}

#[test]
fn transfer_moves_the_amount() {
    let mut src = initialized_token_slot(key(40), key(7), 100, 1000);
    let mut dst = initialized_token_slot(key(41), key(8), 0, 1000);
    assert_eq!(transfer(&mut src, &mut dst, key(7), 40), Ok(()));
    assert_eq!(decode_token_account(&src.data).unwrap().amount, 60);
    assert_eq!(decode_token_account(&dst.data).unwrap().amount, 40);
}

#[test]
fn transfer_enforces_owner_signature() {
    let mut src = initialized_token_slot(key(40), key(7), 100, 1000);
    let mut dst = initialized_token_slot(key(41), key(8), 0, 1000);
    let before_src = src.data.clone();
    let before_dst = dst.data.clone();
    assert_eq!(
        transfer(&mut src, &mut dst, key(8), 1),
        Err(LedgerError::IncorrectAuthority)
    );
    assert_eq!(src.data, before_src);
    assert_eq!(dst.data, before_dst);
}

#[test]
fn transfer_rejects_overdraft_and_leaves_bytes_alone() {
    let mut src = initialized_token_slot(key(40), key(7), 39, 1000);
    let mut dst = initialized_token_slot(key(41), key(8), 5, 1000);
    let before_src = src.data.clone();
    let before_dst = dst.data.clone();
    assert_eq!(
        transfer(&mut src, &mut dst, key(7), 40),
        Err(LedgerError::InsufficientFunds)
    );
    assert_eq!(src.data, before_src);
    assert_eq!(dst.data, before_dst);
}

#[test]
fn transfer_overflow_leaves_both_unchanged() {
    let mut src = initialized_token_slot(key(40), key(7), 100, 1000);
    let mut dst = initialized_token_slot(key(41), key(8), u64::MAX - 10, 1000);
    let before_src = src.data.clone();
    let before_dst = dst.data.clone();
    assert_eq!(transfer(&mut src, &mut dst, key(7), 11), Err(LedgerError::Overflow));
    assert_eq!(src.data, before_src);
    assert_eq!(dst.data, before_dst);
}

#[test]
fn transfers_conserve_the_total() {
    let mut a = initialized_token_slot(key(40), key(7), 100, 1000);
    let mut b = initialized_token_slot(key(41), key(8), 23, 1000);
    let total = 123u64;
    let moves: [(bool, u64, u64); 6] = [
        (true, 7, 40),
        (false, 8, 3),
        (true, 7, 1),
        (false, 8, 60),
        (true, 7, 200), // overdraft, must fail and change nothing
        (true, 7, 17),
    ];
    for (a_to_b, signer, amount) in moves {
        let r = if a_to_b {
            transfer(&mut a, &mut b, key(signer), amount)
        } else {
            transfer(&mut b, &mut a, key(signer), amount)
        };
        let _ = r;
        let av = decode_token_account(&a.data).unwrap().amount;
        let bv = decode_token_account(&b.data).unwrap().amount;
        assert_eq!(av + bv, total);
    }
}

#[test]
fn process_instruction_runs_the_whole_scenario() {
    // Create Mint M with authority A and freeze authority F.
    let a = key(1);
    let f = key(2);
    let o = key(7);
    let p = key(8);
    let x = key(9);

    let mut slots = vec![
        fresh_slot(key(100), 1000, MINT_LEN),
        fresh_slot(a, 0, 0),
        fresh_slot(f, 0, 0),
    ];
    assert_eq!(process_instruction(&mut slots, &[0], rent()), Ok(()));
    let mint_slot = slots.remove(0);
    assert!(decode_mint(&mint_slot.data).unwrap().is_initialized);

    // Create token accounts for owners O and P.
    let mut slots = vec![fresh_slot(key(101), 1000, TOKEN_ACCOUNT_LEN), fresh_slot(o, 0, 0)];
    assert_eq!(process_instruction(&mut slots, &[1], rent()), Ok(()));
    let acct_o = slots.remove(0);

    let mut slots = vec![fresh_slot(key(102), 1000, TOKEN_ACCOUNT_LEN), fresh_slot(p, 0, 0)];
    assert_eq!(process_instruction(&mut slots, &[1], rent()), Ok(()));
    let acct_p = slots.remove(0);

    // MintTo(M, acct_O, signer=A, amount=100).
    let mut slots = vec![mint_slot, acct_o, fresh_slot(a, 0, 0)];
    assert_eq!(process_instruction(&mut slots, &mint_instruction(2, 100), rent()), Ok(()));
    let mint_slot = slots.remove(0);
    let acct_o = slots.remove(0);
    assert_eq!(decode_token_account(&acct_o.data).unwrap().amount, 100);

    // Transfer(acct_O, acct_P, signer=O, amount=40).
    let mut slots = vec![acct_o, acct_p, fresh_slot(o, 0, 0)];
    assert_eq!(process_instruction(&mut slots, &mint_instruction(3, 40), rent()), Ok(()));
    let acct_o = slots.remove(0);
    let acct_p = slots.remove(0);
    assert_eq!(decode_token_account(&acct_o.data).unwrap().amount, 60);
    assert_eq!(decode_token_account(&acct_p.data).unwrap().amount, 40);

    // The mint itself was only read.
    assert!(decode_mint(&mint_slot.data).unwrap().is_initialized);

    // Transfer signed by X != O fails and changes nothing.
    let mut slots = vec![acct_o, acct_p, fresh_slot(x, 0, 0)];
    assert_eq!(
        process_instruction(&mut slots, &mint_instruction(3, 1), rent()),
        Err(LedgerError::IncorrectAuthority)
    );
    assert_eq!(decode_token_account(&slots[0].data).unwrap().amount, 60);
    assert_eq!(decode_token_account(&slots[1].data).unwrap().amount, 40);
}

#[test]
fn process_instruction_demands_the_slot_count() {
    let mut slots = vec![fresh_slot(key(1), 1000, MINT_LEN)];
    assert_eq!(
        process_instruction(&mut slots, &[0], rent()),
        Err(LedgerError::MissingAccount)
    );

    let mut slots = vec![
        fresh_slot(key(1), 1000, TOKEN_ACCOUNT_LEN),
        fresh_slot(key(2), 0, 0),
        fresh_slot(key(3), 0, 0),
    ];
    assert_eq!(
        process_instruction(&mut slots, &[1], rent()),
        Err(LedgerError::MissingAccount)
    );

    let mut slots = vec![fresh_slot(key(1), 1000, MINT_LEN), fresh_slot(key(2), 0, 0)];
    assert_eq!(
        process_instruction(&mut slots, &mint_instruction(2, 1), rent()),
        Err(LedgerError::MissingAccount)
    );
    assert_eq!(
        process_instruction(&mut slots, &mint_instruction(3, 1), rent()),
        Err(LedgerError::MissingAccount)
    );
}

#[test]
fn process_instruction_surfaces_parse_and_codec_errors() {
    let mut slots = vec![
        fresh_slot(key(1), 1000, MINT_LEN),
        fresh_slot(key(2), 0, 0),
        fresh_slot(key(3), 0, 0),
    ];
    assert_eq!(
        process_instruction(&mut slots, &[42], rent()),
        Err(LedgerError::UnknownInstruction)
    );
    assert_eq!(
        process_instruction(&mut slots, &[2, 1], rent()),
        Err(LedgerError::MalformedPayload)
    );

    // A mint slot whose bytes are not a record.
    let mut bad = vec![0u8; MINT_LEN];
    bad[0] = 9;
    let mut slots = vec![
        Slot { key: key(1), lamports: 1000, data: bad.clone() },
        fresh_slot(key(2), 0, 0),
        fresh_slot(key(3), 0, 0),
    ];
    assert_eq!(
        process_instruction(&mut slots, &[0], rent()),
        Err(LedgerError::CorruptRecord)
    );
    assert_eq!(slots[0].data, bad);
}
