//! Fixed-size binary encode and decode for the two record kinds.
//!
//! Wire layout, bit-exact:
//! - Mint: `[is_initialized: 1][authority present: 1][authority: 32]`
//!   `[freeze present: 1][freeze authority: 32]`, 67 bytes in all;
//! - TokenAccount: `[is_initialized: 1][owner: 32]`
//!   `[amount: 8, little endian]`, 41 bytes in all.
//!
//! A flag byte is 0 or 1 and nothing else; an absent authority is
//! encoded as flag 0 over an all-zero key.  Encoding is total and
//! canonical, decoding accepts exactly the encodings (with any trailing
//! bytes beyond the fixed size) and fails with `CorruptRecord`
//! otherwise, so `decode` after `encode` gives the value back.

use vstd::prelude::*;
use vstd::bytes::*;
use crate::LedgerError;
use crate::keys::{zero_key, KeyId};
use crate::records::{Mint, TokenAccount};

verus! {

/// Encoded size of a Mint record.
pub const MINT_LEN: usize = 67;

/// Encoded size of a TokenAccount record.
pub const TOKEN_ACCOUNT_LEN: usize = 41;

/// The 32-byte wire form of a key: its four words, each little endian.
pub open spec fn key_le_bytes(k: KeyId) -> Seq<u8> {
    spec_u64_to_le_bytes(k.w0) + spec_u64_to_le_bytes(k.w1) + spec_u64_to_le_bytes(k.w2)
        + spec_u64_to_le_bytes(k.w3)
}

/// The key whose wire form a 32-byte sequence is.
pub open spec fn key_from_bytes(b: Seq<u8>) -> KeyId
    recommends
        b.len() == 32,
{
    KeyId {
        w0: spec_u64_from_le_bytes(b.subrange(0, 8)),
        w1: spec_u64_from_le_bytes(b.subrange(8, 16)),
        w2: spec_u64_from_le_bytes(b.subrange(16, 24)),
        w3: spec_u64_from_le_bytes(b.subrange(24, 32)),
    }
}

/// The wire form of a boolean field.
pub open spec fn bool_byte(b: bool) -> u8 {
    if b {
        1u8
    } else {
        0u8
    }
}

/// The boolean a flag byte stands for; bytes other than 0 and 1 are
/// corrupt.
pub open spec fn byte_as_bool(x: u8) -> Option<bool> {
    if x == 0 {
        Some(false)
    } else if x == 1 {
        Some(true)
    } else {
        None
    }
}

/// The 33-byte wire form of an optional authority: a presence flag,
/// then the key, all zero when absent.
pub open spec fn opt_key_enc(o: Option<KeyId>) -> Seq<u8> {
    match o {
        Option::None => seq![0u8] + key_le_bytes(zero_key()),
        Option::Some(k) => seq![1u8] + key_le_bytes(k),
    }
}

/// The optional authority a 33-byte sequence stands for, or `None`
/// (the outer level) when the sequence is not an encoding.
pub open spec fn opt_key_dec(b: Seq<u8>) -> Option<Option<KeyId>>
    recommends
        b.len() == 33,
{
    if b[0] == 1 {
        Some(Some(key_from_bytes(b.subrange(1, 33))))
    } else if b[0] == 0 && key_from_bytes(b.subrange(1, 33)) == zero_key() {
        Some(None)
    } else {
        None
    }
}

/// The 67-byte wire form of a Mint record.
pub open spec fn mint_enc(m: Mint) -> Seq<u8> {
    seq![bool_byte(m.is_initialized)] + opt_key_enc(m.mint_authority) + opt_key_enc(
        m.freeze_authority,
    )
}

/// The Mint record a byte buffer holds, reading its first 67 bytes, or
/// `None` when the buffer is shorter or not an encoding.
pub open spec fn mint_dec(b: Seq<u8>) -> Option<Mint> {
    if b.len() < MINT_LEN {
        None
    } else {
        match (byte_as_bool(b[0]), opt_key_dec(b.subrange(1, 34)), opt_key_dec(
            b.subrange(34, 67),
        )) {
            (Some(init), Some(ma), Some(fa)) => Some(
                Mint { is_initialized: init, mint_authority: ma, freeze_authority: fa },
            ),
            _ => None,
        }
    }
}

/// The 41-byte wire form of a TokenAccount record.
pub open spec fn token_enc(t: TokenAccount) -> Seq<u8> {
    seq![bool_byte(t.is_initialized)] + key_le_bytes(t.owner) + spec_u64_to_le_bytes(t.amount)
}

/// The TokenAccount record a byte buffer holds, reading its first 41
/// bytes, or `None` when the buffer is shorter or not an encoding.
pub open spec fn token_dec(b: Seq<u8>) -> Option<TokenAccount> {
    if b.len() < TOKEN_ACCOUNT_LEN {
        None
    } else {
        match byte_as_bool(b[0]) {
            Some(init) => Some(
                TokenAccount {
                    is_initialized: init,
                    owner: key_from_bytes(b.subrange(1, 33)),
                    amount: spec_u64_from_le_bytes(b.subrange(33, 41)),
                },
            ),
            None => None,
        }
    }
}

/// A key's wire form is 32 bytes and decodes back to the key.
pub proof fn lemma_key_round_trip(k: KeyId)
    ensures
        key_le_bytes(k).len() == 32,
        key_from_bytes(key_le_bytes(k)) == k,
{
    lemma_auto_spec_u64_to_from_le_bytes();
    let b = key_le_bytes(k);
    assert(b.subrange(0, 8) =~= spec_u64_to_le_bytes(k.w0));
    assert(b.subrange(8, 16) =~= spec_u64_to_le_bytes(k.w1));
    assert(b.subrange(16, 24) =~= spec_u64_to_le_bytes(k.w2));
    assert(b.subrange(24, 32) =~= spec_u64_to_le_bytes(k.w3));
}

/// An optional authority's wire form is 33 bytes and decodes back to
/// the same value.
pub proof fn lemma_opt_key_round_trip(o: Option<KeyId>)
    ensures
        opt_key_enc(o).len() == 33,
        opt_key_dec(opt_key_enc(o)) == Some(o),
{
    lemma_auto_spec_u64_to_from_le_bytes();
    match o {
        Option::None => {
            lemma_key_round_trip(zero_key());
            let b = opt_key_enc(o);
            assert(b[0] == 0);
            assert(b.subrange(1, 33) =~= key_le_bytes(zero_key()));
        },
        Option::Some(k) => {
            lemma_key_round_trip(k);
            let b = opt_key_enc(o);
            assert(b[0] == 1);
            assert(b.subrange(1, 33) =~= key_le_bytes(k));
        },
    }
}

/// A Mint's wire form is 67 bytes and decodes back to the record, with
/// any trailing bytes after it in the buffer.
pub proof fn lemma_mint_round_trip_with_tail(m: Mint, rest: Seq<u8>)
    ensures
        mint_enc(m).len() == MINT_LEN,
        mint_dec(mint_enc(m) + rest) == Some(m),
{
    lemma_opt_key_round_trip(m.mint_authority);
    lemma_opt_key_round_trip(m.freeze_authority);
    let b = mint_enc(m) + rest;
    assert(b[0] == bool_byte(m.is_initialized));
    assert(b.subrange(1, 34) =~= opt_key_enc(m.mint_authority));
    assert(b.subrange(34, 67) =~= opt_key_enc(m.freeze_authority));
    assert(byte_as_bool(bool_byte(m.is_initialized)) == Some(m.is_initialized));
}

/// Round trip for Mint: decoding an encoding gives the record back.
pub proof fn lemma_mint_round_trip(m: Mint)
    ensures
        mint_dec(mint_enc(m)) == Some(m),
{
    lemma_mint_round_trip_with_tail(m, Seq::<u8>::empty());
    assert(mint_enc(m) + Seq::<u8>::empty() =~= mint_enc(m));
}

/// A TokenAccount's wire form is 41 bytes and decodes back to the
/// record, with any trailing bytes after it in the buffer.
pub proof fn lemma_token_round_trip_with_tail(t: TokenAccount, rest: Seq<u8>)
    ensures
        token_enc(t).len() == TOKEN_ACCOUNT_LEN,
        token_dec(token_enc(t) + rest) == Some(t),
{
    lemma_auto_spec_u64_to_from_le_bytes();
    lemma_key_round_trip(t.owner);
    let b = token_enc(t) + rest;
    assert(b[0] == bool_byte(t.is_initialized));
    assert(b.subrange(1, 33) =~= key_le_bytes(t.owner));
    assert(b.subrange(33, 41) =~= spec_u64_to_le_bytes(t.amount));
    assert(byte_as_bool(bool_byte(t.is_initialized)) == Some(t.is_initialized));
}

/// Round trip for TokenAccount: decoding an encoding gives the record
/// back.
pub proof fn lemma_token_round_trip(t: TokenAccount)
    ensures
        token_dec(token_enc(t)) == Some(t),
{
    lemma_token_round_trip_with_tail(t, Seq::<u8>::empty());
    assert(token_enc(t) + Seq::<u8>::empty() =~= token_enc(t));
}

/// A 32-byte sequence is the wire form of the key it decodes to:
/// encodings are canonical.
pub proof fn lemma_key_from_bytes_canonical(b: Seq<u8>)
    requires
        b.len() == 32,
    ensures
        key_le_bytes(key_from_bytes(b)) == b,
{
    lemma_auto_spec_u64_to_from_le_bytes();
    assert(b.subrange(0, 8).len() == 8);
    assert(b.subrange(8, 16).len() == 8);
    assert(b.subrange(16, 24).len() == 8);
    assert(b.subrange(24, 32).len() == 8);
    assert(key_le_bytes(key_from_bytes(b)) =~= b);
}

/// A 33-byte sequence that decodes to an optional authority is that
/// authority's wire form.
pub proof fn lemma_opt_key_canonical(b: Seq<u8>)
    requires
        b.len() == 33,
    ensures
        match opt_key_dec(b) {
            Some(o) => opt_key_enc(o) == b,
            None => true,
        },
{
    if opt_key_dec(b) is Some {
        lemma_key_from_bytes_canonical(b.subrange(1, 33));
        match opt_key_dec(b) {
            Some(o) => {
                assert(opt_key_enc(o) =~= b);
            },
            None => {},
        }
    }
}

/// No padding ambiguity for Mint: whatever buffer a record was decoded
/// from, re-encoding the record reproduces the buffer's first 67 bytes.
pub proof fn lemma_mint_enc_canonical(b: Seq<u8>)
    ensures
        match mint_dec(b) {
            Some(m) => mint_enc(m) == b.subrange(0, MINT_LEN as int),
            None => true,
        },
{
    if mint_dec(b) is Some {
        lemma_opt_key_canonical(b.subrange(1, 34));
        lemma_opt_key_canonical(b.subrange(34, 67));
        match mint_dec(b) {
            Some(m) => {
                assert(mint_enc(m) =~= b.subrange(0, MINT_LEN as int));
            },
            None => {},
        }
    }
}

/// No padding ambiguity for TokenAccount, as for Mint.
pub proof fn lemma_token_enc_canonical(b: Seq<u8>)
    ensures
        match token_dec(b) {
            Some(t) => token_enc(t) == b.subrange(0, TOKEN_ACCOUNT_LEN as int),
            None => true,
        },
{
    if token_dec(b) is Some {
        lemma_auto_spec_u64_to_from_le_bytes();
        lemma_key_from_bytes_canonical(b.subrange(1, 33));
        assert(b.subrange(33, 41).len() == 8);
        match token_dec(b) {
            Some(t) => {
                assert(token_enc(t) =~= b.subrange(0, TOKEN_ACCOUNT_LEN as int));
            },
            None => {},
        }
    }
}

/// One little-endian word read from the buffer at the given offset.
pub(crate) fn read_word(b: &[u8], off: usize) -> (w: u64)
    requires
        off + 8 <= b@.len(),
    ensures
        w == spec_u64_from_le_bytes(b@.subrange(off as int, off as int + 8)),
{
    proof {
        vstd::slice::axiom_spec_len(b);
    }
    u64_from_le_bytes(vstd::slice::slice_subrange(b, off, off + 8))
}

/// The key whose 32-byte wire form starts at the given offset.
fn read_key(b: &[u8], off: usize) -> (k: KeyId)
    requires
        off + 32 <= b@.len(),
    ensures
        k == key_from_bytes(b@.subrange(off as int, off as int + 32)),
{
    proof {
        vstd::slice::axiom_spec_len(b);
    }
    let w0 = read_word(b, off);
    let w1 = read_word(b, off + 8);
    let w2 = read_word(b, off + 16);
    let w3 = read_word(b, off + 24);
    proof {
        let s = b@.subrange(off as int, off as int + 32);
        assert(s.subrange(0, 8) =~= b@.subrange(off as int, off as int + 8));
        assert(s.subrange(8, 16) =~= b@.subrange(off as int + 8, off as int + 16));
        assert(s.subrange(16, 24) =~= b@.subrange(off as int + 16, off as int + 24));
        assert(s.subrange(24, 32) =~= b@.subrange(off as int + 24, off as int + 32));
    }
    KeyId { w0, w1, w2, w3 }
}

/// The optional authority whose 33-byte wire form starts at the given
/// offset.
fn read_opt_key(b: &[u8], off: usize) -> (r: Result<Option<KeyId>, LedgerError>)
    requires
        off + 33 <= b@.len(),
    ensures
        match opt_key_dec(b@.subrange(off as int, off as int + 33)) {
            Some(o) => r == Ok::<Option<KeyId>, LedgerError>(o),
            None => r == Err::<Option<KeyId>, LedgerError>(LedgerError::CorruptRecord),
        },
{
    proof {
        vstd::slice::axiom_spec_len(b);
    }
    let flag = *vstd::slice::slice_index_get(b, off);
    let k = read_key(b, off + 1);
    proof {
        let s = b@.subrange(off as int, off as int + 33);
        assert(s[0] == b@[off as int]);
        assert(s.subrange(1, 33) =~= b@.subrange(off as int + 1, off as int + 33));
    }
    if flag == 1 {
        Ok(Some(k))
    } else if flag == 0 {
        if k.w0 == 0 && k.w1 == 0 && k.w2 == 0 && k.w3 == 0 {
            Ok(None)
        } else {
            Err(LedgerError::CorruptRecord)
        }
    } else {
        Err(LedgerError::CorruptRecord)
    }
}

/// Decode a Mint record from a slot's bytes.
pub fn decode_mint(b: &[u8]) -> (r: Result<Mint, LedgerError>)
    ensures
        match mint_dec(b@) {
            Some(m) => r == Ok::<Mint, LedgerError>(m),
            None => r == Err::<Mint, LedgerError>(LedgerError::CorruptRecord),
        },
{
    if b.len() < MINT_LEN {
        return Err(LedgerError::CorruptRecord);
    }
    let flag = *vstd::slice::slice_index_get(b, 0);
    if flag > 1 {
        return Err(LedgerError::CorruptRecord);
    }
    let ma = match read_opt_key(b, 1) {
        Ok(o) => o,
        Err(e) => {
            return Err(e);
        },
    };
    let fa = match read_opt_key(b, 34) {
        Ok(o) => o,
        Err(e) => {
            return Err(e);
        },
    };
    Ok(Mint { is_initialized: flag == 1, mint_authority: ma, freeze_authority: fa })
}

/// Decode a TokenAccount record from a slot's bytes.
pub fn decode_token_account(b: &[u8]) -> (r: Result<TokenAccount, LedgerError>)
    ensures
        match token_dec(b@) {
            Some(t) => r == Ok::<TokenAccount, LedgerError>(t),
            None => r == Err::<TokenAccount, LedgerError>(LedgerError::CorruptRecord),
        },
{
    if b.len() < TOKEN_ACCOUNT_LEN {
        return Err(LedgerError::CorruptRecord);
    }
    let flag = *vstd::slice::slice_index_get(b, 0);
    if flag > 1 {
        return Err(LedgerError::CorruptRecord);
    }
    let owner = read_key(b, 1);
    let amount = read_word(b, 33);
    Ok(TokenAccount { is_initialized: flag == 1, owner, amount })
}

/// Append a key's 32-byte wire form.
fn push_key(out: &mut Vec<u8>, k: &KeyId)
    ensures
        final(out)@ == old(out)@ + key_le_bytes(*k),
{
    let mut b0 = u64_to_le_bytes(k.w0);
    out.append(&mut b0);
    let mut b1 = u64_to_le_bytes(k.w1);
    out.append(&mut b1);
    let mut b2 = u64_to_le_bytes(k.w2);
    out.append(&mut b2);
    let mut b3 = u64_to_le_bytes(k.w3);
    out.append(&mut b3);
    proof {
        assert(out@ =~= old(out)@ + key_le_bytes(*k));
    }
}

/// Append an optional authority's 33-byte wire form.
fn push_opt_key(out: &mut Vec<u8>, o: &Option<KeyId>)
    ensures
        final(out)@ == old(out)@ + opt_key_enc(*o),
{
    match o {
        Option::Some(k) => {
            out.push(1u8);
            push_key(out, k);
        },
        Option::None => {
            out.push(0u8);
            let z = KeyId::zero();
            push_key(out, &z);
        },
    }
    proof {
        assert(out@ =~= old(out)@ + opt_key_enc(*o));
    }
}

/// Encode a Mint record into its 67-byte wire form.
pub fn encode_mint(m: &Mint) -> (r: Vec<u8>)
    ensures
        r@ == mint_enc(*m),
        r@.len() == MINT_LEN,
{
    let mut out: Vec<u8> = Vec::new();
    if m.is_initialized {
        out.push(1u8);
    } else {
        out.push(0u8);
    }
    push_opt_key(&mut out, &m.mint_authority);
    push_opt_key(&mut out, &m.freeze_authority);
    proof {
        lemma_opt_key_round_trip(m.mint_authority);
        lemma_opt_key_round_trip(m.freeze_authority);
        assert(out@ =~= mint_enc(*m));
    }
    out
}

/// Encode a TokenAccount record into its 41-byte wire form.
pub fn encode_token_account(t: &TokenAccount) -> (r: Vec<u8>)
    ensures
        r@ == token_enc(*t),
        r@.len() == TOKEN_ACCOUNT_LEN,
{
    let mut out: Vec<u8> = Vec::new();
    if t.is_initialized {
        out.push(1u8);
    } else {
        out.push(0u8);
    }
    push_key(&mut out, &t.owner);
    let mut ab = u64_to_le_bytes(t.amount);
    out.append(&mut ab);
    proof {
        lemma_key_round_trip(t.owner);
        vstd::bytes::lemma_auto_spec_u64_to_from_le_bytes();
        assert(out@ =~= token_enc(*t));
    }
    out
}

} // verus!
