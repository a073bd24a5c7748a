//! The token program's account layout, as far as the protocol reads it.
//!
//! A token account is 165 bytes owned by the token program: the mint in
//! bytes 0..32, the holder in bytes 32..64, the balance as a little-endian
//! integer in bytes 64..72, and the state byte at offset 108.
use crate::account::Account;
use crate::bytes::{append_bytes, append_zeros, zeros};
use crate::pubkey::{is_token_program, read_pubkey, token_program_id};
use pinocchio::program_error::ProgramError;
use pinocchio::pubkey::Pubkey;
use vstd::bytes::{
    lemma_auto_spec_u64_to_from_le_bytes, spec_u64_from_le_bytes, spec_u64_to_le_bytes,
    u64_from_le_bytes, u64_to_le_bytes,
};
use vstd::prelude::*;
use vstd::slice::slice_subrange;

verus! {

/// The size of a mint account's data.
pub const MINT_LEN: usize = 82;

/// The size of a token account's data.
pub const TOKEN_ACCOUNT_LEN: usize = 165;

/// The mint recorded in a token account's data.
pub open spec fn spec_mint(data: Seq<u8>) -> Seq<u8> {
    data.subrange(0, 32)
}

/// The holder recorded in a token account's data.
pub open spec fn spec_owner(data: Seq<u8>) -> Seq<u8> {
    data.subrange(32, 64)
}

/// The balance recorded in a token account's data.
pub open spec fn spec_amount(data: Seq<u8>) -> u64 {
    spec_u64_from_le_bytes(data.subrange(64, 72))
}

/// An account is a token account when the token program owns it and its data
/// has the token account's size.
pub open spec fn is_token_account(owner: Pubkey, data: Seq<u8>) -> bool {
    data.len() == 165 && owner@ == token_program_id()
}

/// `data` with the balance replaced by `amount`.
pub open spec fn spec_with_amount(data: Seq<u8>, amount: u64) -> Seq<u8> {
    data.subrange(0, 64) + spec_u64_to_le_bytes(amount) + data.subrange(72, data.len() as int)
}

/// The data of an initialised token account of `mint`, held by `owner`, with
/// balance `amount` and neither delegate nor close authority.
pub open spec fn spec_pack(mint: Pubkey, owner: Pubkey, amount: u64) -> Seq<u8> {
    mint@ + owner@ + spec_u64_to_le_bytes(amount) + zeros(36) + seq![1u8] + zeros(56)
}

/// What the protocol reads of a token account.
#[derive(Clone, Copy, Debug, PartialEq, Eq)]
pub struct TokenAccount {
    /// The asset that the account holds.
    pub mint: Pubkey,
    /// The address entitled to move the balance.
    pub owner: Pubkey,
    /// The balance.
    pub amount: u64,
}

impl TokenAccount {
    /// Reads a token account. Fails with `InvalidAccountData` unless the
    /// account has the token account's size and the token program owns it.
    pub fn load(account: &Account) -> (r: Result<TokenAccount, ProgramError>)
        ensures
            match r {
                Ok(t) => {
                    &&& is_token_account(account.owner, account.data@)
                    &&& t.mint@ == spec_mint(account.data@)
                    &&& t.owner@ == spec_owner(account.data@)
                    &&& t.amount == spec_amount(account.data@)
                },
                Err(e) => {
                    &&& !is_token_account(account.owner, account.data@)
                    &&& e == ProgramError::InvalidAccountData
                },
            },
    {
        if account.data.len() != TOKEN_ACCOUNT_LEN {
            return Err(ProgramError::InvalidAccountData);
        }
        if !is_token_program(&account.owner) {
            return Err(ProgramError::InvalidAccountData);
        }
        let data = account.data.as_slice();
        Ok(
            TokenAccount {
                mint: read_pubkey(data, 0),
                owner: read_pubkey(data, 32),
                amount: u64_from_le_bytes(slice_subrange(data, 64, 72)),
            },
        )
    }

    /// The data of an initialised token account with these contents.
    pub fn pack(&self) -> (r: Vec<u8>)
        ensures
            r@ == spec_pack(self.mint, self.owner, self.amount),
    {
        let mut out: Vec<u8> = Vec::new();
        append_bytes(&mut out, self.mint.as_slice());
        append_bytes(&mut out, self.owner.as_slice());
        let amount = u64_to_le_bytes(self.amount);
        append_bytes(&mut out, amount.as_slice());
        append_zeros(&mut out, 36);
        out.push(1u8);
        append_zeros(&mut out, 56);
        assert(out@ =~= spec_pack(self.mint, self.owner, self.amount));
        out
    }
}

/// A copy of the token account data `data` with the balance set to `amount`.
pub fn with_amount(data: &Vec<u8>, amount: u64) -> (r: Vec<u8>)
    requires
        data@.len() >= 72,
    ensures
        r@ == spec_with_amount(data@, amount),
{
    let src = data.as_slice();
    let mut out: Vec<u8> = Vec::new();
    append_bytes(&mut out, slice_subrange(src, 0, 64));
    let bytes = u64_to_le_bytes(amount);
    append_bytes(&mut out, bytes.as_slice());
    append_bytes(&mut out, slice_subrange(src, 72, src.len()));
    out
}

/// Packing a token account stores each field where reading looks for it.
pub proof fn lemma_pack_fields(mint: Pubkey, owner: Pubkey, amount: u64)
    ensures
        spec_pack(mint, owner, amount).len() == 165,
        spec_mint(spec_pack(mint, owner, amount)) == mint@,
        spec_owner(spec_pack(mint, owner, amount)) == owner@,
        spec_amount(spec_pack(mint, owner, amount)) == amount,
{
    lemma_auto_spec_u64_to_from_le_bytes();
    let p = spec_pack(mint, owner, amount);
    assert(p.subrange(0, 32) =~= mint@);
    assert(p.subrange(32, 64) =~= owner@);
    assert(p.subrange(64, 72) =~= spec_u64_to_le_bytes(amount));
}

/// Replacing the balance changes the balance and nothing else that is read.
pub proof fn lemma_with_amount_fields(data: Seq<u8>, amount: u64)
    requires
        data.len() >= 72,
    ensures
        spec_with_amount(data, amount).len() == data.len(),
        spec_mint(spec_with_amount(data, amount)) == spec_mint(data),
        spec_owner(spec_with_amount(data, amount)) == spec_owner(data),
        spec_amount(spec_with_amount(data, amount)) == amount,
{
    lemma_auto_spec_u64_to_from_le_bytes();
    let w = spec_with_amount(data, amount);
    assert(w.subrange(0, 32) =~= data.subrange(0, 32));
    assert(w.subrange(32, 64) =~= data.subrange(32, 64));
    assert(w.subrange(64, 72) =~= spec_u64_to_le_bytes(amount));
}

} // verus!
