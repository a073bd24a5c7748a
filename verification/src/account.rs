//! What an instruction reads of an account it was handed.
use crate::bytes::copy_bytes;
use pinocchio::pubkey::Pubkey;
use vstd::prelude::*;

verus! {

/// One account as the runtime presents it to an instruction.
#[derive(Debug, PartialEq, Eq)]
pub struct Account {
    /// The account's address.
    pub key: Pubkey,
    /// The program that owns the account.
    pub owner: Pubkey,
    /// Whether the account's key signed the transaction.
    pub is_signer: bool,
    /// The account's rent balance.
    pub lamports: u64,
    /// The account's data.
    pub data: Vec<u8>,
}

impl Clone for Account {
    /// A copy of the account, with a copy of its data.
    fn clone(&self) -> (r: Account)
        ensures
            r.key == self.key,
            r.owner == self.owner,
            r.is_signer == self.is_signer,
            r.lamports == self.lamports,
            r.data@ == self.data@,
    {
        Account {
            key: self.key,
            owner: self.owner,
            is_signer: self.is_signer,
            lamports: self.lamports,
            data: copy_bytes(&self.data),
        }
    }
}

} // verus!
