//! Capability checks on accounts, and the lifecycle of the accounts that the
//! protocol owns or creates.
use crate::account::Account;
use crate::pubkey::{address_eq, SYSTEM_PROGRAM_ID};
use crate::step::{EscrowSeeds, Step};
use crate::token::{is_token_account, spec_mint, spec_owner, TokenAccount, MINT_LEN};
use pinocchio::program_error::ProgramError;
use pinocchio::pubkey::Pubkey;
use vstd::prelude::*;

verus! {

/// An account that must have authorised the transaction.
pub struct SignerAccount;

/// An account owned by the protocol.
pub struct ProgramAccount;

/// A mint of the token program.
pub struct MintInterface;

/// A token account that belongs to one holder and one mint.
pub struct AssociatedTokenAccount;

/// `ata` is a token account held by `owner` for `mint`.
pub open spec fn is_holding_account(ata: Account, owner: Pubkey, mint: Pubkey) -> bool {
    &&& is_token_account(ata.owner, ata.data@)
    &&& spec_owner(ata.data@) == owner@
    &&& spec_mint(ata.data@) == mint@
}

impl SignerAccount {
    /// Fails with `MissingRequiredSignature` unless the account signed.
    pub fn check(account: &Account) -> (r: Result<(), ProgramError>)
        ensures
            r is Ok <==> account.is_signer,
            r is Err ==> r == Err::<(), ProgramError>(ProgramError::MissingRequiredSignature),
    {
        if !account.is_signer {
            return Err(ProgramError::MissingRequiredSignature);
        }
        Ok(())
    }
}

impl ProgramAccount {
    /// The request to allocate `space` bytes at `new_account`, owned by the
    /// protocol `program_id`, holding `lamports` paid by `payer`, with
    /// `signer_seeds` proving the right to sign for the new address.
    pub fn init(
        payer: &Account,
        new_account: &Account,
        signer_seeds: &EscrowSeeds,
        space: usize,
        lamports: u64,
        program_id: &Pubkey,
    ) -> (r: Step)
        ensures
            r == (Step::CreateAccount {
                from: payer.key,
                to: new_account.key,
                lamports,
                space: space as u64,
                owner: *program_id,
                seeds: *signer_seeds,
            }),
    {
        Step::CreateAccount {
            from: payer.key,
            to: new_account.key,
            lamports,
            space: space as u64,
            owner: *program_id,
            seeds: *signer_seeds,
        }
    }

    /// Fails with `InvalidAccountOwner` unless the protocol `program_id`
    /// owns the account.
    pub fn check(account: &Account, program_id: &Pubkey) -> (r: Result<(), ProgramError>)
        ensures
            r is Ok <==> account.owner == *program_id,
            r is Err ==> r == Err::<(), ProgramError>(ProgramError::InvalidAccountOwner),
    {
        if !address_eq(&account.owner, program_id) {
            return Err(ProgramError::InvalidAccountOwner);
        }
        Ok(())
    }

    /// Closes `account`: its whole balance moves to `destination`, its data
    /// is dropped and its ownership returns to the system program. Fails
    /// with `ArithmeticOverflow`, changing nothing, when the destination
    /// cannot hold the sum.
    pub fn close(account: &mut Account, destination: &mut Account) -> (r: Result<(), ProgramError>)
        ensures
            final(account).key == old(account).key,
            final(account).is_signer == old(account).is_signer,
            final(destination).key == old(destination).key,
            final(destination).is_signer == old(destination).is_signer,
            final(destination).owner == old(destination).owner,
            final(destination).data@ == old(destination).data@,
            match r {
                Ok(_) => {
                    &&& old(account).lamports + old(destination).lamports <= u64::MAX
                    &&& final(account).lamports == 0
                    &&& final(account).data@ == Seq::<u8>::empty()
                    &&& final(account).owner == SYSTEM_PROGRAM_ID
                    &&& final(destination).lamports == old(account).lamports + old(
                        destination,
                    ).lamports
                },
                Err(e) => {
                    &&& e == ProgramError::ArithmeticOverflow
                    &&& old(account).lamports + old(destination).lamports > u64::MAX
                    &&& final(account).lamports == old(account).lamports
                    &&& final(account).data@ == old(account).data@
                    &&& final(account).owner == old(account).owner
                    &&& final(destination).lamports == old(destination).lamports
                },
            },
    {
        let lamports = account.lamports;
        match destination.lamports.checked_add(lamports) {
            Some(total) => {
                account.lamports = 0;
                destination.lamports = total;
                account.data = Vec::new();
                account.owner = SYSTEM_PROGRAM_ID;
                Ok(())
            },
            None => Err(ProgramError::ArithmeticOverflow),
        }
    }
}

impl MintInterface {
    /// Fails with `InvalidAccountData` unless the account's data has the
    /// size of a mint. The mint's owner is not examined.
    pub fn check(account: &Account) -> (r: Result<(), ProgramError>)
        ensures
            r is Ok <==> account.data@.len() == MINT_LEN,
            r is Err ==> r == Err::<(), ProgramError>(ProgramError::InvalidAccountData),
    {
        if account.data.len() != MINT_LEN {
            return Err(ProgramError::InvalidAccountData);
        }
        Ok(())
    }
}

impl AssociatedTokenAccount {
    /// The request to create the token account `account` of `mint` for
    /// `wallet`, paid by `funding_account`, unless it exists already.
    pub fn init(
        funding_account: &Account,
        account: &Account,
        wallet: &Account,
        mint: &Account,
        system_program: &Account,
        token_program: &Account,
    ) -> (r: Step)
        ensures
            r == (Step::CreateIdempotent {
                funding_account: funding_account.key,
                account: account.key,
                wallet: wallet.key,
                mint: mint.key,
                system_program: system_program.key,
                token_program: token_program.key,
            }),
    {
        Step::CreateIdempotent {
            funding_account: funding_account.key,
            account: account.key,
            wallet: wallet.key,
            mint: mint.key,
            system_program: system_program.key,
            token_program: token_program.key,
        }
    }

    /// The same request as [`AssociatedTokenAccount::init`], with the
    /// account and its mint named first.
    pub fn init_if_needed(
        account: &Account,
        mint: &Account,
        funding_account: &Account,
        wallet: &Account,
        system_program: &Account,
        token_program: &Account,
    ) -> (r: Step)
        ensures
            r == (Step::CreateIdempotent {
                funding_account: funding_account.key,
                account: account.key,
                wallet: wallet.key,
                mint: mint.key,
                system_program: system_program.key,
                token_program: token_program.key,
            }),
    {
        Self::init(funding_account, account, wallet, mint, system_program, token_program)
    }

    /// Fails with `InvalidAccountData` unless `ata` is a token account held
    /// by `owner` for `mint`. The token program handed in is not examined.
    pub fn check(ata: &Account, owner: &Account, mint: &Account, _token_program: &Account) -> (r:
        Result<(), ProgramError>)
        ensures
            r is Ok <==> is_holding_account(*ata, owner.key, mint.key),
            r is Err ==> r == Err::<(), ProgramError>(ProgramError::InvalidAccountData),
    {
        match TokenAccount::load(ata) {
            Ok(token_account) => {
                proof {
                    crate::pubkey::lemma_pubkey_view_injective(token_account.owner, owner.key);
                    crate::pubkey::lemma_pubkey_view_injective(token_account.mint, mint.key);
                }
                if !address_eq(&token_account.owner, &owner.key) || !address_eq(
                    &token_account.mint,
                    &mint.key,
                ) {
                    return Err(ProgramError::InvalidAccountData);
                }
                Ok(())
            },
            Err(e) => Err(e),
        }
    }
}

} // verus!
