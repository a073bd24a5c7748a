//! Take: a taker fulfils an open offer. The taker pays the requested amount
//! of the requested mint to the maker, receives the vault's whole balance,
//! and the vault and the escrow record are closed.
//!
//! The accounts come in this order: taker, maker, escrow, offered mint,
//! requested mint, vault, the taker's holding account for the offered mint,
//! the taker's holding account for the requested mint, the maker's holding
//! account for the requested mint, associated token program, token program,
//! system program. The taker pays exactly the amount that the record asks
//! for.
use crate::account::Account;
use crate::helpers::{
    is_holding_account, AssociatedTokenAccount, MintInterface, ProgramAccount, SignerAccount,
};
use crate::pubkey::{address_eq, lemma_pubkey_view_injective};
use crate::state::{lemma_record_layout, Escrow, ESCROW_LEN};
use crate::step::{Authority, EscrowSeeds, Step};
use crate::token::{is_token_account, spec_amount, TokenAccount, MINT_LEN};
use pinocchio::program_error::ProgramError;
use pinocchio::pubkey::Pubkey;
use vstd::bytes::{lemma_auto_spec_u64_to_from_le_bytes, spec_u64_from_le_bytes};
use vstd::prelude::*;

verus! {

/// The leading byte that selects Take.
pub const TAKE_DISCRIMINATOR: u8 = 1;

/// How many accounts Take needs. Any further account is ignored.
pub const TAKE_ACCOUNTS_LEN: usize = 12;

/// The accounts of Take, in the order in which they are handed in.
pub struct Take<'a> {
    pub taker: &'a Account,
    pub maker: &'a Account,
    pub escrow: &'a Account,
    pub mint_a: &'a Account,
    pub mint_b: &'a Account,
    pub vault: &'a Account,
    pub taker_ata_a: &'a Account,
    pub taker_ata_b: &'a Account,
    pub maker_ata_b: &'a Account,
    pub associated_token_program: &'a Account,
    pub token_program: &'a Account,
    pub system_program: &'a Account,
}

/// The first check that the accounts of Take fail under the protocol
/// `program_id`, in the order in which they are made: that there are no
/// fewer than twelve, the taker's signature, the protocol's ownership of the
/// escrow record, the two mints, and the taker's holding account for the
/// requested mint. A longer list is judged by its first twelve accounts.
pub open spec fn spec_accounts_error(accounts: Seq<Account>, program_id: Pubkey) -> Option<
    ProgramError,
> {
    if accounts.len() < TAKE_ACCOUNTS_LEN {
        Some(ProgramError::NotEnoughAccountKeys)
    } else if !accounts[0].is_signer {
        Some(ProgramError::MissingRequiredSignature)
    } else if accounts[2].owner != program_id {
        Some(ProgramError::InvalidAccountOwner)
    } else if accounts[3].data@.len() != MINT_LEN {
        Some(ProgramError::InvalidAccountData)
    } else if accounts[4].data@.len() != MINT_LEN {
        Some(ProgramError::InvalidAccountData)
    } else if !is_holding_account(accounts[7], accounts[0].key, accounts[4].key) {
        Some(ProgramError::InvalidAccountData)
    } else {
        None
    }
}

impl<'a> Take<'a> {
    /// The accounts named in the order of `accounts`.
    pub open spec fn spec_from(self, accounts: Seq<Account>) -> bool {
        &&& *self.taker == accounts[0]
        &&& *self.maker == accounts[1]
        &&& *self.escrow == accounts[2]
        &&& *self.mint_a == accounts[3]
        &&& *self.mint_b == accounts[4]
        &&& *self.vault == accounts[5]
        &&& *self.taker_ata_a == accounts[6]
        &&& *self.taker_ata_b == accounts[7]
        &&& *self.maker_ata_b == accounts[8]
        &&& *self.associated_token_program == accounts[9]
        &&& *self.token_program == accounts[10]
        &&& *self.system_program == accounts[11]
    }

    /// Names and validates the accounts of Take. Fails with the first
    /// failing check of [`spec_accounts_error`], and succeeds when there is
    /// none.
    pub fn try_from(accounts: &'a [Account], program_id: &Pubkey) -> (r: Result<
        Take<'a>,
        ProgramError,
    >)
        ensures
            match r {
                Ok(named) => {
                    &&& spec_accounts_error(accounts@, *program_id) is None
                    &&& named.spec_from(accounts@)
                },
                Err(e) => spec_accounts_error(accounts@, *program_id) == Some(e),
            },
    {
        if accounts.len() < TAKE_ACCOUNTS_LEN {
            return Err(ProgramError::NotEnoughAccountKeys);
        }
        let taker = &accounts[0];
        let escrow = &accounts[2];
        let mint_a = &accounts[3];
        let mint_b = &accounts[4];
        let taker_ata_b = &accounts[7];
        let token_program = &accounts[10];
        if let Err(e) = SignerAccount::check(taker) {
            return Err(e);
        }
        if let Err(e) = ProgramAccount::check(escrow, program_id) {
            return Err(e);
        }
        if let Err(e) = MintInterface::check(mint_a) {
            return Err(e);
        }
        if let Err(e) = MintInterface::check(mint_b) {
            return Err(e);
        }
        if let Err(e) = AssociatedTokenAccount::check(taker_ata_b, taker, mint_b, token_program) {
            return Err(e);
        }
        Ok(
            Take {
                taker,
                maker: &accounts[1],
                escrow,
                mint_a,
                mint_b,
                vault: &accounts[5],
                taker_ata_a: &accounts[6],
                taker_ata_b,
                maker_ata_b: &accounts[8],
                associated_token_program: &accounts[9],
                token_program,
                system_program: &accounts[11],
            },
        )
    }

    /// Whether the offer can be read and is the one that the accounts
    /// belong to: the record has the record's size and stores the maker and
    /// the two mints that were handed in, and the vault is a token account.
    pub open spec fn spec_readable(self) -> bool {
        &&& self.escrow.data@.len() == ESCROW_LEN
        &&& self.escrow.data@.subrange(8, 40) == self.maker.key@
        &&& self.escrow.data@.subrange(40, 72) == self.mint_a.key@
        &&& self.escrow.data@.subrange(72, 104) == self.mint_b.key@
        &&& is_token_account(self.vault.owner, self.vault.data@)
    }

    /// The amount of the requested mint that the record asks for.
    pub open spec fn spec_receive(self) -> u64 {
        spec_u64_from_le_bytes(self.escrow.data@.subrange(104, 112))
    }

    /// The seed material of the escrow address: the maker that the record
    /// stores, with the seed and the bump byte that it stores.
    pub open spec fn spec_seeds(self) -> EscrowSeeds {
        EscrowSeeds {
            maker: self.maker.key,
            seed: spec_u64_from_le_bytes(self.escrow.data@.subrange(0, 8)),
            bump: self.escrow.data@[112],
        }
    }

    /// The derived authority under which the vault is emptied and closed.
    pub open spec fn spec_authority(self) -> Authority {
        Authority::Derived { address: self.escrow.key, seeds: self.spec_seeds() }
    }

    /// The steps of Take, in order: make sure that the taker's holding
    /// account for the offered mint and the maker's for the requested mint
    /// exist, both paid by the taker; pay the requested amount from the
    /// taker to the maker under the taker's signature; move the vault's
    /// whole balance to the taker unless the vault is empty; close the vault
    /// and the escrow record, both paying to the maker.
    pub open spec fn spec_steps(self) -> Seq<Step> {
        let amount = spec_amount(self.vault.data@);
        let pay = seq![
            Step::CreateIdempotent {
                funding_account: self.taker.key,
                account: self.taker_ata_a.key,
                wallet: self.taker.key,
                mint: self.mint_a.key,
                system_program: self.system_program.key,
                token_program: self.token_program.key,
            },
            Step::CreateIdempotent {
                funding_account: self.taker.key,
                account: self.maker_ata_b.key,
                wallet: self.maker.key,
                mint: self.mint_b.key,
                system_program: self.system_program.key,
                token_program: self.token_program.key,
            },
            Step::Transfer {
                from: self.taker_ata_b.key,
                to: self.maker_ata_b.key,
                authority: Authority::Signer(self.taker.key),
                amount: self.spec_receive(),
            },
        ];
        let hand_over = if amount > 0 {
            seq![
                Step::Transfer {
                    from: self.vault.key,
                    to: self.taker_ata_a.key,
                    authority: self.spec_authority(),
                    amount,
                },
            ]
        } else {
            Seq::<Step>::empty()
        };
        let close = seq![
            Step::CloseAccount {
                account: self.vault.key,
                destination: self.maker.key,
                authority: self.spec_authority(),
            },
            Step::CloseProgramAccount { account: self.escrow.key, destination: self.maker.key },
        ];
        pay + hand_over + close
    }

    /// Plans Take from the record and the vault as they were handed in.
    /// Fails with `InvalidAccountData` unless the offer can be read and is
    /// the one that the accounts belong to; otherwise the result is the
    /// steps of [`Take::spec_steps`].
    pub fn process(&self) -> (r: Result<Vec<Step>, ProgramError>)
        ensures
            match r {
                Ok(steps) => self.spec_readable() && steps@ == self.spec_steps(),
                Err(e) => !self.spec_readable() && e == ProgramError::InvalidAccountData,
            },
    {
        let record = match Escrow::load(self.escrow.data.as_slice()) {
            Ok(record) => record,
            Err(e) => {
                return Err(e);
            },
        };
        proof {
            lemma_record_layout(record);
            lemma_auto_spec_u64_to_from_le_bytes();
            lemma_pubkey_view_injective(record.maker, self.maker.key);
            lemma_pubkey_view_injective(record.mint_a, self.mint_a.key);
            lemma_pubkey_view_injective(record.mint_b, self.mint_b.key);
            assert(record.bump@[0] == self.escrow.data@.subrange(112, 113)[0]);
        }
        if !address_eq(&record.maker, &self.maker.key) || !address_eq(
            &record.mint_a,
            &self.mint_a.key,
        ) || !address_eq(&record.mint_b, &self.mint_b.key) {
            return Err(ProgramError::InvalidAccountData);
        }
        let amount = match TokenAccount::load(self.vault) {
            Ok(vault) => vault.amount,
            Err(e) => {
                return Err(e);
            },
        };
        let seeds = EscrowSeeds { maker: self.maker.key, seed: record.seed, bump: record.bump[0] };
        let authority = Authority::Derived { address: self.escrow.key, seeds };
        let mut steps: Vec<Step> = Vec::new();
        steps.push(
            AssociatedTokenAccount::init_if_needed(
                self.taker_ata_a,
                self.mint_a,
                self.taker,
                self.taker,
                self.system_program,
                self.token_program,
            ),
        );
        steps.push(
            AssociatedTokenAccount::init_if_needed(
                self.maker_ata_b,
                self.mint_b,
                self.taker,
                self.maker,
                self.system_program,
                self.token_program,
            ),
        );
        steps.push(
            Step::Transfer {
                from: self.taker_ata_b.key,
                to: self.maker_ata_b.key,
                authority: Authority::Signer(self.taker.key),
                amount: record.receive,
            },
        );
        if amount > 0 {
            steps.push(
                Step::Transfer {
                    from: self.vault.key,
                    to: self.taker_ata_a.key,
                    authority,
                    amount,
                },
            );
        }
        steps.push(
            Step::CloseAccount {
                account: self.vault.key,
                destination: self.maker.key,
                authority,
            },
        );
        steps.push(
            Step::CloseProgramAccount { account: self.escrow.key, destination: self.maker.key },
        );
        assert(steps@ =~= self.spec_steps());
        Ok(steps)
    }
}

} // verus!
