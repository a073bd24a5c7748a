//! Refund: the maker cancels an open offer. The vault's balance returns to
//! the maker, and the vault and the escrow record are closed.
use crate::account::Account;
use crate::helpers::{AssociatedTokenAccount, ProgramAccount, SignerAccount};
use crate::state::{lemma_record_layout, Escrow, ESCROW_LEN};
use crate::step::{Authority, EscrowSeeds, Step};
use crate::token::{is_token_account, spec_amount, TokenAccount};
use pinocchio::program_error::ProgramError;
use pinocchio::pubkey::Pubkey;
use vstd::bytes::{lemma_auto_spec_u64_to_from_le_bytes, spec_u64_from_le_bytes};
use vstd::prelude::*;

verus! {

/// The leading byte that selects Refund.
pub const REFUND_DISCRIMINATOR: u8 = 2;

/// How many accounts Refund needs. Any further account is ignored.
pub const REFUND_ACCOUNTS_LEN: usize = 8;

/// The accounts of Refund, in the order in which they are handed in.
pub struct Refund<'a> {
    pub maker: &'a Account,
    pub escrow: &'a Account,
    pub mint_a: &'a Account,
    pub vault: &'a Account,
    pub maker_ata_a: &'a Account,
    pub associated_token_program: &'a Account,
    pub token_program: &'a Account,
    pub system_program: &'a Account,
}

/// The first check that the accounts of Refund fail under the protocol
/// `program_id`, in the order in which they are made: that there are no
/// fewer than eight, the maker's signature, and the protocol's ownership of
/// the escrow record. A longer list is judged by its first eight accounts.
pub open spec fn spec_accounts_error(accounts: Seq<Account>, program_id: Pubkey) -> Option<
    ProgramError,
> {
    if accounts.len() < REFUND_ACCOUNTS_LEN {
        Some(ProgramError::NotEnoughAccountKeys)
    } else if !accounts[0].is_signer {
        Some(ProgramError::MissingRequiredSignature)
    } else if accounts[1].owner != program_id {
        Some(ProgramError::InvalidAccountOwner)
    } else {
        None
    }
}

impl<'a> Refund<'a> {
    /// The accounts named in the order of `accounts`.
    pub open spec fn spec_from(self, accounts: Seq<Account>) -> bool {
        &&& *self.maker == accounts[0]
        &&& *self.escrow == accounts[1]
        &&& *self.mint_a == accounts[2]
        &&& *self.vault == accounts[3]
        &&& *self.maker_ata_a == accounts[4]
        &&& *self.associated_token_program == accounts[5]
        &&& *self.token_program == accounts[6]
        &&& *self.system_program == accounts[7]
    }

    /// Names and validates the accounts of Refund. Fails with the first
    /// failing check of [`spec_accounts_error`], and succeeds when there is
    /// none.
    pub fn try_from(accounts: &'a [Account], program_id: &Pubkey) -> (r: Result<
        Refund<'a>,
        ProgramError,
    >)
        ensures
            match r {
                Ok(named) => {
                    &&& spec_accounts_error(accounts@, *program_id) is None
                    &&& named.spec_from(accounts@)
                },
                Err(e) => spec_accounts_error(accounts@, *program_id) == Some(e),
            },
    {
        if accounts.len() < REFUND_ACCOUNTS_LEN {
            return Err(ProgramError::NotEnoughAccountKeys);
        }
        let maker = &accounts[0];
        let escrow = &accounts[1];
        if let Err(e) = SignerAccount::check(maker) {
            return Err(e);
        }
        if let Err(e) = ProgramAccount::check(escrow, program_id) {
            return Err(e);
        }
        Ok(
            Refund {
                maker,
                escrow,
                mint_a: &accounts[2],
                vault: &accounts[3],
                maker_ata_a: &accounts[4],
                associated_token_program: &accounts[5],
                token_program: &accounts[6],
                system_program: &accounts[7],
            },
        )
    }

    /// Whether the record and the vault can be read: the record has the
    /// record's size and the vault is a token account.
    pub open spec fn spec_readable(self) -> bool {
        self.escrow.data@.len() == ESCROW_LEN && is_token_account(
            self.vault.owner,
            self.vault.data@,
        )
    }

    /// The seed material rebuilt for the refund: the maker who asks, with
    /// the seed and the bump byte that the record stores.
    pub open spec fn spec_seeds(self) -> EscrowSeeds {
        EscrowSeeds {
            maker: self.maker.key,
            seed: spec_u64_from_le_bytes(self.escrow.data@.subrange(0, 8)),
            bump: self.escrow.data@[112],
        }
    }

    /// The derived authority under which the vault is emptied and closed.
    pub open spec fn spec_authority(self) -> Authority {
        Authority::Derived { address: self.escrow.key, seeds: self.spec_seeds() }
    }

    /// The steps of Refund, in order: make sure the maker's holding account
    /// exists, move the vault's whole balance to it unless the vault is
    /// empty, close the vault, and close the escrow record; the last three
    /// pay to the maker.
    pub open spec fn spec_steps(self) -> Seq<Step> {
        let amount = spec_amount(self.vault.data@);
        let ensure = seq![
            Step::CreateIdempotent {
                funding_account: self.maker.key,
                account: self.maker_ata_a.key,
                wallet: self.maker.key,
                mint: self.mint_a.key,
                system_program: self.system_program.key,
                token_program: self.token_program.key,
            },
        ];
        let give_back = if amount > 0 {
            seq![
                Step::Transfer {
                    from: self.vault.key,
                    to: self.maker_ata_a.key,
                    authority: self.spec_authority(),
                    amount,
                },
            ]
        } else {
            Seq::<Step>::empty()
        };
        let close = seq![
            Step::CloseAccount {
                account: self.vault.key,
                destination: self.maker.key,
                authority: self.spec_authority(),
            },
            Step::CloseProgramAccount { account: self.escrow.key, destination: self.maker.key },
        ];
        ensure + give_back + close
    }

    /// Plans Refund from the record and the vault as they were handed in.
    /// Fails with `InvalidAccountData` unless both can be read; otherwise
    /// the result is the steps of [`Refund::spec_steps`].
    pub fn process(&self) -> (r: Result<Vec<Step>, ProgramError>)
        ensures
            match r {
                Ok(steps) => self.spec_readable() && steps@ == self.spec_steps(),
                Err(e) => !self.spec_readable() && e == ProgramError::InvalidAccountData,
            },
    {
        let mut steps: Vec<Step> = Vec::new();
        steps.push(
            AssociatedTokenAccount::init_if_needed(
                self.maker_ata_a,
                self.mint_a,
                self.maker,
                self.maker,
                self.system_program,
                self.token_program,
            ),
        );
        let record = match Escrow::load(self.escrow.data.as_slice()) {
            Ok(record) => record,
            Err(e) => {
                return Err(e);
            },
        };
        let seeds = EscrowSeeds { maker: self.maker.key, seed: record.seed, bump: record.bump[0] };
        proof {
            lemma_record_layout(record);
            lemma_auto_spec_u64_to_from_le_bytes();
            assert(record.bump@[0] == self.escrow.data@.subrange(112, 113)[0]);
            assert(seeds == self.spec_seeds());
        }
        let authority = Authority::Derived { address: self.escrow.key, seeds };
        let amount = match TokenAccount::load(self.vault) {
            Ok(vault) => vault.amount,
            Err(e) => {
                return Err(e);
            },
        };
        if amount > 0 {
            steps.push(
                Step::Transfer {
                    from: self.vault.key,
                    to: self.maker_ata_a.key,
                    authority,
                    amount,
                },
            );
        }
        steps.push(
            Step::CloseAccount {
                account: self.vault.key,
                destination: self.maker.key,
                authority,
            },
        );
        steps.push(
            Step::CloseProgramAccount { account: self.escrow.key, destination: self.maker.key },
        );
        assert(steps@ =~= self.spec_steps());
        Ok(steps)
    }
}

} // verus!
