//! Make: open an offer. The escrow record and its vault are created and the
//! maker's deposit moves into the vault.
use crate::account::Account;
use crate::helpers::{
    is_holding_account, AssociatedTokenAccount, MintInterface, ProgramAccount, SignerAccount,
};
use crate::state::{Escrow, ESCROW_LEN};
use crate::step::{seed_slices, Authority, EscrowSeeds, Step};
use crate::token::MINT_LEN;
use pinocchio::program_error::ProgramError;
use pinocchio::pubkey::Pubkey;
use vstd::bytes::{spec_u64_from_le_bytes, u64_from_le_bytes};
use vstd::prelude::*;
use vstd::slice::slice_subrange;

verus! {

/// The leading byte that selects Make.
pub const MAKE_DISCRIMINATOR: u8 = 0;

/// How many accounts Make needs: the eight it names and one unused. Any
/// further account is ignored.
pub const MAKE_ACCOUNTS_LEN: usize = 9;

/// The size of Make's payload: three little-endian 64-bit integers.
pub const MAKE_DATA_LEN: usize = 24;

/// The rent deposit placed in a new escrow record.
pub const ESCROW_RENT: u64 = 2_000_000;

/// The accounts of Make, in the order in which they are handed in.
pub struct MakeAccounts<'a> {
    pub maker: &'a Account,
    pub escrow: &'a Account,
    pub mint_a: &'a Account,
    pub mint_b: &'a Account,
    pub maker_ata_a: &'a Account,
    pub vault: &'a Account,
    pub system_program: &'a Account,
    pub token_program: &'a Account,
}

/// The payload of Make.
#[derive(Clone, Copy, Debug, PartialEq, Eq)]
pub struct MakeInstructionData {
    /// The maker's nonce for this offer.
    pub seed: u64,
    /// How much of the requested asset fulfils the offer.
    pub receive: u64,
    /// How much of the offered asset the maker deposits.
    pub amount: u64,
}

/// A validated Make, ready to be planned.
pub struct Make<'a> {
    pub accounts: MakeAccounts<'a>,
    pub instruction_data: MakeInstructionData,
    pub bump: u8,
}

/// The first check that the accounts of Make fail, in the order in which
/// they are made: that there are no fewer than nine, the maker's signature,
/// the two mints, and the maker's holding account for the offered mint. A
/// longer list is judged by its first nine accounts.
pub open spec fn spec_accounts_error(accounts: Seq<Account>) -> Option<ProgramError> {
    if accounts.len() < MAKE_ACCOUNTS_LEN {
        Some(ProgramError::NotEnoughAccountKeys)
    } else if !accounts[0].is_signer {
        Some(ProgramError::MissingRequiredSignature)
    } else if accounts[2].data@.len() != MINT_LEN {
        Some(ProgramError::InvalidAccountData)
    } else if accounts[3].data@.len() != MINT_LEN {
        Some(ProgramError::InvalidAccountData)
    } else if !is_holding_account(accounts[4], accounts[0].key, accounts[2].key) {
        Some(ProgramError::InvalidAccountData)
    } else {
        None
    }
}

/// The payload that `data` encodes, if it has the payload's size.
pub open spec fn spec_decode(data: Seq<u8>) -> MakeInstructionData {
    MakeInstructionData {
        seed: spec_u64_from_le_bytes(data.subrange(0, 8)),
        receive: spec_u64_from_le_bytes(data.subrange(8, 16)),
        amount: spec_u64_from_le_bytes(data.subrange(16, 24)),
    }
}

/// A payload is accepted when it has exactly the payload's size and
/// deposits a positive amount.
pub open spec fn spec_data_valid(data: Seq<u8>) -> bool {
    data.len() == MAKE_DATA_LEN && spec_decode(data).amount != 0
}

impl<'a> MakeAccounts<'a> {
    /// The accounts named in the order of `accounts`.
    pub open spec fn spec_from(self, accounts: Seq<Account>) -> bool {
        &&& *self.maker == accounts[0]
        &&& *self.escrow == accounts[1]
        &&& *self.mint_a == accounts[2]
        &&& *self.mint_b == accounts[3]
        &&& *self.maker_ata_a == accounts[4]
        &&& *self.vault == accounts[5]
        &&& *self.system_program == accounts[6]
        &&& *self.token_program == accounts[7]
    }

    /// Names and validates the accounts of Make. Fails with the first
    /// failing check of [`spec_accounts_error`], and succeeds when there is
    /// none.
    pub fn try_from(accounts: &'a [Account]) -> (r: Result<MakeAccounts<'a>, ProgramError>)
        ensures
            match r {
                Ok(named) => spec_accounts_error(accounts@) is None && named.spec_from(accounts@),
                Err(e) => spec_accounts_error(accounts@) == Some(e),
            },
    {
        if accounts.len() < MAKE_ACCOUNTS_LEN {
            return Err(ProgramError::NotEnoughAccountKeys);
        }
        let maker = &accounts[0];
        let escrow = &accounts[1];
        let mint_a = &accounts[2];
        let mint_b = &accounts[3];
        let maker_ata_a = &accounts[4];
        let vault = &accounts[5];
        let system_program = &accounts[6];
        let token_program = &accounts[7];

        if let Err(e) = SignerAccount::check(maker) {
            return Err(e);
        }
        if let Err(e) = MintInterface::check(mint_a) {
            return Err(e);
        }
        if let Err(e) = MintInterface::check(mint_b) {
            return Err(e);
        }
        if let Err(e) = AssociatedTokenAccount::check(maker_ata_a, maker, mint_a, token_program) {
            return Err(e);
        }
        Ok(
            MakeAccounts {
                maker,
                escrow,
                mint_a,
                mint_b,
                maker_ata_a,
                vault,
                system_program,
                token_program,
            },
        )
    }
}

impl MakeInstructionData {
    /// Decodes the payload of Make: seed, receive and amount, each a
    /// little-endian 64-bit integer. Fails with `InvalidInstructionData`
    /// unless the payload has exactly 24 bytes and a positive amount.
    pub fn try_from(data: &[u8]) -> (r: Result<MakeInstructionData, ProgramError>)
        ensures
            data@.len() != MAKE_DATA_LEN ==> r == Err::<MakeInstructionData, ProgramError>(
                ProgramError::InvalidInstructionData,
            ),
            data@.len() == MAKE_DATA_LEN && spec_decode(data@).amount == 0 ==> r == Err::<
                MakeInstructionData,
                ProgramError,
            >(ProgramError::InvalidInstructionData),
            data@.len() == MAKE_DATA_LEN && spec_decode(data@).amount != 0 ==> r == Ok::<
                MakeInstructionData,
                ProgramError,
            >(spec_decode(data@)),
    {
        if data.len() != MAKE_DATA_LEN {
            return Err(ProgramError::InvalidInstructionData);
        }
        let seed = u64_from_le_bytes(slice_subrange(data, 0, 8));
        let receive = u64_from_le_bytes(slice_subrange(data, 8, 16));
        let amount = u64_from_le_bytes(slice_subrange(data, 16, 24));
        if amount == 0 {
            return Err(ProgramError::InvalidInstructionData);
        }
        Ok(MakeInstructionData { seed, receive, amount })
    }
}

impl<'a> Make<'a> {
    /// Completes a validated Make with the outcome of the address search.
    /// The bump byte that was found is kept; a search that found nothing
    /// fails with `InvalidSeeds`.
    pub fn from_derivation(
        accounts: MakeAccounts<'a>,
        instruction_data: MakeInstructionData,
        derived: Option<(Pubkey, u8)>,
    ) -> (r: Result<Make<'a>, ProgramError>)
        ensures
            match r {
                Ok(make) => {
                    &&& make.accounts == accounts
                    &&& make.instruction_data == instruction_data
                    &&& match derived {
                        Some((_, bump)) => make.bump == bump,
                        None => false,
                    }
                },
                Err(e) => derived is None && e == ProgramError::InvalidSeeds,
            },
    {
        match derived {
            Some((_, bump)) => Ok(Make { accounts, instruction_data, bump }),
            None => Err(ProgramError::InvalidSeeds),
        }
    }

    /// Validates the accounts, decodes the payload, and searches the
    /// escrow's derived address under `program_id` for its bump byte.
    ///
    /// The accounts are checked before the payload. When both are in order
    /// the search is handed the rows of [`EscrowSeeds::search_list`] for the
    /// maker and the decoded seed, and the result is that of
    /// [`Make::from_derivation`] on whatever the search returned. Nothing
    /// is known of that answer here, so nothing is promised of the bump.
    pub fn try_from(data: &[u8], accounts: &'a [Account], program_id: &Pubkey) -> (r: Result<
        Make<'a>,
        ProgramError,
    >)
        ensures
            match r {
                Ok(make) => {
                    &&& spec_accounts_error(accounts@) is None
                    &&& spec_data_valid(data@)
                    &&& make.accounts.spec_from(accounts@)
                    &&& make.instruction_data == spec_decode(data@)
                },
                Err(e) => {
                    if spec_accounts_error(accounts@) is Some {
                        spec_accounts_error(accounts@) == Some(e)
                    } else if !spec_data_valid(data@) {
                        e == ProgramError::InvalidInstructionData
                    } else {
                        e == ProgramError::InvalidSeeds
                    }
                },
            },
    {
        let accounts = match MakeAccounts::try_from(accounts) {
            Ok(named) => named,
            Err(e) => {
                return Err(e);
            },
        };
        let instruction_data = match MakeInstructionData::try_from(data) {
            Ok(decoded) => decoded,
            Err(e) => {
                return Err(e);
            },
        };
        let list = EscrowSeeds::search_list(&accounts.maker.key, instruction_data.seed);
        let seeds = seed_slices(&list);
        assert(seeds@.map_values(|row: &[u8]| row@) == EscrowSeeds::spec_search_list(
            accounts.maker.key,
            instruction_data.seed,
        ));
        let derived = pinocchio::pubkey::try_find_program_address(seeds.as_slice(), program_id);
        Make::from_derivation(accounts, instruction_data, derived)
    }

    /// The seed material of this offer's escrow address.
    pub open spec fn spec_seeds(self) -> EscrowSeeds {
        EscrowSeeds {
            maker: self.accounts.maker.key,
            seed: self.instruction_data.seed,
            bump: self.bump,
        }
    }

    /// The record that this offer stores.
    pub open spec fn spec_record(self) -> Escrow {
        Escrow {
            seed: self.instruction_data.seed,
            maker: self.accounts.maker.key,
            mint_a: self.accounts.mint_a.key,
            mint_b: self.accounts.mint_b.key,
            receive: self.instruction_data.receive,
            bump: [self.bump],
        }
    }

    /// The steps of Make, in order: allocate the escrow record at its
    /// derived address, create the vault held by that address, store the
    /// record, and move the deposit from the maker into the vault under the
    /// maker's own signature.
    pub open spec fn spec_steps(self, program_id: Pubkey) -> Seq<Step> {
        seq![
            Step::CreateAccount {
                from: self.accounts.maker.key,
                to: self.accounts.escrow.key,
                lamports: ESCROW_RENT,
                space: ESCROW_LEN as u64,
                owner: program_id,
                seeds: self.spec_seeds(),
            },
            Step::CreateIdempotent {
                funding_account: self.accounts.maker.key,
                account: self.accounts.vault.key,
                wallet: self.accounts.escrow.key,
                mint: self.accounts.mint_a.key,
                system_program: self.accounts.system_program.key,
                token_program: self.accounts.token_program.key,
            },
            Step::StoreRecord { account: self.accounts.escrow.key, record: self.spec_record() },
            Step::Transfer {
                from: self.accounts.maker_ata_a.key,
                to: self.accounts.vault.key,
                authority: Authority::Signer(self.accounts.maker.key),
                amount: self.instruction_data.amount,
            },
        ]
    }

    /// Plans Make for the protocol `program_id`: the steps of
    /// [`Make::spec_steps`].
    pub fn process(&self, program_id: &Pubkey) -> (r: Vec<Step>)
        ensures
            r@ == self.spec_steps(*program_id),
    {
        let seeds = EscrowSeeds {
            maker: self.accounts.maker.key,
            seed: self.instruction_data.seed,
            bump: self.bump,
        };
        let mut steps: Vec<Step> = Vec::new();
        steps.push(
            ProgramAccount::init(
                self.accounts.maker,
                self.accounts.escrow,
                &seeds,
                ESCROW_LEN,
                ESCROW_RENT,
                program_id,
            ),
        );
        steps.push(
            AssociatedTokenAccount::init(
                self.accounts.maker,
                self.accounts.vault,
                self.accounts.escrow,
                self.accounts.mint_a,
                self.accounts.system_program,
                self.accounts.token_program,
            ),
        );
        steps.push(
            Step::StoreRecord {
                account: self.accounts.escrow.key,
                record: Escrow {
                    seed: self.instruction_data.seed,
                    maker: self.accounts.maker.key,
                    mint_a: self.accounts.mint_a.key,
                    mint_b: self.accounts.mint_b.key,
                    receive: self.instruction_data.receive,
                    bump: [self.bump],
                },
            },
        );
        steps.push(
            Step::Transfer {
                from: self.accounts.maker_ata_a.key,
                to: self.accounts.vault.key,
                authority: Authority::Signer(self.accounts.maker.key),
                amount: self.instruction_data.amount,
            },
        );
        assert(steps@ =~= self.spec_steps(*program_id));
        steps
    }
}

} // verus!
