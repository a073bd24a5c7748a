//! What each step does to the accounts of a ledger.
//!
//! A [`LedgerState`] maps the addresses that an instruction was handed to
//! the state of their accounts. Every step either fails, leaving the state
//! as it was, or succeeds with the next state. An account that does not
//! exist yet is present in its unallocated state: no lamports, no data, and
//! the system program as owner.
//!
//! An address that the protocol derived carries the seed material it was
//! derived from. Presenting exactly that material signs for the address;
//! nothing else does.
use crate::bytes::zeros;
use crate::pubkey::{token_program_id, SYSTEM_PROGRAM_ID};
use crate::state::{Escrow, ESCROW_LEN};
use crate::step::{Authority, EscrowSeeds, Step};
use crate::token::{
    is_token_account, spec_amount, spec_mint, spec_owner, spec_pack, spec_with_amount, MINT_LEN,
};
use pinocchio::program_error::ProgramError;
use pinocchio::pubkey::Pubkey;
use vstd::prelude::*;

verus! {

/// The rent deposit of a new token account.
pub const TOKEN_ACCOUNT_RENT: u64 = 2_039_280;

/// The largest data size that an account may be allocated with.
pub const MAX_DATA_LEN: u64 = 10_485_760;

/// The state of one account.
#[verifier::ext_equal]
pub struct AccountState {
    /// The program that owns the account.
    pub owner: Pubkey,
    /// Whether the account's key signed the transaction.
    pub is_signer: bool,
    /// The account's rent balance.
    pub lamports: u64,
    /// The account's data.
    pub data: Seq<u8>,
    /// The seed material from which the protocol derived the account's
    /// address, if it did.
    pub seeds: Option<EscrowSeeds>,
}

impl AccountState {
    /// The account holds nothing and belongs to the system program.
    pub open spec fn unallocated(self) -> bool {
        self.lamports == 0 && self.data.len() == 0 && self.owner == SYSTEM_PROGRAM_ID
    }

    /// The account is a token account.
    pub open spec fn is_token(self) -> bool {
        is_token_account(self.owner, self.data)
    }

    /// The account is a mint: the token program owns it and its data has a
    /// mint's size.
    pub open spec fn is_mint(self) -> bool {
        self.data.len() == MINT_LEN && self.owner@ == token_program_id()
    }

    /// The account's token balance; an account that is no token account
    /// holds none.
    pub open spec fn balance(self) -> u64 {
        if self.is_token() {
            spec_amount(self.data)
        } else {
            0
        }
    }

    /// The account after it was closed.
    pub open spec fn closed(self) -> AccountState {
        AccountState {
            owner: SYSTEM_PROGRAM_ID,
            is_signer: self.is_signer,
            lamports: 0,
            data: Seq::<u8>::empty(),
            seeds: self.seeds,
        }
    }

    /// The account with another rent balance.
    pub open spec fn with_lamports(self, lamports: u64) -> AccountState {
        AccountState {
            owner: self.owner,
            is_signer: self.is_signer,
            lamports,
            data: self.data,
            seeds: self.seeds,
        }
    }

    /// The account with other data.
    pub open spec fn with_data(self, data: Seq<u8>) -> AccountState {
        AccountState {
            owner: self.owner,
            is_signer: self.is_signer,
            lamports: self.lamports,
            data,
            seeds: self.seeds,
        }
    }

    /// The account after it was allocated to `owner` with `lamports` and
    /// `data`.
    pub open spec fn allocated(self, owner: Pubkey, lamports: u64, data: Seq<u8>) -> AccountState {
        AccountState { owner, is_signer: self.is_signer, lamports, data, seeds: self.seeds }
    }
}

/// The accounts that an instruction may touch, under one protocol identity.
#[verifier::ext_equal]
pub struct LedgerState {
    /// The protocol's own address.
    pub program_id: Pubkey,
    /// The state of each account, by address.
    pub accounts: Map<Pubkey, AccountState>,
}

impl LedgerState {
    /// The ledger knows the address.
    pub open spec fn has(self, key: Pubkey) -> bool {
        self.accounts.contains_key(key)
    }

    /// The ledger with the account at `key` replaced.
    pub open spec fn put(self, key: Pubkey, account: AccountState) -> LedgerState {
        LedgerState { program_id: self.program_id, accounts: self.accounts.insert(key, account) }
    }

    /// The protocol is neither the system program nor the token program,
    /// and each pair of maker and seed has at most one derived address.
    pub open spec fn wf(self) -> bool {
        &&& self.program_id != SYSTEM_PROGRAM_ID
        &&& self.program_id@ != token_program_id()
        &&& self.derivation_is_a_function()
    }

    /// Each pair of maker and seed has at most one derived address.
    pub open spec fn derivation_is_a_function(self) -> bool {
        forall|a: Pubkey, b: Pubkey|
            #![trigger self.accounts[a], self.accounts[b]]
            self.has(a) && self.has(b) && self.accounts[a].seeds is Some
                && self.accounts[b].seeds is Some && self.accounts[a].seeds->0.maker
                == self.accounts[b].seeds->0.maker && self.accounts[a].seeds->0.seed
                == self.accounts[b].seeds->0.seed ==> a == b
    }

    /// Some address was derived for `maker` and `seed`.
    pub open spec fn derives(self, maker: Pubkey, seed: u64) -> bool {
        exists|a: Pubkey|
            self.has(a) && (#[trigger] self.accounts[a]).seeds is Some
                && self.accounts[a].seeds->0.maker == maker && self.accounts[a].seeds->0.seed
                == seed
    }

    /// Whether the authority may act: a signer must have signed, and a
    /// derived address must be presented with the seed material it was
    /// derived from.
    pub open spec fn authorized(self, authority: Authority) -> bool {
        match authority {
            Authority::Signer(address) => self.has(address) && self.accounts[address].is_signer,
            Authority::Derived { address, seeds } => self.has(address)
                && self.accounts[address].seeds == Some(seeds),
        }
    }

    /// Allocates `space` zeroed bytes at `to` for `owner`, paid by `from`.
    ///
    /// Fails, in this order: with `NotEnoughAccountKeys` when either
    /// address is unknown; `InvalidArgument` when they are the same;
    /// `MissingRequiredSignature` when `from` did not sign, or when `seeds`
    /// is not what `to` was derived from; `AccountAlreadyInitialized` when
    /// `to` is allocated; `InvalidRealloc` when `space` is over the limit;
    /// `InsufficientFunds` when `from` holds less than `lamports`.
    pub open spec fn create_account(
        self,
        from: Pubkey,
        to: Pubkey,
        lamports: u64,
        space: u64,
        owner: Pubkey,
        seeds: EscrowSeeds,
    ) -> Result<LedgerState, ProgramError> {
        if !self.has(from) || !self.has(to) {
            Err(ProgramError::NotEnoughAccountKeys)
        } else if from == to {
            Err(ProgramError::InvalidArgument)
        } else if !self.accounts[from].is_signer {
            Err(ProgramError::MissingRequiredSignature)
        } else if self.accounts[to].seeds != Some(seeds) {
            Err(ProgramError::MissingRequiredSignature)
        } else if !self.accounts[to].unallocated() {
            Err(ProgramError::AccountAlreadyInitialized)
        } else if space > MAX_DATA_LEN {
            Err(ProgramError::InvalidRealloc)
        } else if self.accounts[from].lamports < lamports {
            Err(ProgramError::InsufficientFunds)
        } else {
            let payer = self.accounts[from];
            let fresh = self.accounts[to];
            Ok(
                self.put(from, payer.with_lamports((payer.lamports - lamports) as u64)).put(
                    to,
                    fresh.allocated(owner, lamports, zeros(space as nat)),
                ),
            )
        }
    }

    /// Creates the token account `account` of `mint` for `wallet`, paid by
    /// `funding_account`; does nothing when it exists with that holder and
    /// mint.
    ///
    /// Fails, in this order: with `NotEnoughAccountKeys` when the funder,
    /// the account, the wallet or the mint is unknown; `IncorrectProgramId`
    /// when the programs named are not the system and the token program;
    /// `InvalidAccountData` when `mint` is no mint; `IllegalOwner` when the
    /// account is a token account of another holder or mint;
    /// `AccountAlreadyInitialized` when it is allocated otherwise;
    /// `InvalidArgument` when it would pay for itself;
    /// `MissingRequiredSignature` when the funder did not sign;
    /// `InsufficientFunds` when the funder cannot pay the rent deposit.
    pub open spec fn create_idempotent(
        self,
        funding_account: Pubkey,
        account: Pubkey,
        wallet: Pubkey,
        mint: Pubkey,
        system_program: Pubkey,
        token_program: Pubkey,
    ) -> Result<LedgerState, ProgramError> {
        if !self.has(funding_account) || !self.has(account) || !self.has(wallet) || !self.has(
            mint,
        ) {
            Err(ProgramError::NotEnoughAccountKeys)
        } else if system_program != SYSTEM_PROGRAM_ID || token_program@ != token_program_id() {
            Err(ProgramError::IncorrectProgramId)
        } else if !self.accounts[mint].is_mint() {
            Err(ProgramError::InvalidAccountData)
        } else if self.accounts[account].is_token() {
            if spec_owner(self.accounts[account].data) == wallet@ && spec_mint(
                self.accounts[account].data,
            ) == mint@ {
                Ok(self)
            } else {
                Err(ProgramError::IllegalOwner)
            }
        } else if !self.accounts[account].unallocated() {
            Err(ProgramError::AccountAlreadyInitialized)
        } else if funding_account == account {
            Err(ProgramError::InvalidArgument)
        } else if !self.accounts[funding_account].is_signer {
            Err(ProgramError::MissingRequiredSignature)
        } else if self.accounts[funding_account].lamports < TOKEN_ACCOUNT_RENT {
            Err(ProgramError::InsufficientFunds)
        } else {
            let payer = self.accounts[funding_account];
            let fresh = self.accounts[account];
            Ok(
                self.put(
                    funding_account,
                    payer.with_lamports((payer.lamports - TOKEN_ACCOUNT_RENT) as u64),
                ).put(
                    account,
                    fresh.allocated(token_program, TOKEN_ACCOUNT_RENT, spec_pack(mint, wallet, 0)),
                ),
            )
        }
    }

    /// Stores `record` in the protocol-owned `account`.
    ///
    /// Fails, in this order: with `NotEnoughAccountKeys` when the address
    /// is unknown; `InvalidAccountOwner` when the protocol does not own the
    /// account; `InvalidAccountData` when its data has not the record's
    /// size.
    pub open spec fn store_record(self, account: Pubkey, record: Escrow) -> Result<
        LedgerState,
        ProgramError,
    > {
        if !self.has(account) {
            Err(ProgramError::NotEnoughAccountKeys)
        } else if self.accounts[account].owner != self.program_id {
            Err(ProgramError::InvalidAccountOwner)
        } else if self.accounts[account].data.len() != ESCROW_LEN {
            Err(ProgramError::InvalidAccountData)
        } else {
            Ok(self.put(account, self.accounts[account].with_data(record.spec_bytes())))
        }
    }

    /// Moves `amount` tokens from `from` to `to` under `authority`. A
    /// transfer from an account to itself changes nothing.
    ///
    /// Fails, in this order: with `NotEnoughAccountKeys` when either
    /// address is unknown; `InvalidAccountData` when either is no token
    /// account, or when their mints differ; `IncorrectAuthority` when the
    /// authority is not the holder of `from`; `MissingRequiredSignature`
    /// when the authority may not act; `InsufficientFunds` when `from`
    /// holds less than `amount`; `ArithmeticOverflow` when `to` cannot hold
    /// the sum.
    pub open spec fn transfer(self, from: Pubkey, to: Pubkey, authority: Authority, amount: u64)
        -> Result<LedgerState, ProgramError> {
        if !self.has(from) || !self.has(to) {
            Err(ProgramError::NotEnoughAccountKeys)
        } else if !self.accounts[from].is_token() || !self.accounts[to].is_token() {
            Err(ProgramError::InvalidAccountData)
        } else if spec_mint(self.accounts[from].data) != spec_mint(self.accounts[to].data) {
            Err(ProgramError::InvalidAccountData)
        } else if spec_owner(self.accounts[from].data) != authority.spec_address()@ {
            Err(ProgramError::IncorrectAuthority)
        } else if !self.authorized(authority) {
            Err(ProgramError::MissingRequiredSignature)
        } else if spec_amount(self.accounts[from].data) < amount {
            Err(ProgramError::InsufficientFunds)
        } else if from == to {
            Ok(self)
        } else if spec_amount(self.accounts[to].data) + amount > u64::MAX {
            Err(ProgramError::ArithmeticOverflow)
        } else {
            let source = self.accounts[from];
            let target = self.accounts[to];
            Ok(
                self.put(
                    from,
                    source.with_data(
                        spec_with_amount(
                            source.data,
                            (spec_amount(source.data) - amount) as u64,
                        ),
                    ),
                ).put(
                    to,
                    target.with_data(
                        spec_with_amount(
                            target.data,
                            (spec_amount(target.data) + amount) as u64,
                        ),
                    ),
                ),
            )
        }
    }

    /// Closes the empty token account `account` under `authority`; its
    /// lamports go to `destination`.
    ///
    /// Fails, in this order: with `NotEnoughAccountKeys` when either
    /// address is unknown; `InvalidArgument` when they are the same;
    /// `InvalidAccountData` when `account` is no token account;
    /// `IncorrectAuthority` when the authority is not its holder;
    /// `MissingRequiredSignature` when the authority may not act;
    /// `InvalidAccountData` when the account still holds tokens;
    /// `ArithmeticOverflow` when `destination` cannot hold the sum.
    pub open spec fn close_account(self, account: Pubkey, destination: Pubkey, authority: Authority)
        -> Result<LedgerState, ProgramError> {
        if !self.has(account) || !self.has(destination) {
            Err(ProgramError::NotEnoughAccountKeys)
        } else if account == destination {
            Err(ProgramError::InvalidArgument)
        } else if !self.accounts[account].is_token() {
            Err(ProgramError::InvalidAccountData)
        } else if spec_owner(self.accounts[account].data) != authority.spec_address()@ {
            Err(ProgramError::IncorrectAuthority)
        } else if !self.authorized(authority) {
            Err(ProgramError::MissingRequiredSignature)
        } else if spec_amount(self.accounts[account].data) != 0 {
            Err(ProgramError::InvalidAccountData)
        } else if self.accounts[account].lamports + self.accounts[destination].lamports
            > u64::MAX {
            Err(ProgramError::ArithmeticOverflow)
        } else {
            let gone = self.accounts[account];
            let heir = self.accounts[destination];
            Ok(
                self.put(account, gone.closed()).put(
                    destination,
                    heir.with_lamports((gone.lamports + heir.lamports) as u64),
                ),
            )
        }
    }

    /// Closes the protocol-owned `account`; its lamports go to
    /// `destination`.
    ///
    /// Fails, in this order: with `NotEnoughAccountKeys` when either
    /// address is unknown; `InvalidArgument` when they are the same;
    /// `InvalidAccountOwner` when the protocol does not own the account;
    /// `ArithmeticOverflow` when `destination` cannot hold the sum.
    pub open spec fn close_program_account(self, account: Pubkey, destination: Pubkey) -> Result<
        LedgerState,
        ProgramError,
    > {
        if !self.has(account) || !self.has(destination) {
            Err(ProgramError::NotEnoughAccountKeys)
        } else if account == destination {
            Err(ProgramError::InvalidArgument)
        } else if self.accounts[account].owner != self.program_id {
            Err(ProgramError::InvalidAccountOwner)
        } else if self.accounts[account].lamports + self.accounts[destination].lamports
            > u64::MAX {
            Err(ProgramError::ArithmeticOverflow)
        } else {
            let gone = self.accounts[account];
            let heir = self.accounts[destination];
            Ok(
                self.put(account, gone.closed()).put(
                    destination,
                    heir.with_lamports((gone.lamports + heir.lamports) as u64),
                ),
            )
        }
    }

    /// What one step does.
    pub open spec fn step(self, step: Step) -> Result<LedgerState, ProgramError> {
        match step {
            Step::CreateAccount { from, to, lamports, space, owner, seeds } => self.create_account(
                from,
                to,
                lamports,
                space,
                owner,
                seeds,
            ),
            Step::CreateIdempotent {
                funding_account,
                account,
                wallet,
                mint,
                system_program,
                token_program,
            } => self.create_idempotent(
                funding_account,
                account,
                wallet,
                mint,
                system_program,
                token_program,
            ),
            Step::StoreRecord { account, record } => self.store_record(account, record),
            Step::Transfer { from, to, authority, amount } => self.transfer(
                from,
                to,
                authority,
                amount,
            ),
            Step::CloseAccount { account, destination, authority } => self.close_account(
                account,
                destination,
                authority,
            ),
            Step::CloseProgramAccount { account, destination } => self.close_program_account(
                account,
                destination,
            ),
        }
    }

    /// What a list of steps does: each step acts on the state that the one
    /// before it left, and the first failure is the failure of the whole.
    pub open spec fn run(self, steps: Seq<Step>) -> Result<LedgerState, ProgramError>
        decreases steps.len(),
    {
        if steps.len() == 0 {
            Ok(self)
        } else {
            match self.step(steps[0]) {
                Ok(next) => next.run(steps.subrange(1, steps.len() as int)),
                Err(e) => Err(e),
            }
        }
    }
}

/// A step changes neither which addresses the ledger knows, nor who signed,
/// nor what an address was derived from, nor the protocol's identity.
pub proof fn lemma_step_keeps_frame(before: LedgerState, step: Step)
    requires
        before.step(step) is Ok,
    ensures
        before.step(step)->Ok_0.program_id == before.program_id,
        before.step(step)->Ok_0.accounts.dom() == before.accounts.dom(),
        forall|k: Pubkey| #[trigger]
            before.has(k) ==> before.step(step)->Ok_0.accounts[k].seeds == before.accounts[k].seeds
                && before.step(step)->Ok_0.accounts[k].is_signer == before.accounts[k].is_signer,
        before.wf() ==> before.step(step)->Ok_0.wf(),
{
    let after = before.step(step)->Ok_0;
    assert(after.accounts.dom() =~= before.accounts.dom());
    assert forall|k: Pubkey| #[trigger] before.has(k) implies after.accounts[k].seeds
        == before.accounts[k].seeds && after.accounts[k].is_signer
        == before.accounts[k].is_signer by {}
    if before.wf() {
        assert(after.derivation_is_a_function()) by {
            assert forall|a: Pubkey, b: Pubkey|
            #![trigger after.accounts[a], after.accounts[b]]
            after.has(a) && after.has(b) && after.accounts[a].seeds is Some
                && after.accounts[b].seeds is Some && after.accounts[a].seeds->0.maker
                == after.accounts[b].seeds->0.maker && after.accounts[a].seeds->0.seed
                == after.accounts[b].seeds->0.seed implies a == b by {
            assert(before.has(a) && before.has(b));
            assert(before.accounts[a].seeds == after.accounts[a].seeds);
                assert(before.accounts[b].seeds == after.accounts[b].seeds);
            }
        }
    }
}

/// The accounts that a step may change: the two accounts of an allocation,
/// a transfer or a closure, the funder and the account of a creation, and
/// the account that a record is stored in.
pub open spec fn spec_writes(step: Step) -> Set<Pubkey> {
    match step {
        Step::CreateAccount { from, to, .. } => set![from, to],
        Step::CreateIdempotent { funding_account, account, .. } => set![funding_account, account],
        Step::StoreRecord { account, .. } => set![account],
        Step::Transfer { from, to, .. } => set![from, to],
        Step::CloseAccount { account, destination, .. } => set![account, destination],
        Step::CloseProgramAccount { account, destination } => set![account, destination],
    }
}

/// A step leaves every account alone that it may not change.
pub proof fn lemma_step_changes_only_writes(before: LedgerState, step: Step)
    requires
        before.step(step) is Ok,
    ensures
        forall|k: Pubkey|
            before.has(k) && !spec_writes(step).contains(k) ==> (#[trigger] before.step(
                step,
            )->Ok_0.accounts[k]) == before.accounts[k],
{
}

/// A run of steps leaves every account alone that none of its steps may
/// change.
pub proof fn lemma_run_changes_only_writes(
    before: LedgerState,
    steps: Seq<Step>,
    after: LedgerState,
    k: Pubkey,
)
    requires
        before.run(steps) == Ok::<LedgerState, ProgramError>(after),
        before.has(k),
        forall|i: int| 0 <= i < steps.len() ==> !spec_writes(#[trigger] steps[i]).contains(k),
    ensures
        after.accounts[k] == before.accounts[k],
    decreases steps.len(),
{
    if steps.len() > 0 {
        let next = before.step(steps[0])->Ok_0;
        let rest = steps.subrange(1, steps.len() as int);
        lemma_step_changes_only_writes(before, steps[0]);
        lemma_step_keeps_frame(before, steps[0]);
        assert(next.has(k));
        assert forall|i: int| 0 <= i < rest.len() implies !spec_writes(#[trigger] rest[i]).contains(
            k,
        ) by {
            assert(rest[i] == steps[i + 1]);
        }
        lemma_run_changes_only_writes(next, rest, after, k);
    }
}

} // verus!
