//! An in-memory ledger that performs the steps of an instruction.
//!
//! [`Ledger`] holds the accounts that instructions are handed and carries
//! out each [`Step`] as [`LedgerState::step`] says. A list of steps is
//! performed as a whole or not at all.
use crate::account::Account;
use crate::bytes::append_zeros;
use crate::helpers::ProgramAccount;
use crate::model::{AccountState, LedgerState, MAX_DATA_LEN, TOKEN_ACCOUNT_RENT};
use crate::pubkey::{
    address_eq, is_token_program, lemma_pubkey_view_injective, SYSTEM_PROGRAM_ID,
};
use crate::state::{Escrow, ESCROW_LEN};
use crate::step::{Authority, EscrowSeeds, Step};
use crate::token::{with_amount, TokenAccount, MINT_LEN};
use pinocchio::program_error::ProgramError;
use pinocchio::pubkey::Pubkey;
use vstd::prelude::*;

verus! {

/// One account of the ledger, with the seed material of its address where
/// the protocol derived it.
pub struct Entry {
    /// The account.
    pub account: Account,
    /// The seed material from which the account's address was derived.
    pub seeds: Option<EscrowSeeds>,
}

/// The accounts of a ledger under one protocol identity.
pub struct Ledger {
    /// The protocol's own address.
    program_id: Pubkey,
    /// The accounts, each address once.
    entries: Vec<Entry>,
}

/// The state that an entry stands for.
pub open spec fn entry_state(entry: Entry) -> AccountState {
    AccountState {
        owner: entry.account.owner,
        is_signer: entry.account.is_signer,
        lamports: entry.account.lamports,
        data: entry.account.data@,
        seeds: entry.seeds,
    }
}

/// No two entries have the same address.
pub open spec fn keys_distinct(entries: Seq<Entry>) -> bool {
    forall|i: int, j: int|
        0 <= i < entries.len() && 0 <= j < entries.len() && entries[i].account.key
            == entries[j].account.key ==> i == j
}

/// Some entry has the address `key`.
pub open spec fn has_key(entries: Seq<Entry>, key: Pubkey) -> bool {
    exists|i: int| 0 <= i < entries.len() && entries[i].account.key == key
}

/// The position of the entry with the address `key`.
pub open spec fn index_of(entries: Seq<Entry>, key: Pubkey) -> int {
    choose|i: int| 0 <= i < entries.len() && entries[i].account.key == key
}

/// The accounts that a list of entries stands for, by address.
pub open spec fn accounts_of(entries: Seq<Entry>) -> Map<Pubkey, AccountState> {
    Map::new(
        |key: Pubkey| has_key(entries, key),
        |key: Pubkey| entry_state(entries[index_of(entries, key)]),
    )
}

/// What an operation owes: on success the state that was expected, on
/// failure the expected error and the state as it was.
pub open spec fn agrees(
    expected: Result<LedgerState, ProgramError>,
    outcome: Result<(), ProgramError>,
    before: LedgerState,
    after: LedgerState,
) -> bool {
    match expected {
        Ok(next) => outcome is Ok && after == next,
        Err(e) => outcome == Err::<(), ProgramError>(e) && after == before,
    }
}

/// With distinct addresses, an entry is found where it stands.
proof fn lemma_entry_found(entries: Seq<Entry>, i: int)
    requires
        keys_distinct(entries),
        0 <= i < entries.len(),
    ensures
        has_key(entries, entries[i].account.key),
        index_of(entries, entries[i].account.key) == i,
        accounts_of(entries).contains_key(entries[i].account.key),
        accounts_of(entries)[entries[i].account.key] == entry_state(entries[i]),
{
}

/// Replacing an entry by one with the same address replaces its account and
/// leaves the others.
proof fn lemma_entry_replaced(entries: Seq<Entry>, i: int, entry: Entry)
    requires
        keys_distinct(entries),
        0 <= i < entries.len(),
        entry.account.key == entries[i].account.key,
    ensures
        keys_distinct(entries.update(i, entry)),
        accounts_of(entries.update(i, entry)) == accounts_of(entries).insert(
            entry.account.key,
            entry_state(entry),
        ),
{
    let updated = entries.update(i, entry);
    assert forall|key: Pubkey| has_key(updated, key) == has_key(entries, key) by {
        if has_key(entries, key) {
            let j = index_of(entries, key);
            assert(updated[j].account.key == key);
        }
        if has_key(updated, key) {
            let j = index_of(updated, key);
            assert(entries[j].account.key == key);
        }
    }
    assert(keys_distinct(updated)) by {
        assert forall|a: int, b: int|
            0 <= a < updated.len() && 0 <= b < updated.len() && updated[a].account.key
                == updated[b].account.key implies a == b by {
            assert(entries[a].account.key == updated[a].account.key);
            assert(entries[b].account.key == updated[b].account.key);
        }
    }
    assert forall|key: Pubkey| has_key(entries, key) implies #[trigger] accounts_of(updated)[key]
        == accounts_of(entries).insert(entry.account.key, entry_state(entry))[key] by {
        let j = index_of(entries, key);
        lemma_entry_found(entries, j);
        assert(updated[j].account.key == key);
        lemma_entry_found(updated, j);
    }
    assert(accounts_of(updated) =~= accounts_of(entries).insert(
        entry.account.key,
        entry_state(entry),
    ));
}

/// Running the steps from the `i`-th on is performing the `i`-th and then
/// running those after it.
proof fn lemma_run_at(state: LedgerState, steps: Seq<Step>, i: int)
    requires
        0 <= i < steps.len(),
    ensures
        state.run(steps.subrange(i, steps.len() as int)) == match state.step(steps[i]) {
            Ok(next) => next.run(steps.subrange(i + 1, steps.len() as int)),
            Err(e) => Err(e),
        },
{
    let rest = steps.subrange(i, steps.len() as int);
    assert(rest[0] == steps[i]);
    assert(rest.subrange(1, rest.len() as int) =~= steps.subrange(i + 1, steps.len() as int));
}

/// Two lists of entries that agree, place by place, on address and state
/// stand for the same accounts.
proof fn lemma_same_entries(a: Seq<Entry>, b: Seq<Entry>)
    requires
        a.len() == b.len(),
        forall|i: int|
            0 <= i < a.len() ==> (#[trigger] a[i]).account.key == b[i].account.key && entry_state(
                a[i],
            ) == entry_state(b[i]),
    ensures
        keys_distinct(a) == keys_distinct(b),
        keys_distinct(a) ==> accounts_of(a) == accounts_of(b),
{
    if keys_distinct(a) {
        assert forall|i: int, j: int|
            0 <= i < b.len() && 0 <= j < b.len() && b[i].account.key
                == b[j].account.key implies i == j by {
            assert(a[i].account.key == a[j].account.key);
        }
        assert forall|key: Pubkey| has_key(a, key) == has_key(b, key) by {
            if has_key(a, key) {
                let i = index_of(a, key);
                assert(b[i].account.key == a[i].account.key);
            }
            if has_key(b, key) {
                let i = index_of(b, key);
                assert(a[i].account.key == b[i].account.key);
            }
        }
        assert forall|key: Pubkey| has_key(a, key) implies #[trigger] accounts_of(a)[key]
            == accounts_of(b)[key] by {
            let i = index_of(a, key);
            assert(a[i].account.key == b[i].account.key);
            lemma_entry_found(a, i);
            lemma_entry_found(b, i);
        }
        assert(accounts_of(a) =~= accounts_of(b));
    }
    if keys_distinct(b) {
        assert forall|i: int, j: int|
            0 <= i < a.len() && 0 <= j < a.len() && a[i].account.key
                == a[j].account.key implies i == j by {
            assert(b[i].account.key == b[j].account.key);
        }
    }
}

/// Replacing an account by one derived from the same seed material keeps a
/// well-formed ledger well formed.
proof fn lemma_put_keeps_wf(state: LedgerState, key: Pubkey, account: AccountState)
    requires
        state.wf(),
        state.has(key),
        account.seeds == state.accounts[key].seeds,
    ensures
        state.put(key, account).wf(),
{
    let next = state.put(key, account);
    assert forall|a: Pubkey, b: Pubkey|
        #![trigger next.accounts[a], next.accounts[b]]
        next.has(a) && next.has(b) && next.accounts[a].seeds is Some
            && next.accounts[b].seeds is Some && next.accounts[a].seeds->0.maker
            == next.accounts[b].seeds->0.maker && next.accounts[a].seeds->0.seed
            == next.accounts[b].seeds->0.seed implies a == b by {
        assert(state.has(a) && state.has(b));
        assert(state.accounts[a].seeds == next.accounts[a].seeds);
        assert(state.accounts[b].seeds == next.accounts[b].seeds);
    }
}

/// Whether two lots of seed material are the same.
fn seeds_eq(a: &EscrowSeeds, b: &EscrowSeeds) -> (r: bool)
    ensures
        r == (*a == *b),
{
    address_eq(&a.maker, &b.maker) && a.seed == b.seed && a.bump == b.bump
}

/// Whether the account holds nothing and belongs to the system program.
fn is_unallocated(account: &Account) -> (r: bool)
    ensures
        r == (account.lamports == 0 && account.data@.len() == 0 && account.owner
            == SYSTEM_PROGRAM_ID),
{
    account.lamports == 0 && account.data.len() == 0 && address_eq(
        &account.owner,
        &SYSTEM_PROGRAM_ID,
    )
}

impl View for Ledger {
    type V = LedgerState;

    closed spec fn view(&self) -> LedgerState {
        LedgerState { program_id: self.program_id, accounts: accounts_of(self.entries@) }
    }
}

impl Ledger {
    /// No two entries of the ledger have the same address.
    pub closed spec fn distinct(&self) -> bool {
        keys_distinct(self.entries@)
    }

    /// The ledger's entries have distinct addresses and its state is well
    /// formed.
    pub open spec fn wf(&self) -> bool {
        self.distinct() && self@.wf()
    }

    /// An empty ledger of the protocol `program_id`. Fails with
    /// `IncorrectProgramId` when `program_id` is the system program or the
    /// token program.
    pub fn new(program_id: Pubkey) -> (r: Result<Ledger, ProgramError>)
        ensures
            match r {
                Ok(ledger) => {
                    &&& ledger.wf()
                    &&& ledger@.program_id == program_id
                    &&& ledger@.accounts == Map::<Pubkey, AccountState>::empty()
                },
                Err(e) => {
                    &&& e == ProgramError::IncorrectProgramId
                    &&& (program_id == SYSTEM_PROGRAM_ID || program_id@
                        == crate::pubkey::token_program_id())
                },
            },
    {
        if address_eq(&program_id, &SYSTEM_PROGRAM_ID) || is_token_program(&program_id) {
            return Err(ProgramError::IncorrectProgramId);
        }
        let ledger = Ledger { program_id, entries: Vec::new() };
        assert(ledger@.accounts =~= Map::<Pubkey, AccountState>::empty());
        Ok(ledger)
    }

    /// The position of the account at `key`, if the ledger knows it.
    fn find(&self, key: &Pubkey) -> (r: Option<usize>)
        requires
            self.wf(),
        ensures
            match r {
                Some(i) => {
                    &&& i < self.entries@.len()
                    &&& self.entries@[i as int].account.key == *key
                    &&& self@.has(*key)
                    &&& self@.accounts[*key] == entry_state(self.entries@[i as int])
                },
                None => !self@.has(*key),
            },
    {
        let mut i: usize = 0;
        while i < self.entries.len()
            invariant
                self.wf(),
                i <= self.entries@.len(),
                forall|j: int| 0 <= j < i ==> self.entries@[j].account.key != *key,
            decreases self.entries@.len() - i,
        {
            if address_eq(&self.entries[i].account.key, key) {
                proof {
                    lemma_entry_found(self.entries@, i as int);
                }
                return Some(i);
            }
            i += 1;
        }
        None
    }

    /// Whether some account's address was derived for the maker and the
    /// seed of `seeds`.
    fn derives(&self, seeds: &EscrowSeeds) -> (r: bool)
        requires
            self.wf(),
        ensures
            r == self@.derives(seeds.maker, seeds.seed),
    {
        let mut i: usize = 0;
        while i < self.entries.len()
            invariant
                self.wf(),
                i <= self.entries@.len(),
                forall|j: int|
                    0 <= j < i ==> !((#[trigger] self.entries@[j]).seeds is Some
                        && self.entries@[j].seeds->0.maker == seeds.maker
                        && self.entries@[j].seeds->0.seed == seeds.seed),
            decreases self.entries@.len() - i,
        {
            match &self.entries[i].seeds {
                Some(other) => {
                    if address_eq(&other.maker, &seeds.maker) && other.seed == seeds.seed {
                        proof {
                            lemma_entry_found(self.entries@, i as int);
                            let found = self.entries@[i as int].account.key;
                            assert(self@.has(found) && self@.accounts[found].seeds is Some);
                        }
                        return true;
                    }
                },
                None => {},
            }
            i += 1;
        }
        proof {
            assert forall|a: Pubkey|
                self@.has(a) && (#[trigger] self@.accounts[a]).seeds is Some implies !(
                self@.accounts[a].seeds->0.maker == seeds.maker
                    && self@.accounts[a].seeds->0.seed == seeds.seed) by {
                let j = index_of(self.entries@, a);
                lemma_entry_found(self.entries@, j);
            }
        }
        false
    }

    /// Adds an account, with the seed material of its address where the
    /// protocol derived it. Fails with `AccountAlreadyInitialized` when the
    /// ledger knows the address already, and with `InvalidSeeds` when the
    /// maker and the seed of `seeds` already have a derived address.
    pub fn insert(&mut self, account: Account, seeds: Option<EscrowSeeds>) -> (r: Result<
        (),
        ProgramError,
    >)
        requires
            old(self).wf(),
        ensures
            final(self).wf(),
            match r {
                Ok(_) => {
                    &&& !old(self)@.has(account.key)
                    &&& seeds is Some ==> !old(self)@.derives(seeds->0.maker, seeds->0.seed)
                    &&& final(self)@ == old(self)@.put(
                        account.key,
                        entry_state(Entry { account, seeds }),
                    )
                },
                Err(e) => {
                    &&& final(self)@ == old(self)@
                    &&& if old(self)@.has(account.key) {
                        e == ProgramError::AccountAlreadyInitialized
                    } else {
                        &&& e == ProgramError::InvalidSeeds
                        &&& seeds is Some
                        &&& old(self)@.derives(seeds->0.maker, seeds->0.seed)
                    }
                },
            },
    {
        if self.find(&account.key).is_some() {
            return Err(ProgramError::AccountAlreadyInitialized);
        }
        if let Some(material) = &seeds {
            if self.derives(material) {
                return Err(ProgramError::InvalidSeeds);
            }
        }
        let ghost before = self.entries@;
        let entry = Entry { account, seeds };
        self.entries.push(entry);
        proof {
            let after = self.entries@;
            let last = before.len() as int;
            assert(forall|i: int| 0 <= i < last ==> after[i] == before[i]);
            assert(!has_key(before, entry.account.key));
            assert(keys_distinct(after)) by {
                assert forall|a: int, b: int|
                    0 <= a < after.len() && 0 <= b < after.len() && after[a].account.key
                        == after[b].account.key implies a == b by {
                    if a < last && b < last {
                        assert(before[a].account.key == before[b].account.key);
                    } else if a < last {
                        assert(before[a].account.key == entry.account.key);
                    } else if b < last {
                        assert(before[b].account.key == entry.account.key);
                    }
                }
            }
            assert forall|key: Pubkey| has_key(after, key) == (has_key(before, key) || key
                == entry.account.key) by {
                if has_key(before, key) {
                    let j = index_of(before, key);
                    assert(after[j].account.key == key);
                }
                if key == entry.account.key {
                    assert(after[last].account.key == key);
                }
                if has_key(after, key) {
                    let j = index_of(after, key);
                    if j < last {
                        assert(before[j].account.key == key);
                    }
                }
            }
            assert forall|key: Pubkey| has_key(after, key) implies #[trigger] accounts_of(
                after,
            )[key] == accounts_of(before).insert(entry.account.key, entry_state(entry))[key] by {
                let j = index_of(after, key);
                lemma_entry_found(after, j);
                if j < last {
                    assert(before[j].account.key == key);
                    lemma_entry_found(before, j);
                }
            }
            assert(accounts_of(after) =~= accounts_of(before).insert(
                entry.account.key,
                entry_state(entry),
            ));
            let state = self@;
            assert(state.derivation_is_a_function()) by {
                assert forall|a: Pubkey, b: Pubkey|
                    #![trigger state.accounts[a], state.accounts[b]]
                    state.has(a) && state.has(b) && state.accounts[a].seeds is Some
                        && state.accounts[b].seeds is Some && state.accounts[a].seeds->0.maker
                        == state.accounts[b].seeds->0.maker && state.accounts[a].seeds->0.seed
                        == state.accounts[b].seeds->0.seed implies a == b by {
                    let i = index_of(after, a);
                    let j = index_of(after, b);
                    lemma_entry_found(after, i);
                    lemma_entry_found(after, j);
                    if i < last && j < last {
                        lemma_entry_found(before, i);
                        lemma_entry_found(before, j);
                        assert(old(self)@.accounts[a] == state.accounts[a]);
                        assert(old(self)@.accounts[b] == state.accounts[b]);
                    } else if i < last {
                        assert(before[i].seeds is Some);
                    } else if j < last {
                        assert(before[j].seeds is Some);
                    }
                }
            }
        }
        Ok(())
    }

    /// A copy of the account at `key`, as an instruction is handed it.
    pub fn account(&self, key: &Pubkey) -> (r: Option<Account>)
        requires
            self.wf(),
        ensures
            match r {
                Some(account) => {
                    &&& self@.has(*key)
                    &&& account.key == *key
                    &&& account.owner == self@.accounts[*key].owner
                    &&& account.is_signer == self@.accounts[*key].is_signer
                    &&& account.lamports == self@.accounts[*key].lamports
                    &&& account.data@ == self@.accounts[*key].data
                },
                None => !self@.has(*key),
            },
    {
        match self.find(key) {
            Some(i) => Some(self.entries[i].account.clone()),
            None => None,
        }
    }

    /// Puts `account` in the place of the entry at `i`, which has its
    /// address.
    fn replace(&mut self, i: usize, account: Account)
        requires
            old(self).wf(),
            i < old(self).entries@.len(),
            account.key == old(self).entries@[i as int].account.key,
        ensures
            final(self).wf(),
            final(self).entries@.len() == old(self).entries@.len(),
            forall|j: int|
                0 <= j < old(self).entries@.len() ==> (#[trigger] final(self).entries@[j]).account.key
                    == old(self).entries@[j].account.key,
            forall|j: int|
                0 <= j < old(self).entries@.len() && j != i ==> #[trigger] final(self).entries@[j]
                    == old(self).entries@[j],
            final(self)@ == old(self)@.put(
                account.key,
                entry_state(Entry { account, seeds: old(self).entries@[i as int].seeds }),
            ),
    {
        let seeds = self.entries[i].seeds;
        let entry = Entry { account, seeds };
        proof {
            lemma_entry_found(self.entries@, i as int);
            lemma_entry_replaced(self.entries@, i as int, entry);
            lemma_put_keeps_wf(self@, entry.account.key, entry_state(entry));
        }
        self.entries[i] = entry;
    }

    /// Whether the authority may act on this ledger.
    fn authorized(&self, authority: &Authority) -> (r: bool)
        requires
            self.wf(),
        ensures
            r == self@.authorized(*authority),
    {
        match authority {
            Authority::Signer(address) => match self.find(address) {
                Some(i) => self.entries[i].account.is_signer,
                None => false,
            },
            Authority::Derived { address, seeds } => match self.find(address) {
                Some(i) => match &self.entries[i].seeds {
                    Some(material) => seeds_eq(material, seeds),
                    None => false,
                },
                None => false,
            },
        }
    }

    /// Performs [`Step::CreateAccount`].
    fn create_account(
        &mut self,
        from: &Pubkey,
        to: &Pubkey,
        lamports: u64,
        space: u64,
        owner: &Pubkey,
        seeds: &EscrowSeeds,
    ) -> (r: Result<(), ProgramError>)
        requires
            old(self).wf(),
        ensures
            final(self).wf(),
            agrees(
                old(self)@.create_account(*from, *to, lamports, space, *owner, *seeds),
                r,
                old(self)@,
                final(self)@,
            ),
    {
        let (i, j) = match (self.find(from), self.find(to)) {
            (Some(i), Some(j)) => (i, j),
            _ => {
                return Err(ProgramError::NotEnoughAccountKeys);
            },
        };
        if address_eq(from, to) {
            return Err(ProgramError::InvalidArgument);
        }
        if !self.entries[i].account.is_signer {
            return Err(ProgramError::MissingRequiredSignature);
        }
        let signed = match &self.entries[j].seeds {
            Some(material) => seeds_eq(material, seeds),
            None => false,
        };
        if !signed {
            return Err(ProgramError::MissingRequiredSignature);
        }
        if !is_unallocated(&self.entries[j].account) {
            return Err(ProgramError::AccountAlreadyInitialized);
        }
        if space > MAX_DATA_LEN {
            return Err(ProgramError::InvalidRealloc);
        }
        if self.entries[i].account.lamports < lamports {
            return Err(ProgramError::InsufficientFunds);
        }
        let mut payer = self.entries[i].account.clone();
        payer.lamports = payer.lamports - lamports;
        let mut fresh = self.entries[j].account.clone();
        fresh.owner = *owner;
        fresh.lamports = lamports;
        let mut data: Vec<u8> = Vec::new();
        append_zeros(&mut data, space as usize);
        assert(data@ =~= crate::bytes::zeros(space as nat));
        fresh.data = data;
        self.replace(i, payer);
        self.replace(j, fresh);
        Ok(())
    }

    /// Performs [`Step::CreateIdempotent`].
    fn create_idempotent(
        &mut self,
        funding_account: &Pubkey,
        account: &Pubkey,
        wallet: &Pubkey,
        mint: &Pubkey,
        system_program: &Pubkey,
        token_program: &Pubkey,
    ) -> (r: Result<(), ProgramError>)
        requires
            old(self).wf(),
        ensures
            final(self).wf(),
            agrees(
                old(self)@.create_idempotent(
                    *funding_account,
                    *account,
                    *wallet,
                    *mint,
                    *system_program,
                    *token_program,
                ),
                r,
                old(self)@,
                final(self)@,
            ),
    {
        let (i, j, m) = match (
            self.find(funding_account),
            self.find(account),
            self.find(wallet),
            self.find(mint),
        ) {
            (Some(i), Some(j), Some(_), Some(m)) => (i, j, m),
            _ => {
                return Err(ProgramError::NotEnoughAccountKeys);
            },
        };
        if !address_eq(system_program, &SYSTEM_PROGRAM_ID) || !is_token_program(token_program) {
            return Err(ProgramError::IncorrectProgramId);
        }
        if self.entries[m].account.data.len() != MINT_LEN || !is_token_program(
            &self.entries[m].account.owner,
        ) {
            return Err(ProgramError::InvalidAccountData);
        }
        if let Ok(existing) = TokenAccount::load(&self.entries[j].account) {
            proof {
                lemma_pubkey_view_injective(existing.owner, *wallet);
                lemma_pubkey_view_injective(existing.mint, *mint);
            }
            if address_eq(&existing.owner, wallet) && address_eq(&existing.mint, mint) {
                return Ok(());
            }
            return Err(ProgramError::IllegalOwner);
        }
        if !is_unallocated(&self.entries[j].account) {
            return Err(ProgramError::AccountAlreadyInitialized);
        }
        if address_eq(funding_account, account) {
            return Err(ProgramError::InvalidArgument);
        }
        if !self.entries[i].account.is_signer {
            return Err(ProgramError::MissingRequiredSignature);
        }
        if self.entries[i].account.lamports < TOKEN_ACCOUNT_RENT {
            return Err(ProgramError::InsufficientFunds);
        }
        let mut payer = self.entries[i].account.clone();
        payer.lamports = payer.lamports - TOKEN_ACCOUNT_RENT;
        let mut fresh = self.entries[j].account.clone();
        fresh.owner = *token_program;
        fresh.lamports = TOKEN_ACCOUNT_RENT;
        fresh.data = (TokenAccount { mint: *mint, owner: *wallet, amount: 0 }).pack();
        self.replace(i, payer);
        self.replace(j, fresh);
        Ok(())
    }

    /// Performs [`Step::StoreRecord`].
    fn store_record(&mut self, account: &Pubkey, record: &Escrow) -> (r: Result<(), ProgramError>)
        requires
            old(self).wf(),
        ensures
            final(self).wf(),
            agrees(old(self)@.store_record(*account, *record), r, old(self)@, final(self)@),
    {
        let i = match self.find(account) {
            Some(i) => i,
            None => {
                return Err(ProgramError::NotEnoughAccountKeys);
            },
        };
        if !address_eq(&self.entries[i].account.owner, &self.program_id) {
            return Err(ProgramError::InvalidAccountOwner);
        }
        if self.entries[i].account.data.len() != ESCROW_LEN {
            return Err(ProgramError::InvalidAccountData);
        }
        let mut stored = self.entries[i].account.clone();
        stored.data = record.to_bytes();
        self.replace(i, stored);
        Ok(())
    }

    /// Performs [`Step::Transfer`].
    fn transfer(&mut self, from: &Pubkey, to: &Pubkey, authority: &Authority, amount: u64) -> (r:
        Result<(), ProgramError>)
        requires
            old(self).wf(),
        ensures
            final(self).wf(),
            agrees(old(self)@.transfer(*from, *to, *authority, amount), r, old(self)@, final(self)@),
    {
        let (i, j) = match (self.find(from), self.find(to)) {
            (Some(i), Some(j)) => (i, j),
            _ => {
                return Err(ProgramError::NotEnoughAccountKeys);
            },
        };
        let (source, target) = match (
            TokenAccount::load(&self.entries[i].account),
            TokenAccount::load(&self.entries[j].account),
        ) {
            (Ok(source), Ok(target)) => (source, target),
            _ => {
                return Err(ProgramError::InvalidAccountData);
            },
        };
        let signer = authority.address();
        proof {
            lemma_pubkey_view_injective(source.mint, target.mint);
            lemma_pubkey_view_injective(source.owner, signer);
        }
        if !address_eq(&source.mint, &target.mint) {
            return Err(ProgramError::InvalidAccountData);
        }
        if !address_eq(&source.owner, &signer) {
            return Err(ProgramError::IncorrectAuthority);
        }
        if !self.authorized(authority) {
            return Err(ProgramError::MissingRequiredSignature);
        }
        if source.amount < amount {
            return Err(ProgramError::InsufficientFunds);
        }
        if address_eq(from, to) {
            return Ok(());
        }
        let credited = match target.amount.checked_add(amount) {
            Some(credited) => credited,
            None => {
                return Err(ProgramError::ArithmeticOverflow);
            },
        };
        let mut debit = self.entries[i].account.clone();
        debit.data = with_amount(&debit.data, source.amount - amount);
        let mut credit = self.entries[j].account.clone();
        credit.data = with_amount(&credit.data, credited);
        self.replace(i, debit);
        self.replace(j, credit);
        Ok(())
    }

    /// Performs [`Step::CloseAccount`].
    fn close_account(&mut self, account: &Pubkey, destination: &Pubkey, authority: &Authority) -> (r:
        Result<(), ProgramError>)
        requires
            old(self).wf(),
        ensures
            final(self).wf(),
            agrees(
                old(self)@.close_account(*account, *destination, *authority),
                r,
                old(self)@,
                final(self)@,
            ),
    {
        let (i, j) = match (self.find(account), self.find(destination)) {
            (Some(i), Some(j)) => (i, j),
            _ => {
                return Err(ProgramError::NotEnoughAccountKeys);
            },
        };
        if address_eq(account, destination) {
            return Err(ProgramError::InvalidArgument);
        }
        let token = match TokenAccount::load(&self.entries[i].account) {
            Ok(token) => token,
            Err(e) => {
                return Err(e);
            },
        };
        let signer = authority.address();
        proof {
            lemma_pubkey_view_injective(token.owner, signer);
        }
        if !address_eq(&token.owner, &signer) {
            return Err(ProgramError::IncorrectAuthority);
        }
        if !self.authorized(authority) {
            return Err(ProgramError::MissingRequiredSignature);
        }
        if token.amount != 0 {
            return Err(ProgramError::InvalidAccountData);
        }
        self.close_into(i, j)
    }

    /// Performs [`Step::CloseProgramAccount`].
    fn close_program_account(&mut self, account: &Pubkey, destination: &Pubkey) -> (r: Result<
        (),
        ProgramError,
    >)
        requires
            old(self).wf(),
        ensures
            final(self).wf(),
            agrees(
                old(self)@.close_program_account(*account, *destination),
                r,
                old(self)@,
                final(self)@,
            ),
    {
        let (i, j) = match (self.find(account), self.find(destination)) {
            (Some(i), Some(j)) => (i, j),
            _ => {
                return Err(ProgramError::NotEnoughAccountKeys);
            },
        };
        if address_eq(account, destination) {
            return Err(ProgramError::InvalidArgument);
        }
        if !address_eq(&self.entries[i].account.owner, &self.program_id) {
            return Err(ProgramError::InvalidAccountOwner);
        }
        self.close_into(i, j)
    }

    /// Closes the entry at `i` into the entry at `j`, as
    /// [`ProgramAccount::close`] does.
    fn close_into(&mut self, i: usize, j: usize) -> (r: Result<(), ProgramError>)
        requires
            old(self).wf(),
            i < old(self).entries@.len(),
            j < old(self).entries@.len(),
            i != j,
        ensures
            final(self).wf(),
            ({
                let gone = entry_state(old(self).entries@[i as int]);
                let heir = entry_state(old(self).entries@[j as int]);
                if gone.lamports + heir.lamports > u64::MAX {
                    r == Err::<(), ProgramError>(ProgramError::ArithmeticOverflow) && final(self)@
                        == old(self)@
                } else {
                    r is Ok && final(self)@ == old(self)@.put(
                        old(self).entries@[i as int].account.key,
                        gone.closed(),
                    ).put(
                        old(self).entries@[j as int].account.key,
                        heir.with_lamports((gone.lamports + heir.lamports) as u64),
                    )
                }
            }),
    {
        let mut gone = self.entries[i].account.clone();
        let mut heir = self.entries[j].account.clone();
        match ProgramAccount::close(&mut gone, &mut heir) {
            Ok(_) => {
                self.replace(i, gone);
                self.replace(j, heir);
                Ok(())
            },
            Err(e) => Err(e),
        }
    }

    /// A copy of the entries.
    fn copy_entries(&self) -> (r: Vec<Entry>)
        ensures
            r@.len() == self.entries@.len(),
            forall|i: int|
                0 <= i < r@.len() ==> (#[trigger] r@[i]).account.key
                    == self.entries@[i].account.key && entry_state(r@[i]) == entry_state(
                    self.entries@[i],
                ),
    {
        let mut out: Vec<Entry> = Vec::new();
        let mut i: usize = 0;
        while i < self.entries.len()
            invariant
                i <= self.entries@.len(),
                out@.len() == i,
                forall|j: int|
                    0 <= j < i ==> (#[trigger] out@[j]).account.key
                        == self.entries@[j].account.key && entry_state(out@[j]) == entry_state(
                        self.entries@[j],
                    ),
            decreases self.entries@.len() - i,
        {
            let entry = Entry {
                account: self.entries[i].account.clone(),
                seeds: self.entries[i].seeds,
            };
            assert(entry_state(entry) =~= entry_state(self.entries@[i as int]));
            out.push(entry);
            i += 1;
        }
        out
    }

    /// Performs the steps in order until one fails. On failure the ledger
    /// keeps what the earlier steps did.
    fn attempt(&mut self, steps: &Vec<Step>) -> (r: Result<(), ProgramError>)
        requires
            old(self).wf(),
        ensures
            final(self).wf(),
            match old(self)@.run(steps@) {
                Ok(next) => r is Ok && final(self)@ == next,
                Err(e) => r == Err::<(), ProgramError>(e),
            },
    {
        let ghost start = self@;
        let len: usize = steps.len();
        let mut i: usize = 0;
        assert(steps@.subrange(0, len as int) =~= steps@);
        while i < len
            invariant
                self.wf(),
                i <= len,
                len == steps@.len(),
                start == old(self)@,
                start.run(steps@) == self@.run(steps@.subrange(i as int, len as int)),
            decreases len - i,
        {
            proof {
                lemma_run_at(self@, steps@, i as int);
            }
            if let Err(e) = self.apply(&steps[i]) {
                return Err(e);
            }
            i += 1;
        }
        assert(steps@.subrange(len as int, len as int) =~= Seq::<Step>::empty());
        Ok(())
    }

    /// Performs the steps in order, all or none. On success the ledger is
    /// in the state that [`LedgerState::run`] gives; when a step fails the
    /// error is that step's and the ledger is as it was before the first.
    pub fn run(&mut self, steps: &Vec<Step>) -> (r: Result<(), ProgramError>)
        requires
            old(self).wf(),
        ensures
            final(self).wf(),
            agrees(old(self)@.run(steps@), r, old(self)@, final(self)@),
    {
        let saved = self.copy_entries();
        let program_id = self.program_id;
        let ghost kept = self.entries@;
        match self.attempt(steps) {
            Ok(_) => Ok(()),
            Err(e) => {
                proof {
                    lemma_same_entries(saved@, kept);
                }
                self.entries = saved;
                self.program_id = program_id;
                assert(self@ =~= old(self)@);
                Err(e)
            },
        }
    }

    /// Performs one step. On success the ledger is in the state that
    /// [`LedgerState::step`] gives; on failure the error is the one it
    /// gives and the ledger is as it was.
    pub fn apply(&mut self, step: &Step) -> (r: Result<(), ProgramError>)
        requires
            old(self).wf(),
        ensures
            final(self).wf(),
            agrees(old(self)@.step(*step), r, old(self)@, final(self)@),
    {
        match step {
            Step::CreateAccount { from, to, lamports, space, owner, seeds } => self.create_account(
                from,
                to,
                *lamports,
                *space,
                owner,
                seeds,
            ),
            Step::CreateIdempotent {
                funding_account,
                account,
                wallet,
                mint,
                system_program,
                token_program,
            } => self.create_idempotent(
                funding_account,
                account,
                wallet,
                mint,
                system_program,
                token_program,
            ),
            Step::StoreRecord { account, record } => self.store_record(account, record),
            Step::Transfer { from, to, authority, amount } => self.transfer(
                from,
                to,
                authority,
                *amount,
            ),
            Step::CloseAccount { account, destination, authority } => self.close_account(
                account,
                destination,
                authority,
            ),
            Step::CloseProgramAccount { account, destination } => self.close_program_account(
                account,
                destination,
            ),
        }
    }
}

} // verus!
