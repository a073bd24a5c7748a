use pinocchio::program_error::ProgramError;
use pinocchio_escrow::account::Account;
use pinocchio_escrow::ledger::Ledger;
use pinocchio_escrow::make::{Make, MakeAccounts, MakeInstructionData};
use pinocchio_escrow::pubkey::SYSTEM_PROGRAM_ID;
use pinocchio_escrow::refund::Refund;
use pinocchio_escrow::state::Escrow;
use pinocchio_escrow::step::{Authority, EscrowSeeds, Step};
use pinocchio_escrow::take::Take;
use pinocchio_escrow::token::TokenAccount;

const TOKEN_PROGRAM: [u8; 32] = [
    6, 221, 246, 225, 215, 101, 161, 147, 217, 203, 225, 70, 206, 235, 121, 172, 28, 180, 133, 237,
    95, 91, 55, 145, 58, 140, 245, 133, 126, 255, 0, 169,
];
const ATA_PROGRAM: [u8; 32] = [
    140, 151, 37, 143, 78, 36, 137, 241, 187, 61, 16, 41, 20, 142, 13, 131, 11, 90, 19, 153, 218,
    255, 16, 132, 4, 142, 123, 216, 219, 233, 248, 89,
];
const PROGRAM: [u8; 32] = [9; 32];
const MAKER: [u8; 32] = [1; 32];
const ESCROW: [u8; 32] = [2; 32];
const MINT_X: [u8; 32] = [3; 32];
const MINT_Y: [u8; 32] = [4; 32];
const MAKER_ATA_X: [u8; 32] = [5; 32];
const VAULT: [u8; 32] = [6; 32];
const TAKER: [u8; 32] = [8; 32];
const TAKER_ATA_X: [u8; 32] = [10; 32];
const TAKER_ATA_Y: [u8; 32] = [11; 32];
const MAKER_ATA_Y: [u8; 32] = [12; 32];
const BUMP: u8 = 254;
const RENT: u64 = 2_039_280;

fn empty(key: [u8; 32]) -> Account {
    Account { key, owner: SYSTEM_PROGRAM_ID, is_signer: false, lamports: 0, data: Vec::new() }
}

fn wallet(key: [u8; 32], lamports: u64) -> Account {
    Account { key, owner: SYSTEM_PROGRAM_ID, is_signer: true, lamports, data: Vec::new() }
}

fn token(key: [u8; 32], mint: [u8; 32], owner: [u8; 32], amount: u64) -> Account {
    Account {
        key,
        owner: TOKEN_PROGRAM,
        is_signer: false,
        lamports: RENT,
        data: TokenAccount { mint, owner, amount }.pack(),
    }
}

fn mint(key: [u8; 32]) -> Account {
    Account { key, owner: TOKEN_PROGRAM, is_signer: false, lamports: 1_461_600, data: vec![0; 82] }
}

/// A ledger on which the maker has offered 1000 X for 50 Y with seed 7, and
/// the taker holds 80 Y and has no holding account for X yet.
fn open() -> Ledger {
    open_with(80)
}

/// The same ledger with a taker who holds `taker_holds` Y.
fn open_with(taker_holds: u64) -> Ledger {
    let mut ledger = Ledger::new(PROGRAM).unwrap();
    ledger.insert(wallet(MAKER, 10_000_000), None).unwrap();
    ledger
        .insert(empty(ESCROW), Some(EscrowSeeds { maker: MAKER, seed: 7, bump: BUMP }))
        .unwrap();
    ledger.insert(mint(MINT_X), None).unwrap();
    ledger.insert(mint(MINT_Y), None).unwrap();
    ledger.insert(token(MAKER_ATA_X, MINT_X, MAKER, 5000), None).unwrap();
    ledger.insert(empty(VAULT), None).unwrap();
    ledger.insert(wallet(TAKER, 10_000_000), None).unwrap();
    ledger.insert(empty(TAKER_ATA_X), None).unwrap();
    ledger.insert(token(TAKER_ATA_Y, MINT_Y, TAKER, taker_holds), None).unwrap();
    ledger.insert(empty(MAKER_ATA_Y), None).unwrap();
    let list = handed(
        &ledger,
        &[
            MAKER,
            ESCROW,
            MINT_X,
            MINT_Y,
            MAKER_ATA_X,
            VAULT,
            SYSTEM_PROGRAM_ID,
            TOKEN_PROGRAM,
            [7; 32],
        ],
    );
    let named = MakeAccounts::try_from(&list).unwrap();
    let mut data = Vec::new();
    data.extend_from_slice(&7u64.to_le_bytes());
    data.extend_from_slice(&50u64.to_le_bytes());
    data.extend_from_slice(&1000u64.to_le_bytes());
    let data = MakeInstructionData::try_from(&data).unwrap();
    let make = Make::from_derivation(named, data, Some((ESCROW, BUMP))).unwrap();
    ledger.run(&make.process(&PROGRAM)).unwrap();
    ledger
}

fn handed(ledger: &Ledger, keys: &[[u8; 32]]) -> Vec<Account> {
    keys.iter().map(|key| ledger.account(key).unwrap_or(empty(*key))).collect()
}

fn take_accounts(ledger: &Ledger) -> Vec<Account> {
    handed(
        ledger,
        &[
            TAKER,
            MAKER,
            ESCROW,
            MINT_X,
            MINT_Y,
            VAULT,
            TAKER_ATA_X,
            TAKER_ATA_Y,
            MAKER_ATA_Y,
            ATA_PROGRAM,
            TOKEN_PROGRAM,
            SYSTEM_PROGRAM_ID,
        ],
    )
}

fn take(ledger: &mut Ledger) -> Result<(), ProgramError> {
    let list = take_accounts(ledger);
    let take = Take::try_from(&list, &PROGRAM)?;
    let steps = take.process()?;
    ledger.run(&steps)
}

fn refund(ledger: &mut Ledger) -> Result<(), ProgramError> {
    let list = handed(
        ledger,
        &[MAKER, ESCROW, MINT_X, VAULT, MAKER_ATA_X, ATA_PROGRAM, TOKEN_PROGRAM, SYSTEM_PROGRAM_ID],
    );
    let refund = Refund::try_from(&list, &PROGRAM)?;
    let steps = refund.process()?;
    ledger.run(&steps)
}

fn balance(ledger: &Ledger, key: &[u8; 32]) -> u64 {
    TokenAccount::load(&ledger.account(key).unwrap()).unwrap().amount
}

fn derived() -> Authority {
    Authority::Derived { address: ESCROW, seeds: EscrowSeeds { maker: MAKER, seed: 7, bump: BUMP } }
}

#[test]
fn take_accounts_are_named_by_position() {
    let ledger = open();
    let list = take_accounts(&ledger);
    let take = Take::try_from(&list, &PROGRAM).unwrap();
    assert_eq!(take.taker.key, TAKER);
    assert_eq!(take.maker.key, MAKER);
    assert_eq!(take.escrow.key, ESCROW);
    assert_eq!(take.mint_a.key, MINT_X);
    assert_eq!(take.mint_b.key, MINT_Y);
    assert_eq!(take.vault.key, VAULT);
    assert_eq!(take.taker_ata_a.key, TAKER_ATA_X);
    assert_eq!(take.taker_ata_b.key, TAKER_ATA_Y);
    assert_eq!(take.maker_ata_b.key, MAKER_ATA_Y);
    assert_eq!(take.associated_token_program.key, ATA_PROGRAM);
    assert_eq!(take.token_program.key, TOKEN_PROGRAM);
    assert_eq!(take.system_program.key, SYSTEM_PROGRAM_ID);
}

#[test]
fn take_needs_at_least_twelve_accounts() {
    let ledger = open();
    for len in 0..12 {
        let mut list = take_accounts(&ledger);
        list.truncate(len);
        assert_eq!(Take::try_from(&list, &PROGRAM).err(), Some(ProgramError::NotEnoughAccountKeys));
    }
}

#[test]
fn take_judges_a_longer_list_by_its_first_twelve_accounts() {
    let ledger = open();
    let mut list = take_accounts(&ledger);
    list.push(empty([7; 32]));
    let take = Take::try_from(&list, &PROGRAM).unwrap();
    assert_eq!(take.taker.key, TAKER);
    assert_eq!(take.system_program.key, SYSTEM_PROGRAM_ID);
    list[0].is_signer = false;
    assert_eq!(
        Take::try_from(&list, &PROGRAM).err(),
        Some(ProgramError::MissingRequiredSignature)
    );
}

#[test]
fn take_validates_signature_record_mints_and_payment_account_in_order() {
    let ledger = open();
    let mut list = take_accounts(&ledger);
    list[7].data.clear();
    assert_eq!(Take::try_from(&list, &PROGRAM).err(), Some(ProgramError::InvalidAccountData));
    list[7] = token(TAKER_ATA_Y, MINT_Y, MAKER, 80);
    assert_eq!(Take::try_from(&list, &PROGRAM).err(), Some(ProgramError::InvalidAccountData));
    list[7] = token(TAKER_ATA_Y, MINT_X, TAKER, 80);
    assert_eq!(Take::try_from(&list, &PROGRAM).err(), Some(ProgramError::InvalidAccountData));
    list[4].data.push(0);
    assert_eq!(Take::try_from(&list, &PROGRAM).err(), Some(ProgramError::InvalidAccountData));
    list[3].data.pop();
    assert_eq!(Take::try_from(&list, &PROGRAM).err(), Some(ProgramError::InvalidAccountData));
    list[2].owner = SYSTEM_PROGRAM_ID;
    assert_eq!(Take::try_from(&list, &PROGRAM).err(), Some(ProgramError::InvalidAccountOwner));
    list[0].is_signer = false;
    assert_eq!(
        Take::try_from(&list, &PROGRAM).err(),
        Some(ProgramError::MissingRequiredSignature)
    );
}

#[test]
fn take_plans_payment_hand_over_and_closure() {
    let ledger = open();
    let list = take_accounts(&ledger);
    let take = Take::try_from(&list, &PROGRAM).unwrap();
    assert_eq!(
        take.process(),
        Ok(vec![
            Step::CreateIdempotent {
                funding_account: TAKER,
                account: TAKER_ATA_X,
                wallet: TAKER,
                mint: MINT_X,
                system_program: SYSTEM_PROGRAM_ID,
                token_program: TOKEN_PROGRAM,
            },
            Step::CreateIdempotent {
                funding_account: TAKER,
                account: MAKER_ATA_Y,
                wallet: MAKER,
                mint: MINT_Y,
                system_program: SYSTEM_PROGRAM_ID,
                token_program: TOKEN_PROGRAM,
            },
            Step::Transfer {
                from: TAKER_ATA_Y,
                to: MAKER_ATA_Y,
                authority: Authority::Signer(TAKER),
                amount: 50,
            },
            Step::Transfer { from: VAULT, to: TAKER_ATA_X, authority: derived(), amount: 1000 },
            Step::CloseAccount { account: VAULT, destination: MAKER, authority: derived() },
            Step::CloseProgramAccount { account: ESCROW, destination: MAKER },
        ])
    );
}

#[test]
fn take_of_an_empty_vault_hands_over_nothing() {
    let ledger = open();
    let mut list = take_accounts(&ledger);
    list[5] = token(VAULT, MINT_X, ESCROW, 0);
    let take = Take::try_from(&list, &PROGRAM).unwrap();
    let steps = take.process().unwrap();
    assert_eq!(steps.len(), 5);
    assert_eq!(
        steps[3],
        Step::CloseAccount { account: VAULT, destination: MAKER, authority: derived() }
    );
}

#[test]
fn take_rejects_accounts_that_are_not_those_of_the_record() {
    let ledger = open();
    let mut list = take_accounts(&ledger);
    list[1].key = TAKER;
    let take = Take::try_from(&list, &PROGRAM).unwrap();
    assert_eq!(take.process(), Err(ProgramError::InvalidAccountData));
    let mut list = take_accounts(&ledger);
    list[3].key = MINT_Y;
    let take = Take::try_from(&list, &PROGRAM).unwrap();
    assert_eq!(take.process(), Err(ProgramError::InvalidAccountData));
    let mut list = take_accounts(&ledger);
    list[4].key = MINT_X;
    list[7] = token(TAKER_ATA_Y, MINT_X, TAKER, 80);
    let take = Take::try_from(&list, &PROGRAM).unwrap();
    assert_eq!(take.process(), Err(ProgramError::InvalidAccountData));
}

#[test]
fn take_rejects_an_unreadable_record_or_vault() {
    let ledger = open();
    let mut list = take_accounts(&ledger);
    list[2].data.push(0);
    let take = Take::try_from(&list, &PROGRAM).unwrap();
    assert_eq!(take.process(), Err(ProgramError::InvalidAccountData));
    let mut list = take_accounts(&ledger);
    list[5] = empty(VAULT);
    let take = Take::try_from(&list, &PROGRAM).unwrap();
    assert_eq!(take.process(), Err(ProgramError::InvalidAccountData));
}

#[test]
fn take_pays_exactly_the_requested_amount_and_hands_over_the_deposit() {
    let mut ledger = open();
    assert_eq!(take(&mut ledger), Ok(()));
    assert_eq!(balance(&ledger, &MAKER_ATA_Y), 50);
    assert_eq!(balance(&ledger, &TAKER_ATA_Y), 30);
    assert_eq!(balance(&ledger, &TAKER_ATA_X), 1000);
    assert_eq!(balance(&ledger, &MAKER_ATA_X), 4000);
    assert_eq!(ledger.account(&VAULT), Some(empty(VAULT)));
    assert_eq!(ledger.account(&ESCROW), Some(empty(ESCROW)));
    assert_eq!(ledger.account(&MAKER), Some(wallet(MAKER, 10_000_000)));
    assert_eq!(ledger.account(&TAKER), Some(wallet(TAKER, 10_000_000 - 2 * RENT)));
}

#[test]
fn take_by_a_taker_who_holds_too_little_changes_nothing() {
    let mut ledger = open_with(49);
    assert_eq!(take(&mut ledger), Err(ProgramError::InsufficientFunds));
    assert_eq!(balance(&ledger, &VAULT), 1000);
    assert_eq!(balance(&ledger, &TAKER_ATA_Y), 49);
    assert_eq!(ledger.account(&TAKER_ATA_X), Some(empty(TAKER_ATA_X)));
    assert_eq!(ledger.account(&MAKER_ATA_Y), Some(empty(MAKER_ATA_Y)));
    assert_eq!(ledger.account(&TAKER), Some(wallet(TAKER, 10_000_000)));
    let mut ledger = open_with(50);
    assert_eq!(take(&mut ledger), Ok(()));
    assert_eq!(balance(&ledger, &TAKER_ATA_Y), 0);
    assert_eq!(balance(&ledger, &MAKER_ATA_Y), 50);
}

#[test]
fn take_and_refund_exclude_each_other() {
    let mut ledger = open();
    assert_eq!(take(&mut ledger), Ok(()));
    assert_eq!(refund(&mut ledger), Err(ProgramError::InvalidAccountOwner));
    assert_eq!(take(&mut ledger), Err(ProgramError::InvalidAccountOwner));
    assert_eq!(balance(&ledger, &TAKER_ATA_X), 1000);
    let mut ledger = open();
    assert_eq!(refund(&mut ledger), Ok(()));
    assert_eq!(take(&mut ledger), Err(ProgramError::InvalidAccountOwner));
    assert_eq!(balance(&ledger, &MAKER_ATA_X), 5000);
    assert_eq!(balance(&ledger, &TAKER_ATA_Y), 80);
}

#[test]
fn take_reads_the_terms_from_the_record() {
    let ledger = open();
    let mut list = take_accounts(&ledger);
    list[2].data = Escrow {
        seed: 9,
        maker: MAKER,
        mint_a: MINT_X,
        mint_b: MINT_Y,
        receive: 77,
        bump: [3],
    }
    .to_bytes();
    let take = Take::try_from(&list, &PROGRAM).unwrap();
    let steps = take.process().unwrap();
    assert_eq!(
        steps[2],
        Step::Transfer {
            from: TAKER_ATA_Y,
            to: MAKER_ATA_Y,
            authority: Authority::Signer(TAKER),
            amount: 77,
        }
    );
    let authority = Authority::Derived {
        address: ESCROW,
        seeds: EscrowSeeds { maker: MAKER, seed: 9, bump: 3 },
    };
    assert_eq!(
        steps[3],
        Step::Transfer { from: VAULT, to: TAKER_ATA_X, authority, amount: 1000 }
    );
}
