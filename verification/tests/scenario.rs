use pinocchio::program_error::ProgramError;
use pinocchio_escrow::account::Account;
use pinocchio_escrow::ledger::Ledger;
use pinocchio_escrow::make::{Make, MakeAccounts, MakeInstructionData};
use pinocchio_escrow::pubkey::SYSTEM_PROGRAM_ID;
use pinocchio_escrow::refund::Refund;
use pinocchio_escrow::state::Escrow;
use pinocchio_escrow::step::EscrowSeeds;
use pinocchio_escrow::token::TokenAccount;

const TOKEN_PROGRAM: [u8; 32] = [
    6, 221, 246, 225, 215, 101, 161, 147, 217, 203, 225, 70, 206, 235, 121, 172, 28, 180, 133, 237,
    95, 91, 55, 145, 58, 140, 245, 133, 126, 255, 0, 169,
];
const ATA_PROGRAM: [u8; 32] = [
    140, 151, 37, 143, 78, 36, 137, 241, 187, 61, 16, 41, 20, 142, 13, 131, 11, 90, 19, 153, 218,
    255, 16, 132, 4, 142, 123, 216, 219, 233, 248, 89,
];
const PROGRAM: [u8; 32] = [9; 32];
const MAKER: [u8; 32] = [1; 32];
const ESCROW: [u8; 32] = [2; 32];
const MINT_X: [u8; 32] = [3; 32];
const MINT_Y: [u8; 32] = [4; 32];
const MAKER_ATA_X: [u8; 32] = [5; 32];
const VAULT: [u8; 32] = [6; 32];
const STRANGER: [u8; 32] = [8; 32];
const STRANGER_ATA_X: [u8; 32] = [10; 32];
const BUMP: u8 = 254;
const RENT: u64 = 2_039_280;

fn empty(key: [u8; 32]) -> Account {
    Account { key, owner: SYSTEM_PROGRAM_ID, is_signer: false, lamports: 0, data: Vec::new() }
}

fn wallet(key: [u8; 32], lamports: u64) -> Account {
    Account { key, owner: SYSTEM_PROGRAM_ID, is_signer: true, lamports, data: Vec::new() }
}

fn token(key: [u8; 32], mint: [u8; 32], owner: [u8; 32], amount: u64) -> Account {
    Account {
        key,
        owner: TOKEN_PROGRAM,
        is_signer: false,
        lamports: RENT,
        data: TokenAccount { mint, owner, amount }.pack(),
    }
}

fn mint(key: [u8; 32]) -> Account {
    Account { key, owner: TOKEN_PROGRAM, is_signer: false, lamports: 1_461_600, data: vec![0; 82] }
}

fn world(seed: u64, held: u64) -> Ledger {
    let mut ledger = Ledger::new(PROGRAM).unwrap();
    ledger.insert(wallet(MAKER, 10_000_000), None).unwrap();
    ledger
        .insert(empty(ESCROW), Some(EscrowSeeds { maker: MAKER, seed, bump: BUMP }))
        .unwrap();
    ledger.insert(mint(MINT_X), None).unwrap();
    ledger.insert(mint(MINT_Y), None).unwrap();
    ledger.insert(token(MAKER_ATA_X, MINT_X, MAKER, held), None).unwrap();
    ledger.insert(empty(VAULT), None).unwrap();
    ledger.insert(wallet(STRANGER, 10_000_000), None).unwrap();
    ledger.insert(token(STRANGER_ATA_X, MINT_X, STRANGER, 0), None).unwrap();
    ledger
}

fn handed(ledger: &Ledger, keys: &[[u8; 32]]) -> Vec<Account> {
    keys.iter().map(|key| ledger.account(key).unwrap_or(empty(*key))).collect()
}

fn payload(seed: u64, receive: u64, amount: u64) -> Vec<u8> {
    let mut data = Vec::new();
    data.extend_from_slice(&seed.to_le_bytes());
    data.extend_from_slice(&receive.to_le_bytes());
    data.extend_from_slice(&amount.to_le_bytes());
    data
}

fn make(ledger: &mut Ledger, seed: u64, receive: u64, amount: u64) -> Result<(), ProgramError> {
    let list = handed(
        ledger,
        &[
            MAKER,
            ESCROW,
            MINT_X,
            MINT_Y,
            MAKER_ATA_X,
            VAULT,
            SYSTEM_PROGRAM_ID,
            TOKEN_PROGRAM,
            [7; 32],
        ],
    );
    let named = MakeAccounts::try_from(&list)?;
    let data = MakeInstructionData::try_from(&payload(seed, receive, amount))?;
    let make = Make::from_derivation(named, data, Some((ESCROW, BUMP)))?;
    ledger.run(&make.process(&PROGRAM))
}

fn refund(ledger: &mut Ledger, maker: [u8; 32], holding: [u8; 32]) -> Result<(), ProgramError> {
    let list = handed(
        ledger,
        &[maker, ESCROW, MINT_X, VAULT, holding, ATA_PROGRAM, TOKEN_PROGRAM, SYSTEM_PROGRAM_ID],
    );
    let refund = Refund::try_from(&list, &PROGRAM)?;
    let steps = refund.process()?;
    ledger.run(&steps)
}

fn balance(ledger: &Ledger, key: &[u8; 32]) -> u64 {
    TokenAccount::load(&ledger.account(key).unwrap()).unwrap().amount
}

#[test]
fn make_opens_an_offer_of_1000_x_for_50_y() {
    let mut ledger = world(7, 5000);
    assert_eq!(make(&mut ledger, 7, 50, 1000), Ok(()));
    let escrow = ledger.account(&ESCROW).unwrap();
    assert_eq!(escrow.owner, PROGRAM);
    assert_eq!(escrow.lamports, 2_000_000);
    assert_eq!(
        Escrow::load(&escrow.data),
        Ok(Escrow {
            seed: 7,
            maker: MAKER,
            mint_a: MINT_X,
            mint_b: MINT_Y,
            receive: 50,
            bump: [BUMP],
        })
    );
    assert_eq!(ledger.account(&VAULT), Some(token(VAULT, MINT_X, ESCROW, 1000)));
    assert_eq!(balance(&ledger, &MAKER_ATA_X), 4000);
    assert_eq!(ledger.account(&MAKER).unwrap().lamports, 10_000_000 - 2_000_000 - RENT);
}

#[test]
fn make_then_refund_end_to_end() {
    let mut ledger = world(7, 5000);
    assert_eq!(make(&mut ledger, 7, 50, 1000), Ok(()));
    assert_eq!(balance(&ledger, &VAULT), 1000);
    assert_eq!(refund(&mut ledger, MAKER, MAKER_ATA_X), Ok(()));
    assert_eq!(ledger.account(&VAULT), Some(empty(VAULT)));
    assert_eq!(ledger.account(&ESCROW), Some(empty(ESCROW)));
    assert_eq!(balance(&ledger, &MAKER_ATA_X), 5000);
    assert_eq!(ledger.account(&MAKER), Some(wallet(MAKER, 10_000_000)));
}

#[test]
fn round_trip_restores_the_balance_for_many_inputs() {
    for (seed, receive, amount, held) in [
        (0u64, 0u64, 1u64, 1u64),
        (1, u64::MAX, 2, 2),
        (u64::MAX, 1, u64::MAX, u64::MAX),
        (7, 50, 1000, 5000),
        (12345, 678, 4999, 5000),
    ] {
        let mut ledger = world(seed, held);
        assert_eq!(make(&mut ledger, seed, receive, amount), Ok(()));
        assert_eq!(balance(&ledger, &VAULT), amount);
        assert_eq!(balance(&ledger, &MAKER_ATA_X), held - amount);
        assert_eq!(refund(&mut ledger, MAKER, MAKER_ATA_X), Ok(()));
        assert_eq!(balance(&ledger, &MAKER_ATA_X), held);
        assert_eq!(ledger.account(&VAULT), Some(empty(VAULT)));
        assert_eq!(ledger.account(&ESCROW), Some(empty(ESCROW)));
    }
}

#[test]
fn make_on_an_existing_empty_vault_pays_only_for_the_record() {
    let mut ledger = Ledger::new(PROGRAM).unwrap();
    ledger.insert(wallet(MAKER, 10_000_000), None).unwrap();
    ledger
        .insert(empty(ESCROW), Some(EscrowSeeds { maker: MAKER, seed: 7, bump: BUMP }))
        .unwrap();
    ledger.insert(mint(MINT_X), None).unwrap();
    ledger.insert(mint(MINT_Y), None).unwrap();
    ledger.insert(token(MAKER_ATA_X, MINT_X, MAKER, 5000), None).unwrap();
    let mut vault = token(VAULT, MINT_X, ESCROW, 0);
    vault.lamports = 3_000_000;
    ledger.insert(vault, None).unwrap();
    assert_eq!(make(&mut ledger, 7, 50, 1000), Ok(()));
    assert_eq!(balance(&ledger, &VAULT), 1000);
    assert_eq!(ledger.account(&VAULT).unwrap().lamports, 3_000_000);
    assert_eq!(ledger.account(&MAKER).unwrap().lamports, 10_000_000 - 2_000_000);
    assert_eq!(ledger.account(&ESCROW).unwrap().lamports, 2_000_000);
    assert_eq!(balance(&ledger, &MAKER_ATA_X), 4000);
}

#[test]
fn make_on_a_vault_of_another_holder_fails() {
    let mut ledger = Ledger::new(PROGRAM).unwrap();
    ledger.insert(wallet(MAKER, 10_000_000), None).unwrap();
    ledger
        .insert(empty(ESCROW), Some(EscrowSeeds { maker: MAKER, seed: 7, bump: BUMP }))
        .unwrap();
    ledger.insert(mint(MINT_X), None).unwrap();
    ledger.insert(mint(MINT_Y), None).unwrap();
    ledger.insert(token(MAKER_ATA_X, MINT_X, MAKER, 5000), None).unwrap();
    ledger.insert(token(VAULT, MINT_X, STRANGER, 0), None).unwrap();
    assert_eq!(make(&mut ledger, 7, 50, 1000), Err(ProgramError::IllegalOwner));
    assert_eq!(ledger.account(&ESCROW), Some(empty(ESCROW)));
    assert_eq!(ledger.account(&MAKER), Some(wallet(MAKER, 10_000_000)));
}

#[test]
fn make_and_refund_leave_every_other_account_alone() {
    let mut ledger = world(7, 5000);
    let others = [MINT_X, MINT_Y, STRANGER, STRANGER_ATA_X];
    let before: Vec<Option<Account>> = others.iter().map(|key| ledger.account(key)).collect();
    assert_eq!(make(&mut ledger, 7, 50, 1000), Ok(()));
    let open: Vec<Option<Account>> = others.iter().map(|key| ledger.account(key)).collect();
    assert_eq!(open, before);
    assert_eq!(refund(&mut ledger, MAKER, MAKER_ATA_X), Ok(()));
    let after: Vec<Option<Account>> = others.iter().map(|key| ledger.account(key)).collect();
    assert_eq!(after, before);
}

#[test]
fn refund_pays_the_rent_of_vault_and_record_to_the_maker() {
    let mut ledger = world(7, 5000);
    assert_eq!(make(&mut ledger, 7, 50, 1000), Ok(()));
    let maker = ledger.account(&MAKER).unwrap().lamports;
    let vault = ledger.account(&VAULT).unwrap().lamports;
    let escrow = ledger.account(&ESCROW).unwrap().lamports;
    assert_eq!((vault, escrow), (RENT, 2_000_000));
    assert_eq!(refund(&mut ledger, MAKER, MAKER_ATA_X), Ok(()));
    assert_eq!(ledger.account(&MAKER).unwrap().lamports, maker + vault + escrow);
    assert_eq!(ledger.account(&VAULT).unwrap().lamports, 0);
    assert_eq!(ledger.account(&ESCROW).unwrap().lamports, 0);
}

#[test]
fn make_of_more_than_the_maker_holds_changes_nothing() {
    let mut ledger = world(7, 999);
    assert_eq!(make(&mut ledger, 7, 50, 1000), Err(ProgramError::InsufficientFunds));
    assert_eq!(ledger.account(&ESCROW), Some(empty(ESCROW)));
    assert_eq!(ledger.account(&VAULT), Some(empty(VAULT)));
    assert_eq!(ledger.account(&MAKER), Some(wallet(MAKER, 10_000_000)));
    assert_eq!(balance(&ledger, &MAKER_ATA_X), 999);
}

#[test]
fn make_with_another_seed_than_the_address_was_derived_from_fails() {
    let mut ledger = world(7, 5000);
    assert_eq!(make(&mut ledger, 8, 50, 1000), Err(ProgramError::MissingRequiredSignature));
    assert_eq!(ledger.account(&ESCROW), Some(empty(ESCROW)));
}

#[test]
fn second_make_with_the_same_seed_fails_at_allocation() {
    let mut ledger = world(7, 5000);
    assert_eq!(make(&mut ledger, 7, 50, 1000), Ok(()));
    let open = (ledger.account(&ESCROW), ledger.account(&VAULT), ledger.account(&MAKER));
    assert_eq!(make(&mut ledger, 7, 60, 2000), Err(ProgramError::AccountAlreadyInitialized));
    assert_eq!((ledger.account(&ESCROW), ledger.account(&VAULT), ledger.account(&MAKER)), open);
    assert_eq!(balance(&ledger, &MAKER_ATA_X), 4000);
}

#[test]
fn make_is_possible_again_after_refund() {
    let mut ledger = world(7, 5000);
    assert_eq!(make(&mut ledger, 7, 50, 1000), Ok(()));
    assert_eq!(refund(&mut ledger, MAKER, MAKER_ATA_X), Ok(()));
    assert_eq!(make(&mut ledger, 7, 60, 2000), Ok(()));
    assert_eq!(balance(&ledger, &VAULT), 2000);
    assert_eq!(balance(&ledger, &MAKER_ATA_X), 3000);
}

#[test]
fn refund_by_another_signer_fails_and_changes_nothing() {
    let mut ledger = world(7, 5000);
    assert_eq!(make(&mut ledger, 7, 50, 1000), Ok(()));
    let open = (ledger.account(&ESCROW), ledger.account(&VAULT), ledger.account(&STRANGER));
    assert_eq!(
        refund(&mut ledger, STRANGER, STRANGER_ATA_X),
        Err(ProgramError::MissingRequiredSignature)
    );
    assert_eq!((ledger.account(&ESCROW), ledger.account(&VAULT), ledger.account(&STRANGER)), open);
    assert_eq!(balance(&ledger, &STRANGER_ATA_X), 0);
    assert_eq!(balance(&ledger, &VAULT), 1000);
    assert_eq!(refund(&mut ledger, MAKER, MAKER_ATA_X), Ok(()));
    assert_eq!(balance(&ledger, &MAKER_ATA_X), 5000);
}

#[test]
fn refund_twice_fails_the_second_time() {
    let mut ledger = world(7, 5000);
    assert_eq!(make(&mut ledger, 7, 50, 1000), Ok(()));
    assert_eq!(refund(&mut ledger, MAKER, MAKER_ATA_X), Ok(()));
    assert_eq!(refund(&mut ledger, MAKER, MAKER_ATA_X), Err(ProgramError::InvalidAccountOwner));
    assert_eq!(balance(&ledger, &MAKER_ATA_X), 5000);
}

#[test]
fn refund_without_an_offer_fails() {
    let mut ledger = world(7, 5000);
    assert_eq!(refund(&mut ledger, MAKER, MAKER_ATA_X), Err(ProgramError::InvalidAccountOwner));
}

#[test]
fn refund_does_not_create_a_holding_account_that_exists() {
    let mut ledger = world(7, 5000);
    assert_eq!(make(&mut ledger, 7, 50, 1000), Ok(()));
    let paid = ledger.account(&MAKER).unwrap().lamports;
    assert_eq!(refund(&mut ledger, MAKER, MAKER_ATA_X), Ok(()));
    assert_eq!(ledger.account(&MAKER).unwrap().lamports, paid + RENT + 2_000_000);
    assert_eq!(ledger.account(&MAKER_ATA_X).unwrap().lamports, RENT);
}

#[test]
fn refund_creates_the_holding_account_when_the_maker_closed_it() {
    let mut ledger = world(7, 1000);
    ledger.insert(empty([11; 32]), None).unwrap();
    assert_eq!(make(&mut ledger, 7, 50, 1000), Ok(()));
    assert_eq!(refund(&mut ledger, MAKER, [11; 32]), Ok(()));
    assert_eq!(ledger.account(&[11; 32]), Some(token([11; 32], MINT_X, MAKER, 1000)));
    assert_eq!(balance(&ledger, &MAKER_ATA_X), 0);
    assert_eq!(ledger.account(&MAKER).unwrap().lamports, 10_000_000 - RENT);
}
