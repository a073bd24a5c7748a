use pinocchio::program_error::ProgramError;
use pinocchio_escrow::account::Account;
use pinocchio_escrow::make::{Make, MakeAccounts, MakeInstructionData, ESCROW_RENT};
use pinocchio_escrow::pubkey::SYSTEM_PROGRAM_ID;
use pinocchio_escrow::state::Escrow;
use pinocchio_escrow::step::{Authority, EscrowSeeds, Step};
use pinocchio_escrow::token::TokenAccount;

const TOKEN_PROGRAM: [u8; 32] = [
    6, 221, 246, 225, 215, 101, 161, 147, 217, 203, 225, 70, 206, 235, 121, 172, 28, 180, 133, 237,
    95, 91, 55, 145, 58, 140, 245, 133, 126, 255, 0, 169,
];
const PROGRAM: [u8; 32] = [9; 32];
const MAKER: [u8; 32] = [1; 32];
const ESCROW: [u8; 32] = [2; 32];
const MINT_A: [u8; 32] = [3; 32];
const MINT_B: [u8; 32] = [4; 32];
const MAKER_ATA_A: [u8; 32] = [5; 32];
const VAULT: [u8; 32] = [6; 32];

fn empty(key: [u8; 32]) -> Account {
    Account { key, owner: SYSTEM_PROGRAM_ID, is_signer: false, lamports: 0, data: Vec::new() }
}

fn mint(key: [u8; 32]) -> Account {
    Account { key, owner: TOKEN_PROGRAM, is_signer: false, lamports: 1_461_600, data: vec![0; 82] }
}

fn accounts() -> Vec<Account> {
    let mut maker = empty(MAKER);
    maker.is_signer = true;
    maker.lamports = 10_000_000;
    let holding = Account {
        key: MAKER_ATA_A,
        owner: TOKEN_PROGRAM,
        is_signer: false,
        lamports: 2_039_280,
        data: TokenAccount { mint: MINT_A, owner: MAKER, amount: 5000 }.pack(),
    };
    vec![
        maker,
        empty(ESCROW),
        mint(MINT_A),
        mint(MINT_B),
        holding,
        empty(VAULT),
        empty(SYSTEM_PROGRAM_ID),
        empty(TOKEN_PROGRAM),
        empty([7; 32]),
    ]
}

fn payload(seed: u64, receive: u64, amount: u64) -> Vec<u8> {
    let mut data = Vec::new();
    data.extend_from_slice(&seed.to_le_bytes());
    data.extend_from_slice(&receive.to_le_bytes());
    data.extend_from_slice(&amount.to_le_bytes());
    data
}

#[test]
fn make_accounts_are_named_by_position() {
    let list = accounts();
    let named = MakeAccounts::try_from(&list).unwrap();
    assert_eq!(named.maker.key, MAKER);
    assert_eq!(named.escrow.key, ESCROW);
    assert_eq!(named.mint_a.key, MINT_A);
    assert_eq!(named.mint_b.key, MINT_B);
    assert_eq!(named.maker_ata_a.key, MAKER_ATA_A);
    assert_eq!(named.vault.key, VAULT);
    assert_eq!(named.system_program.key, SYSTEM_PROGRAM_ID);
    assert_eq!(named.token_program.key, TOKEN_PROGRAM);
}

#[test]
fn make_needs_at_least_nine_accounts() {
    for len in 0..9 {
        let mut list = accounts();
        list.truncate(len);
        assert_eq!(MakeAccounts::try_from(&list).err(), Some(ProgramError::NotEnoughAccountKeys));
    }
}

#[test]
fn make_judges_a_longer_list_by_its_first_nine_accounts() {
    let mut list = accounts();
    list.push(empty([8; 32]));
    list.push(empty([10; 32]));
    let named = MakeAccounts::try_from(&list).unwrap();
    assert_eq!(named.maker.key, MAKER);
    assert_eq!(named.token_program.key, TOKEN_PROGRAM);
    list[0].is_signer = false;
    assert_eq!(MakeAccounts::try_from(&list).err(), Some(ProgramError::MissingRequiredSignature));
}

#[test]
fn make_needs_the_makers_signature() {
    let mut list = accounts();
    list[0].is_signer = false;
    assert_eq!(MakeAccounts::try_from(&list).err(), Some(ProgramError::MissingRequiredSignature));
}

#[test]
fn make_rejects_a_mint_whose_size_is_not_82() {
    let mut list = accounts();
    list[2].data.push(0);
    assert_eq!(MakeAccounts::try_from(&list).err(), Some(ProgramError::InvalidAccountData));
    let mut list = accounts();
    list[3].data.pop();
    assert_eq!(MakeAccounts::try_from(&list).err(), Some(ProgramError::InvalidAccountData));
}

#[test]
fn make_rejects_a_holding_account_of_another_owner_or_mint() {
    let mut list = accounts();
    list[4].data = TokenAccount { mint: MINT_A, owner: [8; 32], amount: 5000 }.pack();
    assert_eq!(MakeAccounts::try_from(&list).err(), Some(ProgramError::InvalidAccountData));
    let mut list = accounts();
    list[4].data = TokenAccount { mint: MINT_B, owner: MAKER, amount: 5000 }.pack();
    assert_eq!(MakeAccounts::try_from(&list).err(), Some(ProgramError::InvalidAccountData));
}

#[test]
fn make_checks_the_signature_before_the_mints() {
    let mut list = accounts();
    list[0].is_signer = false;
    list[2].data.clear();
    list[4].data.clear();
    assert_eq!(MakeAccounts::try_from(&list).err(), Some(ProgramError::MissingRequiredSignature));
}

#[test]
fn make_checks_the_accounts_before_the_payload() {
    let mut list = accounts();
    list[0].is_signer = false;
    let r = Make::try_from(&payload(7, 50, 0), &list, &PROGRAM);
    assert_eq!(r.err(), Some(ProgramError::MissingRequiredSignature));
    let mut short = accounts();
    short.truncate(3);
    let r = Make::try_from(&[1, 2, 3], &short, &PROGRAM);
    assert_eq!(r.err(), Some(ProgramError::NotEnoughAccountKeys));
}

#[test]
fn make_rejects_a_zero_amount_and_a_wrong_payload_size() {
    let list = accounts();
    let r = Make::try_from(&payload(7, 50, 0), &list, &PROGRAM);
    assert_eq!(r.err(), Some(ProgramError::InvalidInstructionData));
    let r = Make::try_from(&payload(7, 50, 1000)[..23], &list, &PROGRAM);
    assert_eq!(r.err(), Some(ProgramError::InvalidInstructionData));
    let mut long = payload(7, 50, 1000);
    long.push(0);
    let r = Make::try_from(&long, &list, &PROGRAM);
    assert_eq!(r.err(), Some(ProgramError::InvalidInstructionData));
}

#[test]
fn make_without_a_derived_address_fails_with_invalid_seeds() {
    let list = accounts();
    let named = MakeAccounts::try_from(&list).unwrap();
    let data = MakeInstructionData::try_from(&payload(7, 50, 1000)).unwrap();
    assert_eq!(Make::from_derivation(named, data, None).err(), Some(ProgramError::InvalidSeeds));
}

#[test]
fn make_off_chain_finds_no_derived_address() {
    let list = accounts();
    let r = Make::try_from(&payload(7, 50, 1000), &list, &PROGRAM);
    assert_eq!(r.err(), Some(ProgramError::InvalidSeeds));
}

#[test]
fn make_keeps_the_bump_that_was_found() {
    let list = accounts();
    let named = MakeAccounts::try_from(&list).unwrap();
    let data = MakeInstructionData::try_from(&payload(7, 50, 1000)).unwrap();
    let make = Make::from_derivation(named, data, Some((ESCROW, 254))).unwrap();
    assert_eq!(make.bump, 254);
    assert_eq!(make.instruction_data, MakeInstructionData { seed: 7, receive: 50, amount: 1000 });
    assert_eq!(make.accounts.escrow.key, ESCROW);
}

#[test]
fn make_plans_allocation_vault_record_and_deposit() {
    let list = accounts();
    let named = MakeAccounts::try_from(&list).unwrap();
    let data = MakeInstructionData::try_from(&payload(7, 50, 1000)).unwrap();
    let make = Make::from_derivation(named, data, Some((ESCROW, 254))).unwrap();
    let steps = make.process(&PROGRAM);
    assert_eq!(ESCROW_RENT, 2_000_000);
    assert_eq!(
        steps,
        vec![
            Step::CreateAccount {
                from: MAKER,
                to: ESCROW,
                lamports: 2_000_000,
                space: 113,
                owner: PROGRAM,
                seeds: EscrowSeeds { maker: MAKER, seed: 7, bump: 254 },
            },
            Step::CreateIdempotent {
                funding_account: MAKER,
                account: VAULT,
                wallet: ESCROW,
                mint: MINT_A,
                system_program: SYSTEM_PROGRAM_ID,
                token_program: TOKEN_PROGRAM,
            },
            Step::StoreRecord {
                account: ESCROW,
                record: Escrow {
                    seed: 7,
                    maker: MAKER,
                    mint_a: MINT_A,
                    mint_b: MINT_B,
                    receive: 50,
                    bump: [254],
                },
            },
            Step::Transfer {
                from: MAKER_ATA_A,
                to: VAULT,
                authority: Authority::Signer(MAKER),
                amount: 1000,
            },
        ]
    );
}
