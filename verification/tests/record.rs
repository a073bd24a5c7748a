use pinocchio::program_error::ProgramError;
use pinocchio_escrow::account::Account;
use pinocchio_escrow::state::{Escrow, ESCROW_LEN};
use pinocchio_escrow::step::{seed_slices, Authority, EscrowSeeds};
use pinocchio_escrow::token::{with_amount, TokenAccount, MINT_LEN, TOKEN_ACCOUNT_LEN};

const TOKEN_PROGRAM: [u8; 32] = [
    6, 221, 246, 225, 215, 101, 161, 147, 217, 203, 225, 70, 206, 235, 121, 172, 28, 180, 133, 237,
    95, 91, 55, 145, 58, 140, 245, 133, 126, 255, 0, 169,
];

fn record() -> Escrow {
    Escrow {
        seed: 7,
        maker: [1; 32],
        mint_a: [2; 32],
        mint_b: [3; 32],
        receive: 50,
        bump: [254],
    }
}

#[test]
fn record_is_stored_field_by_field_in_113_bytes() {
    let bytes = record().to_bytes();
    assert_eq!(ESCROW_LEN, 113);
    assert_eq!(bytes.len(), 113);
    assert_eq!(&bytes[0..8], &[7, 0, 0, 0, 0, 0, 0, 0]);
    assert_eq!(&bytes[8..40], &[1u8; 32]);
    assert_eq!(&bytes[40..72], &[2u8; 32]);
    assert_eq!(&bytes[72..104], &[3u8; 32]);
    assert_eq!(&bytes[104..112], &[50, 0, 0, 0, 0, 0, 0, 0]);
    assert_eq!(bytes[112], 254);
}

#[test]
fn record_read_back_is_the_record_written() {
    let bytes = record().to_bytes();
    assert_eq!(Escrow::load(&bytes), Ok(record()));
    let other = Escrow {
        seed: u64::MAX,
        maker: [9; 32],
        mint_a: [8; 32],
        mint_b: [7; 32],
        receive: 0x0102_0304_0506_0708,
        bump: [0],
    };
    assert_eq!(Escrow::load(&other.to_bytes()), Ok(other));
}

#[test]
fn record_written_back_is_the_data_read() {
    let data: Vec<u8> = (0u8..113).collect();
    let loaded = Escrow::load(&data).unwrap();
    assert_eq!(loaded.seed, 0x0706_0504_0302_0100);
    assert_eq!(loaded.bump, [112]);
    assert_eq!(loaded.to_bytes(), data);
}

#[test]
fn record_of_another_size_is_rejected() {
    for len in [0usize, 112, 114, 120, 165] {
        let data = vec![0u8; len];
        assert_eq!(Escrow::load(&data), Err(ProgramError::InvalidAccountData));
    }
}

#[test]
fn seed_list_is_tag_maker_nonce_and_bump() {
    let seeds = EscrowSeeds { maker: [1; 32], seed: 7, bump: 254 };
    let list = seeds.seed_list();
    assert_eq!(list.len(), 4);
    assert_eq!(list[0], b"escrow".to_vec());
    assert_eq!(list[1], vec![1u8; 32]);
    assert_eq!(list[2], 7u64.to_le_bytes().to_vec());
    assert_eq!(list[3], vec![254u8]);
}

#[test]
fn search_list_is_tag_maker_and_nonce() {
    let list = EscrowSeeds::search_list(&[1; 32], 0x0102_0304_0506_0708);
    assert_eq!(
        list,
        vec![b"escrow".to_vec(), vec![1u8; 32], vec![8u8, 7, 6, 5, 4, 3, 2, 1]]
    );
    let seeds = EscrowSeeds { maker: [1; 32], seed: 0x0102_0304_0506_0708, bump: 9 };
    assert_eq!(seeds.seed_list()[..3], list[..]);
}

#[test]
fn seed_slices_borrow_each_seed_in_order() {
    let list = vec![vec![1u8, 2], Vec::new(), vec![3u8]];
    let slices = seed_slices(&list);
    assert_eq!(slices, vec![&[1u8, 2][..], &[][..], &[3u8][..]]);
    assert!(seed_slices(&Vec::new()).is_empty());
}

#[test]
fn authority_acts_in_the_name_of_its_address() {
    assert_eq!(Authority::Signer([4; 32]).address(), [4; 32]);
    let seeds = EscrowSeeds { maker: [1; 32], seed: 7, bump: 254 };
    assert_eq!(Authority::Derived { address: [5; 32], seeds }.address(), [5; 32]);
}

#[test]
fn token_account_is_packed_into_165_bytes() {
    let data = TokenAccount { mint: [2; 32], owner: [1; 32], amount: 1000 }.pack();
    assert_eq!(TOKEN_ACCOUNT_LEN, 165);
    assert_eq!(MINT_LEN, 82);
    assert_eq!(data.len(), 165);
    assert_eq!(&data[0..32], &[2u8; 32]);
    assert_eq!(&data[32..64], &[1u8; 32]);
    assert_eq!(&data[64..72], &[232, 3, 0, 0, 0, 0, 0, 0]);
    assert!(data[72..108].iter().all(|b| *b == 0));
    assert_eq!(data[108], 1);
    assert!(data[109..].iter().all(|b| *b == 0));
}

#[test]
fn token_account_read_back_is_the_one_packed() {
    let token = TokenAccount { mint: [2; 32], owner: [1; 32], amount: u64::MAX - 3 };
    let account = Account {
        key: [4; 32],
        owner: TOKEN_PROGRAM,
        is_signer: false,
        lamports: 1,
        data: token.pack(),
    };
    assert_eq!(TokenAccount::load(&account), Ok(token));
}

#[test]
fn token_account_of_another_program_or_size_is_rejected() {
    let token = TokenAccount { mint: [2; 32], owner: [1; 32], amount: 5 };
    let mut account = Account {
        key: [4; 32],
        owner: [0; 32],
        is_signer: false,
        lamports: 1,
        data: token.pack(),
    };
    assert_eq!(TokenAccount::load(&account), Err(ProgramError::InvalidAccountData));
    account.owner = TOKEN_PROGRAM;
    account.data.pop();
    assert_eq!(TokenAccount::load(&account), Err(ProgramError::InvalidAccountData));
}

#[test]
fn balance_is_replaced_and_the_rest_kept() {
    let mut data: Vec<u8> = (0u8..165).collect();
    let replaced = with_amount(&data, 0x1111_2222_3333_4444);
    data[64..72].copy_from_slice(&0x1111_2222_3333_4444u64.to_le_bytes());
    assert_eq!(replaced, data);
}
