//! Addresses, the protocol's seed tag, and the items of `pinocchio` and
//! `pinocchio_token` that the crate relies on without proof.
use pinocchio::program_error::ProgramError;
use pinocchio::pubkey::Pubkey;
use vstd::prelude::*;

verus! {

/// `pinocchio::program_error::ProgramError`, the error of every fallible
/// function here. Its variants are visible to the verifier as declared.
#[verifier::external_type_specification]
pub struct ExProgramError(ProgramError);

/// Specifies `pinocchio::pubkey::pubkey_eq`: it compares the two addresses
/// eight bytes at a time and answers whether all 32 bytes agree.
pub assume_specification[ pinocchio::pubkey::pubkey_eq ](left: &Pubkey, right: &Pubkey) -> (r: bool)
    ensures
        r == (left@ == right@),
;

/// Specifies `pinocchio_token::id`: it returns the token program's address,
/// the 32 bytes that `TokenkegQfeZyiNwAJbNbGKPFXCWuBvf9Ss623VQ5DA` encodes.
pub assume_specification[ pinocchio_token::id ]() -> (r: Pubkey)
    ensures
        r@ == token_program_id(),
;

/// Specifies `pinocchio::pubkey::try_find_program_address`. Nothing is
/// claimed of its answer: off chain it is always `None`, on chain it is the
/// canonical derived address of the seeds with its bump byte.
pub assume_specification[ pinocchio::pubkey::try_find_program_address ](
    seeds: &[&[u8]],
    program_id: &Pubkey,
) -> (r: Option<(Pubkey, u8)>)
;

/// The bytes of the token program's address.
pub open spec fn token_program_id() -> Seq<u8> {
    seq![
        6u8, 221, 246, 225, 215, 101, 161, 147, 217, 203, 225, 70, 206, 235, 121, 172,
        28, 180, 133, 237, 95, 91, 55, 145, 58, 140, 245, 133, 126, 255, 0, 169,
    ]
}

/// The tag that opens every escrow seed list: the ASCII bytes of `escrow`.
pub const ESCROW_SEED: [u8; 6] = [101, 115, 99, 114, 111, 119];

/// The system program's address, which owns every unallocated account.
pub const SYSTEM_PROGRAM_ID: [u8; 32] = [
    0, 0, 0, 0, 0, 0, 0, 0, 0, 0, 0, 0, 0, 0, 0, 0,
    0, 0, 0, 0, 0, 0, 0, 0, 0, 0, 0, 0, 0, 0, 0, 0,
];

/// Two addresses with the same bytes are the same address.
pub proof fn lemma_pubkey_view_injective(a: Pubkey, b: Pubkey)
    ensures
        (a@ == b@) <==> a == b,
{
    if a@ == b@ {
        assert(a =~= b);
    }
}

/// Whether two addresses are equal.
pub fn address_eq(a: &Pubkey, b: &Pubkey) -> (r: bool)
    ensures
        r == (*a == *b),
{
    proof {
        lemma_pubkey_view_injective(*a, *b);
    }
    pinocchio::pubkey::pubkey_eq(a, b)
}

/// Whether `a` is the token program's address.
pub fn is_token_program(a: &Pubkey) -> (r: bool)
    ensures
        r == (a@ == token_program_id()),
{
    let id = pinocchio_token::id();
    pinocchio::pubkey::pubkey_eq(a, &id)
}

/// Copies the 32 bytes of `data` that start at `start` into an address.
pub fn read_pubkey(data: &[u8], start: usize) -> (r: Pubkey)
    requires
        start + 32 <= data@.len(),
    ensures
        r@ == data@.subrange(start as int, start + 32),
{
    let len: usize = data.len();
    let mut out: Pubkey = [0u8; 32];
    let mut i: usize = 0;
    while i < 32
        invariant
            i <= 32,
            start + 32 <= len,
            len == data@.len(),
            forall|j: int| 0 <= j < i ==> out@[j] == data@[start + j],
        decreases 32 - i,
    {
        out[i] = data[start + i];
        i += 1;
    }
    assert(out@ =~= data@.subrange(start as int, start + 32));
    out
}

} // verus!
