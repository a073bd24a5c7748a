//! The escrow record: one open offer, as stored in its account.
//!
//! The stored form is 113 bytes with no version tag: the seed as a
//! little-endian integer, the maker, the deposited mint, the requested mint,
//! the requested amount as a little-endian integer, and the bump byte.
use crate::bytes::append_bytes;
use crate::pubkey::{lemma_pubkey_view_injective, read_pubkey};
use pinocchio::program_error::ProgramError;
use pinocchio::pubkey::Pubkey;
use vstd::bytes::{
    lemma_auto_spec_u64_to_from_le_bytes, spec_u64_from_le_bytes, spec_u64_to_le_bytes,
    u64_from_le_bytes, u64_to_le_bytes,
};
use vstd::prelude::*;
use vstd::slice::slice_subrange;

verus! {

/// The size of a stored escrow record.
pub const ESCROW_LEN: usize = 113;

/// One open offer.
#[derive(Clone, Copy, Debug, PartialEq, Eq)]
pub struct Escrow {
    /// The maker's nonce, which tells apart the maker's simultaneous offers.
    pub seed: u64,
    /// The identity entitled to cancel and to be paid.
    pub maker: Pubkey,
    /// The asset that the maker deposited.
    pub mint_a: Pubkey,
    /// The asset that the maker asks for.
    pub mint_b: Pubkey,
    /// How much of `mint_b` fulfils the offer.
    pub receive: u64,
    /// The bump byte of the record's derived address.
    pub bump: [u8; 1],
}

impl Escrow {
    /// The stored form of the record.
    pub open spec fn spec_bytes(self) -> Seq<u8> {
        spec_u64_to_le_bytes(self.seed) + self.maker@ + self.mint_a@ + self.mint_b@
            + spec_u64_to_le_bytes(self.receive) + self.bump@
    }

    /// Reads a record from an account's data. Fails with
    /// `InvalidAccountData` unless the data has exactly the record's size;
    /// otherwise the result is the one record whose stored form is `data`.
    pub fn load(data: &[u8]) -> (r: Result<Escrow, ProgramError>)
        ensures
            match r {
                Ok(record) => data@.len() == ESCROW_LEN && record.spec_bytes() == data@,
                Err(e) => data@.len() != ESCROW_LEN && e == ProgramError::InvalidAccountData,
            },
    {
        if data.len() != ESCROW_LEN {
            return Err(ProgramError::InvalidAccountData);
        }
        let seed = u64_from_le_bytes(slice_subrange(data, 0, 8));
        let maker = read_pubkey(data, 8);
        let mint_a = read_pubkey(data, 40);
        let mint_b = read_pubkey(data, 72);
        let receive = u64_from_le_bytes(slice_subrange(data, 104, 112));
        let bump: [u8; 1] = [data[112]];
        let record = Escrow { seed, maker, mint_a, mint_b, receive, bump };
        proof {
            lemma_auto_spec_u64_to_from_le_bytes();
            assert(spec_u64_to_le_bytes(seed) == data@.subrange(0, 8));
            assert(spec_u64_to_le_bytes(receive) == data@.subrange(104, 112));
            assert(bump@ =~= data@.subrange(112, 113));
            assert(record.spec_bytes() =~= data@);
        }
        Ok(record)
    }

    /// Writes the record in its stored form.
    pub fn to_bytes(&self) -> (r: Vec<u8>)
        ensures
            r@ == self.spec_bytes(),
            r@.len() == ESCROW_LEN,
    {
        let mut out: Vec<u8> = Vec::new();
        let seed = u64_to_le_bytes(self.seed);
        append_bytes(&mut out, seed.as_slice());
        append_bytes(&mut out, self.maker.as_slice());
        append_bytes(&mut out, self.mint_a.as_slice());
        append_bytes(&mut out, self.mint_b.as_slice());
        let receive = u64_to_le_bytes(self.receive);
        append_bytes(&mut out, receive.as_slice());
        append_bytes(&mut out, self.bump.as_slice());
        proof {
            lemma_auto_spec_u64_to_from_le_bytes();
        }
        out
    }
}

/// A stored record has the record's size, and each field sits at its offset.
pub proof fn lemma_record_layout(record: Escrow)
    ensures
        record.spec_bytes().len() == ESCROW_LEN,
        record.spec_bytes().subrange(0, 8) == spec_u64_to_le_bytes(record.seed),
        record.spec_bytes().subrange(8, 40) == record.maker@,
        record.spec_bytes().subrange(40, 72) == record.mint_a@,
        record.spec_bytes().subrange(72, 104) == record.mint_b@,
        record.spec_bytes().subrange(104, 112) == spec_u64_to_le_bytes(record.receive),
        record.spec_bytes().subrange(112, 113) == record.bump@,
{
    lemma_auto_spec_u64_to_from_le_bytes();
    let b = record.spec_bytes();
    assert(b.subrange(0, 8) =~= spec_u64_to_le_bytes(record.seed));
    assert(b.subrange(8, 40) =~= record.maker@);
    assert(b.subrange(40, 72) =~= record.mint_a@);
    assert(b.subrange(72, 104) =~= record.mint_b@);
    assert(b.subrange(104, 112) =~= spec_u64_to_le_bytes(record.receive));
    assert(b.subrange(112, 113) =~= record.bump@);
}

/// Two records with the same stored form are the same record, so reading
/// back what was written returns the record that was written.
pub proof fn lemma_record_bytes_injective(a: Escrow, b: Escrow)
    requires
        a.spec_bytes() == b.spec_bytes(),
    ensures
        a == b,
{
    lemma_record_layout(a);
    lemma_record_layout(b);
    lemma_auto_spec_u64_to_from_le_bytes();
    assert(a.seed == spec_u64_from_le_bytes(spec_u64_to_le_bytes(a.seed)));
    assert(b.seed == spec_u64_from_le_bytes(spec_u64_to_le_bytes(b.seed)));
    assert(a.receive == spec_u64_from_le_bytes(spec_u64_to_le_bytes(a.receive)));
    assert(b.receive == spec_u64_from_le_bytes(spec_u64_to_le_bytes(b.receive)));
    lemma_pubkey_view_injective(a.maker, b.maker);
    lemma_pubkey_view_injective(a.mint_a, b.mint_a);
    lemma_pubkey_view_injective(a.mint_b, b.mint_b);
    assert(a.bump =~= b.bump);
}

} // verus!
