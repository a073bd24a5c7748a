//! The actions an instruction asks its caller to perform, and the authority
//! under which each is performed.
use crate::bytes::append_bytes;
use crate::pubkey::ESCROW_SEED;
use crate::state::Escrow;
use pinocchio::pubkey::Pubkey;
use vstd::bytes::{spec_u64_to_le_bytes, u64_to_le_bytes};
use vstd::prelude::*;

verus! {

/// The byte strings that a list of seeds holds.
pub open spec fn seed_rows(seeds: Vec<Vec<u8>>) -> Seq<Seq<u8>> {
    seeds@.map_values(|row: Vec<u8>| row@)
}

/// The seeds of a list as borrowed byte strings, in the same order.
pub fn seed_slices<'a>(seeds: &'a Vec<Vec<u8>>) -> (r: Vec<&'a [u8]>)
    ensures
        r@.len() == seeds@.len(),
        forall|i: int| 0 <= i < r@.len() ==> (#[trigger] r@[i])@ == seeds@[i]@,
        r@.map_values(|row: &[u8]| row@) == seed_rows(*seeds),
{
    let mut out: Vec<&'a [u8]> = Vec::new();
    let mut i: usize = 0;
    while i < seeds.len()
        invariant
            i <= seeds@.len(),
            out@.len() == i,
            forall|j: int| 0 <= j < i ==> (#[trigger] out@[j])@ == seeds@[j]@,
        decreases seeds@.len() - i,
    {
        out.push(seeds[i].as_slice());
        i += 1;
    }
    assert(out@.map_values(|row: &[u8]| row@) =~= seed_rows(*seeds));
    out
}

/// The seed material of an escrow's derived address.
#[derive(Clone, Copy, Debug, PartialEq, Eq)]
pub struct EscrowSeeds {
    /// The maker's address.
    pub maker: Pubkey,
    /// The maker's nonce.
    pub seed: u64,
    /// The bump byte that was found when the address was derived.
    pub bump: u8,
}

impl EscrowSeeds {
    /// The seeds from which the address and its bump byte are searched: the
    /// tag, the maker's address, and the nonce in little-endian bytes.
    pub open spec fn spec_search_list(maker: Pubkey, seed: u64) -> Seq<Seq<u8>> {
        seq![ESCROW_SEED@, maker@, spec_u64_to_le_bytes(seed)]
    }

    /// The seed list that proves the right to sign for the derived address:
    /// the search list followed by the bump byte.
    pub open spec fn spec_seed_list(self) -> Seq<Seq<u8>> {
        Self::spec_search_list(self.maker, self.seed).push(seq![self.bump])
    }

    /// The seeds from which the address and its bump byte are searched.
    pub fn search_list(maker: &Pubkey, seed: u64) -> (r: Vec<Vec<u8>>)
        ensures
            seed_rows(r) == Self::spec_search_list(*maker, seed),
    {
        let mut tag: Vec<u8> = Vec::new();
        append_bytes(&mut tag, ESCROW_SEED.as_slice());
        let mut who: Vec<u8> = Vec::new();
        append_bytes(&mut who, maker.as_slice());
        let nonce = u64_to_le_bytes(seed);
        let mut out: Vec<Vec<u8>> = Vec::new();
        out.push(tag);
        out.push(who);
        out.push(nonce);
        assert(seed_rows(out) =~= Self::spec_search_list(*maker, seed));
        out
    }

    /// The seed list that proves the right to sign for the derived address.
    pub fn seed_list(&self) -> (r: Vec<Vec<u8>>)
        ensures
            seed_rows(r) == self.spec_seed_list(),
    {
        let mut tag: Vec<u8> = Vec::new();
        append_bytes(&mut tag, ESCROW_SEED.as_slice());
        let mut who: Vec<u8> = Vec::new();
        append_bytes(&mut who, self.maker.as_slice());
        let nonce = u64_to_le_bytes(self.seed);
        let mut last: Vec<u8> = Vec::new();
        last.push(self.bump);
        assert(last@ =~= seq![self.bump]);
        let mut out: Vec<Vec<u8>> = Vec::new();
        out.push(tag);
        out.push(who);
        out.push(nonce);
        out.push(last);
        assert(seed_rows(out) =~= self.spec_seed_list());
        out
    }
}

/// Who authorises a transfer or a closure.
#[derive(Clone, Copy, Debug, PartialEq, Eq)]
pub enum Authority {
    /// An account whose key signed the transaction.
    Signer(Pubkey),
    /// A derived address, signed for by presenting its seed material.
    Derived { address: Pubkey, seeds: EscrowSeeds },
}

impl Authority {
    /// The address in whose name the authority acts.
    pub open spec fn spec_address(self) -> Pubkey {
        match self {
            Authority::Signer(address) => address,
            Authority::Derived { address, .. } => address,
        }
    }

    /// The address in whose name the authority acts.
    pub fn address(&self) -> (r: Pubkey)
        ensures
            r == self.spec_address(),
    {
        match self {
            Authority::Signer(address) => *address,
            Authority::Derived { address, .. } => *address,
        }
    }
}

/// One action of an instruction. The actions of an instruction are performed
/// in order, and the first that fails aborts the instruction.
#[derive(Clone, Copy, Debug, PartialEq, Eq)]
pub enum Step {
    /// Allocate `space` zeroed bytes at `to`, owned by `owner` and holding
    /// `lamports` taken from `from`; `to` is signed for with `seeds`.
    CreateAccount {
        from: Pubkey,
        to: Pubkey,
        lamports: u64,
        space: u64,
        owner: Pubkey,
        seeds: EscrowSeeds,
    },
    /// Create the token account `account` of `mint` held by `wallet`, paid by
    /// `funding_account`, unless it exists already.
    CreateIdempotent {
        funding_account: Pubkey,
        account: Pubkey,
        wallet: Pubkey,
        mint: Pubkey,
        system_program: Pubkey,
        token_program: Pubkey,
    },
    /// Store `record` in the data of `account`.
    StoreRecord { account: Pubkey, record: Escrow },
    /// Move `amount` tokens from `from` to `to`.
    Transfer { from: Pubkey, to: Pubkey, authority: Authority, amount: u64 },
    /// Close the token account `account`, sending its lamports to `destination`.
    CloseAccount { account: Pubkey, destination: Pubkey, authority: Authority },
    /// Close the protocol-owned `account`, sending its lamports to `destination`.
    CloseProgramAccount { account: Pubkey, destination: Pubkey },
}

} // verus!
