use crate::address::Address;
use vstd::prelude::*;

verus! {

/// What a balance is counted in: the native coin, in which rent is paid, or
/// the token of one mint.
#[derive(Clone, Copy, Debug, PartialEq, Eq)]
pub enum Asset {
    Native,
    Token(Address),
}

impl Asset {
    /// Whether two assets are the same.
    pub fn same(&self, other: &Asset) -> (r: bool)
        ensures
            r == (*self == *other),
    {
        match (self, other) {
            (Asset::Native, Asset::Native) => true,
            (Asset::Token(a), Asset::Token(b)) => a.same(b),
            _ => false,
        }
    }
}

/// The persistent record of one outstanding offer.
#[derive(Clone, Copy, Debug, PartialEq, Eq)]
pub struct EscrowRecord {
    /// Chosen by the maker; with the maker's address it fixes where the
    /// record lives.
    pub seed: u64,
    /// Who opened the offer, and the only one who may cancel it.
    pub maker: Address,
    /// The mint of the token that the maker deposited.
    pub mint_a: Address,
    /// The mint of the token that the maker wants in return.
    pub mint_b: Address,
    /// How much of `mint_b` settles the trade.
    pub receive_amount: u64,
    /// The bump seed of the record's address, kept from its derivation.
    pub bump: u8,
}

/// The account that holds the maker's deposit while the offer is open.
#[derive(Clone, Copy, Debug, PartialEq, Eq)]
pub struct Vault {
    pub address: Address,
    /// The derived authority that owns the vault; no user signs for it.
    pub authority: Address,
    /// The mint of the tokens held.
    pub mint: Address,
    /// The tokens held.
    pub amount: u64,
    /// The storage deposit paid when the vault was created.
    pub rent: u64,
}

/// An open offer: the record at its address, and the vault that goes with it.
#[derive(Clone, Copy, Debug, PartialEq, Eq)]
pub struct Offer {
    pub address: Address,
    pub record: EscrowRecord,
    /// The storage deposit paid when the record was created.
    pub rent: u64,
    pub vault: Vault,
}

impl Offer {
    /// How much of `asset` the offer holds: its two storage deposits in the
    /// native coin, its vault's tokens in the vault's mint.
    pub open spec fn stake(self, asset: Asset) -> nat {
        match asset {
            Asset::Native => (self.rent + self.vault.rent) as nat,
            Asset::Token(mint) => if mint == self.vault.mint {
                self.vault.amount as nat
            } else {
                0
            },
        }
    }
}

/// The storage deposits that creating a record and creating a vault cost.
#[derive(Clone, Copy, Debug, PartialEq, Eq)]
pub struct RentSchedule {
    pub record: u64,
    pub vault: u64,
}

/// The addresses that belong to one offer.
#[derive(Clone, Copy, Debug, PartialEq, Eq)]
pub struct Places {
    pub escrow: Address,
    pub bump: u8,
    pub vault: Address,
    pub authority: Address,
}

/// The accounts of a `make`: the maker, who signs, and the two mints.
#[derive(Clone, Copy, Debug, PartialEq, Eq)]
pub struct Make {
    pub maker: Address,
    pub mint_a: Address,
    pub mint_b: Address,
}

/// The accounts of a `take`: the taker, who signs, the offer by its maker and
/// seed, and the two mints that the taker means to trade in.
#[derive(Clone, Copy, Debug, PartialEq, Eq)]
pub struct Take {
    pub taker: Address,
    pub maker: Address,
    pub seed: u64,
    pub mint_a: Address,
    pub mint_b: Address,
}

/// The accounts of a `refund`: who signs, and the offer by its maker and seed.
#[derive(Clone, Copy, Debug, PartialEq, Eq)]
pub struct Refund {
    pub signer: Address,
    pub maker: Address,
    pub seed: u64,
}

} // verus!
