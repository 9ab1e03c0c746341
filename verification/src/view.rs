use crate::address::Address;
use crate::state::{Asset, Offer, RentSchedule};
use vstd::prelude::*;

verus! {

/// What a ledger holds, as mathematics: who owns how much of what, which
/// offers are open, and how much of each asset there is in all.
#[verifier::ext_equal]
pub struct LedgerView {
    /// The program under which the offers' addresses are derived.
    pub program: Address,
    /// What creating a record and a vault costs.
    pub rent: RentSchedule,
    /// The balance of every owner in every asset; zero where nothing is held.
    pub balances: Map<(Asset, Address), nat>,
    /// The open offers, by the address of their record.
    pub offers: Map<Address, Offer>,
    /// How much of every asset is held in all, in wallets and in open offers.
    pub supply: Map<Asset, nat>,
}

impl LedgerView {
    /// Every balance and every supply is stated. No balance exceeds the
    /// supply of its asset, nor does what an offer holds, and no supply
    /// exceeds what 64 bits can count. Every offer stands under its own
    /// address, and every vault holds the mint that its record declares.
    pub open spec fn wf(self) -> bool {
        &&& forall|asset: Asset, owner: Address| #[trigger]
            self.balances.dom().contains((asset, owner))
        &&& forall|asset: Asset| #[trigger] self.supply.dom().contains(asset)
        &&& forall|asset: Asset, owner: Address| #[trigger]
            self.balances[(asset, owner)] <= self.supply[asset]
        &&& forall|asset: Asset, address: Address|
            self.offers.contains_key(address) ==> #[trigger] self.offers[address].stake(asset)
                <= self.supply[asset]
        &&& forall|asset: Asset| #[trigger] self.supply[asset] <= u64::MAX
        &&& forall|address: Address| #[trigger]
            self.offers.contains_key(address) ==> self.offers[address].address == address
                && self.offers[address].vault.mint == self.offers[address].record.mint_a
    }

    /// The ledger of `program` in which nobody holds anything and no offer is
    /// open.
    pub open spec fn empty(program: Address, rent: RentSchedule) -> LedgerView {
        LedgerView {
            program,
            rent,
            balances: Map::new(|k: (Asset, Address)| true, |k: (Asset, Address)| 0nat),
            offers: Map::empty(),
            supply: Map::new(|a: Asset| true, |a: Asset| 0nat),
        }
    }

    /// What `owner` holds of `asset`.
    pub open spec fn balance(self, asset: Asset, owner: Address) -> nat {
        self.balances[(asset, owner)]
    }

    /// The ledger with `amount` more of `asset` in the hands of `owner`.
    pub open spec fn credited(self, asset: Asset, owner: Address, amount: nat) -> LedgerView {
        LedgerView {
            balances: self.balances.insert((asset, owner), self.balance(asset, owner) + amount),
            ..self
        }
    }

    /// The ledger with `amount` less of `asset` in the hands of `owner`.
    pub open spec fn debited(self, asset: Asset, owner: Address, amount: nat) -> LedgerView {
        LedgerView {
            balances: self.balances.insert(
                (asset, owner),
                (self.balance(asset, owner) - amount) as nat,
            ),
            ..self
        }
    }

    /// The ledger after `amount` of `asset` went from `from` to `to`.
    pub open spec fn moved(self, asset: Asset, from: Address, to: Address, amount: nat) -> LedgerView {
        self.debited(asset, from, amount).credited(asset, to, amount)
    }

    /// The ledger after `amount` of `asset` came into being in the hands of
    /// `owner`.
    pub open spec fn issued(self, asset: Asset, owner: Address, amount: nat) -> LedgerView {
        LedgerView {
            supply: self.supply.insert(asset, self.supply[asset] + amount),
            ..self.credited(asset, owner, amount)
        }
    }

    /// The ledger with `offer` open at its address.
    pub open spec fn with_offer(self, offer: Offer) -> LedgerView {
        LedgerView { offers: self.offers.insert(offer.address, offer), ..self }
    }

    /// The ledger with no offer at `address`.
    pub open spec fn without_offer(self, address: Address) -> LedgerView {
        LedgerView { offers: self.offers.remove(address), ..self }
    }
}

} // verus!
