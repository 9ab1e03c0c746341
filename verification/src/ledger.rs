mod offers;
mod wallets;

use crate::address::Address;
use crate::error::EscrowError;
use crate::ledger::offers::{
    lemma_offer_at, lemma_offer_push, lemma_offer_remove, offer_at, offer_weights, offers_distinct,
    offers_of,
};
use crate::ledger::wallets::{
    balances_of, holding, lemma_holding_at, lemma_wallet_push, lemma_wallet_update, wallet_at,
    wallet_weights, wallets_distinct, weight, Wallet,
};
use crate::rules::{made_at, record_at, refunded_at, taken_at, transferred, vault_held_at};
use crate::state::{Asset, EscrowRecord, Make, Offer, Places, Refund, RentSchedule, Take, Vault};
use crate::tally::{lemma_total_bounds, lemma_total_prefix, lemma_total_step, total};
use crate::view::LedgerView;
use vstd::prelude::*;

verus! {

/// The state that the three instructions work on: the wallets of all owners
/// and the open offers.
#[derive(Clone, Debug, PartialEq, Eq)]
pub struct Ledger {
    program: Address,
    rent: RentSchedule,
    wallets: Vec<Wallet>,
    offers: Vec<Offer>,
}

/// How much of `asset` the wallets and the offers hold together.
spec fn circulating(wallets: Seq<Wallet>, offers: Seq<Offer>, asset: Asset) -> nat {
    total(wallet_weights(wallets, asset)) + total(offer_weights(offers, asset))
}

/// The supply of every asset.
spec fn supply_of(wallets: Seq<Wallet>, offers: Seq<Offer>) -> Map<Asset, nat> {
    Map::new(|a: Asset| true, |a: Asset| circulating(wallets, offers, a))
}

/// The ledger after `amount` of `asset` left the hands of `owner` and
/// ceased to be.
spec fn withdrawn(pre: LedgerView, asset: Asset, owner: Address, amount: nat) -> LedgerView {
    LedgerView {
        supply: pre.supply.insert(asset, (pre.supply[asset] - amount) as nat),
        ..pre.debited(asset, owner, amount)
    }
}

/// The ledger after `offer` came into being with all that it holds.
spec fn staked(pre: LedgerView, offer: Offer) -> LedgerView {
    LedgerView {
        supply: Map::new(|a: Asset| true, |a: Asset| pre.supply[a] + offer.stake(a)),
        ..pre.with_offer(offer)
    }
}

/// The ledger after `offer` ceased to be with all that it held.
spec fn unstaked(pre: LedgerView, offer: Offer) -> LedgerView {
    LedgerView {
        supply: Map::new(|a: Asset| true, |a: Asset| (pre.supply[a] - offer.stake(a)) as nat),
        ..pre.without_offer(offer.address)
    }
}

impl View for Ledger {
    type V = LedgerView;

    closed spec fn view(&self) -> LedgerView {
        LedgerView {
            program: self.program,
            rent: self.rent,
            balances: balances_of(self.wallets@),
            offers: offers_of(self.offers@),
            supply: supply_of(self.wallets@, self.offers@),
        }
    }
}

impl Ledger {
    /// No owner has two wallets of one asset, no address holds two offers,
    /// every vault holds the mint that its record declares, and of no asset
    /// is there more than a 64-bit number can count.
    pub closed spec fn inv(&self) -> bool {
        &&& wallets_distinct(self.wallets@)
        &&& offers_distinct(self.offers@)
        &&& forall|i: int|
            0 <= i < self.offers@.len() ==> (#[trigger] self.offers@[i]).vault.mint
                == self.offers@[i].record.mint_a
        &&& forall|asset: Asset| #[trigger]
            circulating(self.wallets@, self.offers@, asset) <= u64::MAX
    }

    /// The ledger is in order, and so is what it holds.
    pub open spec fn wf(&self) -> bool {
        self.inv() && self@.wf()
    }

    /// What a ledger in order holds is in order.
    proof fn lemma_view_wf(&self)
        requires
            self.inv(),
        ensures
            self@.wf(),
    {
        assert forall|asset: Asset, owner: Address| #[trigger]
            self@.balances[(asset, owner)] <= self@.supply[asset] by {
            if exists|i: int| wallet_at(self.wallets@, i, asset, owner) {
                let i = choose|i: int| wallet_at(self.wallets@, i, asset, owner);
                lemma_holding_at(self.wallets@, i);
                lemma_total_bounds(wallet_weights(self.wallets@, asset), i);
            }
        }
        assert forall|asset: Asset, address: Address|
            self@.offers.contains_key(address) implies #[trigger] self@.offers[address].stake(
            asset,
        ) <= self@.supply[asset] by {
            let i = choose|i: int| offer_at(self.offers@, i, address);
            lemma_total_bounds(offer_weights(self.offers@, asset), i);
        }
        assert forall|asset: Asset| #[trigger] self@.supply[asset] <= u64::MAX by {
            assert(circulating(self.wallets@, self.offers@, asset) <= u64::MAX);
        }
    }

    /// An empty ledger for the offers of `program`, with what creating a
    /// record and a vault costs there.
    pub fn new(program: Address, rent: RentSchedule) -> (ledger: Ledger)
        ensures
            ledger.wf(),
            ledger@ == LedgerView::empty(program, rent),
    {
        let ledger = Ledger { program, rent, wallets: Vec::new(), offers: Vec::new() };
        proof {
            assert forall|asset: Asset| #[trigger]
                circulating(ledger.wallets@, ledger.offers@, asset) == 0 by {
                assert(wallet_weights(ledger.wallets@, asset) =~= Seq::<nat>::empty());
                assert(offer_weights(ledger.offers@, asset) =~= Seq::<nat>::empty());
            }
            assert(ledger@ =~= LedgerView::empty(program, rent));
            ledger.lemma_view_wf();
        }
        ledger
    }

    /// The program under which the offers' addresses are derived.
    pub fn program(&self) -> (program: Address)
        ensures
            program == self@.program,
    {
        self.program
    }

    /// What creating a record and a vault costs.
    pub fn rent(&self) -> (rent: RentSchedule)
        ensures
            rent == self@.rent,
    {
        self.rent
    }

    /// The position of the wallet of `owner` in `asset`, if there is one.
    fn find_wallet(&self, asset: &Asset, owner: &Address) -> (found: Option<usize>)
        ensures
            match found {
                Some(i) => wallet_at(self.wallets@, i as int, *asset, *owner),
                None => forall|i: int| !wallet_at(self.wallets@, i, *asset, *owner),
            },
    {
        let mut i: usize = 0;
        while i < self.wallets.len()
            invariant
                i <= self.wallets.len(),
                forall|k: int| 0 <= k < i ==> !wallet_at(self.wallets@, k, *asset, *owner),
            decreases self.wallets.len() - i,
        {
            if self.wallets[i].asset.same(asset) && self.wallets[i].owner.same(owner) {
                return Some(i);
            }
            i += 1;
        }
        None
    }

    /// The position of the offer whose record lives at `address`, if one is
    /// open there.
    fn find_offer(&self, address: &Address) -> (found: Option<usize>)
        requires
            self.inv(),
        ensures
            match found {
                Some(i) => offer_at(self.offers@, i as int, *address) && self@.offers.contains_key(
                    *address,
                ) && self@.offers[*address] == self.offers@[i as int],
                None => !self@.offers.contains_key(*address),
            },
    {
        let mut i: usize = 0;
        while i < self.offers.len()
            invariant
                i <= self.offers.len(),
                offers_distinct(self.offers@),
                forall|k: int| 0 <= k < i ==> !offer_at(self.offers@, k, *address),
            decreases self.offers.len() - i,
        {
            if self.offers[i].address.same(address) {
                proof {
                    assert(offer_at(self.offers@, i as int, *address));
                    lemma_offer_at(self.offers@, i as int);
                }
                return Some(i);
            }
            i += 1;
        }
        None
    }

    /// What `owner` holds of `asset`.
    pub fn holding(&self, asset: &Asset, owner: &Address) -> (amount: u64)
        requires
            self.wf(),
        ensures
            amount == self@.balance(*asset, *owner),
    {
        match self.find_wallet(asset, owner) {
            Some(i) => {
                proof {
                    lemma_holding_at(self.wallets@, i as int);
                }
                self.wallets[i].amount
            },
            None => 0,
        }
    }

    /// The token balance of `owner` in `mint`.
    pub fn balance(&self, owner: &Address, mint: &Address) -> (amount: u64)
        requires
            self.wf(),
        ensures
            amount == self@.balance(Asset::Token(*mint), *owner),
    {
        self.holding(&Asset::Token(*mint), owner)
    }

    /// The native coin that `owner` holds.
    pub fn lamports(&self, owner: &Address) -> (amount: u64)
        requires
            self.wf(),
        ensures
            amount == self@.balance(Asset::Native, *owner),
    {
        self.holding(&Asset::Native, owner)
    }

    /// How much of `asset` there is in all, in wallets and in open offers.
    pub fn supply(&self, asset: &Asset) -> (amount: u64)
        requires
            self.wf(),
        ensures
            amount == self@.supply[*asset],
    {
        let ghost in_wallets = wallet_weights(self.wallets@, *asset);
        let ghost in_offers = offer_weights(self.offers@, *asset);
        assert(circulating(self.wallets@, self.offers@, *asset) <= u64::MAX);
        let mut sum: u64 = 0;
        let mut i: usize = 0;
        while i < self.wallets.len()
            invariant
                i <= self.wallets.len(),
                in_wallets == wallet_weights(self.wallets@, *asset),
                sum == total(in_wallets.take(i as int)),
                total(in_wallets) <= u64::MAX,
            decreases self.wallets.len() - i,
        {
            proof {
                lemma_total_step(in_wallets, i as int);
                lemma_total_prefix(in_wallets, i + 1);
            }
            if self.wallets[i].asset.same(asset) {
                sum = sum + self.wallets[i].amount;
            }
            i += 1;
        }
        assert(in_wallets.take(i as int) =~= in_wallets);
        let mut k: usize = 0;
        while k < self.offers.len()
            invariant
                k <= self.offers.len(),
                in_offers == offer_weights(self.offers@, *asset),
                sum == total(in_wallets) + total(in_offers.take(k as int)),
                total(in_wallets) + total(in_offers) <= u64::MAX,
            decreases self.offers.len() - k,
        {
            proof {
                lemma_total_step(in_offers, k as int);
                lemma_total_prefix(in_offers, k + 1);
            }
            let offer = &self.offers[k];
            match asset {
                Asset::Native => {
                    sum = sum + offer.rent;
                    sum = sum + offer.vault.rent;
                },
                Asset::Token(mint) => {
                    if mint.same(&offer.vault.mint) {
                        sum = sum + offer.vault.amount;
                    }
                },
            }
            k += 1;
        }
        assert(in_offers.take(k as int) =~= in_offers);
        sum
    }

    /// Takes `amount` of `asset` out of the hands of `owner`.
    fn withdraw(&mut self, asset: &Asset, owner: &Address, amount: u64)
        requires
            old(self).inv(),
            old(self)@.balance(*asset, *owner) >= amount,
        ensures
            final(self).inv(),
            final(self)@ == withdrawn(old(self)@, *asset, *owner, amount as nat),
            final(self).offers@ == old(self).offers@,
            old(self)@.supply[*asset] >= amount,
    {
        match self.find_wallet(asset, owner) {
            Some(i) => {
                let held = self.wallets[i].amount;
                proof {
                    lemma_holding_at(self.wallets@, i as int);
                    lemma_wallet_update(self.wallets@, i as int, (held - amount) as u64);
                    lemma_total_bounds(wallet_weights(self.wallets@, *asset), i as int);
                }
                self.wallets[i] = Wallet { asset: *asset, owner: *owner, amount: held - amount };
                proof {
                    assert(self.wallets@ == old(self).wallets@.update(
                        i as int,
                        Wallet { amount: (held - amount) as u64, ..old(self).wallets@[i as int] },
                    ));
                    assert forall|a: Asset| #[trigger]
                        circulating(self.wallets@, self.offers@, a) <= circulating(
                            old(self).wallets@,
                            old(self).offers@,
                            a,
                        ) by {
                        assert(total(wallet_weights(self.wallets@, a)) <= total(
                            wallet_weights(old(self).wallets@, a),
                        ));
                    }
                    assert(self@ =~= withdrawn(old(self)@, *asset, *owner, amount as nat));
                }
            },
            None => {
                assert(self@ =~= withdrawn(old(self)@, *asset, *owner, amount as nat));
            },
        }
    }

    /// Puts `amount` of `asset` into the hands of `owner`.
    fn deposit(&mut self, asset: &Asset, owner: &Address, amount: u64)
        requires
            old(self).inv(),
            old(self)@.supply[*asset] + amount <= u64::MAX,
        ensures
            final(self).inv(),
            final(self)@ == old(self)@.issued(*asset, *owner, amount as nat),
            final(self).offers@ == old(self).offers@,
    {
        match self.find_wallet(asset, owner) {
            Some(i) => {
                let held = self.wallets[i].amount;
                proof {
                    lemma_holding_at(self.wallets@, i as int);
                    lemma_total_bounds(wallet_weights(self.wallets@, *asset), i as int);
                    lemma_wallet_update(self.wallets@, i as int, (held + amount) as u64);
                }
                self.wallets[i] = Wallet { asset: *asset, owner: *owner, amount: held + amount };
                proof {
                    assert(self.wallets@ == old(self).wallets@.update(
                        i as int,
                        Wallet { amount: (held + amount) as u64, ..old(self).wallets@[i as int] },
                    ));
                    assert forall|a: Asset| #[trigger]
                        circulating(self.wallets@, self.offers@, a) == circulating(
                            old(self).wallets@,
                            old(self).offers@,
                            a,
                        ) + (if a == *asset {
                            amount as nat
                        } else {
                            0
                        }) by {
                        assert(total(wallet_weights(self.wallets@, a)) + weight(
                            old(self).wallets@[i as int],
                            a,
                        ) == total(wallet_weights(old(self).wallets@, a)) + weight(
                            self.wallets@[i as int],
                            a,
                        ));
                    }
                    assert(self@ =~= old(self)@.issued(*asset, *owner, amount as nat));
                }
            },
            None => {
                let wallet = Wallet { asset: *asset, owner: *owner, amount };
                proof {
                    lemma_wallet_push(self.wallets@, wallet);
                }
                self.wallets.push(wallet);
                proof {
                    assert forall|a: Asset| #[trigger]
                        circulating(self.wallets@, self.offers@, a) == circulating(
                            old(self).wallets@,
                            old(self).offers@,
                            a,
                        ) + (if a == *asset {
                            amount as nat
                        } else {
                            0
                        }) by {
                        assert(total(wallet_weights(self.wallets@, a)) == total(
                            wallet_weights(old(self).wallets@, a),
                        ) + weight(wallet, a));
                    }
                    assert(self@ =~= old(self)@.issued(*asset, *owner, amount as nat));
                }
            },
        }
    }

    /// Opens `offer` with all that it holds.
    fn open_offer(&mut self, offer: Offer)
        requires
            old(self).inv(),
            !old(self)@.offers.contains_key(offer.address),
            offer.vault.mint == offer.record.mint_a,
            forall|a: Asset| #[trigger] old(self)@.supply[a] + offer.stake(a) <= u64::MAX,
        ensures
            final(self).inv(),
            final(self)@ == staked(old(self)@, offer),
    {
        proof {
            assert forall|i: int| !offer_at(self.offers@, i, offer.address) by {
                if offer_at(self.offers@, i, offer.address) {
                    assert(offers_of(self.offers@).contains_key(offer.address));
                }
            }
            lemma_offer_push(self.offers@, offer);
        }
        self.offers.push(offer);
        proof {
            assert forall|a: Asset| #[trigger]
                circulating(self.wallets@, self.offers@, a) == old(self)@.supply[a] + offer.stake(
                    a,
                ) by {
                assert(total(offer_weights(self.offers@, a)) == total(
                    offer_weights(old(self).offers@, a),
                ) + offer.stake(a));
            }
            assert(self@ =~= staked(old(self)@, offer));
        }
    }

    /// Closes the offer at position `i` and hands it out with all that it
    /// held.
    fn close_offer(&mut self, i: usize) -> (offer: Offer)
        requires
            old(self).inv(),
            i < old(self).offers@.len(),
        ensures
            final(self).inv(),
            offer == old(self).offers@[i as int],
            final(self)@ == unstaked(old(self)@, offer),
            forall|a: Asset| #[trigger] old(self)@.supply[a] >= offer.stake(a),
    {
        proof {
            lemma_offer_remove(self.offers@, i as int);
        }
        let offer = self.offers.remove(i);
        proof {
            assert forall|a: Asset| #[trigger]
                circulating(self.wallets@, self.offers@, a) + offer.stake(a) == old(
                    self,
                )@.supply[a] by {
                assert(total(offer_weights(self.offers@, a)) + offer.stake(a) == total(
                    offer_weights(old(self).offers@, a),
                ));
            }
            assert(self@ =~= unstaked(old(self)@, offer));
            assert forall|a: Asset| #[trigger] old(self)@.supply[a] >= offer.stake(a) by {
                assert(circulating(self.wallets@, self.offers@, a) + offer.stake(a) == old(
                    self,
                )@.supply[a]);
            }
        }
        offer
    }

    /// Brings `amount` of `asset` into being in the hands of `owner`, unless
    /// there would then be more of it than 64 bits can count: then nothing
    /// changes.
    pub fn issue(&mut self, asset: &Asset, owner: &Address, amount: u64) -> (done: bool)
        requires
            old(self).wf(),
        ensures
            final(self).wf(),
            done == (old(self)@.supply[*asset] + amount <= u64::MAX),
            final(self)@ == if done {
                old(self)@.issued(*asset, *owner, amount as nat)
            } else {
                old(self)@
            },
    {
        if amount > u64::MAX - self.supply(asset) {
            return false;
        }
        self.deposit(asset, owner, amount);
        proof {
            self.lemma_view_wf();
        }
        true
    }

    /// Mints `amount` tokens of `mint` to `owner`; see `issue`.
    pub fn mint_to(&mut self, mint: &Address, owner: &Address, amount: u64) -> (done: bool)
        requires
            old(self).wf(),
        ensures
            final(self).wf(),
            done == (old(self)@.supply[Asset::Token(*mint)] + amount <= u64::MAX),
            final(self)@ == if done {
                old(self)@.issued(Asset::Token(*mint), *owner, amount as nat)
            } else {
                old(self)@
            },
    {
        self.issue(&Asset::Token(*mint), owner, amount)
    }

    /// Gives `owner` `amount` of the native coin; see `issue`.
    pub fn airdrop(&mut self, owner: &Address, amount: u64) -> (done: bool)
        requires
            old(self).wf(),
        ensures
            final(self).wf(),
            done == (old(self)@.supply[Asset::Native] + amount <= u64::MAX),
            final(self)@ == if done {
                old(self)@.issued(Asset::Native, *owner, amount as nat)
            } else {
                old(self)@
            },
    {
        self.issue(&Asset::Native, owner, amount)
    }

    /// Moves `amount` tokens of `mint` from `from` to `to` on the word of
    /// `authority`, and leaves the open offers where they are.
    fn pay(
        &mut self,
        mint: &Address,
        from: &Address,
        to: &Address,
        authority: &Address,
        amount: u64,
    ) -> (outcome: Result<(), EscrowError>)
        requires
            old(self).inv(),
        ensures
            final(self).inv(),
            final(self).offers@ == old(self).offers@,
            match transferred(old(self)@, *mint, *from, *to, *authority, amount) {
                Ok(next) => outcome is Ok && final(self)@ == next,
                Err(e) => outcome == Err::<(), EscrowError>(e) && final(self)@ == old(self)@,
            },
    {
        if !authority.same(from) {
            return Err(EscrowError::Unauthorized);
        }
        let token = Asset::Token(*mint);
        proof {
            self.lemma_view_wf();
        }
        if self.holding(&token, from) < amount {
            return Err(EscrowError::InsufficientFunds);
        }
        self.withdraw(&token, from, amount);
        self.deposit(&token, to, amount);
        proof {
            assert(self@ =~= old(self)@.moved(token, *from, *to, amount as nat));
        }
        Ok(())
    }

    /// Moves `amount` tokens of `mint` from `from` to `to` on the word of
    /// `authority`.
    pub fn transfer(
        &mut self,
        mint: &Address,
        from: &Address,
        to: &Address,
        authority: &Address,
        amount: u64,
    ) -> (outcome: Result<(), EscrowError>)
        requires
            old(self).wf(),
        ensures
            final(self).wf(),
            match transferred(old(self)@, *mint, *from, *to, *authority, amount) {
                Ok(next) => outcome is Ok && final(self)@ == next,
                Err(e) => outcome == Err::<(), EscrowError>(e) && final(self)@ == old(self)@,
            },
    {
        let outcome = self.pay(mint, from, to, authority, amount);
        proof {
            self.lemma_view_wf();
        }
        outcome
    }

    /// Whether an offer is open at `address`.
    pub fn is_open(&self, address: &Address) -> (open: bool)
        requires
            self.wf(),
        ensures
            open == self@.offers.contains_key(*address),
    {
        match self.find_offer(address) {
            Some(_) => true,
            None => false,
        }
    }

    /// Reads the record of `(maker, seed)` at `escrow`.
    pub fn read_at(&self, escrow: &Address, maker: &Address, seed: u64) -> (outcome: Result<
        EscrowRecord,
        EscrowError,
    >)
        requires
            self.wf(),
        ensures
            outcome == record_at(self@, *escrow, *maker, seed),
    {
        match self.find_offer(escrow) {
            Some(i) => {
                let offer = &self.offers[i];
                if offer.record.maker.same(maker) && offer.record.seed == seed {
                    Ok(offer.record)
                } else {
                    Err(EscrowError::NotFound)
                }
            },
            None => Err(EscrowError::NotFound),
        }
    }

    /// Looks at the vault of `(maker, seed)` at `escrow`.
    pub fn vault_at(&self, escrow: &Address, maker: &Address, seed: u64) -> (outcome: Result<
        Vault,
        EscrowError,
    >)
        requires
            self.wf(),
        ensures
            outcome == vault_held_at(self@, *escrow, *maker, seed),
    {
        match self.find_offer(escrow) {
            Some(i) => {
                let offer = &self.offers[i];
                if offer.record.maker.same(maker) && offer.record.seed == seed {
                    Ok(offer.vault)
                } else {
                    Err(EscrowError::NotFound)
                }
            },
            None => Err(EscrowError::NotFound),
        }
    }

    /// Opens an offer at the given places: the deposit and the rent leave the
    /// maker's hands, the record and the vault come into being.
    pub fn make_at(
        &mut self,
        places: &Places,
        accounts: &Make,
        seed: u64,
        receive: u64,
        amount: u64,
    ) -> (outcome: Result<(), EscrowError>)
        requires
            old(self).wf(),
        ensures
            final(self).wf(),
            match made_at(old(self)@, *places, *accounts, seed, receive, amount) {
                Ok(next) => outcome is Ok && final(self)@ == next,
                Err(e) => outcome == Err::<(), EscrowError>(e) && final(self)@ == old(self)@,
            },
    {
        if let Some(_) = self.find_offer(&places.escrow) {
            return Err(EscrowError::AlreadyExists);
        }
        let token = Asset::Token(accounts.mint_a);
        let rent = self.rent;
        if amount == 0 || self.holding(&token, &accounts.maker) < amount {
            return Err(EscrowError::InsufficientFunds);
        }
        let lamports = self.holding(&Asset::Native, &accounts.maker);
        if lamports < rent.record || lamports - rent.record < rent.vault {
            return Err(EscrowError::InsufficientFunds);
        }
        let offer = Offer {
            address: places.escrow,
            record: EscrowRecord {
                seed,
                maker: accounts.maker,
                mint_a: accounts.mint_a,
                mint_b: accounts.mint_b,
                receive_amount: receive,
                bump: places.bump,
            },
            rent: rent.record,
            vault: Vault {
                address: places.vault,
                authority: places.authority,
                mint: accounts.mint_a,
                amount,
                rent: rent.vault,
            },
        };
        self.withdraw(&token, &accounts.maker, amount);
        self.withdraw(&Asset::Native, &accounts.maker, rent.record);
        self.withdraw(&Asset::Native, &accounts.maker, rent.vault);
        proof {
            assert forall|a: Asset| #[trigger] self@.supply[a] + offer.stake(a)
                == old(self)@.supply[a] by {}
        }
        self.open_offer(offer);
        proof {
            assert(self@ =~= made_at(old(self)@, *places, *accounts, seed, receive, amount)->Ok_0);
            self.lemma_view_wf();
        }
        Ok(())
    }

    /// Settles the offer at `escrow`: the taker pays the maker and gets what
    /// the vault holds, the rents go back, the record and the vault are gone.
    pub fn take_at(&mut self, escrow: &Address, accounts: &Take) -> (outcome: Result<
        (),
        EscrowError,
    >)
        requires
            old(self).wf(),
        ensures
            final(self).wf(),
            match taken_at(old(self)@, *escrow, *accounts) {
                Ok(next) => outcome is Ok && final(self)@ == next,
                Err(e) => outcome == Err::<(), EscrowError>(e) && final(self)@ == old(self)@,
            },
    {
        let i = match self.find_offer(escrow) {
            Some(i) => i,
            None => {
                return Err(EscrowError::NotFound);
            },
        };
        let record = self.offers[i].record;
        if !record.maker.same(&accounts.maker) || record.seed != accounts.seed {
            return Err(EscrowError::NotFound);
        }
        if self.holding(&Asset::Token(record.mint_b), &accounts.taker) < record.receive_amount {
            return Err(EscrowError::InsufficientFunds);
        }
        if !record.mint_a.same(&accounts.mint_a) || !record.mint_b.same(&accounts.mint_b) {
            return Err(EscrowError::MintMismatch);
        }
        match self.pay(
            &record.mint_b,
            &accounts.taker,
            &accounts.maker,
            &accounts.taker,
            record.receive_amount,
        ) {
            Ok(()) => {},
            Err(e) => {
                return Err(e);
            },
        }
        let offer = self.close_offer(i);
        self.deposit(&Asset::Token(record.mint_a), &accounts.taker, offer.vault.amount);
        self.deposit(&Asset::Native, &accounts.taker, offer.vault.rent);
        self.deposit(&Asset::Native, &accounts.maker, offer.rent);
        proof {
            assert(self@ =~= taken_at(old(self)@, *escrow, *accounts)->Ok_0);
            self.lemma_view_wf();
        }
        Ok(())
    }

    /// Cancels the offer at `escrow`: the maker gets back what the vault
    /// holds and both rents, the record and the vault are gone.
    pub fn refund_at(&mut self, escrow: &Address, accounts: &Refund) -> (outcome: Result<
        (),
        EscrowError,
    >)
        requires
            old(self).wf(),
        ensures
            final(self).wf(),
            match refunded_at(old(self)@, *escrow, *accounts) {
                Ok(next) => outcome is Ok && final(self)@ == next,
                Err(e) => outcome == Err::<(), EscrowError>(e) && final(self)@ == old(self)@,
            },
    {
        let i = match self.find_offer(escrow) {
            Some(i) => i,
            None => {
                return Err(EscrowError::NotFound);
            },
        };
        let record = self.offers[i].record;
        if !record.maker.same(&accounts.maker) || record.seed != accounts.seed {
            return Err(EscrowError::NotFound);
        }
        if !accounts.signer.same(&record.maker) {
            return Err(EscrowError::Unauthorized);
        }
        let offer = self.close_offer(i);
        self.deposit(&Asset::Token(record.mint_a), &accounts.maker, offer.vault.amount);
        self.deposit(&Asset::Native, &accounts.maker, offer.vault.rent);
        self.deposit(&Asset::Native, &accounts.maker, offer.rent);
        proof {
            assert(self@ =~= refunded_at(old(self)@, *escrow, *accounts)->Ok_0);
            self.lemma_view_wf();
        }
        Ok(())
    }
}

} // verus!
