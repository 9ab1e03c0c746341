use crate::address::Address;
use crate::error::EscrowError;
use crate::state::{Asset, EscrowRecord, Make, Offer, Places, Refund, RentSchedule, Take, Vault};
use crate::view::LedgerView;
use vstd::prelude::*;

verus! {

/// What a transfer of `amount` tokens of `mint` from `from` to `to` comes
/// to when `authority` signs for it. It fails with `Unauthorized` where
/// another than the owner of the source signs, else with `InsufficientFunds`
/// where the source holds less than the amount. Otherwise the amount moves.
pub open spec fn transferred(
    pre: LedgerView,
    mint: Address,
    from: Address,
    to: Address,
    authority: Address,
    amount: u64,
) -> Result<LedgerView, EscrowError> {
    if authority != from {
        Err(EscrowError::Unauthorized)
    } else if pre.balance(Asset::Token(mint), from) < amount {
        Err(EscrowError::InsufficientFunds)
    } else {
        Ok(pre.moved(Asset::Token(mint), from, to, amount as nat))
    }
}

/// The offer that a `make` opens.
pub open spec fn offer_made(
    rent: RentSchedule,
    places: Places,
    accounts: Make,
    seed: u64,
    receive: u64,
    amount: u64,
) -> Offer {
    Offer {
        address: places.escrow,
        record: EscrowRecord {
            seed,
            maker: accounts.maker,
            mint_a: accounts.mint_a,
            mint_b: accounts.mint_b,
            receive_amount: receive,
            bump: places.bump,
        },
        rent: rent.record,
        vault: Vault {
            address: places.vault,
            authority: places.authority,
            mint: accounts.mint_a,
            amount,
            rent: rent.vault,
        },
    }
}

/// What a `make` at the given places comes to. It fails with
/// `AlreadyExists` where the record's address holds an offer, else with
/// `InsufficientFunds` where the deposit is zero, or the maker holds less
/// than the deposit in `mint_a`, or less than the rent of the record and of
/// the vault in the native coin. Otherwise the deposit and the rent leave the
/// maker's hands and the offer is open.
pub open spec fn made_at(
    pre: LedgerView,
    places: Places,
    accounts: Make,
    seed: u64,
    receive: u64,
    amount: u64,
) -> Result<LedgerView, EscrowError> {
    if pre.offers.contains_key(places.escrow) {
        Err(EscrowError::AlreadyExists)
    } else if amount == 0 || pre.balance(Asset::Token(accounts.mint_a), accounts.maker) < amount
        || pre.balance(Asset::Native, accounts.maker) < pre.rent.record + pre.rent.vault {
        Err(EscrowError::InsufficientFunds)
    } else {
        Ok(
            pre.debited(Asset::Token(accounts.mint_a), accounts.maker, amount as nat).debited(
                Asset::Native,
                accounts.maker,
                (pre.rent.record + pre.rent.vault) as nat,
            ).with_offer(offer_made(pre.rent, places, accounts, seed, receive, amount)),
        )
    }
}

/// The open offer of `(maker, seed)` at `escrow`, if that is what is there.
pub open spec fn offer_of(pre: LedgerView, escrow: Address, maker: Address, seed: u64) -> Option<
    Offer,
> {
    if pre.offers.contains_key(escrow) && pre.offers[escrow].record.maker == maker
        && pre.offers[escrow].record.seed == seed {
        Some(pre.offers[escrow])
    } else {
        None
    }
}

/// What reading the record of `(maker, seed)` at `escrow` comes to.
pub open spec fn record_at(pre: LedgerView, escrow: Address, maker: Address, seed: u64) -> Result<
    EscrowRecord,
    EscrowError,
> {
    match offer_of(pre, escrow, maker, seed) {
        Some(offer) => Ok(offer.record),
        None => Err(EscrowError::NotFound),
    }
}

/// What looking at the vault of `(maker, seed)` at `escrow` comes to.
pub open spec fn vault_held_at(pre: LedgerView, escrow: Address, maker: Address, seed: u64) -> Result<
    Vault,
    EscrowError,
> {
    match offer_of(pre, escrow, maker, seed) {
        Some(offer) => Ok(offer.vault),
        None => Err(EscrowError::NotFound),
    }
}

/// What a `take` of the offer at `escrow` comes to. It fails with `NotFound`
/// where the offer of the maker and seed that the accounts name is not open
/// there, else with `InsufficientFunds` where the taker holds less than the
/// record asks, in the mint that it asks for, else with `MintMismatch` where
/// the two mints of the accounts are not the record's. Otherwise the taker
/// pays the maker, gets all that the vault holds and the vault's rent, the
/// maker gets the record's rent, and the offer is gone.
pub open spec fn taken_at(pre: LedgerView, escrow: Address, accounts: Take) -> Result<
    LedgerView,
    EscrowError,
> {
    match offer_of(pre, escrow, accounts.maker, accounts.seed) {
        None => Err(EscrowError::NotFound),
        Some(offer) => if pre.balance(Asset::Token(offer.record.mint_b), accounts.taker)
            < offer.record.receive_amount {
            Err(EscrowError::InsufficientFunds)
        } else if offer.record.mint_a != accounts.mint_a || offer.record.mint_b
            != accounts.mint_b {
            Err(EscrowError::MintMismatch)
        } else {
            Ok(
                pre.moved(
                    Asset::Token(offer.record.mint_b),
                    accounts.taker,
                    accounts.maker,
                    offer.record.receive_amount as nat,
                ).credited(
                    Asset::Token(offer.record.mint_a),
                    accounts.taker,
                    offer.vault.amount as nat,
                ).credited(Asset::Native, accounts.taker, offer.vault.rent as nat).credited(
                    Asset::Native,
                    accounts.maker,
                    offer.rent as nat,
                ).without_offer(escrow),
            )
        },
    }
}

/// What a `refund` of the offer at `escrow` comes to. It fails with
/// `NotFound` where the offer of the maker and seed that the accounts name is
/// not open there, else with `Unauthorized` where another than its maker
/// signs. Otherwise the maker gets all that the vault holds and both rents,
/// and the offer is gone.
pub open spec fn refunded_at(pre: LedgerView, escrow: Address, accounts: Refund) -> Result<
    LedgerView,
    EscrowError,
> {
    match offer_of(pre, escrow, accounts.maker, accounts.seed) {
        None => Err(EscrowError::NotFound),
        Some(offer) => if accounts.signer != offer.record.maker {
            Err(EscrowError::Unauthorized)
        } else {
            Ok(
                pre.credited(
                    Asset::Token(offer.record.mint_a),
                    accounts.maker,
                    offer.vault.amount as nat,
                ).credited(
                    Asset::Native,
                    accounts.maker,
                    (offer.vault.rent + offer.rent) as nat,
                ).without_offer(escrow),
            )
        },
    }
}

} // verus!
