use crate::address::Address;
use crate::derive::{
    authority_place, escrow_place, locate_authority, locate_escrow, locate_vault, vault_place,
};
use crate::error::EscrowError;
use crate::ledger::Ledger;
use crate::rules::{made_at, record_at, refunded_at, taken_at, vault_held_at};
use crate::state::{EscrowRecord, Make, Places, Refund, Take, Vault};
use crate::view::LedgerView;
use vstd::prelude::*;

verus! {

/// The places of the offer whose record lives at `escrow`, where its vault
/// and its authority have an address.
pub open spec fn places_at(program: Address, escrow: Address, bump: u8) -> Option<Places> {
    match (vault_place(program, escrow), authority_place(program, escrow)) {
        (Some(vault), Some(authority)) => Some(Places { escrow, bump, vault, authority }),
        _ => None,
    }
}

/// What `make` comes to. The record's address is derived from the maker and
/// the seed. It fails with `NotFound` where there is no such address, else
/// with `AlreadyExists` where that address holds an offer, else with
/// `NotFound` where the vault or its authority has no address. The rest is
/// `made_at` at the addresses derived.
pub open spec fn make_outcome(
    pre: LedgerView,
    accounts: Make,
    seed: u64,
    receive: u64,
    amount: u64,
) -> Result<LedgerView, EscrowError> {
    match escrow_place(pre.program, accounts.maker, seed) {
        None => Err(EscrowError::NotFound),
        Some((escrow, bump)) => if pre.offers.contains_key(escrow) {
            Err(EscrowError::AlreadyExists)
        } else {
            match places_at(pre.program, escrow, bump) {
                None => Err(EscrowError::NotFound),
                Some(places) => made_at(pre, places, accounts, seed, receive, amount),
            }
        },
    }
}

/// What `take` comes to: `taken_at` at the address derived from the maker
/// and the seed, `NotFound` where there is no such address.
pub open spec fn take_outcome(pre: LedgerView, accounts: Take) -> Result<LedgerView, EscrowError> {
    match escrow_place(pre.program, accounts.maker, accounts.seed) {
        None => Err(EscrowError::NotFound),
        Some((escrow, _)) => taken_at(pre, escrow, accounts),
    }
}

/// What `refund` comes to: `refunded_at` at the address derived from the
/// maker and the seed, `NotFound` where there is no such address.
pub open spec fn refund_outcome(pre: LedgerView, accounts: Refund) -> Result<
    LedgerView,
    EscrowError,
> {
    match escrow_place(pre.program, accounts.maker, accounts.seed) {
        None => Err(EscrowError::NotFound),
        Some((escrow, _)) => refunded_at(pre, escrow, accounts),
    }
}

/// What `read` comes to: the record at the address derived from the maker
/// and the seed.
pub open spec fn read_outcome(pre: LedgerView, maker: Address, seed: u64) -> Result<
    EscrowRecord,
    EscrowError,
> {
    match escrow_place(pre.program, maker, seed) {
        None => Err(EscrowError::NotFound),
        Some((escrow, _)) => record_at(pre, escrow, maker, seed),
    }
}

/// What `vault` comes to: the vault of the record at the address derived
/// from the maker and the seed.
pub open spec fn vault_outcome(pre: LedgerView, maker: Address, seed: u64) -> Result<
    Vault,
    EscrowError,
> {
    match escrow_place(pre.program, maker, seed) {
        None => Err(EscrowError::NotFound),
        Some((escrow, _)) => vault_held_at(pre, escrow, maker, seed),
    }
}

/// Opens an offer: the maker deposits `amount` of `mint_a` into a new vault
/// and asks `receive` of `mint_b` for it. Either all of it happens or
/// nothing does.
pub fn make(ledger: &mut Ledger, accounts: &Make, seed: u64, receive: u64, amount: u64) -> (outcome:
    Result<(), EscrowError>)
    requires
        old(ledger).wf(),
    ensures
        final(ledger).wf(),
        match make_outcome(old(ledger)@, *accounts, seed, receive, amount) {
            Ok(next) => outcome is Ok && final(ledger)@ == next,
            Err(e) => outcome == Err::<(), EscrowError>(e) && final(ledger)@ == old(ledger)@,
        },
{
    let program = ledger.program();
    let (escrow, bump) = match locate_escrow(&program, &accounts.maker, seed) {
        Some(place) => place,
        None => {
            return Err(EscrowError::NotFound);
        },
    };
    if ledger.is_open(&escrow) {
        return Err(EscrowError::AlreadyExists);
    }
    let vault = match locate_vault(&program, &escrow) {
        Some(place) => place,
        None => {
            return Err(EscrowError::NotFound);
        },
    };
    let authority = match locate_authority(&program, &escrow) {
        Some(place) => place,
        None => {
            return Err(EscrowError::NotFound);
        },
    };
    ledger.make_at(&Places { escrow, bump, vault, authority }, accounts, seed, receive, amount)
}

/// Settles an offer: the taker pays the maker what the record asks and gets
/// the deposit. Either all of it happens or nothing does.
pub fn take(ledger: &mut Ledger, accounts: &Take) -> (outcome: Result<(), EscrowError>)
    requires
        old(ledger).wf(),
    ensures
        final(ledger).wf(),
        match take_outcome(old(ledger)@, *accounts) {
            Ok(next) => outcome is Ok && final(ledger)@ == next,
            Err(e) => outcome == Err::<(), EscrowError>(e) && final(ledger)@ == old(ledger)@,
        },
{
    let program = ledger.program();
    match locate_escrow(&program, &accounts.maker, accounts.seed) {
        Some((escrow, _)) => ledger.take_at(&escrow, accounts),
        None => Err(EscrowError::NotFound),
    }
}

/// Cancels an offer: the maker gets the deposit back. Either all of it
/// happens or nothing does.
pub fn refund(ledger: &mut Ledger, accounts: &Refund) -> (outcome: Result<(), EscrowError>)
    requires
        old(ledger).wf(),
    ensures
        final(ledger).wf(),
        match refund_outcome(old(ledger)@, *accounts) {
            Ok(next) => outcome is Ok && final(ledger)@ == next,
            Err(e) => outcome == Err::<(), EscrowError>(e) && final(ledger)@ == old(ledger)@,
        },
{
    let program = ledger.program();
    match locate_escrow(&program, &accounts.maker, accounts.seed) {
        Some((escrow, _)) => ledger.refund_at(&escrow, accounts),
        None => Err(EscrowError::NotFound),
    }
}

/// Reads the record that `maker` opened under `seed`.
pub fn read(ledger: &Ledger, maker: &Address, seed: u64) -> (outcome: Result<
    EscrowRecord,
    EscrowError,
>)
    requires
        ledger.wf(),
    ensures
        outcome == read_outcome(ledger@, *maker, seed),
{
    let program = ledger.program();
    match locate_escrow(&program, maker, seed) {
        Some((escrow, _)) => ledger.read_at(&escrow, maker, seed),
        None => Err(EscrowError::NotFound),
    }
}

/// Looks at the vault of the offer that `maker` opened under `seed`.
pub fn vault(ledger: &Ledger, maker: &Address, seed: u64) -> (outcome: Result<Vault, EscrowError>)
    requires
        ledger.wf(),
    ensures
        outcome == vault_outcome(ledger@, *maker, seed),
{
    let program = ledger.program();
    match locate_escrow(&program, maker, seed) {
        Some((escrow, _)) => ledger.vault_at(&escrow, maker, seed),
        None => Err(EscrowError::NotFound),
    }
}

} // verus!
