use crate::derive::escrow_place;
use crate::error::EscrowError;
use crate::instructions::{
    make_outcome, places_at, read_outcome, refund_outcome, take_outcome, vault_outcome,
};
use crate::rules::offer_of;
use crate::state::{Asset, EscrowRecord, Make, Refund, Take};
use crate::view::LedgerView;
use vstd::prelude::*;

verus! {

/// A `make` succeeds where the maker holds the deposit and the rent, the
/// deposit is not zero, the pair has its addresses and the record's address
/// is free. A `read` right after it gives a record with the seed, the maker,
/// the two mints and the asked amount of the `make` and with the bump seed of
/// the record's address, and the vault holds the deposit in `mint_a`. No other
/// offer is touched, and nothing came into being or ceased to be.
pub proof fn law_make_then_read(
    pre: LedgerView,
    accounts: Make,
    seed: u64,
    receive: u64,
    amount: u64,
)
    requires
        escrow_place(pre.program, accounts.maker, seed) matches Some((escrow, bump))
            && !pre.offers.contains_key(escrow) && places_at(pre.program, escrow, bump) is Some,
        amount > 0,
        pre.balance(Asset::Token(accounts.mint_a), accounts.maker) >= amount,
        pre.balance(Asset::Native, accounts.maker) >= pre.rent.record + pre.rent.vault,
    ensures
        ({
            let (escrow, bump) = escrow_place(pre.program, accounts.maker, seed)->Some_0;
            &&& make_outcome(pre, accounts, seed, receive, amount) matches Ok(post) && read_outcome(
                post,
                accounts.maker,
                seed,
            ) == Ok::<EscrowRecord, EscrowError>(
                EscrowRecord {
                    seed,
                    maker: accounts.maker,
                    mint_a: accounts.mint_a,
                    mint_b: accounts.mint_b,
                    receive_amount: receive,
                    bump,
                },
            ) && (vault_outcome(post, accounts.maker, seed) matches Ok(vault) && vault.amount
                == amount && vault.mint == accounts.mint_a) && post.offers.remove(escrow)
                =~= pre.offers && post.supply == pre.supply
        }),
{
}

/// A `make` for a pair whose record's address holds an open offer fails with
/// `AlreadyExists`, whatever else it is given.
pub proof fn law_make_twice(pre: LedgerView, accounts: Make, seed: u64, receive: u64, amount: u64)
    requires
        escrow_place(pre.program, accounts.maker, seed) matches Some((escrow, _))
            && pre.offers.contains_key(escrow),
    ensures
        make_outcome(pre, accounts, seed, receive, amount) == Err::<LedgerView, EscrowError>(
            EscrowError::AlreadyExists,
        ),
{
}

/// A `take` of an open offer by a taker who holds less of `mint_b` than the
/// record asks fails with `InsufficientFunds`, whatever else it is given.
pub proof fn law_take_unfunded(pre: LedgerView, accounts: Take)
    requires
        escrow_place(pre.program, accounts.maker, accounts.seed) matches Some((escrow, _))
            && (offer_of(pre, escrow, accounts.maker, accounts.seed) matches Some(offer)
            && pre.balance(Asset::Token(offer.record.mint_b), accounts.taker)
            < offer.record.receive_amount),
    ensures
        take_outcome(pre, accounts) == Err::<LedgerView, EscrowError>(
            EscrowError::InsufficientFunds,
        ),
{
}

/// After a `take` that succeeded the offer is gone, with its record and its
/// vault, no other offer is touched, and nothing came into being or ceased to
/// be. The maker holds more of `mint_b` by what the record asked, and the
/// taker holds more of `mint_a` by all that the vault held. The first fails
/// only where maker and taker are one and what was paid came back to the
/// payer, the second only where the two mints are one and the taker paid out
/// of the same balance.
pub proof fn law_take_settles(pre: LedgerView, accounts: Take)
    requires
        take_outcome(pre, accounts) is Ok,
    ensures
        ({
            let post = take_outcome(pre, accounts)->Ok_0;
            let escrow = escrow_place(pre.program, accounts.maker, accounts.seed)->Some_0.0;
            let offer = pre.offers[escrow];
            let asked = offer.record.receive_amount;
            let held = offer.vault.amount;
            let came_back = if accounts.mint_a == accounts.mint_b {
                held
            } else {
                0
            };
            &&& offer_of(pre, escrow, accounts.maker, accounts.seed) == Some(offer)
            &&& post.offers =~= pre.offers.remove(escrow)
            &&& read_outcome(post, accounts.maker, accounts.seed) is Err
            &&& vault_outcome(post, accounts.maker, accounts.seed) is Err
            &&& post.supply == pre.supply
            &&& accounts.maker != accounts.taker || asked == came_back ==> post.balance(
                Asset::Token(accounts.mint_b),
                accounts.maker,
            ) == pre.balance(Asset::Token(accounts.mint_b), accounts.maker) + asked
            &&& accounts.mint_a != accounts.mint_b || accounts.maker == accounts.taker || asked
                == 0 ==> post.balance(Asset::Token(accounts.mint_a), accounts.taker)
                == pre.balance(Asset::Token(accounts.mint_a), accounts.taker) + held
        }),
{
}

/// A `refund` of an open offer that another than its maker signs fails with
/// `Unauthorized`.
pub proof fn law_refund_by_another(pre: LedgerView, accounts: Refund)
    requires
        escrow_place(pre.program, accounts.maker, accounts.seed) matches Some((escrow, _))
            && offer_of(pre, escrow, accounts.maker, accounts.seed) is Some,
        accounts.signer != accounts.maker,
    ensures
        refund_outcome(pre, accounts) == Err::<LedgerView, EscrowError>(
            EscrowError::Unauthorized,
        ),
{
}

/// A `refund` of an open offer that its maker signs succeeds. The maker then
/// holds more of `mint_a` by all that the vault held and more of the native
/// coin by both rents, the offer is gone, with its record and its vault, no
/// other offer is touched, and nothing came into being or ceased to be.
pub proof fn law_refund_by_maker(pre: LedgerView, accounts: Refund)
    requires
        escrow_place(pre.program, accounts.maker, accounts.seed) matches Some((escrow, _))
            && offer_of(pre, escrow, accounts.maker, accounts.seed) is Some,
        accounts.signer == accounts.maker,
    ensures
        ({
            let escrow = escrow_place(pre.program, accounts.maker, accounts.seed)->Some_0.0;
            let offer = pre.offers[escrow];
            let mint_a = offer.record.mint_a;
            &&& refund_outcome(pre, accounts) matches Ok(post) && post.balance(
                Asset::Token(mint_a),
                accounts.maker,
            ) == pre.balance(Asset::Token(mint_a), accounts.maker) + offer.vault.amount
                && post.balance(Asset::Native, accounts.maker) == pre.balance(
                Asset::Native,
                accounts.maker,
            ) + offer.vault.rent + offer.rent && post.offers =~= pre.offers.remove(escrow)
                && read_outcome(post, accounts.maker, accounts.seed) is Err && vault_outcome(
                post,
                accounts.maker,
                accounts.seed,
            ) is Err && post.supply == pre.supply
        }),
{
}

} // verus!
