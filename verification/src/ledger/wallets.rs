use crate::address::Address;
use crate::state::Asset;
use crate::tally::{lemma_total_push, lemma_total_update, total};
use vstd::prelude::*;

verus! {

/// One owner's holding of one asset.
#[derive(Clone, Copy, Debug, PartialEq, Eq)]
pub(crate) struct Wallet {
    pub(crate) asset: Asset,
    pub(crate) owner: Address,
    pub(crate) amount: u64,
}

/// Whether position `i` holds the wallet of `owner` in `asset`.
pub(crate) open spec fn wallet_at(s: Seq<Wallet>, i: int, asset: Asset, owner: Address) -> bool {
    0 <= i < s.len() && s[i].asset == asset && s[i].owner == owner
}

/// No owner has two wallets of one asset.
pub(crate) open spec fn wallets_distinct(s: Seq<Wallet>) -> bool {
    forall|i: int, j: int|
        #![trigger s[i], s[j]]
        0 <= i < s.len() && 0 <= j < s.len() && i != j ==> !(s[i].asset == s[j].asset
            && s[i].owner == s[j].owner)
}

/// What `owner` holds of `asset`: the amount in the wallet, nothing where
/// there is no wallet.
pub(crate) open spec fn holding(s: Seq<Wallet>, asset: Asset, owner: Address) -> nat {
    if exists|i: int| wallet_at(s, i, asset, owner) {
        s[choose|i: int| wallet_at(s, i, asset, owner)].amount as nat
    } else {
        0
    }
}

/// What a wallet adds to the supply of `asset`.
pub(crate) open spec fn weight(w: Wallet, asset: Asset) -> nat {
    if w.asset == asset {
        w.amount as nat
    } else {
        0
    }
}

/// What each wallet adds to the supply of `asset`.
pub(crate) open spec fn wallet_weights(s: Seq<Wallet>, asset: Asset) -> Seq<nat> {
    s.map_values(|w: Wallet| weight(w, asset))
}

/// The balance of every owner in every asset.
pub(crate) open spec fn balances_of(s: Seq<Wallet>) -> Map<(Asset, Address), nat> {
    Map::new(|k: (Asset, Address)| true, |k: (Asset, Address)| holding(s, k.0, k.1))
}

/// What an owner holds of an asset is what the wallet at its position says.
pub(crate) proof fn lemma_holding_at(s: Seq<Wallet>, i: int)
    requires
        wallets_distinct(s),
        0 <= i < s.len(),
    ensures
        holding(s, s[i].asset, s[i].owner) == s[i].amount,
{
    assert(wallet_at(s, i, s[i].asset, s[i].owner));
}

/// A new amount in one wallet changes that balance and no other, and the
/// supply of the wallet's asset by the difference.
pub(crate) proof fn lemma_wallet_update(s: Seq<Wallet>, i: int, amount: u64)
    requires
        wallets_distinct(s),
        0 <= i < s.len(),
    ensures
        ({
            let t = s.update(i, Wallet { amount, ..s[i] });
            &&& wallets_distinct(t)
            &&& balances_of(t) == balances_of(s).insert((s[i].asset, s[i].owner), amount as nat)
            &&& forall|a: Asset| #[trigger]
                total(wallet_weights(t, a)) + weight(s[i], a) == total(wallet_weights(s, a))
                    + weight(t[i], a)
        }),
{
    let t = s.update(i, Wallet { amount, ..s[i] });
    assert forall|k: (Asset, Address)| #[trigger]
        balances_of(t)[k] == balances_of(s).insert((s[i].asset, s[i].owner), amount as nat)[k] by {
        if k == (s[i].asset, s[i].owner) {
            lemma_holding_at(t, i);
        } else if exists|j: int| wallet_at(s, j, k.0, k.1) {
            let j = choose|j: int| wallet_at(s, j, k.0, k.1);
            assert(wallet_at(t, j, k.0, k.1));
            lemma_holding_at(s, j);
            lemma_holding_at(t, j);
        } else {
            assert forall|j: int| !wallet_at(t, j, k.0, k.1) by {
                if wallet_at(t, j, k.0, k.1) {
                    assert(wallet_at(s, j, k.0, k.1));
                }
            }
        }
    }
    assert(balances_of(t) =~= balances_of(s).insert((s[i].asset, s[i].owner), amount as nat));
    assert forall|a: Asset| #[trigger]
        total(wallet_weights(t, a)) + weight(s[i], a) == total(wallet_weights(s, a)) + weight(
            t[i],
            a,
        ) by {
        assert(wallet_weights(t, a) =~= wallet_weights(s, a).update(i, weight(t[i], a)));
        lemma_total_update(wallet_weights(s, a), i, weight(t[i], a));
    }
}

/// A first wallet for an owner and an asset sets that balance and no other,
/// and adds its amount to the supply of its asset.
pub(crate) proof fn lemma_wallet_push(s: Seq<Wallet>, w: Wallet)
    requires
        wallets_distinct(s),
        forall|i: int| !wallet_at(s, i, w.asset, w.owner),
    ensures
        wallets_distinct(s.push(w)),
        balances_of(s.push(w)) == balances_of(s).insert((w.asset, w.owner), w.amount as nat),
        holding(s, w.asset, w.owner) == 0,
        forall|a: Asset| #[trigger]
            total(wallet_weights(s.push(w), a)) == total(wallet_weights(s, a)) + weight(w, a),
{
    let t = s.push(w);
    assert(wallets_distinct(t)) by {
        assert forall|i: int, j: int|
            0 <= i < t.len() && 0 <= j < t.len() && i != j implies !(t[i].asset == t[j].asset
            && t[i].owner == t[j].owner) by {
            if i == s.len() {
                assert(!wallet_at(s, j, w.asset, w.owner));
            } else if j == s.len() {
                assert(!wallet_at(s, i, w.asset, w.owner));
            }
        }
    }
    assert forall|k: (Asset, Address)| #[trigger]
        balances_of(t)[k] == balances_of(s).insert((w.asset, w.owner), w.amount as nat)[k] by {
        if k == (w.asset, w.owner) {
            lemma_holding_at(t, s.len() as int);
        } else if exists|j: int| wallet_at(s, j, k.0, k.1) {
            let j = choose|j: int| wallet_at(s, j, k.0, k.1);
            assert(wallet_at(t, j, k.0, k.1));
            lemma_holding_at(s, j);
            lemma_holding_at(t, j);
        } else {
            assert forall|j: int| !wallet_at(t, j, k.0, k.1) by {
                if wallet_at(t, j, k.0, k.1) {
                    assert(wallet_at(s, j, k.0, k.1));
                }
            }
        }
    }
    assert(balances_of(t) =~= balances_of(s).insert((w.asset, w.owner), w.amount as nat));
    assert forall|a: Asset| #[trigger]
        total(wallet_weights(t, a)) == total(wallet_weights(s, a)) + weight(w, a) by {
        assert(wallet_weights(t, a) =~= wallet_weights(s, a).push(weight(w, a)));
        lemma_total_push(wallet_weights(s, a), weight(w, a));
    }
}

} // verus!
