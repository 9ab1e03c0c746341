use crate::address::Address;
use crate::state::{Asset, Offer};
use crate::tally::{lemma_total_push, lemma_total_remove, total};
use vstd::prelude::*;

verus! {

/// Whether position `i` holds the offer whose record lives at `address`.
pub(crate) open spec fn offer_at(s: Seq<Offer>, i: int, address: Address) -> bool {
    0 <= i < s.len() && s[i].address == address
}

/// No address holds two offers.
pub(crate) open spec fn offers_distinct(s: Seq<Offer>) -> bool {
    forall|i: int, j: int|
        #![trigger s[i], s[j]]
        0 <= i < s.len() && 0 <= j < s.len() && i != j ==> s[i].address != s[j].address
}

/// What each offer holds of `asset`.
pub(crate) open spec fn offer_weights(s: Seq<Offer>, asset: Asset) -> Seq<nat> {
    s.map_values(|o: Offer| o.stake(asset))
}

/// The open offers, by the address of their record.
pub(crate) open spec fn offers_of(s: Seq<Offer>) -> Map<Address, Offer> {
    Map::new(
        |a: Address| exists|i: int| offer_at(s, i, a),
        |a: Address| s[choose|i: int| offer_at(s, i, a)],
    )
}

/// An address leads to the one position that holds its offer.
pub(crate) proof fn lemma_offer_at(s: Seq<Offer>, i: int)
    requires
        offers_distinct(s),
        0 <= i < s.len(),
    ensures
        (choose|k: int| offer_at(s, k, s[i].address)) == i,
{
    assert(offer_at(s, i, s[i].address));
}

/// An offer at a free address is added under that address, touches no other
/// offer, and adds what it holds to the supplies.
pub(crate) proof fn lemma_offer_push(s: Seq<Offer>, o: Offer)
    requires
        offers_distinct(s),
        forall|i: int| !offer_at(s, i, o.address),
    ensures
        offers_distinct(s.push(o)),
        offers_of(s.push(o)) == offers_of(s).insert(o.address, o),
        forall|a: Asset| #[trigger]
            total(offer_weights(s.push(o), a)) == total(offer_weights(s, a)) + o.stake(a),
{
    let t = s.push(o);
    assert(offers_distinct(t)) by {
        assert forall|i: int, j: int|
            0 <= i < t.len() && 0 <= j < t.len() && i != j implies t[i].address
            != t[j].address by {
            if i == s.len() {
                assert(!offer_at(s, j, o.address));
            } else if j == s.len() {
                assert(!offer_at(s, i, o.address));
            }
        }
    }
    let u = offers_of(s).insert(o.address, o);
    assert forall|a: Address|
        #![trigger offers_of(t).dom().contains(a)]
        #![trigger offers_of(t)[a]]
        offers_of(t).dom().contains(a) == u.dom().contains(a) && (offers_of(t).dom().contains(a)
            ==> offers_of(t)[a] == u[a]) by {
        if a == o.address {
            assert(offer_at(t, s.len() as int, a));
            lemma_offer_at(t, s.len() as int);
        } else if exists|j: int| offer_at(s, j, a) {
            let j = choose|j: int| offer_at(s, j, a);
            assert(offer_at(t, j, a));
            lemma_offer_at(s, j);
            lemma_offer_at(t, j);
        } else {
            assert forall|j: int| !offer_at(t, j, a) by {
                if offer_at(t, j, a) {
                    assert(offer_at(s, j, a));
                }
            }
        }
    }
    assert(offers_of(t) =~= offers_of(s).insert(o.address, o));
    assert forall|a: Asset| #[trigger]
        total(offer_weights(t, a)) == total(offer_weights(s, a)) + o.stake(a) by {
        assert(offer_weights(t, a) =~= offer_weights(s, a).push(o.stake(a)));
        lemma_total_push(offer_weights(s, a), o.stake(a));
    }
}

/// Taking an offer out frees its address, touches no other offer, and takes
/// what it held off the supplies.
pub(crate) proof fn lemma_offer_remove(s: Seq<Offer>, i: int)
    requires
        offers_distinct(s),
        0 <= i < s.len(),
    ensures
        offers_distinct(s.remove(i)),
        offers_of(s.remove(i)) == offers_of(s).remove(s[i].address),
        forall|a: Asset| #[trigger]
            total(offer_weights(s.remove(i), a)) + s[i].stake(a) == total(offer_weights(s, a)),
{
    let t = s.remove(i);
    assert forall|j: int| 0 <= j < t.len() implies #[trigger] t[j] == s[if j < i {
        j
    } else {
        j + 1
    }] by {}
    assert(offers_distinct(t));
    let u = offers_of(s).remove(s[i].address);
    assert forall|a: Address|
        #![trigger offers_of(t).dom().contains(a)]
        #![trigger offers_of(t)[a]]
        offers_of(t).dom().contains(a) == u.dom().contains(a) && (offers_of(t).dom().contains(a)
            ==> offers_of(t)[a] == u[a]) by {
        if exists|j: int| offer_at(t, j, a) {
            let j = choose|j: int| offer_at(t, j, a);
            let k = if j < i {
                j
            } else {
                j + 1
            };
            assert(offer_at(s, k, a));
            lemma_offer_at(s, k);
            lemma_offer_at(t, j);
        } else if exists|k: int| offer_at(s, k, a) {
            let k = choose|k: int| offer_at(s, k, a);
            if k != i {
                let j = if k < i {
                    k
                } else {
                    k - 1
                };
                assert(offer_at(t, j, a));
            }
        }
    }
    assert(offers_of(t) =~= offers_of(s).remove(s[i].address));
    assert forall|a: Asset| #[trigger]
        total(offer_weights(t, a)) + s[i].stake(a) == total(offer_weights(s, a)) by {
        assert(offer_weights(t, a) =~= offer_weights(s, a).remove(i));
        lemma_total_remove(offer_weights(s, a), i);
    }
}

} // verus!
