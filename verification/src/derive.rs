use crate::address::{locate, located, Address};
use vstd::bytes::spec_u64_to_le_bytes;
use vstd::bytes::u64_to_le_bytes;
use vstd::prelude::*;

verus! {

/// First seed of an escrow record's address: the text `escrow`.
pub const ESCROW_TAG: [u8; 6] = [101, 115, 99, 114, 111, 119];

/// First seed of a vault's address: the text `vault`.
pub const VAULT_TAG: [u8; 5] = [118, 97, 117, 108, 116];

/// First seed of a vault authority's address: the text `auth`.
pub const AUTHORITY_TAG: [u8; 4] = [97, 117, 116, 104];

/// The seeds of the record that `maker` opens under `seed`: the tag, the
/// maker's address, the seed in little-endian bytes.
pub open spec fn escrow_seeds(maker: Address, seed: u64) -> Seq<Seq<u8>> {
    seq![ESCROW_TAG@, maker@, spec_u64_to_le_bytes(seed)]
}

/// The seeds of the vault that belongs to the record at `escrow`.
pub open spec fn vault_seeds(escrow: Address) -> Seq<Seq<u8>> {
    seq![VAULT_TAG@, escrow@]
}

/// The seeds of the authority over the vault of the record at `escrow`.
pub open spec fn authority_seeds(escrow: Address) -> Seq<Seq<u8>> {
    seq![AUTHORITY_TAG@, escrow@]
}

/// Where the record of `(maker, seed)` lives under `program`, with the bump
/// seed of that address.
pub open spec fn escrow_place(program: Address, maker: Address, seed: u64) -> Option<(Address, u8)> {
    located(escrow_seeds(maker, seed), program)
}

/// Where the vault of the record at `escrow` lives.
pub open spec fn vault_place(program: Address, escrow: Address) -> Option<Address> {
    match located(vault_seeds(escrow), program) {
        Some((address, _)) => Some(address),
        None => None,
    }
}

/// The authority that owns the vault of the record at `escrow`.
pub open spec fn authority_place(program: Address, escrow: Address) -> Option<Address> {
    match located(authority_seeds(escrow), program) {
        Some((address, _)) => Some(address),
        None => None,
    }
}

/// The bytes of a tag as a vector, as a seed is given.
fn tag_bytes<const N: usize>(tag: &[u8; N]) -> (v: Vec<u8>)
    ensures
        v@ == tag@,
{
    let mut v: Vec<u8> = Vec::new();
    let mut i: usize = 0;
    while i < N
        invariant
            i <= N,
            v@ == tag@.take(i as int),
        decreases N - i,
    {
        v.push(tag[i]);
        i += 1;
    }
    v
}

/// Derives the address of the record of `(maker, seed)`.
pub fn locate_escrow(program: &Address, maker: &Address, seed: u64) -> (place: Option<(Address, u8)>)
    ensures
        place == escrow_place(*program, *maker, seed),
{
    let mut seeds: Vec<Vec<u8>> = Vec::new();
    seeds.push(tag_bytes(&ESCROW_TAG));
    seeds.push(maker.to_vec());
    seeds.push(u64_to_le_bytes(seed));
    assert(seeds.deep_view() =~~= escrow_seeds(*maker, seed));
    locate(&seeds, program)
}

/// Derives the address of the vault of the record at `escrow`.
pub fn locate_vault(program: &Address, escrow: &Address) -> (place: Option<Address>)
    ensures
        place == vault_place(*program, *escrow),
{
    let mut seeds: Vec<Vec<u8>> = Vec::new();
    seeds.push(tag_bytes(&VAULT_TAG));
    seeds.push(escrow.to_vec());
    assert(seeds.deep_view() =~~= vault_seeds(*escrow));
    match locate(&seeds, program) {
        Some((address, _)) => Some(address),
        None => None,
    }
}

/// Derives the authority over the vault of the record at `escrow`.
pub fn locate_authority(program: &Address, escrow: &Address) -> (place: Option<Address>)
    ensures
        place == authority_place(*program, *escrow),
{
    let mut seeds: Vec<Vec<u8>> = Vec::new();
    seeds.push(tag_bytes(&AUTHORITY_TAG));
    seeds.push(escrow.to_vec());
    assert(seeds.deep_view() =~~= authority_seeds(*escrow));
    match locate(&seeds, program) {
        Some((address, _)) => Some(address),
        None => None,
    }
}

} // verus!
