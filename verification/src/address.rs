use anchor_lang::prelude::Pubkey;
use vstd::prelude::*;

verus! {

/// A 32-byte account address. Its view is the sequence of its bytes.
#[derive(Clone, Copy, Debug, PartialEq, Eq)]
pub struct Address {
    pub bytes: [u8; 32],
}

impl View for Address {
    type V = Seq<u8>;

    open spec fn view(&self) -> Seq<u8> {
        self.bytes@
    }
}

impl Address {
    /// Two addresses with the same bytes are the same address.
    pub proof fn lemma_view_injective(a: Address, b: Address)
        requires
            a@ == b@,
        ensures
            a == b,
    {
        assert(a.bytes =~= b.bytes);
    }

    /// The address with the given bytes.
    pub fn new(bytes: [u8; 32]) -> (address: Address)
        ensures
            address.bytes == bytes,
    {
        Address { bytes }
    }

    /// Whether two addresses are the same, byte for byte.
    pub fn same(&self, other: &Address) -> (r: bool)
        ensures
            r == (*self == *other),
    {
        let mut i: usize = 0;
        while i < 32
            invariant
                i <= 32,
                forall|j: int| 0 <= j < i ==> self.bytes[j] == other.bytes[j],
            decreases 32 - i,
        {
            if self.bytes[i] != other.bytes[i] {
                return false;
            }
            i += 1;
        }
        proof {
            assert(self@ =~= other@);
            Self::lemma_view_injective(*self, *other);
        }
        true
    }

    /// The bytes of the address as a vector, as a seed is given.
    pub fn to_vec(&self) -> (v: Vec<u8>)
        ensures
            v@ == self@,
    {
        let mut v: Vec<u8> = Vec::new();
        let mut i: usize = 0;
        while i < 32
            invariant
                i <= 32,
                v@ == self@.take(i as int),
            decreases 32 - i,
        {
            v.push(self.bytes[i]);
            i += 1;
        }
        v
    }
}

/// The most seeds that an address can be derived from.
pub const MAX_SEEDS: usize = 15;

/// The most bytes that one seed can have.
pub const MAX_SEED_LEN: usize = 32;

/// Whether the seeds are too many, or one of them too long, for any address
/// to be derived from them.
pub open spec fn seeds_refused(seeds: Seq<Seq<u8>>) -> bool {
    seeds.len() > MAX_SEEDS || exists|i: int| 0 <= i < seeds.len() && seeds[i].len() > MAX_SEED_LEN
}

/// What `Pubkey::try_find_program_address` returns for a list of seeds and a
/// program: the bytes of the derived address with its bump seed, or `None`
/// where it finds no address.
pub uninterp spec fn program_address(seeds: Seq<Seq<u8>>, program: Seq<u8>) -> Option<(Seq<u8>, u8)>;

/// Calls `Pubkey::try_find_program_address` on the seeds and the program.
/// Not proved, and all that is claimed: the outcome depends on the seeds and
/// the program alone, so that the same seeds under the same program give the
/// same address and bump seed, or none, every time; and it is none where
/// there are more than 15 seeds or a seed has more than 32 bytes.
#[verifier::external_body]
fn find_program_address(seeds: &Vec<Vec<u8>>, program: &Address) -> (found: Option<(Address, u8)>)
    ensures
        match found {
            Some((address, bump)) => program_address(seeds.deep_view(), program@) == Some(
                (address@, bump),
            ),
            None => program_address(seeds.deep_view(), program@) is None,
        },
        seeds_refused(seeds.deep_view()) ==> found is None,
{
    let parts: Vec<&[u8]> = seeds.iter().map(|seed| seed.as_slice()).collect();
    match Pubkey::try_find_program_address(&parts, &Pubkey::new_from_array(program.bytes)) {
        Some((key, bump)) => Some((Address { bytes: key.to_bytes() }, bump)),
        None => None,
    }
}

/// The address that is derived from `seeds` under `program`, with its bump
/// seed, where there is one.
pub open spec fn located(seeds: Seq<Seq<u8>>, program: Address) -> Option<(Address, u8)> {
    match program_address(seeds, program@) {
        Some((bytes, bump)) => if exists|a: Address| a@ == bytes {
            Some((choose|a: Address| a@ == bytes, bump))
        } else {
            None
        },
        None => None,
    }
}

/// Derives the address that belongs to `seeds` under `program`, with its
/// bump seed.
pub fn locate(seeds: &Vec<Vec<u8>>, program: &Address) -> (place: Option<(Address, u8)>)
    ensures
        place == located(seeds.deep_view(), *program),
        seeds_refused(seeds.deep_view()) ==> place is None,
{
    let found = find_program_address(seeds, program);
    proof {
        if let Some((address, bump)) = found {
            let bytes = address@;
            assert(exists|a: Address| a@ == bytes) by {
                assert(address@ == bytes);
            }
            let chosen = choose|a: Address| a@ == bytes;
            Address::lemma_view_injective(chosen, address);
            assert(program_address(seeds.deep_view(), program@) == Some((bytes, bump)));
        }
    }
    found
}

} // verus!
