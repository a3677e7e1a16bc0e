//! Addresses and the derivation of program-controlled addresses.
//!
//! The address of an offer is derived from its maker and its id, the address
//! of a token account from its owner and its asset. The derivation itself is
//! the work of `Pubkey::create_program_address` and
//! `Pubkey::try_find_program_address`; what they return is taken on trust
//! and named, not computed here.

use anchor_lang::prelude::Pubkey;
use vstd::bytes::{spec_u64_to_le_bytes, u64_to_le_bytes};
use vstd::prelude::*;

verus! {

/// A 32-byte identity: a party, an asset, a program or an account.
#[derive(Clone, Copy, Debug, PartialEq, Eq)]
pub struct Address {
    pub bytes: [u8; 32],
}

impl View for Address {
    type V = Seq<u8>;

    open spec fn view(&self) -> Seq<u8> {
        self.bytes@
    }
}

impl Address {
    /// The address with the bytes `bytes`.
    pub fn new(bytes: [u8; 32]) -> (address: Address)
        ensures
            address.bytes == bytes,
    {
        Address { bytes }
    }

    /// Two addresses with the same bytes are the same address.
    pub proof fn lemma_view_injective(self, other: Address)
        ensures
            self@ == other@ <==> self == other,
    {
        if self@ == other@ {
            assert(self.bytes == other.bytes);
        }
    }

    /// Whether `self` and `other` are the same address.
    pub fn same_as(&self, other: &Address) -> (same: bool)
        ensures
            same == (*self == *other),
    {
        let mut i: usize = 0;
        while i < 32
            invariant
                i <= 32,
                forall|k: int| 0 <= k < i ==> self.bytes[k] == other.bytes[k],
            decreases 32 - i,
        {
            if self.bytes[i] != other.bytes[i] {
                return false;
            }
            i += 1;
        }
        proof {
            assert(self.bytes == other.bytes);
        }
        true
    }

    /// The address as a byte vector.
    pub fn to_vec(&self) -> (bytes: Vec<u8>)
        ensures
            bytes@ == self@,
    {
        let mut bytes: Vec<u8> = Vec::new();
        let mut i: usize = 0;
        while i < 32
            invariant
                i <= 32,
                bytes@.len() == i,
                forall|k: int| 0 <= k < i ==> bytes@[k] == self.bytes[k],
            decreases 32 - i,
        {
            bytes.push(self.bytes[i]);
            i += 1;
        }
        bytes
    }
}

/// What `Pubkey::create_program_address` derives from `seeds` for the
/// program `program_id`: the bytes of the address, or `None` where it
/// reports an error.
pub uninterp spec fn program_address(seeds: Seq<Seq<u8>>, program_id: Seq<u8>) -> Option<Seq<u8>>;

/// What `Pubkey::try_find_program_address` finds for `seeds` and the program
/// `program_id`: the bytes of an address and the bump seed that derives it,
/// or `None`.
pub uninterp spec fn found_program_address(seeds: Seq<Seq<u8>>, program_id: Seq<u8>) -> Option<
    (Seq<u8>, u8),
>;

/// Calls `anchor_lang::prelude::Pubkey::create_program_address` with the
/// seeds as slices and the program's bytes as its key. The contract gives
/// the result the name `program_address`: the bytes of the derived key where
/// the call returns `Ok`, `None` where it returns an error. Nothing else is
/// claimed of it.
#[verifier::external_body]
fn create_program_address(seeds: &Vec<Vec<u8>>, program_id: &Address) -> (derived: Option<Address>)
    ensures
        match derived {
            Some(address) => program_address(seeds.deep_view(), program_id@) == Some(address@),
            None => program_address(seeds.deep_view(), program_id@) is None,
        },
{
    let parts: Vec<&[u8]> = seeds.iter().map(|seed| seed.as_slice()).collect();
    match Pubkey::create_program_address(&parts, &Pubkey::new_from_array(program_id.bytes)) {
        Ok(key) => Some(Address { bytes: key.to_bytes() }),
        Err(_) => None,
    }
}

/// Calls `anchor_lang::prelude::Pubkey::try_find_program_address` with the
/// seeds as slices and the program's bytes as its key. The contract gives
/// the result the name `found_program_address`, and claims one thing more,
/// which the function's source shows: the key it returns is the one that
/// `Pubkey::create_program_address` derives from the same seeds followed by
/// the one-byte seed that holds the returned bump.
#[verifier::external_body]
fn try_find_program_address(seeds: &Vec<Vec<u8>>, program_id: &Address) -> (found: Option<
    (Address, u8),
>)
    ensures
        match found {
            Some((address, bump)) => {
                &&& found_program_address(seeds.deep_view(), program_id@) == Some((address@, bump))
                &&& program_address(seeds.deep_view().push(seq![bump]), program_id@) == Some(
                    address@,
                )
            },
            None => found_program_address(seeds.deep_view(), program_id@) is None,
        },
{
    let parts: Vec<&[u8]> = seeds.iter().map(|seed| seed.as_slice()).collect();
    match Pubkey::try_find_program_address(&parts, &Pubkey::new_from_array(program_id.bytes)) {
        Some((key, bump)) => Some((Address { bytes: key.to_bytes() }, bump)),
        None => None,
    }
}

/// Whether `derived` is the address `named`.
pub fn is_named(derived: &Option<Address>, named: &Address) -> (named_so: bool)
    ensures
        named_so == (*derived == Some(*named)),
{
    match derived {
        Some(address) => address.same_as(named),
        None => false,
    }
}

/// The tag that starts the seeds of every offer: the bytes of `offer`.
pub open spec fn offer_tag() -> Seq<u8> {
    seq![111u8, 102u8, 102u8, 101u8, 114u8]
}

/// The seeds that identify the offer `id` of `maker`, without a bump.
pub open spec fn offer_seed_prefix(maker: Seq<u8>, id: u64) -> Seq<Seq<u8>> {
    seq![offer_tag(), maker, spec_u64_to_le_bytes(id)]
}

/// The seeds from which the address of the offer `id` of `maker` is derived
/// with the bump seed `bump`.
pub open spec fn offer_seeds(maker: Seq<u8>, id: u64, bump: u8) -> Seq<Seq<u8>> {
    offer_seed_prefix(maker, id).push(seq![bump])
}

/// The seeds that identify the offer `id` of `maker`, without a bump.
fn offer_seed_parts(maker: &Address, id: u64) -> (seeds: Vec<Vec<u8>>)
    ensures
        seeds.deep_view() == offer_seed_prefix(maker@, id),
{
    let tag: Vec<u8> = vec![111u8, 102u8, 102u8, 101u8, 114u8];
    let mut seeds: Vec<Vec<u8>> = Vec::new();
    seeds.push(tag);
    seeds.push(maker.to_vec());
    seeds.push(u64_to_le_bytes(id));
    proof {
        let target = offer_seed_prefix(maker@, id);
        assert(seeds.deep_view()[0] =~= target[0]);
        assert(seeds.deep_view()[1] =~= target[1]);
        assert(seeds.deep_view()[2] =~= target[2]);
    }
    seeds
}

/// The seeds with which the offer `id` of `maker` signs for its vault.
pub fn offer_signer_seeds(maker: &Address, id: u64, bump: u8) -> (seeds: Vec<Vec<u8>>)
    ensures
        seeds.deep_view() == offer_seeds(maker@, id, bump),
{
    let mut seeds = offer_seed_parts(maker, id);
    let ghost before = seeds.deep_view();
    assert(before.len() == seeds@.len());
    let last: Vec<u8> = vec![bump];
    seeds.push(last);
    proof {
        let target = offer_seeds(maker@, id, bump);
        assert forall|i: int| 0 <= i < 4 implies seeds.deep_view()[i] == target[i] by {
            if i < 3 {
                assert(seeds.deep_view()[i] == before[i]);
            } else {
                assert(seeds.deep_view()[3] =~= seq![bump]);
            }
        }
    }
    seeds
}

/// The bytes of the address of the program that owns every associated token
/// account.
pub open spec fn associated_token_program_id() -> Seq<u8> {
    seq![
        140u8, 151u8, 37u8, 143u8, 78u8, 36u8, 137u8, 241u8,
        187u8, 61u8, 16u8, 41u8, 20u8, 142u8, 13u8, 131u8,
        11u8, 90u8, 19u8, 153u8, 218u8, 255u8, 16u8, 132u8,
        4u8, 142u8, 123u8, 216u8, 219u8, 233u8, 248u8, 89u8,
    ]
}

/// The address of the program that owns every associated token account.
pub fn associated_token_program() -> (program: Address)
    ensures
        program@ == associated_token_program_id(),
{
    let program = Address {
        bytes: [
            140u8, 151u8, 37u8, 143u8, 78u8, 36u8, 137u8, 241u8,
            187u8, 61u8, 16u8, 41u8, 20u8, 142u8, 13u8, 131u8,
            11u8, 90u8, 19u8, 153u8, 218u8, 255u8, 16u8, 132u8,
            4u8, 142u8, 123u8, 216u8, 219u8, 233u8, 248u8, 89u8,
        ],
    };
    program
}

/// The address whose bytes are `bytes`.
pub open spec fn address_with(bytes: Seq<u8>) -> Address {
    choose|address: Address| address@ == bytes
}

/// An address is the address with its bytes.
pub proof fn lemma_address_with(address: Address)
    ensures
        address_with(address@) == address,
{
    let chosen = address_with(address@);
    chosen.lemma_view_injective(address);
}

/// The address of the offer `id` of `maker` under the bump seed `bump`, as
/// the program `program_id` derives it; `None` where the seeds derive none.
pub open spec fn offer_address_of(program_id: Address, maker: Address, id: u64, bump: u8) -> Option<
    Address,
> {
    match program_address(offer_seeds(maker@, id, bump), program_id@) {
        Some(bytes) => Some(address_with(bytes)),
        None => None,
    }
}

/// The address of the offer `id` of `maker` and its bump seed, as the program
/// `program_id` finds them; `None` where no bump seed derives an address.
pub open spec fn offer_address_found(program_id: Address, maker: Address, id: u64) -> Option<
    (Address, u8),
> {
    match found_program_address(offer_seed_prefix(maker@, id), program_id@) {
        Some((bytes, bump)) => Some((address_with(bytes), bump)),
        None => None,
    }
}

/// The address of the token account that holds `mint` for `owner` under the
/// token program `token_program`; `None` where none can be derived.
pub open spec fn associated_address_of(owner: Address, mint: Address, token_program: Address) -> Option<
    Address,
> {
    match found_program_address(
        seq![owner@, token_program@, mint@],
        associated_token_program_id(),
    ) {
        Some((bytes, _)) => Some(address_with(bytes)),
        None => None,
    }
}

/// Derives the address of the offer `id` of `maker` under the bump seed
/// `bump`.
pub fn offer_address(program_id: &Address, maker: &Address, id: u64, bump: u8) -> (derived: Option<
    Address,
>)
    ensures
        derived == offer_address_of(*program_id, *maker, id, bump),
{
    let seeds = offer_signer_seeds(maker, id, bump);
    let derived = create_program_address(&seeds, program_id);
    proof {
        if let Some(address) = derived {
            lemma_address_with(address);
        }
    }
    derived
}

/// Finds the address of the offer `id` of `maker` and the bump seed that
/// derives it. The address found is the one that the bump seed found
/// derives.
pub fn find_offer_address(program_id: &Address, maker: &Address, id: u64) -> (found: Option<
    (Address, u8),
>)
    ensures
        found == offer_address_found(*program_id, *maker, id),
        match found {
            Some((address, bump)) => offer_address_of(*program_id, *maker, id, bump) == Some(
                address,
            ),
            None => true,
        },
{
    let seeds = offer_seed_parts(maker, id);
    let found = try_find_program_address(&seeds, program_id);
    proof {
        if let Some((address, _)) = found {
            lemma_address_with(address);
        }
    }
    found
}

/// Derives the address of the token account that holds `mint` for `owner`:
/// the one found under the associated token program for the owner, the token
/// program and the mint as seeds.
pub fn associated_token_address(owner: &Address, mint: &Address, token_program: &Address) -> (derived:
    Option<Address>)
    ensures
        derived == associated_address_of(*owner, *mint, *token_program),
{
    let mut seeds: Vec<Vec<u8>> = Vec::new();
    seeds.push(owner.to_vec());
    seeds.push(token_program.to_vec());
    seeds.push(mint.to_vec());
    proof {
        let target = seq![owner@, token_program@, mint@];
        assert(seeds.deep_view()[0] =~= target[0]);
        assert(seeds.deep_view()[1] =~= target[1]);
        assert(seeds.deep_view()[2] =~= target[2]);
        assert(seeds.deep_view() =~= target);
    }
    let program = associated_token_program();
    match try_find_program_address(&seeds, &program) {
        Some((address, _)) => {
            proof {
                lemma_address_with(address);
            }
            Some(address)
        },
        None => None,
    }
}

} // verus!
