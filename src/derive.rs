use vstd::prelude::*;
use crate::address::Address;
use crate::error::EscrowError;
use anchor_lang::prelude::Pubkey;
use anchor_lang::solana_program::pubkey::PubkeyError;

verus! {

#[verifier::external_type_specification]
#[verifier::external_body]
pub struct ExPubkeyError(PubkeyError);

/// The address that `Pubkey::create_program_address` derives from a seed list
/// and a program id, or `None` where it refuses them.
pub uninterp spec fn program_address(seeds: Seq<Seq<u8>>, program: Seq<u8>) -> Option<Seq<u8>>;

/// The address and bump that `Pubkey::try_find_program_address` settles on for
/// a seed list and a program id, or `None` where every bump fails.
pub uninterp spec fn bump_search(seeds: Seq<Seq<u8>>, program: Seq<u8>) -> Option<(Seq<u8>, u8)>;

/// The byte strings of a seed list.
pub open spec fn seeds_view(seeds: Seq<Vec<u8>>) -> Seq<Seq<u8>> {
    seeds.map_values(|s: Vec<u8>| s@)
}

/// Relies on solana_program's `Pubkey::create_program_address`: hashes the seeds
/// and the program id into an address off the curve, or fails.
#[verifier::external_body]
fn create_program_address(seeds: &Vec<Vec<u8>>, program: &Address) -> (r: Result<Address, PubkeyError>)
    ensures
        r is Ok <==> program_address(seeds_view(seeds@), program@) is Some,
        r is Ok ==> program_address(seeds_view(seeds@), program@) == Some(r->Ok_0@),
{
    let parts: Vec<&[u8]> = seeds.iter().map(|s| s.as_slice()).collect();
    match Pubkey::create_program_address(&parts, &Pubkey::new_from_array(program.bytes)) {
        Ok(key) => Ok(Address { bytes: key.to_bytes() }),
        Err(e) => Err(e),
    }
}

/// Relies on solana_program's `Pubkey::try_find_program_address`: tries bumps
/// from 255 downwards and returns the first address that
/// `create_program_address` accepts for the seeds followed by that bump.
#[verifier::external_body]
fn try_find_program_address(seeds: &Vec<Vec<u8>>, program: &Address) -> (r: Option<(Address, u8)>)
    ensures
        r is None <==> bump_search(seeds_view(seeds@), program@) is None,
        r is Some ==> bump_search(seeds_view(seeds@), program@) == Some(((r->0).0@, (r->0).1)),
        r is Some ==> program_address(seeds_view(seeds@).push(seq![(r->0).1]), program@) == Some(
            (r->0).0@,
        ),
{
    let parts: Vec<&[u8]> = seeds.iter().map(|s| s.as_slice()).collect();
    match Pubkey::try_find_program_address(&parts, &Pubkey::new_from_array(program.bytes)) {
        Some((key, bump)) => Some((Address { bytes: key.to_bytes() }, bump)),
        None => None,
    }
}

/// The ASCII bytes of the domain tag `escrow`.
pub open spec fn escrow_tag() -> Seq<u8> {
    seq![101u8, 115u8, 99u8, 114u8, 111u8, 119u8]
}

/// The eight little-endian bytes of `n`.
pub open spec fn le_bytes(n: u64) -> Seq<u8> {
    Seq::new(8, |i: int| ((n >> ((8 * i) as u64)) & 0xffu64) as u8)
}

/// The seeds an escrow's address is derived from: the tag, the maker, the seed.
pub open spec fn escrow_seed_list(maker: Seq<u8>, seed: u64) -> Seq<Seq<u8>> {
    seq![escrow_tag(), maker, le_bytes(seed)]
}

/// The address and bump of the escrow of `maker` with `seed`.
pub open spec fn derived_escrow(program: Seq<u8>, maker: Seq<u8>, seed: u64) -> Option<(Seq<u8>, u8)> {
    bump_search(escrow_seed_list(maker, seed), program)
}

/// The signing authority re-derived from the escrow's seeds and a stored bump.
pub open spec fn derived_authority(program: Seq<u8>, maker: Seq<u8>, seed: u64, bump: u8) -> Option<Seq<u8>> {
    program_address(escrow_seed_list(maker, seed).push(seq![bump]), program)
}

/// Little-endian encoding of a 64-bit integer.
pub fn le_bytes_of(n: u64) -> (r: Vec<u8>)
    ensures
        r@ == le_bytes(n),
{
    let mut v: Vec<u8> = Vec::new();
    let mut i: u64 = 0;
    while i < 8
        invariant
            0 <= i <= 8,
            v@ == le_bytes(n).subrange(0, i as int),
        decreases 8 - i,
    {
        v.push(((n >> (8 * i)) & 0xffu64) as u8);
        i = i + 1;
        assert(v@ =~= le_bytes(n).subrange(0, i as int));
    }
    assert(le_bytes(n).subrange(0, 8) =~= le_bytes(n));
    v
}

/// The seed list of the escrow of `maker` with `seed`.
pub fn escrow_seeds(maker: &Address, seed: u64) -> (r: Vec<Vec<u8>>)
    ensures
        seeds_view(r@) == escrow_seed_list(maker@, seed),
{
    let tag: Vec<u8> = vec![101u8, 115u8, 99u8, 114u8, 111u8, 119u8];
    let r: Vec<Vec<u8>> = vec![tag, maker.to_vec(), le_bytes_of(seed)];
    assert(seeds_view(r@) =~= escrow_seed_list(maker@, seed));
    r
}

/// Derives the address of the escrow of `maker` with `seed` under `program`,
/// with the bump that makes it valid.
pub fn escrow_address(program: &Address, maker: &Address, seed: u64) -> (r: Result<(Address, u8), EscrowError>)
    ensures
        r is Err <==> derived_escrow(program@, maker@, seed) is None,
        r is Err ==> r->Err_0 == EscrowError::DerivationExhausted,
        r is Ok ==> derived_escrow(program@, maker@, seed) == Some(((r->Ok_0).0@, (r->Ok_0).1)),
        r is Ok ==> derived_authority(program@, maker@, seed, (r->Ok_0).1) == Some((r->Ok_0).0@),
{
    let seeds = escrow_seeds(maker, seed);
    match try_find_program_address(&seeds, program) {
        Some((key, bump)) => Ok((key, bump)),
        None => Err(EscrowError::DerivationExhausted),
    }
}

/// Re-derives the escrow's signing authority from its seeds and stored bump,
/// or `None` where the seeds do not give a valid address.
pub fn escrow_authority(program: &Address, maker: &Address, seed: u64, bump: u8) -> (r: Option<Address>)
    ensures
        r is None <==> derived_authority(program@, maker@, seed, bump) is None,
        r is Some ==> derived_authority(program@, maker@, seed, bump) == Some(r->0@),
{
    let mut seeds = escrow_seeds(maker, seed);
    let ghost base = seeds@;
    let last: Vec<u8> = vec![bump];
    assert(last@ =~= seq![bump]);
    seeds.push(last);
    assert(seeds_view(seeds@) =~= seeds_view(base).push(seq![bump]));
    match create_program_address(&seeds, program) {
        Ok(key) => Some(key),
        Err(_) => None,
    }
}

} // verus!
