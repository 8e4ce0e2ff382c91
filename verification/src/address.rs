//! Program-derived addresses: where an escrow lives.
use solana_program::pubkey::Pubkey;
use vstd::prelude::*;

use crate::bytes;

verus! {

/// First seed of every escrow's address: the ASCII bytes of `escrow`.
pub const ESCROW_SEED: [u8; 6] = [0x65, 0x73, 0x63, 0x72, 0x6f, 0x77];

/// The address that `Pubkey::create_program_address` derives from seeds and a program, `None`
/// where it derives none.
pub uninterp spec fn program_address(seeds: Seq<Seq<u8>>, program_id: Seq<u8>) -> Option<Seq<u8>>;

/// The contents of a list of seeds.
pub open spec fn seed_contents(seeds: Seq<Vec<u8>>) -> Seq<Seq<u8>> {
    seeds.map_values(|seed: Vec<u8>| seed@)
}

/// The largest bump from `n` down to one with which the seeds derive an address.
pub open spec fn bump_up_to(seeds: Seq<Seq<u8>>, program_id: Seq<u8>, n: nat) -> Option<u8>
    decreases n,
{
    if n == 0 {
        None
    } else if program_address(seeds.push(seq![n as u8]), program_id) is Some {
        Some(n as u8)
    } else {
        bump_up_to(seeds, program_id, (n - 1) as nat)
    }
}

/// The bump of the address that a search from 255 downwards finds.
pub open spec fn search_bump(seeds: Seq<Seq<u8>>, program_id: Seq<u8>) -> Option<u8> {
    bump_up_to(seeds, program_id, 255)
}

/// The seeds of the escrow of a locker and a swap id, without the bump.
pub open spec fn escrow_seeds(locker: Seq<u8>, id: Seq<u8>) -> Seq<Seq<u8>> {
    seq![ESCROW_SEED@, locker, id]
}

/// The address of an escrow with a given bump.
pub open spec fn escrow_address_at(
    locker: Seq<u8>,
    id: Seq<u8>,
    bump: u8,
    program_id: Seq<u8>,
) -> Option<Seq<u8>> {
    program_address(escrow_seeds(locker, id).push(seq![bump]), program_id)
}

/// The bump that the address search settles on has an address, and lies in `1..=255`.
pub proof fn law_search_bump_derives(seeds: Seq<Seq<u8>>, program_id: Seq<u8>)
    ensures
        search_bump(seeds, program_id) matches Some(bump) ==> bump >= 1 && program_address(
            seeds.push(seq![bump]),
            program_id,
        ) is Some,
{
    lemma_bump_up_to(seeds, program_id, 255);
}

proof fn lemma_bump_up_to(seeds: Seq<Seq<u8>>, program_id: Seq<u8>, n: nat)
    requires
        n <= 255,
    ensures
        bump_up_to(seeds, program_id, n) matches Some(bump) ==> 1 <= bump <= n && program_address(
            seeds.push(seq![bump]),
            program_id,
        ) is Some,
    decreases n,
{
    if n > 0 {
        lemma_bump_up_to(seeds, program_id, (n - 1) as nat);
    }
}

/// The address search settles on the largest bump that has an address: a bump that has one is
/// found, unless a larger one is.
pub proof fn law_search_bump_is_the_largest(seeds: Seq<Seq<u8>>, program_id: Seq<u8>, bump: u8)
    requires
        bump >= 1,
        program_address(seeds.push(seq![bump]), program_id) is Some,
    ensures
        search_bump(seeds, program_id) matches Some(found) && found >= bump,
{
    lemma_bump_is_found(seeds, program_id, bump, 255);
}

proof fn lemma_bump_is_found(seeds: Seq<Seq<u8>>, program_id: Seq<u8>, bump: u8, n: nat)
    requires
        1 <= bump <= n <= 255,
        program_address(seeds.push(seq![bump]), program_id) is Some,
    ensures
        bump_up_to(seeds, program_id, n) matches Some(found) && found >= bump,
    decreases n,
{
    if n > bump {
        lemma_bump_is_found(seeds, program_id, bump, (n - 1) as nat);
    }
}

/// `Pubkey::create_program_address`, its error dropped: an address hashed from the seeds and
/// the program, unless there are too many seeds, one is too long, or the hash is a curve point.
#[verifier::external_body]
fn create_program_address(seeds: &Vec<Vec<u8>>, program_id: &[u8; 32]) -> (r: Option<[u8; 32]>)
    ensures
        r matches Some(address) ==> program_address(seed_contents(seeds@), program_id@) == Some(
            address@,
        ),
        r is None ==> program_address(seed_contents(seeds@), program_id@) is None,
{
    let parts: Vec<&[u8]> = seeds.iter().map(|seed| seed.as_slice()).collect();
    let program = Pubkey::new_from_array(*program_id);
    let address = Pubkey::create_program_address(&parts, &program).ok()?;
    Some(address.to_bytes())
}

/// `Pubkey::try_find_program_address`: appends bumps to the seeds, from 255 down to one, and
/// returns the first address that `create_program_address` derives, with its bump.
#[verifier::external_body]
fn try_find_program_address(seeds: &Vec<Vec<u8>>, program_id: &[u8; 32]) -> (r: Option<
    ([u8; 32], u8),
>)
    ensures
        r matches Some(found) ==> search_bump(seed_contents(seeds@), program_id@) == Some(found.1)
            && program_address(seed_contents(seeds@).push(seq![found.1]), program_id@) == Some(
            found.0@,
        ),
        r is None ==> search_bump(seed_contents(seeds@), program_id@) is None,
{
    let parts: Vec<&[u8]> = seeds.iter().map(|seed| seed.as_slice()).collect();
    let program = Pubkey::new_from_array(*program_id);
    let (address, bump) = Pubkey::try_find_program_address(&parts, &program)?;
    Some((address.to_bytes(), bump))
}

fn seed_list(locker: &[u8; 32], id: &[u8; 32]) -> (seeds: Vec<Vec<u8>>)
    ensures
        seed_contents(seeds@) == escrow_seeds(locker@, id@),
{
    let mut name: Vec<u8> = Vec::new();
    let mut i: usize = 0;
    while i < 6
        invariant
            i <= 6,
            name@ == ESCROW_SEED@.take(i as int),
        decreases 6 - i,
    {
        name.push(ESCROW_SEED[i]);
        i += 1;
    }
    assert(name@ =~= ESCROW_SEED@);
    let mut owner: Vec<u8> = Vec::new();
    bytes::push32(&mut owner, locker);
    assert(owner@ =~= locker@);
    let mut swap: Vec<u8> = Vec::new();
    bytes::push32(&mut swap, id);
    assert(swap@ =~= id@);
    let mut seeds: Vec<Vec<u8>> = Vec::new();
    seeds.push(name);
    seeds.push(owner);
    seeds.push(swap);
    assert(seed_contents(seeds@) =~= escrow_seeds(locker@, id@));
    seeds
}

/// The address of the escrow of `locker` and `id` with this bump; `None` where the bump derives
/// no address.
pub fn escrow_address(
    locker: &[u8; 32],
    id: &[u8; 32],
    bump: u8,
    program_id: &[u8; 32],
) -> (r: Option<[u8; 32]>)
    ensures
        r matches Some(address) ==> escrow_address_at(locker@, id@, bump, program_id@) == Some(
            address@,
        ),
        r is None <==> escrow_address_at(locker@, id@, bump, program_id@) is None,
{
    let mut seeds = seed_list(locker, id);
    let ghost before = seed_contents(seeds@);
    let mut last: Vec<u8> = Vec::new();
    last.push(bump);
    assert(last@ =~= seq![bump]);
    seeds.push(last);
    assert(seed_contents(seeds@) =~= before.push(seq![bump]));
    create_program_address(&seeds, program_id)
}

/// The address of the escrow of `locker` and `id`, with its bump; `None` where no bump derives
/// an address.
pub fn find_escrow_address(locker: &[u8; 32], id: &[u8; 32], program_id: &[u8; 32]) -> (r: Option<
    ([u8; 32], u8),
>)
    ensures
        r matches Some(found) ==> search_bump(escrow_seeds(locker@, id@), program_id@) == Some(
            found.1,
        ) && escrow_address_at(locker@, id@, found.1, program_id@) == Some(found.0@),
        r is None <==> search_bump(escrow_seeds(locker@, id@), program_id@) is None,
{
    let seeds = seed_list(locker, id);
    try_find_program_address(&seeds, program_id)
}

} // verus!
