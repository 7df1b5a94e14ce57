//! Derived addresses: the seeds from which the addresses of the program's
//! accounts are derived, and the check of an account against its derivation.
//!
//! The derivation itself is the work of the runtime. Here the seeds are
//! built, the runtime is asked, and what it answers is checked.

use crate::bytes::{u16_le, write_u16_le};
use crate::error::PercolatorError;
use crate::position_details::PositionDetails;
use crate::pubkey::pubkey_eq;
use pinocchio::pubkey::Pubkey;
use vstd::prelude::*;

verus! {

/// The seed `position`, which starts the address of every position record.
pub open spec fn position_seed() -> Seq<u8> {
    seq![0x70u8, 0x6f, 0x73, 0x69, 0x74, 0x69, 0x6f, 0x6e]
}

/// The seed `registry`, from which the address of the registry is derived.
pub open spec fn registry_seed() -> Seq<u8> {
    seq![0x72u8, 0x65, 0x67, 0x69, 0x73, 0x74, 0x72, 0x79]
}

/// The seed `authority`, from which the address of the router's authority is
/// derived.
pub open spec fn authority_seed() -> Seq<u8> {
    seq![0x61u8, 0x75, 0x74, 0x68, 0x6f, 0x72, 0x69, 0x74, 0x79]
}

/// Tells whether `seeds` are the seeds of the position record of a
/// portfolio on a venue and an instrument: the word `position`, the address
/// of the portfolio, and the two indices as little-endian 16-bit values.
pub open spec fn are_position_seeds(
    seeds: Seq<Vec<u8>>,
    portfolio: Pubkey,
    slab_index: u16,
    instrument_index: u16,
) -> bool {
    &&& seeds.len() == 4
    &&& seeds[0]@ == position_seed()
    &&& seeds[1]@ == portfolio@
    &&& seeds[2]@.len() == 2 && u16_le(seeds[2]@, 0) == slab_index
    &&& seeds[3]@.len() == 2 && u16_le(seeds[3]@, 0) == instrument_index
}

/// The verdict on an account that has to stand at a derived address: the
/// derivation has to have an answer, and the answer has to be the account's
/// address. The bump seed of the derivation is handed on.
pub open spec fn address_verdict(provided: Pubkey, derived: Option<(Pubkey, u8)>) -> Result<
    u8,
    PercolatorError,
> {
    match derived {
        None => Err(PercolatorError::InvalidAccount),
        Some(found) => if found.0@ != provided@ {
            Err(PercolatorError::InvalidAccount)
        } else {
            Ok(found.1)
        },
    }
}

/// Asks `pinocchio::pubkey::try_find_program_address` for the address
/// derived from the seeds under the program, and its bump seed. Nothing is
/// claimed of the answer: it is the runtime's, and where no runtime is at
/// hand there is none.
#[verifier::external_body]
fn try_find_program_address(seeds: &Vec<Vec<u8>>, program_id: &Pubkey) -> (found: Option<
    (Pubkey, u8),
>) {
    let slices: Vec<&[u8]> = seeds.iter().map(|seed| seed.as_slice()).collect();
    pinocchio::pubkey::try_find_program_address(&slices, program_id)
}

/// Copies the bytes of a seed word.
fn seed_word(word: &[u8]) -> (seed: Vec<u8>)
    ensures
        seed@ == word@,
{
    let mut seed: Vec<u8> = Vec::new();
    let mut i: usize = 0;
    while i < word.len()
        invariant
            i <= word.len(),
            seed@ == word@.take(i as int),
        decreases word.len() - i,
    {
        seed.push(word[i]);
        assert(word@.take(i as int).push(word@[i as int]) =~= word@.take(i + 1));
        i += 1;
    }
    assert(word@.take(i as int) =~= word@);
    seed
}

/// Builds the seeds of the position record of a portfolio on a venue and an
/// instrument.
pub fn position_seeds(portfolio: &Pubkey, slab_index: u16, instrument_index: u16) -> (seeds: Vec<
    Vec<u8>,
>)
    ensures
        are_position_seeds(seeds@, *portfolio, slab_index, instrument_index),
{
    let word: [u8; 8] = [0x70, 0x6f, 0x73, 0x69, 0x74, 0x69, 0x6f, 0x6e];
    let mut slab_bytes: Vec<u8> = Vec::new();
    write_u16_le(&mut slab_bytes, slab_index);
    let mut instrument_bytes: Vec<u8> = Vec::new();
    write_u16_le(&mut instrument_bytes, instrument_index);
    let mut seeds: Vec<Vec<u8>> = Vec::new();
    let first = seed_word(word.as_slice());
    assert(first@ =~= position_seed());
    seeds.push(first);
    seeds.push(seed_word(portfolio.as_slice()));
    seeds.push(slab_bytes);
    seeds.push(instrument_bytes);
    seeds
}

/// Builds the seeds of the registry.
pub fn registry_seeds() -> (seeds: Vec<Vec<u8>>)
    ensures
        seeds@.len() == 1,
        seeds@[0]@ == registry_seed(),
{
    let word: [u8; 8] = [0x72, 0x65, 0x67, 0x69, 0x73, 0x74, 0x72, 0x79];
    let mut seeds: Vec<Vec<u8>> = Vec::new();
    let first = seed_word(word.as_slice());
    assert(first@ =~= registry_seed());
    seeds.push(first);
    seeds
}

/// Builds the seeds of the router's authority.
pub fn authority_seeds() -> (seeds: Vec<Vec<u8>>)
    ensures
        seeds@.len() == 1,
        seeds@[0]@ == authority_seed(),
{
    let word: [u8; 9] = [0x61, 0x75, 0x74, 0x68, 0x6f, 0x72, 0x69, 0x74, 0x79];
    let mut seeds: Vec<Vec<u8>> = Vec::new();
    let first = seed_word(word.as_slice());
    assert(first@ =~= authority_seed());
    seeds.push(first);
    seeds
}

/// Derives the address of the registry under the router program. The answer
/// is the runtime's; without one there is none.
pub fn derive_registry_pda(program_id: &Pubkey) -> (derived: Option<(Pubkey, u8)>) {
    let seeds = registry_seeds();
    try_find_program_address(&seeds, program_id)
}

/// Derives the address of the router's authority under the router program.
/// The answer is the runtime's; without one there is none.
pub fn derive_authority_pda(program_id: &Pubkey) -> (derived: Option<(Pubkey, u8)>) {
    let seeds = authority_seeds();
    try_find_program_address(&seeds, program_id)
}

/// Checks an account against the address derived for it, and hands on the
/// bump seed of the derivation.
pub fn verify_derived_address(provided: &Pubkey, derived: Option<(Pubkey, u8)>) -> (result: Result<
    u8,
    PercolatorError,
>)
    ensures
        result == address_verdict(*provided, derived),
{
    match derived {
        None => Err(PercolatorError::InvalidAccount),
        Some(found) => {
            if !pubkey_eq(&found.0, provided) {
                Err(PercolatorError::InvalidAccount)
            } else {
                Ok(found.1)
            }
        },
    }
}

impl PositionDetails {
    /// Derives the address of the position record of a portfolio on a venue
    /// and an instrument, from the seeds that `position_seeds` builds. The
    /// answer is the runtime's; without one there is none.
    pub fn derive_pda(
        portfolio: &Pubkey,
        slab_index: u16,
        instrument_index: u16,
        program_id: &Pubkey,
    ) -> (derived: Option<(Pubkey, u8)>) {
        let seeds = position_seeds(portfolio, slab_index, instrument_index);
        try_find_program_address(&seeds, program_id)
    }
}

} // verus!
