//! The requests that the router makes of the system program when it creates
//! an account: a transfer of the rent, an allocation of the space, and an
//! assignment to the program that is to own the account.

use crate::bytes::{u32_le, u64_le, write_pubkey, write_u32_le, write_u64_le};
use pinocchio::pubkey::Pubkey;
use vstd::prelude::*;

verus! {

/// Index of the system program's request to assign an account.
pub const SYSTEM_ASSIGN: u32 = 1;

/// Index of the system program's request to transfer a balance.
pub const SYSTEM_TRANSFER: u32 = 2;

/// Index of the system program's request to allocate space.
pub const SYSTEM_ALLOCATE: u32 = 8;

/// Builds the request to transfer `lamports`: the index of the request, then
/// the amount.
pub fn system_transfer_data(lamports: u64) -> (data: Vec<u8>)
    ensures
        data@.len() == 12,
        u32_le(data@, 0) == SYSTEM_TRANSFER,
        u64_le(data@, 4) == lamports,
{
    let mut data: Vec<u8> = Vec::new();
    write_u32_le(&mut data, SYSTEM_TRANSFER);
    write_u64_le(&mut data, lamports);
    data
}

/// Builds the request to allocate `space` bytes: the index of the request,
/// then the size.
pub fn system_allocate_data(space: u64) -> (data: Vec<u8>)
    ensures
        data@.len() == 12,
        u32_le(data@, 0) == SYSTEM_ALLOCATE,
        u64_le(data@, 4) == space,
{
    let mut data: Vec<u8> = Vec::new();
    write_u32_le(&mut data, SYSTEM_ALLOCATE);
    write_u64_le(&mut data, space);
    data
}

/// Builds the request to assign an account to `owner`: the index of the
/// request, then the owner's address.
pub fn system_assign_data(owner: &Pubkey) -> (data: Vec<u8>)
    ensures
        data@.len() == 36,
        u32_le(data@, 0) == SYSTEM_ASSIGN,
        data@.subrange(4, 36) == owner@,
{
    let mut data: Vec<u8> = Vec::new();
    write_u32_le(&mut data, SYSTEM_ASSIGN);
    write_pubkey(&mut data, owner);
    data
}

} // verus!
