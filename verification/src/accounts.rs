//! What the rules need to know of an account: who it is, who owns it, what
//! it holds and how it was passed to the program.

use crate::error::PercolatorError;
use crate::pubkey::pubkey_eq;
use pinocchio::pubkey::Pubkey;
use vstd::prelude::*;

verus! {

/// The facts of one account of a request.
#[derive(Clone, Copy, Debug, PartialEq, Eq)]
pub struct AccountSummary {
    /// Address of the account.
    pub key: Pubkey,
    /// Program that owns the account.
    pub owner: Pubkey,
    /// Balance of the account.
    pub lamports: u64,
    /// Size of the account's data in bytes.
    pub data_len: usize,
    /// Whether the account signed the request.
    pub is_signer: bool,
    /// Whether the request may write to the account.
    pub is_writable: bool,
}

/// The verdict on an account that has to be owned by `expected_owner`.
pub open spec fn owner_verdict(account: AccountSummary, expected_owner: Pubkey) -> Result<
    (),
    PercolatorError,
> {
    if account.owner@ != expected_owner@ {
        Err(PercolatorError::InvalidAccount)
    } else {
        Ok(())
    }
}

/// The verdict on an account that has to be writable.
pub open spec fn writable_verdict(account: AccountSummary) -> Result<(), PercolatorError> {
    if !account.is_writable {
        Err(PercolatorError::InvalidAccount)
    } else {
        Ok(())
    }
}

/// The verdict on an account that has to be owned by `expected_owner` and
/// writable; ownership is looked at first.
pub open spec fn owned_writable_verdict(account: AccountSummary, expected_owner: Pubkey) -> Result<
    (),
    PercolatorError,
> {
    match owner_verdict(account, expected_owner) {
        Err(e) => Err(e),
        Ok(_) => writable_verdict(account),
    }
}

/// Checks that an account is owned by `expected_owner`.
pub fn validate_owner(account: &AccountSummary, expected_owner: &Pubkey) -> (result: Result<
    (),
    PercolatorError,
>)
    ensures
        result == owner_verdict(*account, *expected_owner),
{
    if !pubkey_eq(&account.owner, expected_owner) {
        return Err(PercolatorError::InvalidAccount);
    }
    Ok(())
}

/// Checks that an account may be written to.
pub fn validate_writable(account: &AccountSummary) -> (result: Result<(), PercolatorError>)
    ensures
        result == writable_verdict(*account),
{
    if !account.is_writable {
        return Err(PercolatorError::InvalidAccount);
    }
    Ok(())
}

/// Checks that an account is owned by `expected_owner` and may be written to.
pub fn validate_owned_writable(account: &AccountSummary, expected_owner: &Pubkey) -> (result: Result<
    (),
    PercolatorError,
>)
    ensures
        result == owned_writable_verdict(*account, *expected_owner),
{
    match validate_owner(account, expected_owner) {
        Err(e) => Err(e),
        Ok(_) => validate_writable(account),
    }
}

} // verus!
