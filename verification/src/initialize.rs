//! The initialization of the registry: who may do it, and what has to be
//! done to the registry's account before it can be written.

use crate::accounts::AccountSummary;
use crate::error::PercolatorError;
use crate::pda::address_verdict;
use crate::pubkey::{pubkey_eq, pubkey_is_default};
use pinocchio::pubkey::Pubkey;
use vstd::prelude::*;

verus! {

/// What has to be done to the registry's account before it is initialized.
#[derive(Clone, Copy, Debug, PartialEq, Eq, Structural)]
pub enum RegistrySetup {
    /// The account has its size and is blank: nothing is left to do.
    Ready,
    /// The account is funded but has no data: allocate it and assign it.
    AllocateAndAssign,
    /// The account does not exist: fund it, allocate it and assign it.
    Create,
}

/// Tells whether any of the leading bytes of the registry, where the
/// router's address stands, is set.
pub open spec fn has_router_id(data: Seq<u8>) -> bool {
    exists|i: int| 0 <= i < 32 && i < data.len() && #[trigger] data[i] != 0
}

/// What the initialization of the registry has to do, or why it is refused.
/// The checks come in this order: the account has to stand at the derived
/// address; the payer has to sign; the governance authority must not be the
/// zero address; then the state of the account decides.
pub open spec fn registry_setup(
    registry: AccountSummary,
    registry_data: Seq<u8>,
    derived: Option<(Pubkey, u8)>,
    payer: AccountSummary,
    governance: Pubkey,
    registry_len: usize,
) -> Result<RegistrySetup, PercolatorError> {
    if address_verdict(registry.key, derived) is Err {
        Err(PercolatorError::InvalidAccount)
    } else if !payer.is_signer {
        Err(PercolatorError::Unauthorized)
    } else if forall|j: int| 0 <= j < 32 ==> governance@[j] == 0 {
        Err(PercolatorError::InvalidAccount)
    } else if registry_data.len() == registry_len {
        if has_router_id(registry_data) {
            Err(PercolatorError::AlreadyInitialized)
        } else {
            Ok(RegistrySetup::Ready)
        }
    } else if registry.lamports > 0 && registry_data.len() == 0 {
        Ok(RegistrySetup::AllocateAndAssign)
    } else if registry.lamports == 0 {
        Ok(RegistrySetup::Create)
    } else {
        Err(PercolatorError::InvalidAccount)
    }
}

/// Tells whether the registry's data carries a router's address.
fn is_initialized(data: &[u8]) -> (initialized: bool)
    ensures
        initialized == has_router_id(data@),
{
    let mut i: usize = 0;
    while i < 32 && i < data.len()
        invariant
            i <= 32,
            i <= data@.len(),
            forall|j: int| 0 <= j < i ==> data@[j] == 0,
        decreases 32 - i,
    {
        if data[i] != 0 {
            return true;
        }
        i += 1;
    }
    false
}

/// Decides how the registry is initialized.
///
/// The registry's account has to stand at the address derived for it, the
/// payer has to sign, and the governance authority must not be the zero
/// address. An account that has the registry's size is ready when it is
/// blank and refused when it was initialized before. A funded account
/// without data is allocated and assigned. An account that does not exist is
/// created. An account of any other size is refused.
pub fn process_initialize_registry(
    registry: &AccountSummary,
    registry_data: &[u8],
    derived: Option<(Pubkey, u8)>,
    payer: &AccountSummary,
    governance: &Pubkey,
    registry_len: usize,
) -> (result: Result<RegistrySetup, PercolatorError>)
    ensures
        result == registry_setup(
            *registry,
            registry_data@,
            derived,
            *payer,
            *governance,
            registry_len,
        ),
{
    match derived {
        None => {
            return Err(PercolatorError::InvalidAccount);
        },
        Some(found) => {
            if !pubkey_eq(&found.0, &registry.key) {
                return Err(PercolatorError::InvalidAccount);
            }
        },
    }
    if !payer.is_signer {
        return Err(PercolatorError::Unauthorized);
    }
    if pubkey_is_default(governance) {
        return Err(PercolatorError::InvalidAccount);
    }
    if registry_data.len() == registry_len {
        if is_initialized(registry_data) {
            return Err(PercolatorError::AlreadyInitialized);
        }
        Ok(RegistrySetup::Ready)
    } else if registry.lamports > 0 && registry_data.len() == 0 {
        Ok(RegistrySetup::AllocateAndAssign)
    } else if registry.lamports == 0 {
        Ok(RegistrySetup::Create)
    } else {
        Err(PercolatorError::InvalidAccount)
    }
}

} // verus!
