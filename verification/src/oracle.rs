//! The price feed of a venue, as far as the router reads it itself.
//!
//! A feed is either kept by the price-feed program named below or is a plain
//! account that holds its price, six decimals, at a fixed offset.

use crate::bytes::{i64_le, read_i64_le};
use crate::error::PercolatorError;
use crate::pubkey::pubkey_eq;
use pinocchio::pubkey::Pubkey;
use vstd::prelude::*;

verus! {

/// Offset of the price in the data of a plain feed.
pub const ORACLE_PRICE_OFFSET: usize = 80;

/// Size of the data of a plain feed up to the end of its price.
pub const ORACLE_MIN_LEN: usize = 88;

/// The price that the data of a plain feed spell, or the reason why the feed
/// has none: data too short to hold a price.
pub open spec fn feed_price(data: Seq<u8>) -> Result<i64, PercolatorError> {
    if data.len() < ORACLE_MIN_LEN {
        Err(PercolatorError::InvalidOracle)
    } else {
        Ok(i64_le(data, ORACLE_PRICE_OFFSET as int) as i64)
    }
}

/// The price of a feed whose account is owned by `owner`: a feed kept by the
/// price-feed program is not read here and has no price to offer; any other
/// feed is a plain one.
pub open spec fn unified_price(owner: Pubkey, data: Seq<u8>, feed_program: Pubkey) -> Result<
    i64,
    PercolatorError,
> {
    if owner@ == feed_program@ {
        Err(PercolatorError::InvalidOracle)
    } else {
        feed_price(data)
    }
}

/// Reads the price of a feed, telling a feed of the price-feed program from
/// a plain one by the owner of its account.
pub fn read_oracle_price_unified(owner: &Pubkey, data: &[u8], feed_program: &Pubkey) -> (result:
    Result<i64, PercolatorError>)
    ensures
        result == unified_price(*owner, data@, *feed_program),
{
    if pubkey_eq(owner, feed_program) {
        return Err(PercolatorError::InvalidOracle);
    }
    read_oracle_price(data)
}

/// Reads the price of a plain feed from the data of its account.
pub fn read_oracle_price(data: &[u8]) -> (result: Result<i64, PercolatorError>)
    ensures
        result == feed_price(data@),
{
    if data.len() < ORACLE_MIN_LEN {
        return Err(PercolatorError::InvalidOracle);
    }
    Ok(read_i64_le(data, ORACLE_PRICE_OFFSET))
}

} // verus!
