//! The requests that the router accepts, decoded from their bytes and checked
//! against the accounts that come with them.
//!
//! A request starts with one byte that names it. The rest is laid out field
//! after field, little-endian, without gaps. Decoding changes nothing: it
//! hands on the fields of a request that is in order, or the reason why the
//! request is refused.

use crate::accounts::{
    owned_writable_verdict, validate_owned_writable, validate_owner, validate_writable,
    AccountSummary,
};
use crate::bytes::{
    i64_le, read_i64_le, read_pubkey, read_u128_le, read_u64_le, u128_le, u64_le,
};
use crate::error::PercolatorError;
use crate::settlement::{SlabSplit, MAX_SPLITS};
use pinocchio::pubkey::Pubkey;
use vstd::prelude::*;
use vstd::slice::slice_subrange;

verus! {

/// Number of accounts that every trade brings before those of its splits.
pub const EXECUTE_BASE_ACCOUNTS: usize = 7;

/// Size of one split in a trade request.
pub const SPLIT_LEN: usize = 17;

/// The most orders one cancellation may name.
pub const MAX_CANCEL_ORDERS: usize = 16;

/// Leverage of a trade that names none.
pub const DEFAULT_LEVERAGE: u8 = 1;

/// The fields of a trade request.
#[derive(Clone, Debug, PartialEq, Eq)]
pub struct ExecuteCrossSlabArgs {
    /// Order type: 0 is market, 1 is limit.
    pub order_type: u8,
    /// Leverage asked for.
    pub leverage: u8,
    /// The splits, each with the address of its venue's account.
    pub splits: Vec<SlabSplit>,
}

/// The fields of a liquidation request.
#[derive(Clone, Copy, Debug, PartialEq, Eq, Structural)]
pub struct LiquidateUserArgs {
    /// Number of oracle accounts that follow the fixed ones.
    pub num_oracles: usize,
    /// Number of venue accounts, and of receipt accounts after them.
    pub num_slabs: usize,
    /// Whether to reduce before the margin is breached.
    pub is_preliq: bool,
    /// Time of the request.
    pub current_ts: u64,
}

/// The fields of a request to burn shares of a liquidity pool.
#[derive(Clone, Copy, Debug, PartialEq, Eq)]
pub struct BurnLpSharesArgs {
    pub market_id: Pubkey,
    pub shares_to_burn: u64,
    pub current_share_price: i64,
    pub current_ts: u64,
    pub max_staleness_seconds: u64,
}

/// The fields of a request to cancel resting orders of a liquidity provider.
#[derive(Clone, Debug, PartialEq, Eq)]
pub struct CancelLpOrdersArgs {
    pub market_id: Pubkey,
    pub order_ids: Vec<u64>,
    pub freed_quote: u128,
    pub freed_base: u128,
}

/// A request to the router.
#[derive(Clone, Debug, PartialEq, Eq)]
pub enum RouterInstruction {
    /// Initialize the registry under a governance authority.
    Initialize { governance: Pubkey },
    /// Initialize the portfolio of a user.
    InitializePortfolio { user: Pubkey },
    /// Deposit collateral.
    Deposit { amount: u64 },
    /// Withdraw collateral.
    Withdraw { amount: u64 },
    /// Execute a trade over one or more venues.
    ExecuteCrossSlab(ExecuteCrossSlabArgs),
    /// Liquidate a portfolio.
    LiquidateUser(LiquidateUserArgs),
    /// Burn shares of a liquidity pool.
    BurnLpShares(BurnLpSharesArgs),
    /// Cancel resting orders of a liquidity provider.
    CancelLpOrders(CancelLpOrdersArgs),
}

/// Why a request to initialize the registry is refused, if it is.
pub open spec fn initialize_refusal(accounts: Seq<AccountSummary>, data: Seq<u8>) -> Option<
    PercolatorError,
> {
    if accounts.len() < 3 {
        Some(PercolatorError::InvalidInstruction)
    } else if !accounts[0].is_writable || !accounts[1].is_writable {
        Some(PercolatorError::InvalidAccount)
    } else if data.len() < 32 {
        Some(PercolatorError::InvalidInstruction)
    } else {
        None
    }
}

/// Why a request to initialize a portfolio is refused, if it is.
pub open spec fn initialize_portfolio_refusal(accounts: Seq<AccountSummary>, data: Seq<u8>)
    -> Option<PercolatorError> {
    if accounts.len() < 2 || data.len() < 32 {
        Some(PercolatorError::InvalidInstruction)
    } else if !accounts[0].is_writable {
        Some(PercolatorError::InvalidAccount)
    } else if !accounts[1].is_signer {
        Some(PercolatorError::Unauthorized)
    } else if !accounts[1].is_writable {
        Some(PercolatorError::InvalidAccount)
    } else {
        None
    }
}

/// The amount of a deposit, or why the deposit is refused.
pub open spec fn deposit_decoded(program_id: Pubkey, accounts: Seq<AccountSummary>, data: Seq<u8>)
    -> Result<u64, PercolatorError> {
    if accounts.len() < 3 {
        Err(PercolatorError::InvalidInstruction)
    } else if owned_writable_verdict(accounts[0], program_id) is Err || !accounts[1].is_writable {
        Err(PercolatorError::InvalidAccount)
    } else if data.len() < 8 {
        Err(PercolatorError::InvalidInstruction)
    } else {
        Ok(u64_le(data, 0) as u64)
    }
}

/// The amount of a withdrawal, or why the withdrawal is refused.
pub open spec fn withdraw_decoded(program_id: Pubkey, accounts: Seq<AccountSummary>, data: Seq<u8>)
    -> Result<u64, PercolatorError> {
    if accounts.len() < 4 {
        Err(PercolatorError::InvalidInstruction)
    } else if owned_writable_verdict(accounts[0], program_id) is Err || !accounts[1].is_writable
        || accounts[3].owner@ != program_id@ {
        Err(PercolatorError::InvalidAccount)
    } else if data.len() < 8 {
        Err(PercolatorError::InvalidInstruction)
    } else {
        Ok(u64_le(data, 0) as u64)
    }
}

/// The fields of a liquidation, or why the liquidation is refused.
pub open spec fn liquidate_decoded(program_id: Pubkey, accounts: Seq<AccountSummary>, data: Seq<u8>)
    -> Result<LiquidateUserArgs, PercolatorError> {
    if accounts.len() < 7 {
        Err(PercolatorError::InvalidInstruction)
    } else if owned_writable_verdict(accounts[0], program_id) is Err || owned_writable_verdict(
        accounts[1],
        program_id,
    ) is Err || owned_writable_verdict(accounts[2], program_id) is Err || owned_writable_verdict(
        accounts[3],
        program_id,
    ) is Err {
        Err(PercolatorError::InvalidAccount)
    } else if data.len() < 11 {
        Err(PercolatorError::InvalidInstruction)
    } else if accounts.len() < 7 + data[0] + 2 * data[1] {
        Err(PercolatorError::InvalidInstruction)
    } else {
        Ok(
            LiquidateUserArgs {
                num_oracles: data[0] as usize,
                num_slabs: data[1] as usize,
                is_preliq: data[2] != 0,
                current_ts: u64_le(data, 3) as u64,
            },
        )
    }
}

/// Why a request to burn shares is refused, if it is.
pub open spec fn burn_lp_shares_refusal(
    program_id: Pubkey,
    accounts: Seq<AccountSummary>,
    data: Seq<u8>,
) -> Option<PercolatorError> {
    if accounts.len() < 2 {
        Some(PercolatorError::InvalidInstruction)
    } else if owned_writable_verdict(accounts[0], program_id) is Err {
        Some(PercolatorError::InvalidAccount)
    } else if data.len() < 64 {
        Some(PercolatorError::InvalidInstruction)
    } else {
        None
    }
}

/// Tells whether `args` are the fields that `data` spell.
pub open spec fn burn_lp_shares_decoded(data: Seq<u8>, args: BurnLpSharesArgs) -> bool {
    &&& args.market_id@ == data.subrange(0, 32)
    &&& args.shares_to_burn == u64_le(data, 32)
    &&& args.current_share_price == i64_le(data, 40)
    &&& args.current_ts == u64_le(data, 48)
    &&& args.max_staleness_seconds == u64_le(data, 56)
}

/// Why a request to cancel orders is refused, if it is: it names at most
/// sixteen orders and brings every field.
pub open spec fn cancel_lp_orders_refusal(
    program_id: Pubkey,
    accounts: Seq<AccountSummary>,
    data: Seq<u8>,
) -> Option<PercolatorError> {
    if accounts.len() < 2 {
        Some(PercolatorError::InvalidInstruction)
    } else if owned_writable_verdict(accounts[0], program_id) is Err {
        Some(PercolatorError::InvalidAccount)
    } else if data.len() < 65 || data[32] > MAX_CANCEL_ORDERS || data.len() < 65 + 8 * data[32] {
        Some(PercolatorError::InvalidInstruction)
    } else {
        None
    }
}

/// Tells whether `args` are the fields that `data` spell.
pub open spec fn cancel_lp_orders_decoded(data: Seq<u8>, args: CancelLpOrdersArgs) -> bool {
    &&& args.market_id@ == data.subrange(0, 32)
    &&& args.order_ids@.len() == data[32]
    &&& forall|i: int|
        0 <= i < data[32] ==> #[trigger] args.order_ids@[i] == u64_le(data, 33 + 8 * i)
    &&& args.freed_quote == u128_le(data, 33 + 8 * data[32])
    &&& args.freed_base == u128_le(data, 49 + 8 * data[32])
}

/// Why a trade request is refused before its splits are read, if it is: it
/// needs seven accounts; the two portfolios and the registry owned by the
/// program and writable; a count of splits from one to eight, an order type
/// of market or limit, and four accounts for every split.
pub open spec fn execute_header_refusal(
    program_id: Pubkey,
    accounts: Seq<AccountSummary>,
    data: Seq<u8>,
) -> Option<PercolatorError> {
    if accounts.len() < EXECUTE_BASE_ACCOUNTS {
        Some(PercolatorError::InvalidInstruction)
    } else if owned_writable_verdict(accounts[0], program_id) is Err || owned_writable_verdict(
        accounts[2],
        program_id,
    ) is Err || owned_writable_verdict(accounts[3], program_id) is Err {
        Some(PercolatorError::InvalidAccount)
    } else if data.len() < 2 || data[0] == 0 {
        Some(PercolatorError::InvalidInstruction)
    } else if data[1] > 1 {
        Some(PercolatorError::InvalidOrderType)
    } else if accounts.len() < EXECUTE_BASE_ACCOUNTS + 4 * data[0] || data[0] > MAX_SPLITS {
        Some(PercolatorError::InvalidInstruction)
    } else {
        None
    }
}

/// Why one of the first `n` splits of a trade request is refused, if one is:
/// the first, in order, that is cut short or names an unknown side.
pub open spec fn splits_refusal(data: Seq<u8>, n: int) -> Option<PercolatorError>
    decreases n,
{
    if n <= 0 {
        None
    } else {
        match splits_refusal(data, n - 1) {
            Some(e) => Some(e),
            None => if data.len() < 2 + SPLIT_LEN * n {
                Some(PercolatorError::InvalidInstruction)
            } else if data[2 + SPLIT_LEN * (n - 1)] > 1 {
                Some(PercolatorError::InvalidSide)
            } else {
                None
            },
        }
    }
}

/// Tells whether `split` is the split number `i` of a trade request: its
/// side, quantity and limit price from the request, its venue from the
/// accounts.
pub open spec fn split_decoded(
    accounts: Seq<AccountSummary>,
    data: Seq<u8>,
    i: int,
    split: SlabSplit,
) -> bool {
    &&& split.side == data[2 + SPLIT_LEN * i]
    &&& split.qty == i64_le(data, 3 + SPLIT_LEN * i)
    &&& split.limit_px == i64_le(data, 11 + SPLIT_LEN * i)
    &&& split.slab_id == accounts[EXECUTE_BASE_ACCOUNTS + i].key
}

/// The leverage of a trade request: the byte after the last split, or one
/// where the request ends with its last split.
pub open spec fn leverage_decoded(data: Seq<u8>) -> u8 {
    if data.len() > 2 + SPLIT_LEN * data[0] {
        data[2 + SPLIT_LEN * data[0]]
    } else {
        DEFAULT_LEVERAGE
    }
}

/// Tells whether `args` are the fields of the trade request `data`.
pub open spec fn execute_decoded(
    accounts: Seq<AccountSummary>,
    data: Seq<u8>,
    args: ExecuteCrossSlabArgs,
) -> bool {
    &&& args.order_type == data[1]
    &&& args.leverage == leverage_decoded(data)
    &&& args.splits@.len() == data[0]
    &&& forall|i: int|
        0 <= i < data[0] ==> split_decoded(accounts, data, i, #[trigger] args.splits@[i])
}

/// Once a split is refused, every longer run of splits is refused the same way.
pub proof fn lemma_splits_refused(data: Seq<u8>, n: int, m: int)
    requires
        0 <= n <= m,
        splits_refusal(data, n) is Some,
    ensures
        splits_refusal(data, m) == splits_refusal(data, n),
    decreases m - n,
{
    if n < m {
        lemma_splits_refused(data, n, m - 1);
    }
}

/// Decodes a request to initialize the registry and returns the governance
/// authority it names.
pub fn process_initialize_inner(accounts: &Vec<AccountSummary>, data: &[u8]) -> (result: Result<
    Pubkey,
    PercolatorError,
>)
    ensures
        match initialize_refusal(accounts@, data@) {
            Some(e) => result == Err::<Pubkey, PercolatorError>(e),
            None => result is Ok && result->Ok_0@ == data@.subrange(0, 32),
        },
{
    if accounts.len() < 3 {
        return Err(PercolatorError::InvalidInstruction);
    }
    match validate_writable(&accounts[0]) {
        Err(e) => {
            return Err(e);
        },
        Ok(_) => {},
    }
    match validate_writable(&accounts[1]) {
        Err(e) => {
            return Err(e);
        },
        Ok(_) => {},
    }
    if data.len() < 32 {
        return Err(PercolatorError::InvalidInstruction);
    }
    Ok(read_pubkey(data, 0))
}

/// Decodes a request to initialize a portfolio and returns the user it names.
/// The portfolio has to be writable; the payer has to sign and be writable.
pub fn process_initialize_portfolio_inner(accounts: &Vec<AccountSummary>, data: &[u8]) -> (result:
    Result<Pubkey, PercolatorError>)
    ensures
        match initialize_portfolio_refusal(accounts@, data@) {
            Some(e) => result == Err::<Pubkey, PercolatorError>(e),
            None => result is Ok && result->Ok_0@ == data@.subrange(0, 32),
        },
{
    if accounts.len() < 2 {
        return Err(PercolatorError::InvalidInstruction);
    }
    if data.len() < 32 {
        return Err(PercolatorError::InvalidInstruction);
    }
    let user: Pubkey = read_pubkey(data, 0);
    if !accounts[0].is_writable {
        return Err(PercolatorError::InvalidAccount);
    }
    if !accounts[1].is_signer {
        return Err(PercolatorError::Unauthorized);
    }
    if !accounts[1].is_writable {
        return Err(PercolatorError::InvalidAccount);
    }
    Ok(user)
}

/// Decodes a deposit and returns its amount. The portfolio has to be owned
/// by the program and writable, the user writable.
pub fn process_deposit_inner(program_id: &Pubkey, accounts: &Vec<AccountSummary>, data: &[u8])
    -> (result: Result<u64, PercolatorError>)
    ensures
        result == deposit_decoded(*program_id, accounts@, data@),
{
    if accounts.len() < 3 {
        return Err(PercolatorError::InvalidInstruction);
    }
    match validate_owned_writable(&accounts[0], program_id) {
        Err(e) => {
            return Err(e);
        },
        Ok(_) => {},
    }
    match validate_writable(&accounts[1]) {
        Err(e) => {
            return Err(e);
        },
        Ok(_) => {},
    }
    if data.len() < 8 {
        return Err(PercolatorError::InvalidInstruction);
    }
    Ok(read_u64_le(data, 0))
}

/// Decodes a withdrawal and returns its amount. The portfolio has to be
/// owned by the program and writable, the user writable, the registry owned
/// by the program.
pub fn process_withdraw_inner(program_id: &Pubkey, accounts: &Vec<AccountSummary>, data: &[u8])
    -> (result: Result<u64, PercolatorError>)
    ensures
        result == withdraw_decoded(*program_id, accounts@, data@),
{
    if accounts.len() < 4 {
        return Err(PercolatorError::InvalidInstruction);
    }
    match validate_owned_writable(&accounts[0], program_id) {
        Err(e) => {
            return Err(e);
        },
        Ok(_) => {},
    }
    match validate_writable(&accounts[1]) {
        Err(e) => {
            return Err(e);
        },
        Ok(_) => {},
    }
    match validate_owner(&accounts[3], program_id) {
        Err(e) => {
            return Err(e);
        },
        Ok(_) => {},
    }
    if data.len() < 8 {
        return Err(PercolatorError::InvalidInstruction);
    }
    Ok(read_u64_le(data, 0))
}

/// Checks that the first `count` of the listed accounts are owned by the
/// program and writable.
fn validate_all_owned_writable(
    program_id: &Pubkey,
    accounts: &Vec<AccountSummary>,
    indices: [usize; 4],
    count: usize,
) -> (result: Result<(), PercolatorError>)
    requires
        count <= 4,
        forall|k: int| 0 <= k < count ==> indices@[k] < accounts@.len(),
    ensures
        (exists|k: int|
            0 <= k < count && owned_writable_verdict(
                accounts@[#[trigger] indices@[k] as int],
                *program_id,
            ) is Err) ==> result == Err::<(), PercolatorError>(PercolatorError::InvalidAccount),
        (forall|k: int|
            0 <= k < count ==> owned_writable_verdict(
                accounts@[#[trigger] indices@[k] as int],
                *program_id,
            ) is Ok) ==> result == Ok::<(), PercolatorError>(()),
{
    let mut k: usize = 0;
    while k < count
        invariant
            k <= count <= 4,
            forall|j: int| 0 <= j < count ==> indices@[j] < accounts@.len(),
            forall|j: int|
                0 <= j < k ==> owned_writable_verdict(
                    accounts@[#[trigger] indices@[j] as int],
                    *program_id,
                ) is Ok,
        decreases count - k,
    {
        match validate_owned_writable(&accounts[indices[k]], program_id) {
            Err(_) => {
                return Err(PercolatorError::InvalidAccount);
            },
            Ok(_) => {},
        }
        k += 1;
    }
    Ok(())
}

/// Decodes a liquidation. The portfolio, the counterparty pool, the registry
/// and the vault have to be owned by the program and writable, and the
/// request has to bring one account for every oracle and two for every venue.
pub fn process_liquidate_user_inner(program_id: &Pubkey, accounts: &Vec<AccountSummary>, data: &[u8])
    -> (result: Result<LiquidateUserArgs, PercolatorError>)
    ensures
        result == liquidate_decoded(*program_id, accounts@, data@),
{
    if accounts.len() < 7 {
        return Err(PercolatorError::InvalidInstruction);
    }
    let indices: [usize; 4] = [0, 1, 2, 3];
    match validate_all_owned_writable(program_id, accounts, indices, 4) {
        Err(e) => {
            return Err(e);
        },
        Ok(_) => {
            assert(owned_writable_verdict(accounts@[indices@[0] as int], *program_id) is Ok);
            assert(owned_writable_verdict(accounts@[indices@[1] as int], *program_id) is Ok);
            assert(owned_writable_verdict(accounts@[indices@[2] as int], *program_id) is Ok);
            assert(owned_writable_verdict(accounts@[indices@[3] as int], *program_id) is Ok);
        },
    }
    if data.len() < 11 {
        return Err(PercolatorError::InvalidInstruction);
    }
    let num_oracles: usize = data[0] as usize;
    let num_slabs: usize = data[1] as usize;
    let is_preliq: bool = data[2] != 0;
    let current_ts: u64 = read_u64_le(data, 3);
    let required_accounts: usize = 7 + num_oracles + num_slabs * 2;
    if accounts.len() < required_accounts {
        return Err(PercolatorError::InvalidInstruction);
    }
    Ok(LiquidateUserArgs { num_oracles, num_slabs, is_preliq, current_ts })
}

/// Decodes a request to burn shares of a liquidity pool. The portfolio has
/// to be owned by the program and writable.
pub fn process_burn_lp_shares_inner(program_id: &Pubkey, accounts: &Vec<AccountSummary>, data: &[u8])
    -> (result: Result<BurnLpSharesArgs, PercolatorError>)
    ensures
        match burn_lp_shares_refusal(*program_id, accounts@, data@) {
            Some(e) => result == Err::<BurnLpSharesArgs, PercolatorError>(e),
            None => result is Ok && burn_lp_shares_decoded(data@, result->Ok_0),
        },
{
    if accounts.len() < 2 {
        return Err(PercolatorError::InvalidInstruction);
    }
    match validate_owned_writable(&accounts[0], program_id) {
        Err(e) => {
            return Err(e);
        },
        Ok(_) => {},
    }
    if data.len() < 64 {
        return Err(PercolatorError::InvalidInstruction);
    }
    Ok(
        BurnLpSharesArgs {
            market_id: read_pubkey(data, 0),
            shares_to_burn: read_u64_le(data, 32),
            current_share_price: read_i64_le(data, 40),
            current_ts: read_u64_le(data, 48),
            max_staleness_seconds: read_u64_le(data, 56),
        },
    )
}

/// Decodes a request to cancel resting orders of a liquidity provider. The
/// portfolio has to be owned by the program and writable.
pub fn process_cancel_lp_orders_inner(
    program_id: &Pubkey,
    accounts: &Vec<AccountSummary>,
    data: &[u8],
) -> (result: Result<CancelLpOrdersArgs, PercolatorError>)
    ensures
        match cancel_lp_orders_refusal(*program_id, accounts@, data@) {
            Some(e) => result == Err::<CancelLpOrdersArgs, PercolatorError>(e),
            None => result is Ok && cancel_lp_orders_decoded(data@, result->Ok_0),
        },
{
    if accounts.len() < 2 {
        return Err(PercolatorError::InvalidInstruction);
    }
    match validate_owned_writable(&accounts[0], program_id) {
        Err(e) => {
            return Err(e);
        },
        Ok(_) => {},
    }
    if data.len() < 65 {
        return Err(PercolatorError::InvalidInstruction);
    }
    let market_id: Pubkey = read_pubkey(data, 0);
    let order_count: usize = data[32] as usize;
    if order_count > MAX_CANCEL_ORDERS {
        return Err(PercolatorError::InvalidInstruction);
    }
    if data.len() < 65 + 8 * order_count {
        return Err(PercolatorError::InvalidInstruction);
    }
    let mut order_ids: Vec<u64> = Vec::new();
    let mut i: usize = 0;
    while i < order_count
        invariant
            i <= order_count <= MAX_CANCEL_ORDERS,
            data@.len() >= 65 + 8 * order_count,
            order_ids@.len() == i,
            forall|j: int| 0 <= j < i ==> #[trigger] order_ids@[j] == u64_le(data@, 33 + 8 * j),
        decreases order_count - i,
    {
        order_ids.push(read_u64_le(data, 33 + 8 * i));
        i += 1;
    }
    let freed_quote: u128 = read_u128_le(data, 33 + 8 * order_count);
    let freed_base: u128 = read_u128_le(data, 49 + 8 * order_count);
    Ok(CancelLpOrdersArgs { market_id, order_ids, freed_quote, freed_base })
}

/// Decodes a trade request: the count of splits, the order type, then for
/// every split its side, quantity and limit price, and after the last split,
/// where the request goes on, the leverage. Every split takes the address of
/// its venue from the accounts that follow the seven fixed ones.
pub fn process_execute_cross_slab_inner(
    program_id: &Pubkey,
    accounts: &Vec<AccountSummary>,
    data: &[u8],
) -> (result: Result<ExecuteCrossSlabArgs, PercolatorError>)
    ensures
        match execute_header_refusal(*program_id, accounts@, data@) {
            Some(e) => result == Err::<ExecuteCrossSlabArgs, PercolatorError>(e),
            None => match splits_refusal(data@, data@[0] as int) {
                Some(e) => result == Err::<ExecuteCrossSlabArgs, PercolatorError>(e),
                None => result is Ok && execute_decoded(accounts@, data@, result->Ok_0),
            },
        },
{
    if accounts.len() < EXECUTE_BASE_ACCOUNTS {
        return Err(PercolatorError::InvalidInstruction);
    }
    let indices: [usize; 4] = [0, 2, 3, 0];
    match validate_all_owned_writable(program_id, accounts, indices, 3) {
        Err(e) => {
            return Err(e);
        },
        Ok(_) => {
            assert(owned_writable_verdict(accounts@[indices@[0] as int], *program_id) is Ok);
            assert(owned_writable_verdict(accounts@[indices@[1] as int], *program_id) is Ok);
            assert(owned_writable_verdict(accounts@[indices@[2] as int], *program_id) is Ok);
        },
    }
    if data.len() < 2 {
        return Err(PercolatorError::InvalidInstruction);
    }
    let num_splits: usize = data[0] as usize;
    let order_type: u8 = data[1];
    if num_splits == 0 {
        return Err(PercolatorError::InvalidInstruction);
    }
    if order_type > 1 {
        return Err(PercolatorError::InvalidOrderType);
    }
    if accounts.len() < EXECUTE_BASE_ACCOUNTS + num_splits * 4 {
        return Err(PercolatorError::InvalidInstruction);
    }
    if num_splits > MAX_SPLITS {
        return Err(PercolatorError::InvalidInstruction);
    }
    let mut splits: Vec<SlabSplit> = Vec::new();
    let mut i: usize = 0;
    while i < num_splits
        invariant
            i <= num_splits <= MAX_SPLITS,
            num_splits == data@[0],
            data@.len() >= 2,
            execute_header_refusal(*program_id, accounts@, data@) is None,
            accounts@.len() >= EXECUTE_BASE_ACCOUNTS + num_splits * 4,
            splits@.len() == i,
            splits_refusal(data@, i as int) is None,
            forall|j: int| 0 <= j < i ==> split_decoded(accounts@, data@, j, #[trigger] splits@[j]),
        decreases num_splits - i,
    {
        let at: usize = 2 + SPLIT_LEN * i;
        if data.len() < at + SPLIT_LEN {
            proof {
                assert(splits_refusal(data@, i as int + 1) == Some(
                    PercolatorError::InvalidInstruction,
                ));
                lemma_splits_refused(data@, i as int + 1, num_splits as int);
            }
            return Err(PercolatorError::InvalidInstruction);
        }
        let side: u8 = data[at];
        let qty: i64 = read_i64_le(data, at + 1);
        let limit_px: i64 = read_i64_le(data, at + 9);
        if side > 1 {
            proof {
                assert(splits_refusal(data@, i as int + 1) == Some(PercolatorError::InvalidSide));
                lemma_splits_refused(data@, i as int + 1, num_splits as int);
            }
            return Err(PercolatorError::InvalidSide);
        }
        let slab_id: Pubkey = accounts[EXECUTE_BASE_ACCOUNTS + i].key;
        splits.push(SlabSplit { slab_id, qty, side, limit_px });
        i += 1;
    }
    let end: usize = 2 + SPLIT_LEN * num_splits;
    let leverage: u8 = if data.len() > end {
        data[end]
    } else {
        DEFAULT_LEVERAGE
    };
    Ok(ExecuteCrossSlabArgs { order_type, leverage, splits })
}

/// Decodes a request to the router. The first byte names the request, from
/// 0 to 7 in this order: initialize, initialize a portfolio, deposit,
/// withdraw, execute a trade, liquidate, burn shares, cancel orders. The rest
/// are the fields of the request. An empty request and an unknown first byte
/// are refused.
pub fn process_instruction(program_id: &Pubkey, accounts: &Vec<AccountSummary>, instruction_data: &[u8])
    -> (result: Result<RouterInstruction, PercolatorError>)
    ensures
        instruction_data@.len() == 0 || instruction_data@[0] > 7 ==> result is Err && result->Err_0
            == PercolatorError::InvalidInstruction,
        instruction_data@.len() > 0 && instruction_data@[0] <= 7 ==> request_decoded(
            *program_id,
            accounts@,
            instruction_data@[0],
            instruction_data@.subrange(1, instruction_data@.len() as int),
            result,
        ),
{
    if instruction_data.len() == 0 {
        return Err(PercolatorError::InvalidInstruction);
    }
    let discriminator: u8 = instruction_data[0];
    let data: &[u8] = slice_subrange(instruction_data, 1, instruction_data.len());
    if discriminator == 0 {
        match process_initialize_inner(accounts, data) {
            Ok(governance) => Ok(RouterInstruction::Initialize { governance }),
            Err(e) => Err(e),
        }
    } else if discriminator == 1 {
        match process_initialize_portfolio_inner(accounts, data) {
            Ok(user) => Ok(RouterInstruction::InitializePortfolio { user }),
            Err(e) => Err(e),
        }
    } else if discriminator == 2 {
        match process_deposit_inner(program_id, accounts, data) {
            Ok(amount) => Ok(RouterInstruction::Deposit { amount }),
            Err(e) => Err(e),
        }
    } else if discriminator == 3 {
        match process_withdraw_inner(program_id, accounts, data) {
            Ok(amount) => Ok(RouterInstruction::Withdraw { amount }),
            Err(e) => Err(e),
        }
    } else if discriminator == 4 {
        match process_execute_cross_slab_inner(program_id, accounts, data) {
            Ok(args) => Ok(RouterInstruction::ExecuteCrossSlab(args)),
            Err(e) => Err(e),
        }
    } else if discriminator == 5 {
        match process_liquidate_user_inner(program_id, accounts, data) {
            Ok(args) => Ok(RouterInstruction::LiquidateUser(args)),
            Err(e) => Err(e),
        }
    } else if discriminator == 6 {
        match process_burn_lp_shares_inner(program_id, accounts, data) {
            Ok(args) => Ok(RouterInstruction::BurnLpShares(args)),
            Err(e) => Err(e),
        }
    } else if discriminator == 7 {
        match process_cancel_lp_orders_inner(program_id, accounts, data) {
            Ok(args) => Ok(RouterInstruction::CancelLpOrders(args)),
            Err(e) => Err(e),
        }
    } else {
        Err(PercolatorError::InvalidInstruction)
    }
}

/// Tells whether `result` is what decoding the request named `discriminator`
/// with the fields `data` gives.
pub open spec fn request_decoded(
    program_id: Pubkey,
    accounts: Seq<AccountSummary>,
    discriminator: u8,
    data: Seq<u8>,
    result: Result<RouterInstruction, PercolatorError>,
) -> bool {
    if discriminator == 0 {
        match initialize_refusal(accounts, data) {
            Some(e) => result is Err && result->Err_0 == e,
            None => result matches Ok(RouterInstruction::Initialize { governance }) && governance@
                == data.subrange(0, 32),
        }
    } else if discriminator == 1 {
        match initialize_portfolio_refusal(accounts, data) {
            Some(e) => result is Err && result->Err_0 == e,
            None => result matches Ok(RouterInstruction::InitializePortfolio { user }) && user@
                == data.subrange(0, 32),
        }
    } else if discriminator == 2 {
        match deposit_decoded(program_id, accounts, data) {
            Err(e) => result is Err && result->Err_0 == e,
            Ok(expected) => result matches Ok(RouterInstruction::Deposit { amount }) && amount
                == expected,
        }
    } else if discriminator == 3 {
        match withdraw_decoded(program_id, accounts, data) {
            Err(e) => result is Err && result->Err_0 == e,
            Ok(expected) => result matches Ok(RouterInstruction::Withdraw { amount }) && amount
                == expected,
        }
    } else if discriminator == 4 {
        match execute_header_refusal(program_id, accounts, data) {
            Some(e) => result is Err && result->Err_0 == e,
            None => match splits_refusal(data, data[0] as int) {
                Some(e) => result is Err && result->Err_0 == e,
                None => result matches Ok(RouterInstruction::ExecuteCrossSlab(args))
                    && execute_decoded(accounts, data, args),
            },
        }
    } else if discriminator == 5 {
        match liquidate_decoded(program_id, accounts, data) {
            Err(e) => result is Err && result->Err_0 == e,
            Ok(expected) => result matches Ok(RouterInstruction::LiquidateUser(args)) && args
                == expected,
        }
    } else if discriminator == 6 {
        match burn_lp_shares_refusal(program_id, accounts, data) {
            Some(e) => result is Err && result->Err_0 == e,
            None => result matches Ok(RouterInstruction::BurnLpShares(args))
                && burn_lp_shares_decoded(data, args),
        }
    } else {
        match cancel_lp_orders_refusal(program_id, accounts, data) {
            Some(e) => result is Err && result->Err_0 == e,
            None => result matches Ok(RouterInstruction::CancelLpOrders(args))
                && cancel_lp_orders_decoded(data, args),
        }
    }
}

} // verus!
