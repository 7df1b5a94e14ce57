//! The requests that a venue accepts, decoded from their bytes.
//!
//! A request starts with one byte that names it. The rest is laid out field
//! after field, little-endian, without gaps.

use crate::accounts::{
    owned_writable_verdict, validate_owned_writable, validate_writable, AccountSummary,
};
use crate::bytes::{i64_le, read_i64_le, read_pubkey, read_u32_le, u32_le};
use crate::error::PercolatorError;
use crate::slab::{OrderType, Side};
use crate::wire::is_commit_fill;
use pinocchio::pubkey::Pubkey;
use vstd::prelude::*;
use vstd::slice::slice_subrange;

verus! {

/// Size of the fields of a request to initialize a venue.
pub const INITIALIZE_SLAB_LEN: usize = 121;

/// Size of the fields of a fill request.
pub const COMMIT_FILL_ARGS_LEN: usize = 22;

/// The fields of a request to initialize a venue.
#[derive(Clone, Copy, Debug, PartialEq, Eq)]
pub struct InitializeSlabArgs {
    /// Liquidity provider that owns the venue.
    pub lp_owner: Pubkey,
    /// Router that alone may ask for fills.
    pub router_id: Pubkey,
    /// Instrument traded on the venue.
    pub instrument: Pubkey,
    /// Mark price, six decimals.
    pub mark_px: i64,
    /// Taker fee in basis points.
    pub taker_fee_bps: i64,
    /// Contract size, six decimals.
    pub contract_size: i64,
    /// Bump seed of the venue's address.
    pub bump: u8,
    /// Whether the venue's account has no balance yet and has to be created.
    pub needs_creation: bool,
}

/// The fields of a fill request.
#[derive(Clone, Copy, Debug, PartialEq, Eq, Structural)]
pub struct CommitFillArgs {
    /// Sequence number that the caller read from the venue.
    pub expected_seqno: u32,
    /// Type of the order.
    pub order_type: OrderType,
    /// Side of the order.
    pub side: Side,
    /// Quantity, six decimals.
    pub qty: i64,
    /// Execution price, six decimals.
    pub limit_px: i64,
}

/// A request to a venue.
#[derive(Clone, Copy, Debug, PartialEq, Eq)]
pub enum SlabInstruction {
    Initialize(InitializeSlabArgs),
    CommitFill(CommitFillArgs),
}

/// Why a request to initialize a venue is refused, if it is: it needs three
/// accounts, the venue and the payer writable, and all its fields.
pub open spec fn initialize_slab_refusal(accounts: Seq<AccountSummary>, data: Seq<u8>) -> Option<
    PercolatorError,
> {
    if accounts.len() < 3 {
        Some(PercolatorError::InvalidInstruction)
    } else if !accounts[0].is_writable || !accounts[1].is_writable {
        Some(PercolatorError::InvalidAccount)
    } else if data.len() < INITIALIZE_SLAB_LEN {
        Some(PercolatorError::InvalidInstruction)
    } else {
        None
    }
}

/// Tells whether `args` are the fields that `data` spell.
pub open spec fn initialize_slab_decoded(
    accounts: Seq<AccountSummary>,
    data: Seq<u8>,
    args: InitializeSlabArgs,
) -> bool {
    &&& args.lp_owner@ == data.subrange(0, 32)
    &&& args.router_id@ == data.subrange(32, 64)
    &&& args.instrument@ == data.subrange(64, 96)
    &&& args.mark_px == i64_le(data, 96)
    &&& args.taker_fee_bps == i64_le(data, 104)
    &&& args.contract_size == i64_le(data, 112)
    &&& args.bump == data[120]
    &&& args.needs_creation == (accounts[0].lamports == 0)
}

/// The fields of a fill request, or why the request is refused: it needs
/// four accounts, the venue owned by the program and writable, the receipt
/// writable, all its fields, a known order type and a known side.
pub open spec fn commit_fill_decoded(
    program_id: Pubkey,
    accounts: Seq<AccountSummary>,
    data: Seq<u8>,
) -> Result<CommitFillArgs, PercolatorError> {
    if accounts.len() < 4 {
        Err(PercolatorError::InvalidInstruction)
    } else if owned_writable_verdict(accounts[0], program_id) is Err || !accounts[1].is_writable {
        Err(PercolatorError::InvalidAccount)
    } else if data.len() < COMMIT_FILL_ARGS_LEN {
        Err(PercolatorError::InvalidInstruction)
    } else {
        match OrderType::spec_from_u8(data[4]) {
            Err(e) => Err(e),
            Ok(order_type) => match Side::spec_from_u8(data[5]) {
                Err(e) => Err(e),
                Ok(side) => Ok(
                    CommitFillArgs {
                        expected_seqno: u32_le(data, 0) as u32,
                        order_type,
                        side,
                        qty: i64_le(data, 6) as i64,
                        limit_px: i64_le(data, 14) as i64,
                    },
                ),
            },
        }
    }
}

/// Decodes a request to initialize a venue.
pub fn process_initialize_inner(accounts: &Vec<AccountSummary>, data: &[u8]) -> (result: Result<
    InitializeSlabArgs,
    PercolatorError,
>)
    ensures
        match initialize_slab_refusal(accounts@, data@) {
            Some(e) => result == Err::<InitializeSlabArgs, PercolatorError>(e),
            None => result is Ok && initialize_slab_decoded(accounts@, data@, result->Ok_0),
        },
{
    if accounts.len() < 3 {
        return Err(PercolatorError::InvalidInstruction);
    }
    match validate_writable(&accounts[0]) {
        Err(e) => {
            return Err(e);
        },
        Ok(_) => {},
    }
    match validate_writable(&accounts[1]) {
        Err(e) => {
            return Err(e);
        },
        Ok(_) => {},
    }
    if data.len() < INITIALIZE_SLAB_LEN {
        return Err(PercolatorError::InvalidInstruction);
    }
    Ok(
        InitializeSlabArgs {
            lp_owner: read_pubkey(data, 0),
            router_id: read_pubkey(data, 32),
            instrument: read_pubkey(data, 64),
            mark_px: read_i64_le(data, 96),
            taker_fee_bps: read_i64_le(data, 104),
            contract_size: read_i64_le(data, 112),
            bump: data[120],
            needs_creation: accounts[0].lamports == 0,
        },
    )
}

/// Decodes a fill request.
pub fn process_commit_fill_inner(program_id: &Pubkey, accounts: &Vec<AccountSummary>, data: &[u8])
    -> (result: Result<CommitFillArgs, PercolatorError>)
    ensures
        result == commit_fill_decoded(*program_id, accounts@, data@),
{
    if accounts.len() < 4 {
        return Err(PercolatorError::InvalidInstruction);
    }
    match validate_owned_writable(&accounts[0], program_id) {
        Err(e) => {
            return Err(e);
        },
        Ok(_) => {},
    }
    match validate_writable(&accounts[1]) {
        Err(e) => {
            return Err(e);
        },
        Ok(_) => {},
    }
    if data.len() < COMMIT_FILL_ARGS_LEN {
        return Err(PercolatorError::InvalidInstruction);
    }
    let expected_seqno: u32 = read_u32_le(data, 0);
    let qty: i64 = read_i64_le(data, 6);
    let limit_px: i64 = read_i64_le(data, 14);
    let order_type: OrderType = match OrderType::from_u8(data[4]) {
        Ok(order_type) => order_type,
        Err(e) => {
            return Err(e);
        },
    };
    let side: Side = match Side::from_u8(data[5]) {
        Ok(side) => side,
        Err(e) => {
            return Err(e);
        },
    };
    Ok(CommitFillArgs { expected_seqno, order_type, side, qty, limit_px })
}

/// Decodes a request to a venue: the first byte names it, 0 to initialize
/// and 1 to fill; the rest are its fields. An empty request and an unknown
/// first byte are refused.
pub fn process_instruction(program_id: &Pubkey, accounts: &Vec<AccountSummary>, instruction_data: &[u8])
    -> (result: Result<SlabInstruction, PercolatorError>)
    ensures
        instruction_data@.len() == 0 || instruction_data@[0] > 1 ==> result is Err && result->Err_0
            == PercolatorError::InvalidInstruction,
        instruction_data@.len() > 0 && instruction_data@[0] == 0 ==> match initialize_slab_refusal(
            accounts@,
            instruction_data@.subrange(1, instruction_data@.len() as int),
        ) {
            Some(e) => result is Err && result->Err_0 == e,
            None => result matches Ok(SlabInstruction::Initialize(args))
                && initialize_slab_decoded(
                accounts@,
                instruction_data@.subrange(1, instruction_data@.len() as int),
                args,
            ),
        },
        instruction_data@.len() > 0 && instruction_data@[0] == 1 ==> match commit_fill_decoded(
            *program_id,
            accounts@,
            instruction_data@.subrange(1, instruction_data@.len() as int),
        ) {
            Err(e) => result is Err && result->Err_0 == e,
            Ok(args) => result matches Ok(SlabInstruction::CommitFill(found)) && found == args,
        },
{
    if instruction_data.len() == 0 {
        return Err(PercolatorError::InvalidInstruction);
    }
    let discriminator: u8 = instruction_data[0];
    let data: &[u8] = slice_subrange(instruction_data, 1, instruction_data.len());
    if discriminator == 0 {
        match process_initialize_inner(accounts, data) {
            Ok(args) => Ok(SlabInstruction::Initialize(args)),
            Err(e) => Err(e),
        }
    } else if discriminator == 1 {
        match process_commit_fill_inner(program_id, accounts, data) {
            Ok(args) => Ok(SlabInstruction::CommitFill(args)),
            Err(e) => Err(e),
        }
    } else {
        Err(PercolatorError::InvalidInstruction)
    }
}

/// What the router encodes, the venue decodes: the fields of a fill request
/// come out of the venue's decoder as they went into the router's encoder.
pub proof fn lemma_fill_request_round_trip(
    program_id: Pubkey,
    accounts: Seq<AccountSummary>,
    data: Seq<u8>,
    expected_seqno: u32,
    order_type: u8,
    side: u8,
    qty: i64,
    execution_price: i64,
)
    requires
        is_commit_fill(data, expected_seqno, order_type, side, qty, execution_price),
        accounts.len() >= 4,
        owned_writable_verdict(accounts[0], program_id) is Ok,
        accounts[1].is_writable,
    ensures
        commit_fill_decoded(program_id, accounts, data.subrange(1, data.len() as int)) == (
        match OrderType::spec_from_u8(order_type) {
            Err(e) => Err(e),
            Ok(kind) => match Side::spec_from_u8(side) {
                Err(e) => Err(e),
                Ok(direction) => Ok(
                    CommitFillArgs {
                        expected_seqno,
                        order_type: kind,
                        side: direction,
                        qty,
                        limit_px: execution_price,
                    },
                ),
            },
        }),
{
    let fields = data.subrange(1, data.len() as int);
    assert(fields.len() == COMMIT_FILL_ARGS_LEN);
    assert forall|j: int| 0 <= j < fields.len() implies fields[j] == data[j + 1] by {}
    assert(u32_le(fields, 0) == u32_le(data, 1));
    assert(i64_le(fields, 6) == i64_le(data, 7));
    assert(i64_le(fields, 14) == i64_le(data, 15));
}

} // verus!
