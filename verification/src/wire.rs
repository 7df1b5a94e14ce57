//! What the router and a venue exchange: the fill request, the sequence
//! number in the venue's header, and the fill receipt.

use crate::bytes::{
    i64_le, read_i64_le, read_u32_le, u32_le, write_i64_le, write_u32_le,
};
use crate::error::PercolatorError;
use crate::slab::FillReceipt;
use vstd::prelude::*;

verus! {

/// Discriminator of the venue's fill request.
pub const COMMIT_FILL_DISCRIMINATOR: u8 = 1;

/// Size of a fill request in bytes.
pub const COMMIT_FILL_LEN: usize = 23;

/// Offset of the sequence number in a venue's data.
pub const SLAB_SEQNO_OFFSET: usize = 12;

/// Size of a fill receipt in bytes.
pub const FILL_RECEIPT_LEN: usize = 40;

/// Tells whether `data` is the fill request with these fields: the
/// discriminator, the sequence fence, the order type, the side, the quantity
/// and the execution price.
pub open spec fn is_commit_fill(
    data: Seq<u8>,
    expected_seqno: u32,
    order_type: u8,
    side: u8,
    qty: i64,
    execution_price: i64,
) -> bool {
    &&& data.len() == COMMIT_FILL_LEN
    &&& data[0] == COMMIT_FILL_DISCRIMINATOR
    &&& u32_le(data, 1) == expected_seqno
    &&& data[5] == order_type
    &&& data[6] == side
    &&& i64_le(data, 7) == qty
    &&& i64_le(data, 15) == execution_price
}

/// The receipt that `data` spell: a mark that is set when it is not zero,
/// the sequence number, and the four figures of the fill.
pub open spec fn receipt_decoded(data: Seq<u8>) -> FillReceipt {
    FillReceipt {
        used: u32_le(data, 0) != 0,
        seqno_committed: u32_le(data, 4) as u32,
        filled_qty: i64_le(data, 8) as i64,
        vwap_px: i64_le(data, 16) as i64,
        notional: i64_le(data, 24) as i64,
        fee: i64_le(data, 32) as i64,
    }
}

/// Builds the fill request that the router sends to a venue.
pub fn encode_commit_fill(
    expected_seqno: u32,
    order_type: u8,
    side: u8,
    qty: i64,
    execution_price: i64,
) -> (data: Vec<u8>)
    ensures
        is_commit_fill(data@, expected_seqno, order_type, side, qty, execution_price),
{
    let mut data: Vec<u8> = Vec::new();
    data.push(COMMIT_FILL_DISCRIMINATOR);
    write_u32_le(&mut data, expected_seqno);
    data.push(order_type);
    data.push(side);
    let ghost head = data@;
    write_i64_le(&mut data, qty);
    let ghost middle = data@;
    write_i64_le(&mut data, execution_price);
    proof {
        assert(forall|j: int| 0 <= j < 7 ==> data@[j] == head[j]);
        assert(forall|j: int| 0 <= j < 15 ==> data@[j] == middle[j]);
    }
    data
}

/// Reads the sequence number from the data of a venue's account: the fence
/// for the request that follows. Data too short to hold a header is refused.
pub fn read_slab_seqno(slab_data: &[u8]) -> (result: Result<u32, PercolatorError>)
    ensures
        slab_data@.len() < 16 ==> result == Err::<u32, PercolatorError>(
            PercolatorError::InvalidAccount,
        ),
        slab_data@.len() >= 16 ==> result is Ok && result->Ok_0 == u32_le(
            slab_data@,
            SLAB_SEQNO_OFFSET as int,
        ),
{
    if slab_data.len() < 16 {
        return Err(PercolatorError::InvalidAccount);
    }
    Ok(read_u32_le(slab_data, SLAB_SEQNO_OFFSET))
}

/// Reads a fill receipt from the data of its account. Data too short to hold
/// a receipt is refused.
pub fn decode_receipt(data: &[u8]) -> (result: Result<FillReceipt, PercolatorError>)
    ensures
        data@.len() < FILL_RECEIPT_LEN ==> result == Err::<FillReceipt, PercolatorError>(
            PercolatorError::InvalidAccount,
        ),
        data@.len() >= FILL_RECEIPT_LEN ==> result == Ok::<FillReceipt, PercolatorError>(
            receipt_decoded(data@),
        ),
{
    if data.len() < FILL_RECEIPT_LEN {
        return Err(PercolatorError::InvalidAccount);
    }
    Ok(
        FillReceipt {
            used: read_u32_le(data, 0) != 0,
            seqno_committed: read_u32_le(data, 4),
            filled_qty: read_i64_le(data, 8),
            vwap_px: read_i64_le(data, 16),
            notional: read_i64_le(data, 24),
            fee: read_i64_le(data, 32),
        },
    )
}

/// Writes a fill receipt in the layout that `decode_receipt` reads. The mark
/// of a written receipt is one.
pub fn encode_receipt(receipt: &FillReceipt) -> (data: Vec<u8>)
    ensures
        data@.len() == FILL_RECEIPT_LEN,
        receipt_decoded(data@) == *receipt,
        u32_le(data@, 0) <= 1,
{
    let mut data: Vec<u8> = Vec::new();
    let mark: u32 = if receipt.used {
        1
    } else {
        0
    };
    write_u32_le(&mut data, mark);
    write_u32_le(&mut data, receipt.seqno_committed);
    let ghost s1 = data@;
    write_i64_le(&mut data, receipt.filled_qty);
    let ghost s2 = data@;
    write_i64_le(&mut data, receipt.vwap_px);
    let ghost s3 = data@;
    write_i64_le(&mut data, receipt.notional);
    let ghost s4 = data@;
    write_i64_le(&mut data, receipt.fee);
    proof {
        assert(forall|j: int| 0 <= j < 8 ==> data@[j] == s1[j]);
        assert(forall|j: int| 0 <= j < 16 ==> data@[j] == s2[j]);
        assert(forall|j: int| 0 <= j < 24 ==> data@[j] == s3[j]);
        assert(forall|j: int| 0 <= j < 32 ==> data@[j] == s4[j]);
    }
    data
}

} // verus!
