//! Position records at rest: the fixed layout of 144 bytes, the tag that
//! tells a record from blank bytes, and the life of the account that holds it.
//!
//! The accounting never looks at bytes. A record is decoded when it is loaded
//! and encoded when it is saved; in between it is a typed value.

use crate::bytes::{
    i128_le, i64_le, read_i128_le, read_i64_le, read_pubkey, read_u128_le, read_u16_le,
    read_u32_le, read_u64_le, u128_le, u16_le, u32_le, u64_le, write_i128_le, write_i64_le,
    write_pubkey, write_u128_le, write_u16_le, write_u32_le, write_u64_le, write_zeros,
};
use crate::error::PercolatorError;
use crate::position_details::{PositionDetails, POSITION_DETAILS_MAGIC, POSITION_DETAILS_SIZE};
use vstd::prelude::*;

verus! {

/// Tells whether the fields of `record` are what `bytes` spell at the fixed
/// offsets of the layout.
pub open spec fn position_decoded(bytes: Seq<u8>, record: PositionDetails) -> bool {
    &&& bytes.len() == POSITION_DETAILS_SIZE
    &&& record.magic == u64_le(bytes, 0)
    &&& record.portfolio@ == bytes.subrange(8, 40)
    &&& record.slab_index == u16_le(bytes, 40)
    &&& record.instrument_index == u16_le(bytes, 42)
    &&& record.bump == bytes[44]
    &&& record.avg_entry_price == i64_le(bytes, 48)
    &&& record.total_qty == i64_le(bytes, 56)
    &&& record.realized_pnl == i128_le(bytes, 64)
    &&& record.total_fees == i128_le(bytes, 80)
    &&& record.trade_count == u32_le(bytes, 96)
    &&& record.last_update_ts == i64_le(bytes, 104)
    &&& record.margin_held == u128_le(bytes, 112)
    &&& record.leverage == bytes[128]
}

/// Tells whether `bytes` are the encoding of `record`: the fields at their
/// offsets, and zero in every gap.
pub open spec fn position_encoded(bytes: Seq<u8>, record: PositionDetails) -> bool {
    &&& position_decoded(bytes, record)
    &&& forall|j: int| 45 <= j < 48 ==> bytes[j] == 0
    &&& forall|j: int| 100 <= j < 104 ==> bytes[j] == 0
    &&& forall|j: int| 129 <= j < 144 ==> bytes[j] == 0
}

/// What loading an account with `data` and `lamports` gives: nothing for an
/// account that was never funded or never written, an error for one of the
/// wrong size or without the tag.
pub open spec fn load_outcome(data: Seq<u8>, lamports: u64) -> Result<bool, PercolatorError> {
    if data.len() == 0 || lamports == 0 {
        Ok(false)
    } else if data.len() != POSITION_DETAILS_SIZE || u64_le(data, 0) != POSITION_DETAILS_MAGIC {
        Err(PercolatorError::InvalidAccount)
    } else {
        Ok(true)
    }
}

/// Bytes spell one record only.
pub proof fn lemma_position_decoding_unique(bytes: Seq<u8>, a: PositionDetails, b: PositionDetails)
    requires
        position_decoded(bytes, a),
        position_decoded(bytes, b),
    ensures
        a == b,
{
    assert(a.portfolio =~= b.portfolio);
}

impl PositionDetails {
    /// Encodes the record in its layout of 144 bytes.
    pub fn to_bytes(&self) -> (bytes: Vec<u8>)
        ensures
            position_encoded(bytes@, *self),
    {
        let mut out: Vec<u8> = Vec::new();
        write_u64_le(&mut out, self.magic);
        write_pubkey(&mut out, &self.portfolio);
        let ghost s1 = out@;
        write_u16_le(&mut out, self.slab_index);
        write_u16_le(&mut out, self.instrument_index);
        out.push(self.bump);
        write_zeros(&mut out, 3);
        let ghost s2 = out@;
        write_i64_le(&mut out, self.avg_entry_price);
        write_i64_le(&mut out, self.total_qty);
        let ghost s3 = out@;
        write_i128_le(&mut out, self.realized_pnl);
        write_i128_le(&mut out, self.total_fees);
        let ghost s4 = out@;
        write_u32_le(&mut out, self.trade_count);
        write_zeros(&mut out, 4);
        write_i64_le(&mut out, self.last_update_ts);
        let ghost s5 = out@;
        write_u128_le(&mut out, self.margin_held);
        out.push(self.leverage);
        write_zeros(&mut out, 15);
        proof {
            assert(forall|j: int| 0 <= j < 40 ==> out@[j] == s1[j]);
            assert(forall|j: int| 0 <= j < 48 ==> out@[j] == s2[j]);
            assert(forall|j: int| 0 <= j < 64 ==> out@[j] == s3[j]);
            assert(forall|j: int| 0 <= j < 96 ==> out@[j] == s4[j]);
            assert(forall|j: int| 0 <= j < 112 ==> out@[j] == s5[j]);
            assert(s1.subrange(8, 40) == self.portfolio@);
            assert(out@.subrange(8, 40) =~= s1.subrange(8, 40));
        }
        out
    }

    /// Decodes a record from its layout. Fails when the bytes are not 144 or
    /// do not carry the tag; the gaps of the layout are not looked at.
    pub fn from_bytes(data: &[u8]) -> (result: Result<PositionDetails, PercolatorError>)
        ensures
            result is Ok <==> data@.len() == POSITION_DETAILS_SIZE && u64_le(data@, 0)
                == POSITION_DETAILS_MAGIC,
            result is Ok ==> position_decoded(data@, result->Ok_0),
            result is Err ==> result->Err_0 == PercolatorError::InvalidAccount,
    {
        if data.len() != POSITION_DETAILS_SIZE {
            return Err(PercolatorError::InvalidAccount);
        }
        let magic: u64 = read_u64_le(data, 0);
        if magic != POSITION_DETAILS_MAGIC {
            return Err(PercolatorError::InvalidAccount);
        }
        Ok(
            PositionDetails {
                magic,
                portfolio: read_pubkey(data, 8),
                slab_index: read_u16_le(data, 40),
                instrument_index: read_u16_le(data, 42),
                bump: data[44],
                avg_entry_price: read_i64_le(data, 48),
                total_qty: read_i64_le(data, 56),
                realized_pnl: read_i128_le(data, 64),
                total_fees: read_i128_le(data, 80),
                trade_count: read_u32_le(data, 96),
                last_update_ts: read_i64_le(data, 104),
                margin_held: read_u128_le(data, 112),
                leverage: data[128],
            },
        )
    }
}

/// Loads the position record of an account from its data and balance.
/// An account without data or without balance holds no record yet. An account
/// of the wrong size or without the tag is refused.
pub fn load_position_details(data: &[u8], lamports: u64) -> (result: Result<
    Option<PositionDetails>,
    PercolatorError,
>)
    ensures
        match load_outcome(data@, lamports) {
            Ok(present) => result is Ok && (result->Ok_0 is Some <==> present) && (present
                ==> position_decoded(data@, result->Ok_0->0)),
            Err(e) => result == Err::<Option<PositionDetails>, PercolatorError>(e),
        },
{
    if data.len() == 0 || lamports == 0 {
        return Ok(None);
    }
    match PositionDetails::from_bytes(data) {
        Ok(details) => Ok(Some(details)),
        Err(e) => Err(e),
    }
}

/// Saves a position record into the data of its account, which has to have
/// the size of a record. An account of another size is refused and left as
/// it was.
pub fn save_position_details(data: &mut Vec<u8>, details: &PositionDetails) -> (result: Result<
    (),
    PercolatorError,
>)
    ensures
        old(data)@.len() == POSITION_DETAILS_SIZE ==> result == Ok::<(), PercolatorError>(())
            && position_encoded(final(data)@, *details),
        old(data)@.len() != POSITION_DETAILS_SIZE ==> result == Err::<(), PercolatorError>(
            PercolatorError::InvalidAccount,
        ) && *final(data) == *old(data),
{
    if data.len() != POSITION_DETAILS_SIZE {
        return Err(PercolatorError::InvalidAccount);
    }
    *data = details.to_bytes();
    Ok(())
}

/// Closes the account of a position that went back to zero: its whole balance
/// goes to the recipient and its data is blanked. When the recipient's
/// balance would leave its range, nothing is changed.
pub fn close_position_details_pda(
    position_lamports: &mut u64,
    position_data: &mut Vec<u8>,
    recipient_lamports: &mut u64,
) -> (result: Result<(), PercolatorError>)
    ensures
        *old(recipient_lamports) + *old(position_lamports) > u64::MAX ==> result == Err::<
            (),
            PercolatorError,
        >(PercolatorError::Overflow) && *final(position_lamports) == *old(position_lamports)
            && *final(recipient_lamports) == *old(recipient_lamports) && *final(position_data)
            == *old(position_data),
        *old(recipient_lamports) + *old(position_lamports) <= u64::MAX ==> result == Ok::<
            (),
            PercolatorError,
        >(()) && *final(position_lamports) == 0 && *final(recipient_lamports) == *old(
            recipient_lamports,
        ) + *old(position_lamports) && final(position_data)@.len() == old(position_data)@.len()
            && forall|j: int| 0 <= j < final(position_data)@.len() ==> final(position_data)@[j] == 0,
{
    let total: u64 = match recipient_lamports.checked_add(*position_lamports) {
        Some(total) => total,
        None => {
            return Err(PercolatorError::Overflow);
        },
    };
    *position_lamports = 0;
    *recipient_lamports = total;
    let len: usize = position_data.len();
    let mut blank: Vec<u8> = Vec::new();
    write_zeros(&mut blank, len);
    *position_data = blank;
    Ok(())
}

/// What is to be done to the account of a position record once an operation
/// has settled.
#[derive(Clone, Copy, Debug, PartialEq, Eq, Structural)]
pub enum RecordAction {
    /// The book holds the record and the account has no data: the account is
    /// funded, allocated and assigned, and the record is saved into it.
    Create,
    /// The book holds the record and the account has data: the record is
    /// saved into it.
    Save,
    /// The book holds no record any more and the account still holds one: the
    /// account is closed and its balance refunded.
    Close,
    /// Neither the book nor the account holds a record: nothing is done.
    Leave,
}

/// What is to be done to the account of a position record, going by whether
/// the book holds the record, whether the account has data, and whether the
/// account holds a record.
pub open spec fn record_action_for(on_book: bool, account_has_data: bool, account_holds_record: bool)
    -> RecordAction {
    if on_book {
        if account_has_data {
            RecordAction::Save
        } else {
            RecordAction::Create
        }
    } else if account_holds_record {
        RecordAction::Close
    } else {
        RecordAction::Leave
    }
}

/// Decides what is to be done to the account of a position record once an
/// operation has settled: a record on the book is saved, into a new account
/// where the account has no data yet; a record that left the book is closed;
/// an account without a record is left alone.
pub fn record_action(on_book: bool, account_has_data: bool, account_holds_record: bool) -> (action:
    RecordAction)
    ensures
        action == record_action_for(on_book, account_has_data, account_holds_record),
{
    if on_book {
        if account_has_data {
            RecordAction::Save
        } else {
            RecordAction::Create
        }
    } else if account_holds_record {
        RecordAction::Close
    } else {
        RecordAction::Leave
    }
}

} // verus!
