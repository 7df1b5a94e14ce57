//! A venue's state at rest: a tag, a version, the sequence number at the
//! offset where the router reads it, the header, and the quote cache.

use crate::bytes::{
    i64_le, read_i64_le, read_pubkey, read_u32_le, read_u64_le, u32_le, u64_le, write_i64_le,
    write_pubkey, write_u32_le, write_u64_le,
};
use crate::error::PercolatorError;
use crate::slab::{QuoteCache, QuoteLevel, SlabHeader, SlabState};
use vstd::prelude::*;

verus! {

/// The tag `PERCSLAB`, read as a little-endian integer, that marks a venue.
pub const SLAB_MAGIC: u64 = 0x4241_4C53_4352_4550;

/// Version of the layout.
pub const SLAB_VERSION: u32 = 1;

/// Size of a venue's data.
pub const SLAB_LEN: usize = 269;

/// Tells whether `bytes` spell the price level `level` at `at`.
pub open spec fn level_at(bytes: Seq<u8>, at: int, level: QuoteLevel) -> bool {
    level.px == i64_le(bytes, at) && level.avail_qty == i64_le(bytes, at + 8)
}

/// Tells whether `slab` is what `bytes` spell.
pub open spec fn slab_decoded(bytes: Seq<u8>, slab: SlabState) -> bool {
    &&& bytes.len() == SLAB_LEN
    &&& u64_le(bytes, 0) == SLAB_MAGIC
    &&& u32_le(bytes, 8) == SLAB_VERSION
    &&& slab.header.seqno == u32_le(bytes, 12)
    &&& slab.header.lp_owner@ == bytes.subrange(16, 48)
    &&& slab.header.router_id@ == bytes.subrange(48, 80)
    &&& slab.header.instrument@ == bytes.subrange(80, 112)
    &&& slab.header.mark_px == i64_le(bytes, 112)
    &&& slab.header.taker_fee_bps == i64_le(bytes, 120)
    &&& slab.header.contract_size == i64_le(bytes, 128)
    &&& slab.header.bump == bytes[136]
    &&& slab.quote_cache.seqno_snapshot == u32_le(bytes, 137)
    &&& forall|i: int|
        0 <= i < 4 ==> level_at(bytes, 141 + 16 * i, #[trigger] slab.quote_cache.best_bids@[i])
    &&& forall|i: int|
        0 <= i < 4 ==> level_at(bytes, 205 + 16 * i, #[trigger] slab.quote_cache.best_asks@[i])
}

/// Bytes spell one venue only.
pub proof fn lemma_slab_decoding_unique(bytes: Seq<u8>, a: SlabState, b: SlabState)
    requires
        slab_decoded(bytes, a),
        slab_decoded(bytes, b),
    ensures
        a == b,
{
    assert(a.header.lp_owner =~= b.header.lp_owner);
    assert(a.header.router_id =~= b.header.router_id);
    assert(a.header.instrument =~= b.header.instrument);
    assert(a.quote_cache.best_bids =~= b.quote_cache.best_bids) by {
        assert forall|i: int| 0 <= i < 4 implies a.quote_cache.best_bids[i]
            == b.quote_cache.best_bids[i] by {
            assert(level_at(bytes, 141 + 16 * i, a.quote_cache.best_bids@[i]));
            assert(level_at(bytes, 141 + 16 * i, b.quote_cache.best_bids@[i]));
        }
    }
    assert(a.quote_cache.best_asks =~= b.quote_cache.best_asks) by {
        assert forall|i: int| 0 <= i < 4 implies a.quote_cache.best_asks[i]
            == b.quote_cache.best_asks[i] by {
            assert(level_at(bytes, 205 + 16 * i, a.quote_cache.best_asks@[i]));
            assert(level_at(bytes, 205 + 16 * i, b.quote_cache.best_asks@[i]));
        }
    }
}

/// Appends four price levels.
fn write_levels(out: &mut Vec<u8>, levels: &[QuoteLevel; 4])
    ensures
        final(out)@.len() == old(out)@.len() + 64,
        forall|j: int| 0 <= j < old(out)@.len() ==> #[trigger] final(out)@[j] == old(out)@[j],
        forall|i: int|
            0 <= i < 4 ==> level_at(final(out)@, old(out)@.len() + 16 * i, #[trigger] levels@[i]),
{
    let ghost start = out@.len() as int;
    let ghost begin = out@;
    let mut i: usize = 0;
    while i < 4
        invariant
            i <= 4,
            start == begin.len(),
            out@.len() == start + 16 * i,
            forall|j: int| 0 <= j < start ==> #[trigger] out@[j] == begin[j],
            forall|k: int| 0 <= k < i ==> level_at(out@, start + 16 * k, #[trigger] levels@[k]),
        decreases 4 - i,
    {
        let ghost before = out@;
        write_i64_le(out, levels[i].px);
        let ghost middle = out@;
        write_i64_le(out, levels[i].avail_qty);
        proof {
            assert(forall|j: int| 0 <= j < middle.len() ==> out@[j] == middle[j]);
            assert(forall|j: int| 0 <= j < before.len() ==> out@[j] == before[j]);
            assert forall|k: int| 0 <= k < i + 1 implies level_at(
                out@,
                start + 16 * k,
                #[trigger] levels@[k],
            ) by {
                if k < i {
                    assert(level_at(before, start + 16 * k, levels@[k]));
                }
            }
        }
        i += 1;
    }
}

/// Reads one price level.
fn read_level(data: &[u8], at: usize) -> (level: QuoteLevel)
    requires
        at + 16 <= data@.len(),
    ensures
        level_at(data@, at as int, level),
{
    let len: usize = data.len();
    QuoteLevel { px: read_i64_le(data, at), avail_qty: read_i64_le(data, at + 8) }
}

impl SlabState {
    /// Encodes the venue in its layout.
    pub fn to_bytes(&self) -> (out: Vec<u8>)
        ensures
            slab_decoded(out@, *self),
    {
        let mut out: Vec<u8> = Vec::new();
        write_u64_le(&mut out, SLAB_MAGIC);
        write_u32_le(&mut out, SLAB_VERSION);
        let ghost s0 = out@;
        write_u32_le(&mut out, self.header.seqno);
        write_pubkey(&mut out, &self.header.lp_owner);
        let ghost s1 = out@;
        write_pubkey(&mut out, &self.header.router_id);
        let ghost s2 = out@;
        write_pubkey(&mut out, &self.header.instrument);
        let ghost s3 = out@;
        write_i64_le(&mut out, self.header.mark_px);
        write_i64_le(&mut out, self.header.taker_fee_bps);
        let ghost s4 = out@;
        write_i64_le(&mut out, self.header.contract_size);
        out.push(self.header.bump);
        let ghost s5 = out@;
        write_u32_le(&mut out, self.quote_cache.seqno_snapshot);
        let ghost s6 = out@;
        write_levels(&mut out, &self.quote_cache.best_bids);
        let ghost s7 = out@;
        write_levels(&mut out, &self.quote_cache.best_asks);
        proof {
            assert(forall|j: int| 0 <= j < 12 ==> out@[j] == s0[j]);
            assert(forall|j: int| 0 <= j < 48 ==> out@[j] == s1[j]);
            assert(forall|j: int| 0 <= j < 80 ==> out@[j] == s2[j]);
            assert(forall|j: int| 0 <= j < 112 ==> out@[j] == s3[j]);
            assert(forall|j: int| 0 <= j < 128 ==> out@[j] == s4[j]);
            assert(forall|j: int| 0 <= j < 137 ==> out@[j] == s5[j]);
            assert(forall|j: int| 0 <= j < 141 ==> out@[j] == s6[j]);
            assert(forall|j: int| 0 <= j < 205 ==> out@[j] == s7[j]);
            assert(out@.subrange(16, 48) =~= s1.subrange(16, 48));
            assert(out@.subrange(48, 80) =~= s2.subrange(48, 80));
            assert(out@.subrange(80, 112) =~= s3.subrange(80, 112));
            assert forall|i: int| 0 <= i < 4 implies level_at(
                out@,
                141 + 16 * i,
                #[trigger] self.quote_cache.best_bids@[i],
            ) by {
                assert(level_at(s7, 141 + 16 * i, self.quote_cache.best_bids@[i]));
            }
        }
        out
    }

    /// Decodes a venue from the data of its account. Data of another size,
    /// without the tag or of another version are refused.
    pub fn from_bytes(data: &[u8]) -> (result: Result<SlabState, PercolatorError>)
        ensures
            result is Ok <==> data@.len() == SLAB_LEN && u64_le(data@, 0) == SLAB_MAGIC && u32_le(
                data@,
                8,
            ) == SLAB_VERSION,
            result is Ok ==> slab_decoded(data@, result->Ok_0),
            result is Err ==> result->Err_0 == PercolatorError::InvalidAccount,
    {
        if data.len() != SLAB_LEN {
            return Err(PercolatorError::InvalidAccount);
        }
        if read_u64_le(data, 0) != SLAB_MAGIC || read_u32_le(data, 8) != SLAB_VERSION {
            return Err(PercolatorError::InvalidAccount);
        }
        let best_bids: [QuoteLevel; 4] = [
            read_level(data, 141),
            read_level(data, 157),
            read_level(data, 173),
            read_level(data, 189),
        ];
        let best_asks: [QuoteLevel; 4] = [
            read_level(data, 205),
            read_level(data, 221),
            read_level(data, 237),
            read_level(data, 253),
        ];
        Ok(
            SlabState {
                header: SlabHeader {
                    seqno: read_u32_le(data, 12),
                    lp_owner: read_pubkey(data, 16),
                    router_id: read_pubkey(data, 48),
                    instrument: read_pubkey(data, 80),
                    mark_px: read_i64_le(data, 112),
                    taker_fee_bps: read_i64_le(data, 120),
                    contract_size: read_i64_le(data, 128),
                    bump: data[136],
                },
                quote_cache: QuoteCache {
                    seqno_snapshot: read_u32_le(data, 137),
                    best_bids,
                    best_asks,
                },
            },
        )
    }
}

} // verus!
