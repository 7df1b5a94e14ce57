//! The registry at rest: a fixed layout with room for every venue a registry
//! can hold. The router's address comes first, so that a blank registry is
//! told from an initialized one by its leading bytes.

use crate::bytes::{
    appended, read_pubkey, read_u128_le, read_u16_le, read_u64_le, u128_le, u16_le, u64_le,
    write_pubkey, write_u128_le, write_u16_le, write_u64_le, write_zeros,
};
use crate::error::PercolatorError;
use crate::insurance::{InsuranceParams, InsuranceState};
use crate::registry::{SlabEntry, SlabRegistry, SlabRegistryView, MAX_SLABS};
use crate::vesting::{GlobalHaircut, PnlVestingParams};
use vstd::prelude::*;

verus! {

/// Size of the fields of a registry that come before its venues.
pub const REGISTRY_HEADER_LEN: usize = 149;

/// Size of one venue's entry.
pub const SLAB_ENTRY_LEN: usize = 160;

/// Size of a registry's data.
pub const REGISTRY_LEN: usize = 41_109;

/// Tells whether `bytes` spell the entry `entry` at `at`.
pub open spec fn entry_at(bytes: Seq<u8>, at: int, entry: SlabEntry) -> bool {
    &&& entry.slab_id@ == bytes.subrange(at, at + 32)
    &&& entry.version_hash@ == bytes.subrange(at + 32, at + 64)
    &&& entry.oracle_id@ == bytes.subrange(at + 64, at + 96)
    &&& entry.imr == u64_le(bytes, at + 96)
    &&& entry.mmr == u64_le(bytes, at + 104)
    &&& entry.maker_fee_cap == u64_le(bytes, at + 112)
    &&& entry.taker_fee_cap == u64_le(bytes, at + 120)
    &&& entry.latency_sla_ms == u64_le(bytes, at + 128)
    &&& entry.max_exposure == u128_le(bytes, at + 136)
    &&& entry.registered_ts == u64_le(bytes, at + 152)
}

/// Tells whether the fields of `registry`, but for its venues, are what
/// `bytes` spell at the fixed offsets of the layout.
pub open spec fn registry_header_decoded(bytes: Seq<u8>, registry: SlabRegistryView) -> bool {
    &&& registry.router_id@ == bytes.subrange(0, 32)
    &&& registry.governance@ == bytes.subrange(32, 64)
    &&& registry.bump == bytes[64]
    &&& registry.slabs.len() == u16_le(bytes, 65)
    &&& registry.insurance_params.fee_bps_to_insurance == u16_le(bytes, 67)
    &&& registry.insurance_state.vault_balance == u128_le(bytes, 69)
    &&& registry.insurance_state.total_fees_accrued == u128_le(bytes, 85)
    &&& registry.insurance_state.total_payouts == u128_le(bytes, 101)
    &&& registry.insurance_state.uncovered_bad_debt == u128_le(bytes, 117)
    &&& registry.global_haircut.pnl_index == u64_le(bytes, 133)
    &&& registry.pnl_vesting_params.vesting_slots == u64_le(bytes, 141)
}

/// Tells whether `registry` is what `bytes` spell.
pub open spec fn registry_decoded(bytes: Seq<u8>, registry: SlabRegistryView) -> bool {
    &&& bytes.len() == REGISTRY_LEN
    &&& registry.slabs.len() <= MAX_SLABS
    &&& registry_header_decoded(bytes, registry)
    &&& forall|i: int|
        0 <= i < registry.slabs.len() ==> entry_at(
            bytes,
            REGISTRY_HEADER_LEN + SLAB_ENTRY_LEN * i,
            #[trigger] registry.slabs[i],
        )
}

/// Bytes spell one registry only.
pub proof fn lemma_registry_decoding_unique(bytes: Seq<u8>, a: SlabRegistryView, b: SlabRegistryView)
    requires
        registry_decoded(bytes, a),
        registry_decoded(bytes, b),
    ensures
        a == b,
{
    assert(a.router_id =~= b.router_id);
    assert(a.governance =~= b.governance);
    assert(a.slabs =~= b.slabs) by {
        assert forall|i: int| 0 <= i < a.slabs.len() implies a.slabs[i] == b.slabs[i] by {
            assert(entry_at(bytes, REGISTRY_HEADER_LEN + SLAB_ENTRY_LEN * i, a.slabs[i]));
            assert(entry_at(bytes, REGISTRY_HEADER_LEN + SLAB_ENTRY_LEN * i, b.slabs[i]));
            assert(a.slabs[i].slab_id =~= b.slabs[i].slab_id);
            assert(a.slabs[i].version_hash =~= b.slabs[i].version_hash);
            assert(a.slabs[i].oracle_id =~= b.slabs[i].oracle_id);
        }
    }
}

/// Bytes that agree on the header spell the same header.
proof fn lemma_registry_header_kept(before: Seq<u8>, after: Seq<u8>, registry: SlabRegistryView)
    requires
        before.len() >= REGISTRY_HEADER_LEN,
        after.len() >= before.len(),
        forall|j: int| 0 <= j < before.len() ==> #[trigger] after[j] == before[j],
        registry_header_decoded(before, registry),
    ensures
        registry_header_decoded(after, registry),
{
    assert(after.subrange(0, 32) =~= before.subrange(0, 32));
    assert(after.subrange(32, 64) =~= before.subrange(32, 64));
}

/// Bytes that agree on an entry spell the same entry.
proof fn lemma_entry_kept(before: Seq<u8>, after: Seq<u8>, at: int, entry: SlabEntry)
    requires
        0 <= at,
        at + SLAB_ENTRY_LEN <= before.len(),
        after.len() >= before.len(),
        forall|j: int| 0 <= j < before.len() ==> #[trigger] after[j] == before[j],
        entry_at(before, at, entry),
    ensures
        entry_at(after, at, entry),
{
    assert(after.subrange(at, at + 32) =~= before.subrange(at, at + 32));
    assert(after.subrange(at + 32, at + 64) =~= before.subrange(at + 32, at + 64));
    assert(after.subrange(at + 64, at + 96) =~= before.subrange(at + 64, at + 96));
}

/// Appends the entry of one venue.
fn write_entry(out: &mut Vec<u8>, entry: &SlabEntry)
    ensures
        appended(old(out)@, final(out)@, SLAB_ENTRY_LEN as int),
        entry_at(final(out)@, old(out)@.len() as int, *entry),
{
    let ghost at = out@.len() as int;
    write_pubkey(out, &entry.slab_id);
    let ghost s0 = out@;
    write_pubkey(out, &entry.version_hash);
    let ghost s1 = out@;
    write_pubkey(out, &entry.oracle_id);
    let ghost s2 = out@;
    write_u64_le(out, entry.imr);
    write_u64_le(out, entry.mmr);
    let ghost s3 = out@;
    write_u64_le(out, entry.maker_fee_cap);
    write_u64_le(out, entry.taker_fee_cap);
    let ghost s4 = out@;
    write_u64_le(out, entry.latency_sla_ms);
    write_u128_le(out, entry.max_exposure);
    let ghost s5 = out@;
    write_u64_le(out, entry.registered_ts);
    proof {
        assert(forall|j: int| 0 <= j < at + 32 ==> out@[j] == s0[j]);
        assert(forall|j: int| 0 <= j < at + 64 ==> out@[j] == s1[j]);
        assert(forall|j: int| 0 <= j < at + 96 ==> out@[j] == s2[j]);
        assert(forall|j: int| 0 <= j < at + 112 ==> out@[j] == s3[j]);
        assert(forall|j: int| 0 <= j < at + 128 ==> out@[j] == s4[j]);
        assert(forall|j: int| 0 <= j < at + 152 ==> out@[j] == s5[j]);
        assert(out@.subrange(at, at + 32) =~= s0.subrange(at, at + 32));
        assert(out@.subrange(at + 32, at + 64) =~= s1.subrange(at + 32, at + 64));
        assert(out@.subrange(at + 64, at + 96) =~= s2.subrange(at + 64, at + 96));
    }
}

/// Reads the entry of one venue.
fn read_entry(data: &[u8], at: usize) -> (entry: SlabEntry)
    requires
        at + SLAB_ENTRY_LEN <= data@.len(),
    ensures
        entry_at(data@, at as int, entry),
{
    let len: usize = data.len();
    SlabEntry {
        slab_id: read_pubkey(data, at),
        version_hash: read_pubkey(data, at + 32),
        oracle_id: read_pubkey(data, at + 64),
        imr: read_u64_le(data, at + 96),
        mmr: read_u64_le(data, at + 104),
        maker_fee_cap: read_u64_le(data, at + 112),
        taker_fee_cap: read_u64_le(data, at + 120),
        latency_sla_ms: read_u64_le(data, at + 128),
        max_exposure: read_u128_le(data, at + 136),
        registered_ts: read_u64_le(data, at + 152),
    }
}

/// Encodes the fields that come before the venues.
fn encode_registry_header(registry: &SlabRegistry) -> (out: Vec<u8>)
    requires
        registry@.slabs.len() <= MAX_SLABS,
    ensures
        out@.len() == REGISTRY_HEADER_LEN,
        registry_header_decoded(out@, registry@),
{
    let mut out: Vec<u8> = Vec::new();
    write_pubkey(&mut out, &registry.router_id);
    let ghost s0 = out@;
    write_pubkey(&mut out, &registry.governance);
    let ghost s1 = out@;
    out.push(registry.bump);
    write_u16_le(&mut out, registry.slabs.len() as u16);
    write_u16_le(&mut out, registry.insurance_params.fee_bps_to_insurance);
    let ghost s2 = out@;
    write_u128_le(&mut out, registry.insurance_state.vault_balance);
    write_u128_le(&mut out, registry.insurance_state.total_fees_accrued);
    let ghost s3 = out@;
    write_u128_le(&mut out, registry.insurance_state.total_payouts);
    write_u128_le(&mut out, registry.insurance_state.uncovered_bad_debt);
    let ghost s4 = out@;
    write_u64_le(&mut out, registry.global_haircut.pnl_index);
    let ghost s5 = out@;
    write_u64_le(&mut out, registry.pnl_vesting_params.vesting_slots);
    proof {
        assert(forall|j: int| 0 <= j < 32 ==> out@[j] == s0[j]);
        assert(forall|j: int| 0 <= j < 64 ==> out@[j] == s1[j]);
        assert(forall|j: int| 0 <= j < 69 ==> out@[j] == s2[j]);
        assert(forall|j: int| 0 <= j < 101 ==> out@[j] == s3[j]);
        assert(forall|j: int| 0 <= j < 133 ==> out@[j] == s4[j]);
        assert(forall|j: int| 0 <= j < 141 ==> out@[j] == s5[j]);
        assert(out@.subrange(0, 32) =~= s0.subrange(0, 32));
        assert(s0.subrange(0, 32) =~= registry.router_id@);
        assert(out@.subrange(32, 64) =~= s1.subrange(32, 64));
    }
    out
}

impl SlabRegistry {
    /// Encodes the registry in its layout. A registry with more venues than
    /// the layout has room for is refused.
    pub fn to_bytes(&self) -> (result: Result<Vec<u8>, PercolatorError>)
        ensures
            self@.slabs.len() > MAX_SLABS ==> result == Err::<Vec<u8>, PercolatorError>(
                PercolatorError::PoolFull,
            ),
            self@.slabs.len() <= MAX_SLABS ==> result is Ok && registry_decoded(
                result->Ok_0@,
                self@,
            ) && forall|j: int|
                REGISTRY_HEADER_LEN + SLAB_ENTRY_LEN * self@.slabs.len() <= j < REGISTRY_LEN
                    ==> result->Ok_0@[j] == 0,
    {
        if self.slabs.len() > MAX_SLABS {
            return Err(PercolatorError::PoolFull);
        }
        let mut out: Vec<u8> = encode_registry_header(self);
        let count: usize = self.slabs.len();
        let mut i: usize = 0;
        while i < count
            invariant
                i <= count <= MAX_SLABS,
                count == self.slabs@.len(),
                out@.len() == REGISTRY_HEADER_LEN + SLAB_ENTRY_LEN * i,
                registry_header_decoded(out@, self@),
                forall|k: int|
                    0 <= k < i ==> entry_at(
                        out@,
                        REGISTRY_HEADER_LEN + SLAB_ENTRY_LEN * k,
                        #[trigger] self.slabs@[k],
                    ),
            decreases count - i,
        {
            let ghost before = out@;
            write_entry(&mut out, &self.slabs[i]);
            proof {
                lemma_registry_header_kept(before, out@, self@);
                assert forall|k: int| 0 <= k < i + 1 implies entry_at(
                    out@,
                    REGISTRY_HEADER_LEN + SLAB_ENTRY_LEN * k,
                    #[trigger] self.slabs@[k],
                ) by {
                    if k < i {
                        lemma_entry_kept(
                            before,
                            out@,
                            REGISTRY_HEADER_LEN + SLAB_ENTRY_LEN * k,
                            self.slabs@[k],
                        );
                    }
                }
            }
            i += 1;
        }
        let ghost filled = out@;
        write_zeros(&mut out, (MAX_SLABS - count) * SLAB_ENTRY_LEN);
        proof {
            lemma_registry_header_kept(filled, out@, self@);
            assert forall|k: int| 0 <= k < count implies entry_at(
                out@,
                REGISTRY_HEADER_LEN + SLAB_ENTRY_LEN * k,
                #[trigger] self.slabs@[k],
            ) by {
                lemma_entry_kept(
                    filled,
                    out@,
                    REGISTRY_HEADER_LEN + SLAB_ENTRY_LEN * k,
                    self.slabs@[k],
                );
            }
        }
        Ok(out)
    }

    /// Decodes a registry from the data of its account. Data of another size,
    /// and a count of venues beyond the room of the layout, are refused.
    pub fn from_bytes(data: &[u8]) -> (result: Result<SlabRegistry, PercolatorError>)
        ensures
            result is Ok <==> data@.len() == REGISTRY_LEN && u16_le(data@, 65) <= MAX_SLABS,
            result is Ok ==> registry_decoded(data@, result->Ok_0@),
            result is Err ==> result->Err_0 == PercolatorError::InvalidAccount,
    {
        if data.len() != REGISTRY_LEN {
            return Err(PercolatorError::InvalidAccount);
        }
        let count: usize = read_u16_le(data, 65) as usize;
        if count > MAX_SLABS {
            return Err(PercolatorError::InvalidAccount);
        }
        let mut slabs: Vec<SlabEntry> = Vec::new();
        let mut i: usize = 0;
        while i < count
            invariant
                i <= count <= MAX_SLABS,
                data@.len() == REGISTRY_LEN,
                slabs@.len() == i,
                forall|k: int|
                    0 <= k < i ==> entry_at(
                        data@,
                        REGISTRY_HEADER_LEN + SLAB_ENTRY_LEN * k,
                        #[trigger] slabs@[k],
                    ),
            decreases count - i,
        {
            slabs.push(read_entry(data, REGISTRY_HEADER_LEN + SLAB_ENTRY_LEN * i));
            i += 1;
        }
        Ok(
            SlabRegistry {
                router_id: read_pubkey(data, 0),
                governance: read_pubkey(data, 32),
                bump: data[64],
                slabs,
                insurance_params: InsuranceParams { fee_bps_to_insurance: read_u16_le(data, 67) },
                insurance_state: InsuranceState {
                    vault_balance: read_u128_le(data, 69),
                    total_fees_accrued: read_u128_le(data, 85),
                    total_payouts: read_u128_le(data, 101),
                    uncovered_bad_debt: read_u128_le(data, 117),
                },
                global_haircut: GlobalHaircut { pnl_index: read_u64_le(data, 133) },
                pnl_vesting_params: PnlVestingParams { vesting_slots: read_u64_le(data, 141) },
            },
        )
    }
}

} // verus!
