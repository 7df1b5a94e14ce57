//! The registry: the venues known to the router, each with its risk
//! parameters and a stable index, and the protocol-wide insurance and vesting
//! state.

use crate::error::PercolatorError;
use crate::insurance::{InsuranceParams, InsuranceState};
use crate::pubkey::pubkey_eq;
use crate::vesting::{GlobalHaircut, PnlVestingParams, HAIRCUT_INDEX_ONE};
use pinocchio::pubkey::Pubkey;
use vstd::prelude::*;

verus! {

/// The most venues a registry can hold.
pub const MAX_SLABS: usize = 256;

/// Initial margin ratio given to a venue that registers itself, in basis points.
pub const DEFAULT_IMR_BPS: u64 = 1_000;

/// Maintenance margin ratio given to a venue that registers itself, in basis points.
pub const DEFAULT_MMR_BPS: u64 = 500;

/// Latency tolerance given to a venue that registers itself, in milliseconds.
pub const DEFAULT_LATENCY_SLA_MS: u64 = 1_000;

/// Risk parameters of one venue.
#[derive(Clone, Copy, Debug, PartialEq, Eq)]
pub struct SlabEntry {
    /// Address of the venue.
    pub slab_id: Pubkey,
    /// Hash of the venue's code version.
    pub version_hash: [u8; 32],
    /// Price feed of the venue.
    pub oracle_id: Pubkey,
    /// Initial margin ratio, basis points.
    pub imr: u64,
    /// Maintenance margin ratio, basis points.
    pub mmr: u64,
    /// Highest maker fee the venue may charge, basis points.
    pub maker_fee_cap: u64,
    /// Highest taker fee the venue may charge, basis points.
    pub taker_fee_cap: u64,
    /// Latency tolerance, milliseconds.
    pub latency_sla_ms: u64,
    /// Highest exposure the venue may carry.
    pub max_exposure: u128,
    /// Time of registration.
    pub registered_ts: u64,
}

/// The venues known to the router and the protocol-wide state.
#[derive(Clone, Debug, PartialEq, Eq)]
pub struct SlabRegistry {
    /// Router that the registry belongs to.
    pub router_id: Pubkey,
    /// Authority that governs the registry.
    pub governance: Pubkey,
    /// Bump seed of the registry's address.
    pub bump: u8,
    /// Venues in order of registration; a venue's place is its index for good.
    pub slabs: Vec<SlabEntry>,
    /// How the insurance fund is fed.
    pub insurance_params: InsuranceParams,
    /// The insurance fund.
    pub insurance_state: InsuranceState,
    /// The global haircut on unvested profit.
    pub global_haircut: GlobalHaircut,
    /// The vesting schedule.
    pub pnl_vesting_params: PnlVestingParams,
}

/// What a registry holds, with its venues as a sequence.
pub struct SlabRegistryView {
    pub router_id: Pubkey,
    pub governance: Pubkey,
    pub bump: u8,
    pub slabs: Seq<SlabEntry>,
    pub insurance_params: InsuranceParams,
    pub insurance_state: InsuranceState,
    pub global_haircut: GlobalHaircut,
    pub pnl_vesting_params: PnlVestingParams,
}

impl View for SlabRegistry {
    type V = SlabRegistryView;

    open spec fn view(&self) -> SlabRegistryView {
        SlabRegistryView {
            router_id: self.router_id,
            governance: self.governance,
            bump: self.bump,
            slabs: self.slabs@,
            insurance_params: self.insurance_params,
            insurance_state: self.insurance_state,
            global_haircut: self.global_haircut,
            pnl_vesting_params: self.pnl_vesting_params,
        }
    }
}

/// Tells whether `i` is the first venue with the address `slab_id`.
pub open spec fn is_first_slab(slabs: Seq<SlabEntry>, slab_id: Pubkey, i: int) -> bool {
    &&& 0 <= i < slabs.len()
    &&& slabs[i].slab_id@ == slab_id@
    &&& forall|j: int| 0 <= j < i ==> (#[trigger] slabs[j]).slab_id@ != slab_id@
}

/// Tells whether a venue with the address `slab_id` is registered.
pub open spec fn is_registered(slabs: Seq<SlabEntry>, slab_id: Pubkey) -> bool {
    exists|i: int| is_first_slab(slabs, slab_id, i)
}

/// The index of the venue with the address `slab_id`.
pub open spec fn slab_index(slabs: Seq<SlabEntry>, slab_id: Pubkey) -> int {
    choose|i: int| is_first_slab(slabs, slab_id, i)
}

/// The entry of a venue that registers itself on its first fill: bounded
/// margin ratios, no fee allowance, no exposure limit.
pub open spec fn default_entry(slab_id: Pubkey, oracle_id: Pubkey) -> SlabEntry {
    SlabEntry {
        slab_id,
        version_hash: vstd::array::spec_array_fill_for_copy_type::<u8, 32>(0u8),
        oracle_id,
        imr: DEFAULT_IMR_BPS,
        mmr: DEFAULT_MMR_BPS,
        maker_fee_cap: 0,
        taker_fee_cap: 0,
        latency_sla_ms: DEFAULT_LATENCY_SLA_MS,
        max_exposure: u128::MAX,
        registered_ts: 0,
    }
}

/// A registry right after its initialization: no venue, an empty fund, no
/// haircut, profit that vests at once.
pub open spec fn fresh_registry(router_id: Pubkey, governance: Pubkey, bump: u8) -> SlabRegistryView {
    SlabRegistryView {
        router_id,
        governance,
        bump,
        slabs: Seq::empty(),
        insurance_params: InsuranceParams { fee_bps_to_insurance: 0 },
        insurance_state: InsuranceState {
            vault_balance: 0,
            total_fees_accrued: 0,
            total_payouts: 0,
            uncovered_bad_debt: 0,
        },
        global_haircut: GlobalHaircut { pnl_index: HAIRCUT_INDEX_ONE },
        pnl_vesting_params: PnlVestingParams { vesting_slots: 0 },
    }
}

/// The first venue with an address is the one that every lookup finds.
pub proof fn lemma_first_slab_unique(slabs: Seq<SlabEntry>, slab_id: Pubkey, i: int)
    requires
        is_first_slab(slabs, slab_id, i),
    ensures
        is_registered(slabs, slab_id),
        slab_index(slabs, slab_id) == i,
{
    let k = slab_index(slabs, slab_id);
    assert(is_first_slab(slabs, slab_id, k));
    if k < i {
        assert(slabs[k].slab_id@ != slab_id@);
    }
    if i < k {
        assert(slabs[i].slab_id@ != slab_id@);
    }
}

/// A registry without a venue of the address finds none.
pub proof fn lemma_not_registered(slabs: Seq<SlabEntry>, slab_id: Pubkey)
    requires
        forall|j: int| 0 <= j < slabs.len() ==> (#[trigger] slabs[j]).slab_id@ != slab_id@,
    ensures
        !is_registered(slabs, slab_id),
{
    if is_registered(slabs, slab_id) {
        let k = slab_index(slabs, slab_id);
        assert(slabs[k].slab_id@ == slab_id@);
    }
}

impl SlabRegistryView {
    /// The index under which a fill on the venue is booked: that of the
    /// registered venue, or the next free one for a venue that registers
    /// itself. None when the venue is unknown and the registry is full.
    pub open spec fn resolve(self, slab_id: Pubkey) -> Option<u16> {
        if is_registered(self.slabs, slab_id) {
            Some(slab_index(self.slabs, slab_id) as u16)
        } else if self.slabs.len() < MAX_SLABS {
            Some(self.slabs.len() as u16)
        } else {
            None
        }
    }

    /// The registry after a fill on the venue was booked: an unknown venue is
    /// appended with the default entry.
    pub open spec fn resolved(self, slab_id: Pubkey, oracle_id: Pubkey) -> SlabRegistryView {
        if !is_registered(self.slabs, slab_id) && self.slabs.len() < MAX_SLABS {
            SlabRegistryView { slabs: self.slabs.push(default_entry(slab_id, oracle_id)), ..self }
        } else {
            self
        }
    }
}

impl SlabRegistry {
    /// Creates an empty registry: no venue, an empty fund, no haircut.
    pub fn new(router_id: Pubkey, governance: Pubkey, bump: u8) -> (registry: SlabRegistry)
        ensures
            registry@ == fresh_registry(router_id, governance, bump),
    {
        SlabRegistry {
            router_id,
            governance,
            bump,
            slabs: Vec::new(),
            insurance_params: InsuranceParams { fee_bps_to_insurance: 0 },
            insurance_state: InsuranceState::new(),
            global_haircut: GlobalHaircut { pnl_index: HAIRCUT_INDEX_ONE },
            pnl_vesting_params: PnlVestingParams { vesting_slots: 0 },
        }
    }

    /// Copies the registry, so that an operation can work on the copy and
    /// commit it only when it succeeds.
    pub fn snapshot(&self) -> (copy: SlabRegistry)
        ensures
            copy@ == self@,
    {
        let mut slabs: Vec<SlabEntry> = Vec::new();
        let mut i: usize = 0;
        while i < self.slabs.len()
            invariant
                i <= self.slabs.len(),
                slabs@ == self.slabs@.take(i as int),
            decreases self.slabs.len() - i,
        {
            slabs.push(self.slabs[i]);
            assert(self.slabs@.take(i as int).push(self.slabs@[i as int]) =~= self.slabs@.take(
                i + 1,
            ));
            i += 1;
        }
        assert(self.slabs@.take(i as int) =~= self.slabs@);
        SlabRegistry {
            router_id: self.router_id,
            governance: self.governance,
            bump: self.bump,
            slabs,
            insurance_params: self.insurance_params,
            insurance_state: self.insurance_state,
            global_haircut: self.global_haircut,
            pnl_vesting_params: self.pnl_vesting_params,
        }
    }

    /// Looks a venue up by its address and returns its index.
    pub fn find_slab(&self, slab_id: &Pubkey) -> (found: Option<u16>)
        requires
            self@.slabs.len() <= MAX_SLABS,
        ensures
            found is Some <==> is_registered(self@.slabs, *slab_id),
            found is Some ==> found->0 == slab_index(self@.slabs, *slab_id),
    {
        let mut i: usize = 0;
        while i < self.slabs.len()
            invariant
                i <= self.slabs.len(),
                self.slabs@.len() <= MAX_SLABS,
                forall|j: int| 0 <= j < i ==> (#[trigger] self.slabs@[j]).slab_id@ != slab_id@,
            decreases self.slabs.len() - i,
        {
            if pubkey_eq(&self.slabs[i].slab_id, slab_id) {
                proof {
                    lemma_first_slab_unique(self.slabs@, *slab_id, i as int);
                }
                return Some(i as u16);
            }
            i += 1;
        }
        proof {
            lemma_not_registered(self.slabs@, *slab_id);
        }
        None
    }

    /// Registers a venue under the next free index and returns that index.
    /// A full registry refuses and stays as it was.
    pub fn register_slab(
        &mut self,
        slab_id: Pubkey,
        version_hash: [u8; 32],
        oracle_id: Pubkey,
        imr: u64,
        mmr: u64,
        maker_fee_cap: u64,
        taker_fee_cap: u64,
        latency_sla_ms: u64,
        max_exposure: u128,
        current_ts: u64,
    ) -> (result: Result<u16, PercolatorError>)
        ensures
            old(self)@.slabs.len() >= MAX_SLABS ==> result == Err::<u16, PercolatorError>(
                PercolatorError::PoolFull,
            ) && *final(self) == *old(self),
            old(self)@.slabs.len() < MAX_SLABS ==> result == Ok::<u16, PercolatorError>(
                old(self)@.slabs.len() as u16,
            ) && final(self)@ == (SlabRegistryView {
                slabs: old(self)@.slabs.push(
                    SlabEntry {
                        slab_id,
                        version_hash,
                        oracle_id,
                        imr,
                        mmr,
                        maker_fee_cap,
                        taker_fee_cap,
                        latency_sla_ms,
                        max_exposure,
                        registered_ts: current_ts,
                    },
                ),
                ..old(self)@
            }),
    {
        if self.slabs.len() >= MAX_SLABS {
            return Err(PercolatorError::PoolFull);
        }
        let index: u16 = self.slabs.len() as u16;
        self.slabs.push(
            SlabEntry {
                slab_id,
                version_hash,
                oracle_id,
                imr,
                mmr,
                maker_fee_cap,
                taker_fee_cap,
                latency_sla_ms,
                max_exposure,
                registered_ts: current_ts,
            },
        );
        Ok(index)
    }

    /// Finds the index of a venue, registering it with the default entry when
    /// it is unknown. A full registry refuses an unknown venue.
    pub fn resolve_slab(&mut self, slab_id: &Pubkey, oracle_id: &Pubkey) -> (result: Result<
        u16,
        PercolatorError,
    >)
        requires
            old(self)@.slabs.len() <= MAX_SLABS,
        ensures
            match old(self)@.resolve(*slab_id) {
                Some(index) => result == Ok::<u16, PercolatorError>(index) && final(self)@ == old(
                    self,
                )@.resolved(*slab_id, *oracle_id),
                None => result == Err::<u16, PercolatorError>(PercolatorError::InvalidAccount)
                    && *final(self) == *old(self),
            },
            final(self)@.slabs.len() <= MAX_SLABS,
    {
        match self.find_slab(slab_id) {
            Some(index) => Ok(index),
            None => {
                let zero_hash: [u8; 32] = [0u8; 32];
                match self.register_slab(
                    *slab_id,
                    zero_hash,
                    *oracle_id,
                    DEFAULT_IMR_BPS,
                    DEFAULT_MMR_BPS,
                    0,
                    0,
                    DEFAULT_LATENCY_SLA_MS,
                    u128::MAX,
                    0,
                ) {
                    Ok(index) => Ok(index),
                    Err(_) => Err(PercolatorError::InvalidAccount),
                }
            },
        }
    }

    /// Initializes a blank registry in place for the router `router_id` under
    /// the authority `governance`.
    pub fn initialize_in_place(&mut self, router_id: Pubkey, governance: Pubkey, bump: u8)
        ensures
            final(self)@ == fresh_registry(router_id, governance, bump),
    {
        *self = SlabRegistry::new(router_id, governance, bump);
    }
}

} // verus!
