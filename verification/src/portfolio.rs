//! The portfolio: a trader's aggregate account, and the counterparty pool,
//! which has the same shape.
//!
//! A portfolio holds its collateral balance, its equity and margin figures,
//! and an ordered, bounded list of exposures, one per venue and instrument.

use crate::accounts::AccountSummary;
use crate::error::PercolatorError;
use crate::math::{clamp_i128, saturating_add_i128, saturating_sub_i128};
use crate::pubkey::pubkey_eq;
use pinocchio::pubkey::Pubkey;
use vstd::prelude::*;

verus! {

/// The most exposures a portfolio can hold.
pub const MAX_EXPOSURES: usize = 64;

/// Tells whether an exposure entry belongs to the given venue and instrument.
pub open spec fn entry_has_key(entry: (u16, u16, i64), slab_idx: u16, instrument_idx: u16) -> bool {
    entry.0 == slab_idx && entry.1 == instrument_idx
}

/// Tells whether `i` is the first entry of the venue and instrument.
pub open spec fn is_first_entry(
    entries: Seq<(u16, u16, i64)>,
    slab_idx: u16,
    instrument_idx: u16,
    i: int,
) -> bool {
    &&& 0 <= i < entries.len()
    &&& entry_has_key(entries[i], slab_idx, instrument_idx)
    &&& forall|j: int| 0 <= j < i ==> !entry_has_key(#[trigger] entries[j], slab_idx, instrument_idx)
}

/// Tells whether the list holds an entry of the venue and instrument.
pub open spec fn has_entry(entries: Seq<(u16, u16, i64)>, slab_idx: u16, instrument_idx: u16)
    -> bool {
    exists|i: int| is_first_entry(entries, slab_idx, instrument_idx, i)
}

/// Where the first entry of the venue and instrument stands.
pub open spec fn entry_index(entries: Seq<(u16, u16, i64)>, slab_idx: u16, instrument_idx: u16)
    -> int {
    choose|i: int| is_first_entry(entries, slab_idx, instrument_idx, i)
}

/// The signed quantity held on the venue and instrument, zero without an entry.
pub open spec fn exposure_of(entries: Seq<(u16, u16, i64)>, slab_idx: u16, instrument_idx: u16)
    -> int {
    if has_entry(entries, slab_idx, instrument_idx) {
        entries[entry_index(entries, slab_idx, instrument_idx)].2 as int
    } else {
        0
    }
}

/// The list after the quantity of one venue and instrument is set: an entry
/// that exists is rewritten in place, or taken out when the quantity is zero;
/// a new non-zero quantity is appended; the order of the others is kept.
pub open spec fn exposures_updated(
    entries: Seq<(u16, u16, i64)>,
    slab_idx: u16,
    instrument_idx: u16,
    qty: i64,
) -> Seq<(u16, u16, i64)> {
    if has_entry(entries, slab_idx, instrument_idx) {
        let i = entry_index(entries, slab_idx, instrument_idx);
        if qty == 0 {
            entries.remove(i)
        } else {
            entries.update(i, (slab_idx, instrument_idx, qty))
        }
    } else if qty != 0 {
        entries.push((slab_idx, instrument_idx, qty))
    } else {
        entries
    }
}

/// No venue and instrument occurs twice, and no entry is flat.
pub open spec fn exposures_wf(entries: Seq<(u16, u16, i64)>) -> bool {
    &&& entries.len() <= MAX_EXPOSURES
    &&& forall|i: int| 0 <= i < entries.len() ==> (#[trigger] entries[i]).2 != 0
    &&& forall|i: int, j: int|
        0 <= i < j < entries.len() ==> !entry_has_key(
            #[trigger] entries[i],
            (#[trigger] entries[j]).0,
            entries[j].1,
        )
}

/// Two first entries of one key are the same entry.
pub proof fn lemma_first_entry_unique(
    entries: Seq<(u16, u16, i64)>,
    slab_idx: u16,
    instrument_idx: u16,
    i: int,
)
    requires
        is_first_entry(entries, slab_idx, instrument_idx, i),
    ensures
        has_entry(entries, slab_idx, instrument_idx),
        entry_index(entries, slab_idx, instrument_idx) == i,
        exposure_of(entries, slab_idx, instrument_idx) == entries[i].2,
{
    let k = entry_index(entries, slab_idx, instrument_idx);
    assert(is_first_entry(entries, slab_idx, instrument_idx, k));
    if k < i {
        assert(!entry_has_key(entries[k], slab_idx, instrument_idx));
    }
    if i < k {
        assert(!entry_has_key(entries[i], slab_idx, instrument_idx));
    }
}

/// A list without an entry of the key has no first entry of it.
pub proof fn lemma_no_entry(entries: Seq<(u16, u16, i64)>, slab_idx: u16, instrument_idx: u16)
    requires
        forall|j: int|
            0 <= j < entries.len() ==> !entry_has_key(
                #[trigger] entries[j],
                slab_idx,
                instrument_idx,
            ),
    ensures
        !has_entry(entries, slab_idx, instrument_idx),
        exposure_of(entries, slab_idx, instrument_idx) == 0,
{
    if has_entry(entries, slab_idx, instrument_idx) {
        let k = entry_index(entries, slab_idx, instrument_idx);
        assert(entry_has_key(entries[k], slab_idx, instrument_idx));
    }
}

/// Setting a quantity is seen by a later lookup of the same key and by no
/// lookup of another key, and keeps the list well formed while there is room.
pub proof fn lemma_exposures_updated(
    entries: Seq<(u16, u16, i64)>,
    slab_idx: u16,
    instrument_idx: u16,
    qty: i64,
    other_slab: u16,
    other_instrument: u16,
)
    requires
        exposures_wf(entries),
    ensures
        exposure_of(exposures_updated(entries, slab_idx, instrument_idx, qty), slab_idx, instrument_idx)
            == qty,
        (other_slab != slab_idx || other_instrument != instrument_idx) ==> exposure_of(
            exposures_updated(entries, slab_idx, instrument_idx, qty),
            other_slab,
            other_instrument,
        ) == exposure_of(entries, other_slab, other_instrument),
        (has_entry(entries, slab_idx, instrument_idx) || qty == 0 || entries.len() < MAX_EXPOSURES)
            ==> exposures_wf(exposures_updated(entries, slab_idx, instrument_idx, qty)),
{
    let after = exposures_updated(entries, slab_idx, instrument_idx, qty);
    let other = other_slab != slab_idx || other_instrument != instrument_idx;
    if has_entry(entries, slab_idx, instrument_idx) {
        let i = entry_index(entries, slab_idx, instrument_idx);
        assert(is_first_entry(entries, slab_idx, instrument_idx, i));
        if qty == 0 {
            assert forall|j: int| 0 <= j < after.len() implies !entry_has_key(
                #[trigger] after[j],
                slab_idx,
                instrument_idx,
            ) by {
                if j < i {
                    assert(after[j] == entries[j]);
                } else {
                    assert(after[j] == entries[j + 1]);
                    assert(!entry_has_key(entries[i], entries[j + 1].0, entries[j + 1].1));
                }
            }
            lemma_no_entry(after, slab_idx, instrument_idx);
            if other {
                if has_entry(entries, other_slab, other_instrument) {
                    let k = entry_index(entries, other_slab, other_instrument);
                    assert(is_first_entry(entries, other_slab, other_instrument, k));
                    let k2 = if k < i {
                        k
                    } else {
                        k - 1
                    };
                    assert(after[k2] == entries[k]);
                    assert forall|j: int| 0 <= j < k2 implies !entry_has_key(
                        #[trigger] after[j],
                        other_slab,
                        other_instrument,
                    ) by {
                        if j < i {
                            assert(after[j] == entries[j]);
                        } else {
                            assert(after[j] == entries[j + 1]);
                            assert(!entry_has_key(entries[j + 1], entries[k].0, entries[k].1));
                        }
                    }
                    assert(is_first_entry(after, other_slab, other_instrument, k2));
                    lemma_first_entry_unique(after, other_slab, other_instrument, k2);
                } else {
                    assert forall|j: int| 0 <= j < after.len() implies !entry_has_key(
                        #[trigger] after[j],
                        other_slab,
                        other_instrument,
                    ) by {
                        let src = if j < i {
                            j
                        } else {
                            j + 1
                        };
                        assert(after[j] == entries[src]);
                        if entry_has_key(entries[src], other_slab, other_instrument) {
                            lemma_some_entry(entries, other_slab, other_instrument, src);
                        }
                    }
                    lemma_no_entry(after, other_slab, other_instrument);
                }
            }
            assert(exposures_wf(after)) by {
                assert forall|a: int| 0 <= a < after.len() implies (#[trigger] after[a]).2 != 0 by {
                    let src = if a < i {
                        a
                    } else {
                        a + 1
                    };
                    assert(after[a] == entries[src]);
                }
                assert forall|a: int, b: int| 0 <= a < b < after.len() implies !entry_has_key(
                    #[trigger] after[a],
                    (#[trigger] after[b]).0,
                    after[b].1,
                ) by {
                    let sa = if a < i {
                        a
                    } else {
                        a + 1
                    };
                    let sb = if b < i {
                        b
                    } else {
                        b + 1
                    };
                    assert(after[a] == entries[sa]);
                    assert(after[b] == entries[sb]);
                    assert(!entry_has_key(entries[sa], entries[sb].0, entries[sb].1));
                }
            }
        } else {
            assert(after[i] == (slab_idx, instrument_idx, qty));
            assert forall|j: int| 0 <= j < i implies !entry_has_key(
                #[trigger] after[j],
                slab_idx,
                instrument_idx,
            ) by {
                assert(after[j] == entries[j]);
            }
            assert(is_first_entry(after, slab_idx, instrument_idx, i));
            lemma_first_entry_unique(after, slab_idx, instrument_idx, i);
            if other {
                lemma_same_keys_same_lookup(entries, after, other_slab, other_instrument, i);
            }
            assert(exposures_wf(after)) by {
                assert forall|a: int| 0 <= a < after.len() implies (#[trigger] after[a]).2 != 0 by {
                    if a != i {
                        assert(after[a] == entries[a]);
                    }
                }
                assert forall|a: int, b: int| 0 <= a < b < after.len() implies !entry_has_key(
                    #[trigger] after[a],
                    (#[trigger] after[b]).0,
                    after[b].1,
                ) by {
                    assert(after[a].0 == entries[a].0 && after[a].1 == entries[a].1);
                    assert(after[b].0 == entries[b].0 && after[b].1 == entries[b].1);
                    assert(!entry_has_key(entries[a], entries[b].0, entries[b].1));
                }
            }
        }
    } else {
        assert forall|j: int| 0 <= j < entries.len() implies !entry_has_key(
            #[trigger] entries[j],
            slab_idx,
            instrument_idx,
        ) by {
            if entry_has_key(entries[j], slab_idx, instrument_idx) {
                lemma_some_entry(entries, slab_idx, instrument_idx, j);
            }
        }
        if qty != 0 {
            let n = entries.len() as int;
            assert(after[n] == (slab_idx, instrument_idx, qty));
            assert forall|j: int| 0 <= j < n implies !entry_has_key(
                #[trigger] after[j],
                slab_idx,
                instrument_idx,
            ) by {
                assert(after[j] == entries[j]);
            }
            assert(is_first_entry(after, slab_idx, instrument_idx, n));
            lemma_first_entry_unique(after, slab_idx, instrument_idx, n);
            if other {
                if has_entry(entries, other_slab, other_instrument) {
                    let k = entry_index(entries, other_slab, other_instrument);
                    assert(is_first_entry(entries, other_slab, other_instrument, k));
                    assert(after[k] == entries[k]);
                    assert forall|j: int| 0 <= j < k implies !entry_has_key(
                        #[trigger] after[j],
                        other_slab,
                        other_instrument,
                    ) by {
                        assert(after[j] == entries[j]);
                    }
                    assert(is_first_entry(after, other_slab, other_instrument, k));
                    lemma_first_entry_unique(after, other_slab, other_instrument, k);
                } else {
                    assert forall|j: int| 0 <= j < after.len() implies !entry_has_key(
                        #[trigger] after[j],
                        other_slab,
                        other_instrument,
                    ) by {
                        if j < n {
                            assert(after[j] == entries[j]);
                            if entry_has_key(entries[j], other_slab, other_instrument) {
                                lemma_some_entry(entries, other_slab, other_instrument, j);
                            }
                        }
                    }
                    lemma_no_entry(after, other_slab, other_instrument);
                }
            }
            if entries.len() < MAX_EXPOSURES {
                assert(exposures_wf(after)) by {
                    assert forall|a: int| 0 <= a < after.len() implies (#[trigger] after[a]).2
                        != 0 by {
                        if a < n {
                            assert(after[a] == entries[a]);
                        }
                    }
                    assert forall|a: int, b: int| 0 <= a < b < after.len() implies !entry_has_key(
                        #[trigger] after[a],
                        (#[trigger] after[b]).0,
                        after[b].1,
                    ) by {
                        assert(after[a] == entries[a]);
                        if b < n {
                            assert(after[b] == entries[b]);
                            assert(!entry_has_key(entries[a], entries[b].0, entries[b].1));
                        }
                    }
                }
            }
        } else {
            lemma_no_entry(entries, slab_idx, instrument_idx);
        }
    }
}

/// An entry of the key somewhere in the list means the list has a first one.
pub proof fn lemma_some_entry(
    entries: Seq<(u16, u16, i64)>,
    slab_idx: u16,
    instrument_idx: u16,
    at: int,
)
    requires
        0 <= at < entries.len(),
        entry_has_key(entries[at], slab_idx, instrument_idx),
    ensures
        has_entry(entries, slab_idx, instrument_idx),
    decreases at,
{
    if forall|j: int| 0 <= j < at ==> !entry_has_key(#[trigger] entries[j], slab_idx, instrument_idx) {
        assert(is_first_entry(entries, slab_idx, instrument_idx, at));
    } else {
        let j = choose|j: int|
            0 <= j < at && entry_has_key(#[trigger] entries[j], slab_idx, instrument_idx);
        lemma_some_entry(entries, slab_idx, instrument_idx, j);
    }
}

/// Rewriting the quantity of one entry leaves the lookup of every other key
/// as it was.
pub proof fn lemma_same_keys_same_lookup(
    before: Seq<(u16, u16, i64)>,
    after: Seq<(u16, u16, i64)>,
    slab_idx: u16,
    instrument_idx: u16,
    changed: int,
)
    requires
        0 <= changed < before.len(),
        after.len() == before.len(),
        forall|j: int| 0 <= j < before.len() && j != changed ==> #[trigger] after[j] == before[j],
        after[changed].0 == before[changed].0,
        after[changed].1 == before[changed].1,
        !entry_has_key(before[changed], slab_idx, instrument_idx),
    ensures
        exposure_of(after, slab_idx, instrument_idx) == exposure_of(before, slab_idx, instrument_idx),
{
    if has_entry(before, slab_idx, instrument_idx) {
        let k = entry_index(before, slab_idx, instrument_idx);
        assert(is_first_entry(before, slab_idx, instrument_idx, k));
        assert(k != changed);
        assert(after[k] == before[k]);
        assert forall|j: int| 0 <= j < k implies !entry_has_key(
            #[trigger] after[j],
            slab_idx,
            instrument_idx,
        ) by {
            if j != changed {
                assert(after[j] == before[j]);
            }
            assert(!entry_has_key(before[j], slab_idx, instrument_idx));
        }
        assert(is_first_entry(after, slab_idx, instrument_idx, k));
        lemma_first_entry_unique(after, slab_idx, instrument_idx, k);
    } else {
        assert forall|j: int| 0 <= j < after.len() implies !entry_has_key(
            #[trigger] after[j],
            slab_idx,
            instrument_idx,
        ) by {
            if entry_has_key(after[j], slab_idx, instrument_idx) {
                if j != changed {
                    assert(after[j] == before[j]);
                }
                lemma_some_entry(before, slab_idx, instrument_idx, j);
            }
        }
        lemma_no_entry(after, slab_idx, instrument_idx);
    }
}

/// A trader's aggregate account. The counterparty pool is a portfolio too.
#[derive(Clone, Debug, PartialEq, Eq)]
pub struct Portfolio {
    /// Router program that the portfolio belongs to.
    pub router_id: Pubkey,
    /// Owner of the portfolio.
    pub user: Pubkey,
    /// Collateral plus recognized profit and loss.
    pub equity: i128,
    /// Initial margin required by the open positions.
    pub im: u128,
    /// Maintenance margin required by the open positions.
    pub mm: u128,
    /// Net collateral deposited.
    pub principal: i128,
    /// Realized profit and loss that has not vested yet.
    pub pnl: i128,
    /// Realized profit that has vested.
    pub vested_pnl: i128,
    /// Time of the last touch, in slots.
    pub last_slot: u64,
    /// Value of the global haircut index at the last touch.
    pub pnl_index_checkpoint: u64,
    /// Collateral balance of the account.
    pub lamports: u64,
    /// Exposures, each a venue index, an instrument index and a signed quantity.
    pub exposures: Vec<(u16, u16, i64)>,
}

/// What a portfolio holds, with its exposures as a sequence.
pub struct PortfolioView {
    pub router_id: Pubkey,
    pub user: Pubkey,
    pub equity: i128,
    pub im: u128,
    pub mm: u128,
    pub principal: i128,
    pub pnl: i128,
    pub vested_pnl: i128,
    pub last_slot: u64,
    pub pnl_index_checkpoint: u64,
    pub lamports: u64,
    pub exposures: Seq<(u16, u16, i64)>,
}

impl View for Portfolio {
    type V = PortfolioView;

    open spec fn view(&self) -> PortfolioView {
        PortfolioView {
            router_id: self.router_id,
            user: self.user,
            equity: self.equity,
            im: self.im,
            mm: self.mm,
            principal: self.principal,
            pnl: self.pnl,
            vested_pnl: self.vested_pnl,
            last_slot: self.last_slot,
            pnl_index_checkpoint: self.pnl_index_checkpoint,
            lamports: self.lamports,
            exposures: self.exposures@,
        }
    }
}

impl PortfolioView {
    /// The exposure list is well formed.
    pub open spec fn wf(self) -> bool {
        exposures_wf(self.exposures)
    }

    /// Equity covers the maintenance margin.
    pub open spec fn has_sufficient_margin(self) -> bool {
        self.equity >= self.mm
    }

    /// The portfolio with the quantity of one venue and instrument set.
    pub open spec fn with_exposure(self, slab_idx: u16, instrument_idx: u16, qty: i64)
        -> PortfolioView {
        PortfolioView {
            exposures: exposures_updated(self.exposures, slab_idx, instrument_idx, qty),
            ..self
        }
    }

    /// The portfolio with its margin requirements replaced.
    pub open spec fn with_margin(self, im: u128, mm: u128) -> PortfolioView {
        PortfolioView { im, mm, ..self }
    }

    /// The verdict on a caller who wants to dispose of the portfolio.
    pub open spec fn authorization(self, caller: AccountSummary) -> Result<(), PercolatorError> {
        if !caller.is_signer {
            Err(PercolatorError::Unauthorized)
        } else if self.user@ != caller.key@ {
            Err(PercolatorError::InvalidPortfolio)
        } else {
            Ok(())
        }
    }

    /// What the owner may withdraw: the net deposits and the vested profit.
    pub open spec fn withdrawable(self) -> int {
        self.principal + self.vested_pnl
    }

    /// The portfolio after `amount` of collateral has been deposited: balance,
    /// principal and equity rise by the amount.
    pub open spec fn deposited(self, amount: u64) -> PortfolioView {
        PortfolioView {
            lamports: (self.lamports + amount) as u64,
            principal: clamp_i128(self.principal + amount) as i128,
            equity: clamp_i128(self.equity + amount) as i128,
            ..self
        }
    }

    /// The portfolio after `amount` of collateral has been withdrawn: balance,
    /// principal and equity fall by the amount.
    pub open spec fn withdrawn(self, amount: u64) -> PortfolioView {
        PortfolioView {
            lamports: (self.lamports - amount) as u64,
            principal: clamp_i128(self.principal - amount) as i128,
            equity: clamp_i128(self.equity - amount) as i128,
            ..self
        }
    }

    /// Why a withdrawal of `amount` is refused, if it is: the balance or the
    /// withdrawable amount is too small, or equity would no longer cover the
    /// maintenance margin.
    pub open spec fn withdrawal_refusal(self, amount: u64) -> Option<PercolatorError> {
        if amount > self.lamports || amount > self.withdrawable() {
            Some(PercolatorError::InsufficientFunds)
        } else if !self.withdrawn(amount).has_sufficient_margin() {
            Some(PercolatorError::PortfolioInsufficientMargin)
        } else {
            None
        }
    }
}

impl Portfolio {
    /// Creates an empty portfolio of `user` under the router `router_id`.
    pub fn new(router_id: Pubkey, user: Pubkey) -> (portfolio: Portfolio)
        ensures
            portfolio@ == (PortfolioView {
                router_id,
                user,
                equity: 0,
                im: 0,
                mm: 0,
                principal: 0,
                pnl: 0,
                vested_pnl: 0,
                last_slot: 0,
                pnl_index_checkpoint: 0,
                lamports: 0,
                exposures: Seq::empty(),
            }),
            portfolio@.wf(),
    {
        Portfolio {
            router_id,
            user,
            equity: 0,
            im: 0,
            mm: 0,
            principal: 0,
            pnl: 0,
            vested_pnl: 0,
            last_slot: 0,
            pnl_index_checkpoint: 0,
            lamports: 0,
            exposures: Vec::new(),
        }
    }

    /// Copies the portfolio, so that an operation can work on the copy and
    /// commit it only when it succeeds.
    pub fn snapshot(&self) -> (copy: Portfolio)
        ensures
            copy@ == self@,
    {
        let mut exposures: Vec<(u16, u16, i64)> = Vec::new();
        let mut i: usize = 0;
        while i < self.exposures.len()
            invariant
                i <= self.exposures.len(),
                exposures@ == self.exposures@.take(i as int),
            decreases self.exposures.len() - i,
        {
            exposures.push(self.exposures[i]);
            assert(self.exposures@.take(i as int).push(self.exposures@[i as int])
                =~= self.exposures@.take(i + 1));
            i += 1;
        }
        assert(self.exposures@.take(i as int) =~= self.exposures@);
        Portfolio {
            router_id: self.router_id,
            user: self.user,
            equity: self.equity,
            im: self.im,
            mm: self.mm,
            principal: self.principal,
            pnl: self.pnl,
            vested_pnl: self.vested_pnl,
            last_slot: self.last_slot,
            pnl_index_checkpoint: self.pnl_index_checkpoint,
            lamports: self.lamports,
            exposures,
        }
    }

    /// Finds the first entry of the venue and instrument.
    fn find_exposure(&self, slab_idx: u16, instrument_idx: u16) -> (found: Option<usize>)
        ensures
            match found {
                Some(i) => is_first_entry(self.exposures@, slab_idx, instrument_idx, i as int),
                None => !has_entry(self.exposures@, slab_idx, instrument_idx),
            },
    {
        let mut i: usize = 0;
        while i < self.exposures.len()
            invariant
                i <= self.exposures.len(),
                forall|j: int|
                    0 <= j < i ==> !entry_has_key(
                        #[trigger] self.exposures@[j],
                        slab_idx,
                        instrument_idx,
                    ),
            decreases self.exposures.len() - i,
        {
            let entry: (u16, u16, i64) = self.exposures[i];
            if entry.0 == slab_idx && entry.1 == instrument_idx {
                return Some(i);
            }
            i += 1;
        }
        proof {
            lemma_no_entry(self.exposures@, slab_idx, instrument_idx);
        }
        None
    }

    /// The signed quantity held on the venue and instrument, zero where the
    /// portfolio has no exposure there.
    pub fn get_exposure(&self, slab_idx: u16, instrument_idx: u16) -> (qty: i64)
        ensures
            qty == exposure_of(self@.exposures, slab_idx, instrument_idx),
    {
        match self.find_exposure(slab_idx, instrument_idx) {
            Some(i) => {
                proof {
                    lemma_first_entry_unique(self.exposures@, slab_idx, instrument_idx, i as int);
                }
                self.exposures[i].2
            },
            None => 0,
        }
    }

    /// Sets the signed quantity held on the venue and instrument. A zero
    /// quantity clears the entry. A new entry needs a free slot: without one
    /// the portfolio is left as it was.
    pub fn update_exposure(&mut self, slab_idx: u16, instrument_idx: u16, qty: i64) -> (result:
        Result<(), PercolatorError>)
        ensures
            result is Err <==> (!has_entry(old(self)@.exposures, slab_idx, instrument_idx) && qty
                != 0 && old(self)@.exposures.len() >= MAX_EXPOSURES),
            result is Err ==> result == Err::<(), PercolatorError>(PercolatorError::PoolFull)
                && *final(self) == *old(self),
            result is Ok ==> final(self)@ == old(self)@.with_exposure(slab_idx, instrument_idx, qty),
            result is Ok && old(self)@.wf() ==> final(self)@.wf(),
    {
        let found = self.find_exposure(slab_idx, instrument_idx);
        proof {
            if exposures_wf(self.exposures@) {
                lemma_exposures_updated(
                    self.exposures@,
                    slab_idx,
                    instrument_idx,
                    qty,
                    slab_idx,
                    instrument_idx,
                );
            }
        }
        match found {
            Some(i) => {
                proof {
                    lemma_first_entry_unique(self.exposures@, slab_idx, instrument_idx, i as int);
                }
                if qty == 0 {
                    self.exposures.remove(i);
                } else {
                    self.exposures[i] = (slab_idx, instrument_idx, qty);
                }
                Ok(())
            },
            None => {
                if qty == 0 {
                    Ok(())
                } else if self.exposures.len() >= MAX_EXPOSURES {
                    Err(PercolatorError::PoolFull)
                } else {
                    self.exposures.push((slab_idx, instrument_idx, qty));
                    Ok(())
                }
            },
        }
    }

    /// Checks that `caller` may dispose of the portfolio: the caller has to
    /// sign, and has to be the owner.
    pub fn authorize(&self, caller: &AccountSummary) -> (result: Result<(), PercolatorError>)
        ensures
            result == self@.authorization(*caller),
    {
        if !caller.is_signer {
            return Err(PercolatorError::Unauthorized);
        }
        if !pubkey_eq(&self.user, &caller.key) {
            return Err(PercolatorError::InvalidPortfolio);
        }
        Ok(())
    }

    /// Books a deposit of collateral. A deposit that the balance cannot hold
    /// is refused and changes nothing.
    pub fn deposit(&mut self, amount: u64) -> (result: Result<(), PercolatorError>)
        ensures
            old(self).lamports + amount > u64::MAX ==> result == Err::<(), PercolatorError>(
                PercolatorError::Overflow,
            ) && *final(self) == *old(self),
            old(self).lamports + amount <= u64::MAX ==> result == Ok::<(), PercolatorError>(())
                && final(self)@ == old(self)@.deposited(amount),
    {
        if amount > u64::MAX - self.lamports {
            return Err(PercolatorError::Overflow);
        }
        self.lamports = self.lamports + amount;
        self.principal = saturating_add_i128(self.principal, amount as i128);
        self.equity = saturating_add_i128(self.equity, amount as i128);
        Ok(())
    }

    /// Books a withdrawal of collateral. The owner may take out what was
    /// deposited on net and what has vested, as far as the balance reaches and
    /// as long as equity still covers the maintenance margin. A withdrawal
    /// that is refused changes nothing.
    pub fn withdraw(&mut self, amount: u64) -> (result: Result<(), PercolatorError>)
        ensures
            match old(self)@.withdrawal_refusal(amount) {
                Some(e) => result == Err::<(), PercolatorError>(e) && *final(self) == *old(self),
                None => result == Ok::<(), PercolatorError>(()) && final(self)@ == old(
                    self,
                )@.withdrawn(amount),
            },
    {
        if amount > self.lamports {
            return Err(PercolatorError::InsufficientFunds);
        }
        let room: Option<i128> = self.principal.checked_add(self.vested_pnl);
        let covered: bool = match room {
            Some(withdrawable) => (amount as i128) <= withdrawable,
            None => self.principal > 0,
        };
        if !covered {
            return Err(PercolatorError::InsufficientFunds);
        }
        let equity_after: i128 = saturating_sub_i128(self.equity, amount as i128);
        if equity_after < 0 || (equity_after as u128) < self.mm {
            return Err(PercolatorError::PortfolioInsufficientMargin);
        }
        self.lamports = self.lamports - amount;
        self.principal = saturating_sub_i128(self.principal, amount as i128);
        self.equity = equity_after;
        Ok(())
    }

    /// Replaces the margin requirements.
    pub fn update_margin(&mut self, im: u128, mm: u128)
        ensures
            final(self)@ == old(self)@.with_margin(im, mm),
    {
        self.im = im;
        self.mm = mm;
    }

    /// Tells whether equity covers the maintenance margin.
    pub fn has_sufficient_margin(&self) -> (sufficient: bool)
        ensures
            sufficient == self@.has_sufficient_margin(),
    {
        self.equity >= 0 && (self.equity as u128) >= self.mm
    }
}

} // verus!
